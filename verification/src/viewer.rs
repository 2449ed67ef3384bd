//! The view of one post: whether the reader browses the list of posts, has
//! one post in focus with its images to choose from, or looks at one image.

use vstd::prelude::*;
use crate::cache::{CacheModel, ImageCache};
use crate::extract::{reference_views, ImageReference, ReferenceModel};
use crate::selection::{
    available_images, available_in, cycled, opened_view, SelectionModel, SelectionState,
};

verus! {

/// Where the reader is.
#[derive(Clone, Copy, Debug, PartialEq, Eq, Structural)]
pub enum ViewMode {
    /// No post is in focus.
    Browsing,
    /// One post is shown in full, and its images can be stepped through.
    FocusedPost,
    /// One image of the post in focus fills the view.
    Viewing,
}

/// What the reader asks for.
#[derive(Clone, Copy, Debug, PartialEq, Eq, Structural)]
pub enum ViewEvent {
    /// To see a post in full.
    OpenFullView,
    /// To highlight the next image.
    Cycle,
    /// To look at the highlighted image.
    Activate,
    /// To leave the image.
    Dismiss,
    /// To leave the post.
    Close,
}

/// The view of one post.
pub struct PostViewer {
    /// Where the reader is.
    pub mode: ViewMode,
    /// The images of the post that can be shown, and the highlighted one.
    pub selection: SelectionState,
    /// The address and the file of the image that fills the view.
    pub shown: Option<(String, String)>,
}

/// What a `PostViewer` stands for.
pub struct ViewerModel {
    pub mode: ViewMode,
    pub selection: SelectionModel,
    pub shown: Option<(Seq<char>, Seq<char>)>,
}

impl View for PostViewer {
    type V = ViewerModel;

    open spec fn view(&self) -> ViewerModel {
        ViewerModel { mode: self.mode, selection: self.selection@, shown: opened_view(self.shown) }
    }
}

impl ViewerModel {
    /// The view with which a session begins.
    pub open spec fn initial() -> ViewerModel {
        ViewerModel {
            mode: ViewMode::Browsing,
            selection: SelectionModel { available: Seq::empty(), selected: None },
            shown: None,
        }
    }

    /// The view with the list of images brought up to date.
    pub open spec fn refreshed(self, references: Seq<ReferenceModel>, cache: CacheModel) -> ViewerModel {
        ViewerModel {
            selection: SelectionModel {
                available: available_in(references, cache),
                selected: self.selection.selected,
            },
            ..self
        }
    }

    /// The view of a post that was just brought into focus.
    pub open spec fn opened(self, references: Seq<ReferenceModel>, cache: CacheModel) -> ViewerModel {
        if self.mode == ViewMode::Browsing {
            ViewerModel {
                mode: ViewMode::FocusedPost,
                selection: SelectionModel {
                    available: available_in(references, cache),
                    selected: None,
                },
                shown: None,
            }
        } else {
            self
        }
    }

    /// The view after the reader asked for the next image.
    pub open spec fn cycled(self) -> ViewerModel {
        if self.mode == ViewMode::FocusedPost {
            ViewerModel {
                selection: SelectionModel {
                    selected: cycled(
                        self.selection.available.len() as int,
                        self.selection.selected,
                    ),
                    ..self.selection
                },
                ..self
            }
        } else {
            self
        }
    }

    /// The image that opens if the reader asks for the highlighted one.
    pub open spec fn opens(self, cache: CacheModel) -> Option<(Seq<char>, Seq<char>)> {
        match self.selection.selected {
            Some(index) => if self.mode == ViewMode::FocusedPost {
                self.selection.activated(index, cache)
            } else {
                None
            },
            None => None,
        }
    }

    /// The view after the reader asked for the highlighted image.
    pub open spec fn activated(self, cache: CacheModel) -> ViewerModel {
        match self.opens(cache) {
            Some(pair) => ViewerModel { mode: ViewMode::Viewing, shown: Some(pair), ..self },
            None => self,
        }
    }

    /// The view after the reader left the image.
    pub open spec fn dismissed(self) -> ViewerModel {
        if self.mode == ViewMode::Viewing {
            ViewerModel { mode: ViewMode::FocusedPost, shown: None, ..self }
        } else {
            self
        }
    }

    /// The view after the reader left the post.
    pub open spec fn closed(self) -> ViewerModel {
        if self.mode == ViewMode::FocusedPost {
            ViewerModel { mode: ViewMode::Browsing, ..self }
        } else {
            self
        }
    }

    /// The view after one request of the reader.
    pub open spec fn step(
        self,
        event: ViewEvent,
        references: Seq<ReferenceModel>,
        cache: CacheModel,
    ) -> ViewerModel {
        match event {
            ViewEvent::OpenFullView => self.opened(references, cache),
            ViewEvent::Cycle => self.cycled(),
            ViewEvent::Activate => self.activated(cache),
            ViewEvent::Dismiss => self.dismissed(),
            ViewEvent::Close => self.closed(),
        }
    }
}

impl PostViewer {
    /// The view with which a session begins: no post in focus.
    pub fn new() -> (viewer: Self)
        ensures
            viewer@ == ViewerModel::initial(),
    {
        let viewer = PostViewer {
            mode: ViewMode::Browsing,
            selection: SelectionState { available: Vec::new(), selected: None },
            shown: None,
        };
        assert(viewer@.selection.available =~= Seq::empty());
        viewer
    }

    /// Brings the list of images up to date with the cache. The highlighted
    /// index stays as it is, even where it no longer names an image.
    pub fn refresh(&mut self, references: &Vec<ImageReference>, cache: &ImageCache)
        ensures
            final(self)@ == old(self)@.refreshed(reference_views(references@), cache@),
    {
        self.selection.available = available_images(references, cache);
    }

    /// Brings a post into focus, with its stored images and none highlighted.
    pub fn open(&mut self, references: &Vec<ImageReference>, cache: &ImageCache)
        ensures
            final(self)@ == old(self)@.opened(reference_views(references@), cache@),
    {
        match self.mode {
            ViewMode::Browsing => {
                self.mode = ViewMode::FocusedPost;
                self.selection = SelectionState::build(references, cache);
                self.shown = None;
            },
            _ => {},
        }
    }

    /// Highlights the next image of the post in focus.
    pub fn cycle(&mut self)
        ensures
            final(self)@ == old(self)@.cycled(),
    {
        match self.mode {
            ViewMode::FocusedPost => {
                self.selection.cycle_selection();
            },
            _ => {},
        }
    }

    /// Opens the highlighted image, if there is one and it is stored.
    /// Otherwise nothing changes and nothing fails.
    pub fn activate(&mut self, cache: &ImageCache)
        ensures
            final(self)@ == old(self)@.activated(cache@),
    {
        match self.mode {
            ViewMode::FocusedPost => {
                match self.selection.selected {
                    Some(index) => {
                        match self.selection.activate(index, cache) {
                            Some(pair) => {
                                self.mode = ViewMode::Viewing;
                                self.shown = Some(pair);
                            },
                            None => {},
                        }
                    },
                    None => {},
                }
            },
            _ => {},
        }
    }

    /// Leaves the image and returns to the post.
    pub fn dismiss(&mut self)
        ensures
            final(self)@ == old(self)@.dismissed(),
    {
        match self.mode {
            ViewMode::Viewing => {
                self.mode = ViewMode::FocusedPost;
                self.shown = None;
            },
            _ => {},
        }
    }

    /// Leaves the post and returns to the list.
    pub fn close(&mut self)
        ensures
            final(self)@ == old(self)@.closed(),
    {
        match self.mode {
            ViewMode::FocusedPost => {
                self.mode = ViewMode::Browsing;
            },
            _ => {},
        }
    }

    /// Follows one request of the reader.
    pub fn handle(
        &mut self,
        event: ViewEvent,
        references: &Vec<ImageReference>,
        cache: &ImageCache,
    )
        ensures
            final(self)@ == old(self)@.step(event, reference_views(references@), cache@),
    {
        match event {
            ViewEvent::OpenFullView => self.open(references, cache),
            ViewEvent::Cycle => self.cycle(),
            ViewEvent::Activate => self.activate(cache),
            ViewEvent::Dismiss => self.dismiss(),
            ViewEvent::Close => self.close(),
        }
    }
}

/// The mode changes only along the arrows of the machine: from browsing to
/// the post, from the post to an image or back to browsing, from the image
/// back to the post.
pub proof fn lemma_mode_follows_the_arrows(
    viewer: ViewerModel,
    event: ViewEvent,
    references: Seq<ReferenceModel>,
    cache: CacheModel,
)
    ensures
        ({
            let next = viewer.step(event, references, cache);
            ||| next.mode == viewer.mode
            ||| viewer.mode == ViewMode::Browsing && event == ViewEvent::OpenFullView && next.mode
                == ViewMode::FocusedPost
            ||| viewer.mode == ViewMode::FocusedPost && event == ViewEvent::Activate && next.mode
                == ViewMode::Viewing
            ||| viewer.mode == ViewMode::FocusedPost && event == ViewEvent::Close && next.mode
                == ViewMode::Browsing
            ||| viewer.mode == ViewMode::Viewing && event == ViewEvent::Dismiss && next.mode
                == ViewMode::FocusedPost
        }),
{
}

/// An image is opened only if the post has stored images, and the one that
/// opens is the highlighted one.
pub proof fn lemma_viewing_needs_an_image(viewer: ViewerModel, cache: CacheModel)
    requires
        viewer.mode == ViewMode::FocusedPost,
        viewer.activated(cache).mode == ViewMode::Viewing,
    ensures
        viewer.selection.available.len() > 0,
        viewer.selection.selected is Some,
        0 <= viewer.selection.selected->0 < viewer.selection.available.len(),
        viewer.activated(cache).shown == viewer.opens(cache),
        match viewer.opens(cache) {
            Some((url, path)) => url
                == viewer.selection.available[viewer.selection.selected->0].url && cache.lookup(
                url,
            ) == Some(path),
            None => false,
        },
{
}

/// Outside the post in focus, asking for the next image changes nothing.
pub proof fn lemma_cycle_only_in_focused_post(viewer: ViewerModel)
    requires
        viewer.mode != ViewMode::FocusedPost,
    ensures
        viewer.cycled() == viewer,
{
}

/// No mode is a dead end: each one has a request that leaves it.
pub proof fn lemma_no_terminal_mode(
    viewer: ViewerModel,
    references: Seq<ReferenceModel>,
    cache: CacheModel,
)
    ensures
        exists|event: ViewEvent| viewer.step(event, references, cache).mode != viewer.mode,
{
    match viewer.mode {
        ViewMode::Browsing => {
            assert(viewer.step(ViewEvent::OpenFullView, references, cache).mode != viewer.mode);
        },
        ViewMode::FocusedPost => {
            assert(viewer.step(ViewEvent::Close, references, cache).mode != viewer.mode);
        },
        ViewMode::Viewing => {
            assert(viewer.step(ViewEvent::Dismiss, references, cache).mode != viewer.mode);
        },
    }
}

} // verus!
