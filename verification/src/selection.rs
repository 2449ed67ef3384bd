//! Choosing among the images of a post: which of them can be shown, which
//! one is highlighted, and which one is opened.

use vstd::prelude::*;
use crate::cache::{CacheModel, ImageCache};
use crate::extract::{offsets_in_order, reference_views, ImageReference, ReferenceModel};

verus! {

/// What stands for one image that can be shown: its ordinal and its address.
pub struct AvailableModel {
    pub ordinal: int,
    pub url: Seq<char>,
}

/// What the pair of an ordinal and an address stands for.
pub open spec fn available_view(image: (usize, String)) -> AvailableModel {
    AvailableModel { ordinal: image.0 as int, url: image.1@ }
}

/// The models of a list of images that can be shown.
pub open spec fn available_views(images: Seq<(usize, String)>) -> Seq<AvailableModel> {
    images.map_values(|image: (usize, String)| available_view(image))
}

/// The image that a reference contributes to the selection, if it is stored.
pub open spec fn available_one(reference: ReferenceModel, cache: CacheModel) -> Option<
    AvailableModel,
> {
    if cache.entries.contains_key(reference.url) {
        Some(AvailableModel { ordinal: reference.ordinal, url: reference.url })
    } else {
        None
    }
}

/// Of the images of a document, those that are stored, in the order of its references.
pub open spec fn available_in(references: Seq<ReferenceModel>, cache: CacheModel) -> Seq<
    AvailableModel,
> {
    references.filter_map(|reference: ReferenceModel| available_one(reference, cache))
}

/// The index that follows `current` when the reader steps through `len`
/// images: the first one if none is highlighted, the next one else, and
/// the first again behind the last. Nothing if there are no images.
pub open spec fn cycled(len: int, current: Option<int>) -> Option<int> {
    if len <= 0 {
        None
    } else {
        match current {
            None => Some(0),
            Some(index) => Some((index + 1) % len),
        }
    }
}

/// An index, or none, as a number.
pub open spec fn index_view(index: Option<usize>) -> Option<int> {
    match index {
        Some(i) => Some(i as int),
        None => None,
    }
}

/// The images of the active document that can be shown, and the one that
/// is highlighted.
pub struct SelectionState {
    /// The stored images of the document, in the order of its references.
    pub available: Vec<(usize, String)>,
    /// The index in `available` of the highlighted image.
    pub selected: Option<usize>,
}

/// What a `SelectionState` stands for.
pub struct SelectionModel {
    pub available: Seq<AvailableModel>,
    pub selected: Option<int>,
}

impl View for SelectionState {
    type V = SelectionModel;

    open spec fn view(&self) -> SelectionModel {
        SelectionModel {
            available: available_views(self.available@),
            selected: index_view(self.selected),
        }
    }
}

impl SelectionModel {
    /// The address and the file of the image at `selected`, if there is
    /// such an image and it is stored.
    pub open spec fn activated(self, selected: int, cache: CacheModel) -> Option<
        (Seq<char>, Seq<char>),
    > {
        if 0 <= selected < self.available.len() {
            match cache.lookup(self.available[selected].url) {
                Some(path) => Some((self.available[selected].url, path)),
                None => None,
            }
        } else {
            None
        }
    }
}

/// An address and its file, or none, as texts.
pub open spec fn opened_view(opened: Option<(String, String)>) -> Option<(Seq<char>, Seq<char>)> {
    match opened {
        Some(pair) => Some((pair.0@, pair.1@)),
        None => None,
    }
}

/// Lists the images of a document that are stored, in the order of its references.
pub fn available_images(references: &Vec<ImageReference>, cache: &ImageCache) -> (images: Vec<
    (usize, String),
>)
    ensures
        available_views(images@) == available_in(reference_views(references@), cache@),
{
    let mut images: Vec<(usize, String)> = Vec::new();
    let ghost models = reference_views(references@);
    let ghost keep = |reference: ReferenceModel| available_one(reference, cache@);
    assert(available_views(images@) =~= models.take(0).filter_map(keep));
    for i in 0..references.len()
        invariant
            models == reference_views(references@),
            keep == |reference: ReferenceModel| available_one(reference, cache@),
            available_views(images@) == models.take(i as int).filter_map(keep),
    {
        proof {
            models.lemma_filter_map_take_succ(keep, i as int);
        }
        let ghost before = images@;
        if cache.get_cached_path(references[i].url.as_str()).is_some() {
            images.push((references[i].ordinal, references[i].url.clone()));
            assert(available_views(images@) =~= available_views(before).push(
                AvailableModel { ordinal: models[i as int].ordinal, url: models[i as int].url },
            ));
        }
    }
    assert(models.take(references.len() as int) =~= models);
    images
}

/// Of the references of a document, those whose images are stored.
pub open spec fn stored_references(references: Seq<ReferenceModel>, cache: CacheModel) -> Seq<
    ReferenceModel,
> {
    references.filter(|reference: ReferenceModel| cache.entries.contains_key(reference.url))
}

/// Leaving references out does not disturb the order of the offsets.
pub proof fn lemma_stored_offsets_in_order(
    references: Seq<ReferenceModel>,
    cache: CacheModel,
    markup_len: int,
)
    requires
        offsets_in_order(references, markup_len),
    ensures
        offsets_in_order(stored_references(references, cache), markup_len),
    decreases references.len(),
{
    reveal(Seq::filter);
    let keep = |reference: ReferenceModel| cache.entries.contains_key(reference.url);
    let stored = references.filter(keep);
    if references.len() > 0 {
        let earlier = references.drop_last();
        let kept = earlier.filter(keep);
        assert(offsets_in_order(earlier, markup_len)) by {
            assert forall|i: int| 0 <= i < earlier.len() implies earlier[i] == references[i] by {}
        }
        lemma_stored_offsets_in_order(earlier, cache, markup_len);
        assert forall|i: int| 0 <= i < stored.len() implies match (#[trigger] stored[i]).raw_offset {
            Some(offset) => 0 <= offset < markup_len,
            None => true,
        } by {
            if i == kept.len() {
                assert(stored[i] == references[references.len() - 1]);
            } else {
                assert(stored[i] == kept[i]);
            }
        }
        assert forall|i: int, j: int| 0 <= i < j < stored.len() implies match (
            (#[trigger] stored[i]).raw_offset,
            (#[trigger] stored[j]).raw_offset,
        ) {
            (Some(first), Some(second)) => first < second,
            _ => true,
        } by {
            assert(stored[i] == kept[i]);
            if j == kept.len() {
                assert(kept.contains(kept[i]));
                earlier.lemma_filter_contains_rev(keep, kept[i]);
                let k = choose|k: int| 0 <= k < earlier.len() && earlier[k] == kept[i];
                assert(references[k] == stored[i]);
                assert(stored[j] == references[references.len() - 1]);
            } else {
                assert(stored[j] == kept[j]);
            }
        }
    }
}

/// Keeps the references whose images are stored, in their order.
pub fn available_references(references: &Vec<ImageReference>, cache: &ImageCache) -> (stored: Vec<
    ImageReference,
>)
    ensures
        reference_views(stored@) == stored_references(reference_views(references@), cache@),
{
    let mut stored: Vec<ImageReference> = Vec::new();
    let ghost models = reference_views(references@);
    let ghost keep = |reference: ReferenceModel| cache@.entries.contains_key(reference.url);
    proof {
        reveal(Seq::filter);
        assert(models.take(0) =~= Seq::empty());
        assert(reference_views(stored@) =~= models.take(0).filter(keep));
    }
    for i in 0..references.len()
        invariant
            models == reference_views(references@),
            keep == |reference: ReferenceModel| cache@.entries.contains_key(reference.url),
            reference_views(stored@) == models.take(i as int).filter(keep),
    {
        proof {
            assert(models.take(i + 1) =~= models.take(i as int).push(models[i as int]));
            models.take(i as int).lemma_filter_push(models[i as int], keep);
        }
        let ghost before = stored@;
        if cache.get_cached_path(references[i].url.as_str()).is_some() {
            stored.push(references[i].clone());
            assert(reference_views(stored@) =~= reference_views(before).push(models[i as int]));
        }
    }
    assert(models.take(references.len() as int) =~= models);
    stored
}

impl SelectionState {
    /// The selection for a document: its stored images, none highlighted.
    pub fn build(references: &Vec<ImageReference>, cache: &ImageCache) -> (state: Self)
        ensures
            state@.available == available_in(reference_views(references@), cache@),
            state@.selected is None,
    {
        SelectionState { available: available_images(references, cache), selected: None }
    }

    /// The index to highlight after `current`.
    pub fn cycle(&self, current: Option<usize>) -> (next: Option<usize>)
        ensures
            index_view(next) == cycled(self@.available.len() as int, index_view(current)),
    {
        let len = self.available.len();
        if len == 0 {
            return None;
        }
        match current {
            None => Some(0),
            Some(index) => {
                let within = index % len;
                let next = if within + 1 == len {
                    0
                } else {
                    within + 1
                };
                assert(next == (index + 1) % (len as int)) by (nonlinear_arith)
                    requires
                        len > 0,
                        index >= 0,
                        within == index % len,
                        next == if within + 1 == len {
                            0
                        } else {
                            within + 1
                        },
                ;
                Some(next)
            },
        }
    }

    /// Highlights the image that follows the highlighted one.
    pub fn cycle_selection(&mut self)
        ensures
            final(self)@.available == old(self)@.available,
            final(self)@.selected == cycled(
                old(self)@.available.len() as int,
                old(self)@.selected,
            ),
    {
        self.selected = self.cycle(self.selected);
    }

    /// Resolves the image at `selected` to its address and its file. Where
    /// `selected` names no image of the list, or the image is not stored,
    /// there is nothing to open: the answer is `None` and nothing fails.
    pub fn activate(&self, selected: usize, cache: &ImageCache) -> (opened: Option<
        (String, String),
    >)
        ensures
            opened_view(opened) == self@.activated(selected as int, cache@),
    {
        if selected >= self.available.len() {
            return None;
        }
        let url = self.available[selected].1.clone();
        match cache.get_cached_path(url.as_str()) {
            Some(path) => Some((url, path)),
            None => None,
        }
    }
}

} // verus!
