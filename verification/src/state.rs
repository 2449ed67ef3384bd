//! The state of the client: the page that is shown, what was loaded for
//! it, and what the reader is doing on it.

use std::collections::HashMap;
use vstd::prelude::*;
use crate::api::{Category, Post, Topic, User};
use crate::config::Config;
use crate::selection::SelectionModel;
use crate::viewer::{PostViewer, ViewerModel};

verus! {

/// The page that the reader looks at.
#[derive(Debug, PartialEq)]
pub enum AppTab {
    Home,
    Topics,
    Categories,
    Topic(u64),
    User(String),
    Settings,
}

/// What an `AppTab` stands for.
pub enum TabModel {
    Home,
    Topics,
    Categories,
    Topic(u64),
    User(Seq<char>),
    Settings,
}

impl View for AppTab {
    type V = TabModel;

    open spec fn view(&self) -> TabModel {
        match self {
            AppTab::Home => TabModel::Home,
            AppTab::Topics => TabModel::Topics,
            AppTab::Categories => TabModel::Categories,
            AppTab::Topic(id) => TabModel::Topic(*id),
            AppTab::User(name) => TabModel::User(name@),
            AppTab::Settings => TabModel::Settings,
        }
    }
}

impl Clone for AppTab {
    fn clone(&self) -> (copy: Self)
        ensures
            copy@ == self@,
    {
        match self {
            AppTab::Home => AppTab::Home,
            AppTab::Topics => AppTab::Topics,
            AppTab::Categories => AppTab::Categories,
            AppTab::Topic(id) => AppTab::Topic(*id),
            AppTab::User(name) => AppTab::User(name.clone()),
            AppTab::Settings => AppTab::Settings,
        }
    }
}

/// Whether the client waits for the forum, and how the last request failed.
#[derive(Debug, PartialEq)]
pub enum LoadingState {
    NotLoading,
    Loading,
    Error(String),
}

/// What a `LoadingState` stands for.
pub enum LoadingModel {
    NotLoading,
    Loading,
    Error(Seq<char>),
}

impl View for LoadingState {
    type V = LoadingModel;

    open spec fn view(&self) -> LoadingModel {
        match self {
            LoadingState::NotLoading => LoadingModel::NotLoading,
            LoadingState::Loading => LoadingModel::Loading,
            LoadingState::Error(message) => LoadingModel::Error(message@),
        }
    }
}

impl Clone for LoadingState {
    fn clone(&self) -> (copy: Self)
        ensures
            copy@ == self@,
    {
        match self {
            LoadingState::NotLoading => LoadingState::NotLoading,
            LoadingState::Loading => LoadingState::Loading,
            LoadingState::Error(message) => LoadingState::Error(message.clone()),
        }
    }
}

/// A key, as far as the client tells keys apart.
#[derive(Clone, Copy, Debug, PartialEq, Eq, Structural)]
pub enum KeyInput {
    Char(char),
    Enter,
    Esc,
    Tab,
    Backspace,
    Up,
    Down,
    Left,
    Right,
    Other,
}

/// Outside work that a change of state asks for.
#[derive(Debug, PartialEq)]
pub enum Effect {
    /// Nothing is to be done.
    Nothing,
    /// The topics of the current page are to be loaded.
    LoadTopics,
    /// The categories are to be loaded.
    LoadCategories,
    /// The posts of the topic, on the current page, are to be loaded.
    LoadTopicPosts(u64),
    /// The user of this name is to be loaded.
    LoadUser(String),
    /// A post with this text is to be added to the topic, and the posts of
    /// the topic loaded again.
    CreatePost(u64, String),
    /// The key generator is to be run.
    RunKeyGenerator,
}

/// What an `Effect` stands for.
pub enum EffectModel {
    Nothing,
    LoadTopics,
    LoadCategories,
    LoadTopicPosts(u64),
    LoadUser(Seq<char>),
    CreatePost(u64, Seq<char>),
    RunKeyGenerator,
}

impl View for Effect {
    type V = EffectModel;

    open spec fn view(&self) -> EffectModel {
        match self {
            Effect::Nothing => EffectModel::Nothing,
            Effect::LoadTopics => EffectModel::LoadTopics,
            Effect::LoadCategories => EffectModel::LoadCategories,
            Effect::LoadTopicPosts(id) => EffectModel::LoadTopicPosts(*id),
            Effect::LoadUser(name) => EffectModel::LoadUser(name@),
            Effect::CreatePost(id, text) => EffectModel::CreatePost(*id, text@),
            Effect::RunKeyGenerator => EffectModel::RunKeyGenerator,
        }
    }
}

/// The state of the client.
pub struct App {
    pub config: Config,
    pub current_tab: AppTab,
    pub topics: Vec<Topic>,
    pub categories: Vec<Category>,
    /// The posts that were loaded, by the identifier of their topic.
    pub posts: HashMap<u64, Vec<Post>>,
    /// The users that were loaded, each under the name it was asked for by.
    /// They are kept in a list, where the posts are kept in a map: vstd
    /// has a model of hashing for integer keys, and none for `String`.
    pub users: Vec<(String, User)>,
    pub selected_index: usize,
    pub page: u32,
    pub loading_state: LoadingState,
    pub show_help: bool,
    pub should_quit: bool,
    pub input: String,
    pub input_mode: bool,
    /// The view of the post in focus and of its images.
    pub viewer: PostViewer,
    pub need_redraw: bool,
    pub post_scroll: u16,
}

/// The part of the state that keys change.
pub struct NavModel {
    pub tab: TabModel,
    pub selected_index: int,
    pub page: int,
    pub loading: LoadingModel,
    pub show_help: bool,
    pub should_quit: bool,
    pub input: Seq<char>,
    pub input_mode: bool,
    pub viewer: ViewerModel,
    pub need_redraw: bool,
    pub post_scroll: int,
}

impl NavModel {
    /// The state with the view of the post taken back to browsing, no image
    /// highlighted and none shown.
    pub open spec fn without_focus(self) -> NavModel {
        NavModel { viewer: ViewerModel::initial(), ..self }
    }

    /// The state with no image highlighted.
    pub open spec fn without_highlight(self) -> NavModel {
        NavModel {
            viewer: ViewerModel {
                selection: SelectionModel {
                    selected: None,
                    ..self.viewer.selection
                },
                ..self.viewer
            },
            ..self
        }
    }

    /// The state on another page, at its first entry.
    pub open spec fn on_tab(self, tab: TabModel) -> NavModel {
        NavModel { tab, selected_index: 0, ..self }
    }

    /// The state while something is loaded.
    pub open spec fn loading(self) -> NavModel {
        NavModel { loading: LoadingModel::Loading, ..self }
    }
}


impl App {
    /// The part of the state that keys change.
    pub open spec fn nav(&self) -> NavModel {
        NavModel {
            tab: self.current_tab@,
            selected_index: self.selected_index as int,
            page: self.page as int,
            loading: self.loading_state@,
            show_help: self.show_help,
            should_quit: self.should_quit,
            input: self.input@,
            input_mode: self.input_mode,
            viewer: self.viewer@,
            need_redraw: self.need_redraw,
            post_scroll: self.post_scroll as int,
        }
    }

    /// Both states hold the same settings and the same loaded data.
    pub open spec fn same_data(&self, other: &App) -> bool {
        &&& self.config == other.config
        &&& self.topics == other.topics
        &&& self.categories == other.categories
        &&& self.posts == other.posts
        &&& self.users == other.users
    }

    /// The identifier of the topic on the page, or 0 on any other page.
    pub open spec fn current_topic_id(&self) -> u64 {
        match self.current_tab {
            AppTab::Topic(id) => id,
            _ => 0,
        }
    }

    /// The posts of the topic on the page, if they were loaded.
    pub open spec fn current_posts(&self) -> Option<Seq<Post>> {
        if self.posts@.contains_key(self.current_topic_id()) {
            Some(self.posts@[self.current_topic_id()]@)
        } else {
            None
        }
    }

    /// The post that the cursor is on, if the page shows the posts of a topic.
    pub open spec fn current_post(&self) -> Option<Post> {
        match self.current_posts() {
            Some(posts) => if self.selected_index < posts.len() {
                Some(posts[self.selected_index as int])
            } else {
                None
            },
            None => None,
        }
    }
}

} // verus!
