//! The state of the client and what each key does to it.
//!
//! Nothing here waits for the network or the terminal. A key changes the
//! state and may ask for outside work by returning an `Effect`; whoever did
//! the work hands its result back through one of the `..._loaded` functions.

use vstd::prelude::*;
use vstd::string::StringExecFns;
use std::collections::HashMap;
use crate::api::{Category, Post, Topic, User};
use crate::cache::{request_each, ImageCache};
use crate::config::Config;
use crate::error::prefixed;
use crate::extract::{
    extract_image_references, extract_image_urls, qualifying, reference_views, references_of,
    selected_sources, text_views, ImageReference,
};
use crate::selection::available_images;
use crate::text::{pop_char, push_char};
use crate::users::{find_named, lemma_user_written, user_named};
use crate::viewer::{PostViewer, ViewMode, ViewerModel};

pub use crate::state::{
    App, AppTab, Effect, EffectModel, KeyInput, LoadingModel, LoadingState, NavModel, TabModel,
};

verus! {


/// What is shown before the reason when the topics could not be loaded.
pub const TOPICS_FAILED: &'static str = "加载主题失败: ";

/// What is shown before the reason when the categories could not be loaded.
pub const CATEGORIES_FAILED: &'static str = "加载分类失败: ";

/// What is shown before the reason when the posts could not be loaded.
pub const POSTS_FAILED: &'static str = "加载帖子失败: ";

/// What is shown before the reason when the user could not be loaded.
pub const USER_FAILED: &'static str = "加载用户失败: ";

/// The addresses of the qualifying images of a list of posts, post after post.
pub open spec fn post_image_urls(posts: Seq<Post>) -> Seq<Seq<char>>
    decreases posts.len(),
{
    if posts.len() == 0 {
        Seq::empty()
    } else {
        post_image_urls(posts.drop_last()) + qualifying(selected_sources(posts.last().cooked@))
    }
}

/// Asks the cache for every image of the posts, in their order, and lists
/// the addresses for which a fetch is to be started: each one once, and
/// none that is stored or being fetched already.
pub fn images_to_fetch(posts: &Vec<Post>, cache: &mut ImageCache) -> (started: Vec<String>)
    ensures
        (final(cache)@, text_views(started@)) == request_each(
            old(cache)@,
            post_image_urls(posts@),
        ),
{
    let mut all: Vec<String> = Vec::new();
    assert(posts@.take(0) =~= Seq::empty());
    assert(text_views(all@) =~= Seq::empty());
    for i in 0..posts.len()
        invariant
            text_views(all@) == post_image_urls(posts@.take(i as int)),
    {
        let mut urls = extract_image_urls(posts[i].cooked.as_str());
        let ghost before = all@;
        let ghost added = urls@;
        all.append(&mut urls);
        assert(text_views(all@) =~= text_views(before) + text_views(added));
        assert(posts@.take(i + 1).drop_last() =~= posts@.take(i as int));
    }
    assert(posts@.take(posts.len() as int) =~= posts@);
    cache.request_images(&all)
}

impl App {
    /// The state with which a session begins.
    pub fn new(config: Config) -> (app: Self)
        ensures
            app.config == config,
            app.topics@.len() == 0,
            app.categories@.len() == 0,
            app.posts@ == Map::<u64, Vec<Post>>::empty(),
            app.users@.len() == 0,
            app.nav() == (NavModel {
                tab: TabModel::Home,
                selected_index: 0,
                page: 1,
                loading: LoadingModel::NotLoading,
                show_help: false,
                should_quit: false,
                input: Seq::empty(),
                input_mode: false,
                viewer: ViewerModel::initial(),
                need_redraw: false,
                post_scroll: 0,
            }),
    {
        App {
            config,
            current_tab: AppTab::Home,
            topics: Vec::new(),
            categories: Vec::new(),
            posts: HashMap::new(),
            users: Vec::new(),
            selected_index: 0,
            page: 1,
            loading_state: LoadingState::NotLoading,
            show_help: false,
            should_quit: false,
            input: String::new(),
            input_mode: false,
            viewer: PostViewer::new(),
            need_redraw: false,
            post_scroll: 0,
        }
    }

    /// Begins a session: the topics and then the categories are to be loaded.
    pub fn init(&mut self) -> (effects: Vec<Effect>)
        ensures
            effects@.len() == 2,
            effects@[0]@ == EffectModel::LoadTopics,
            effects@[1]@ == EffectModel::LoadCategories,
            final(self).nav() == old(self).nav().loading(),
            final(self).same_data(old(self)),
    {
        self.begin_load();
        let mut effects: Vec<Effect> = Vec::new();
        effects.push(Effect::LoadTopics);
        effects.push(Effect::LoadCategories);
        effects
    }

    /// Tells whether the reader asked to leave.
    pub fn should_quit(&self) -> (quit: bool)
        ensures
            quit == self.should_quit,
    {
        self.should_quit
    }

    /// The identifier of the topic on the page, or 0 on any other page.
    pub fn get_current_topic_id(&self) -> (id: u64)
        ensures
            id == self.current_topic_id(),
    {
        match self.current_tab {
            AppTab::Topic(id) => id,
            _ => 0,
        }
    }

    /// The posts of the topic on the page, if they were loaded.
    pub fn posts_on_page(&self) -> (posts: Option<&Vec<Post>>)
        ensures
            match posts {
                Some(list) => self.current_posts() == Some(list@),
                None => self.current_posts() is None,
            },
    {
        broadcast use vstd::std_specs::hash::group_hash_axioms;

        let id = self.get_current_topic_id();
        self.posts.get(&id)
    }

    /// The number of posts of the topic on the page, if they were loaded.
    pub fn post_count(&self) -> (count: Option<usize>)
        ensures
            match count {
                Some(n) => self.current_posts() is Some && self.current_posts()->0.len() == n,
                None => self.current_posts() is None,
            },
    {
        match self.posts_on_page() {
            Some(posts) => Some(posts.len()),
            None => None,
        }
    }

    /// Steps back to the page that leads to the current one.
    pub fn navigate_back(&mut self)
        ensures
            final(self).nav() == old(self).after_back(),
            final(self).same_data(old(self)),
    {
        match self.current_tab {
            AppTab::Topic(_) => {
                self.current_tab = AppTab::Topics;
                self.selected_index = 0;
                self.page = 1;
                self.viewer = PostViewer::new();
            },
            AppTab::User(_) => {
                self.current_tab = AppTab::Home;
                self.selected_index = 0;
            },
            AppTab::Settings => {
                self.current_tab = AppTab::Home;
                self.selected_index = 0;
            },
            AppTab::Categories => {
                self.current_tab = AppTab::Topics;
                self.selected_index = 0;
            },
            AppTab::Topics => {
                self.current_tab = AppTab::Home;
                self.selected_index = 0;
            },
            AppTab::Home => {},
        }
    }

    /// Moves the cursor one entry down.
    pub fn navigate_down(&mut self)
        ensures
            final(self).nav() == old(self).after_down(),
            final(self).same_data(old(self)),
    {
        match self.current_tab {
            AppTab::Home => {
                if self.selected_index < 2 {
                    self.selected_index += 1;
                }
            },
            AppTab::Topics => {
                if self.topics.len() > 0 && self.selected_index < self.topics.len() - 1 {
                    self.selected_index += 1;
                }
            },
            AppTab::Categories => {
                if self.categories.len() > 0 && self.selected_index < self.categories.len() - 1 {
                    self.selected_index += 1;
                }
            },
            AppTab::Topic(_) => {
                match self.post_count() {
                    Some(count) => {
                        if count > 0 && self.selected_index < count - 1 {
                            self.selected_index += 1;
                            self.viewer.selection.selected = None;
                        }
                    },
                    None => {},
                }
            },
            _ => {},
        }
    }

    /// Moves the cursor one entry up.
    pub fn navigate_up(&mut self)
        ensures
            final(self).nav() == old(self).after_up(),
            final(self).same_data(old(self)),
    {
        match self.current_tab {
            AppTab::Home | AppTab::Topics | AppTab::Categories => {
                if self.selected_index > 0 {
                    self.selected_index -= 1;
                }
            },
            AppTab::Topic(_) => {
                if self.selected_index > 0 {
                    self.selected_index -= 1;
                    self.viewer.selection.selected = None;
                }
            },
            _ => {},
        }
    }

    /// Goes to another page, with the cursor on its first entry.
    fn go_to(&mut self, tab: AppTab)
        ensures
            final(self).nav() == old(self).nav().on_tab(tab@),
            final(self).same_data(old(self)),
    {
        self.current_tab = tab;
        self.selected_index = 0;
    }

    /// Notes that something is being loaded.
    fn begin_load(&mut self)
        ensures
            final(self).nav() == old(self).nav().loading(),
            final(self).same_data(old(self)),
    {
        self.loading_state = LoadingState::Loading;
    }

    /// Steps to the page that follows the current one, and asks for what it shows.
    pub fn navigate_next(&mut self) -> (effect: Effect)
        ensures
            (final(self).nav(), effect@) == old(self).after_next(),
            final(self).same_data(old(self)),
    {
        match self.current_tab {
            AppTab::Home => {
                self.go_to(AppTab::Topics);
                self.begin_load();
                Effect::LoadTopics
            },
            AppTab::Topics => {
                self.go_to(AppTab::Categories);
                self.begin_load();
                Effect::LoadCategories
            },
            AppTab::Categories => {
                self.go_to(AppTab::Settings);
                Effect::Nothing
            },
            _ => Effect::Nothing,
        }
    }

    /// Follows the entry under the cursor, and asks for what the new page shows.
    pub fn navigate_select(&mut self) -> (effect: Effect)
        ensures
            (final(self).nav(), effect@) == old(self).after_select(),
            final(self).same_data(old(self)),
    {
        match self.current_tab {
            AppTab::Home => {
                let effect = if self.selected_index == 0 {
                    self.go_to(AppTab::Topics);
                    self.begin_load();
                    Effect::LoadTopics
                } else if self.selected_index == 1 {
                    self.go_to(AppTab::Categories);
                    self.begin_load();
                    Effect::LoadCategories
                } else if self.selected_index == 2 {
                    self.go_to(AppTab::Settings);
                    Effect::Nothing
                } else {
                    Effect::Nothing
                };
                self.viewer = PostViewer::new();
                effect
            },
            AppTab::Topics => {
                if self.selected_index < self.topics.len() {
                    let id = self.topics[self.selected_index].id;
                    self.go_to(AppTab::Topic(id));
                    self.begin_load();
                    self.viewer = PostViewer::new();
                    Effect::LoadTopicPosts(id)
                } else {
                    Effect::Nothing
                }
            },
            AppTab::Categories => {
                if self.selected_index < self.categories.len() {
                    self.go_to(AppTab::Topics);
                    self.begin_load();
                    Effect::LoadTopics
                } else {
                    Effect::Nothing
                }
            },
            AppTab::Topic(_) => {
                let found = match self.post_in_focus() {
                    Some(post) => Some(post.username.clone()),
                    None => None,
                };
                match found {
                    Some(username) => {
                        self.go_to(AppTab::User(username.clone()));
                        self.begin_load();
                        Effect::LoadUser(username)
                    },
                    None => Effect::Nothing,
                }
            },
            AppTab::Settings => {
                if self.selected_index == 0 {
                    Effect::RunKeyGenerator
                } else {
                    Effect::Nothing
                }
            },
            AppTab::User(_) => Effect::Nothing,
        }
    }

    /// The work that brings the page up to date.
    pub fn reload_effect(&self) -> (effect: Effect)
        ensures
            effect@ == self.reload(),
    {
        match &self.current_tab {
            AppTab::Topics => Effect::LoadTopics,
            AppTab::Categories => Effect::LoadCategories,
            AppTab::Topic(id) => Effect::LoadTopicPosts(*id),
            AppTab::User(name) => Effect::LoadUser(name.clone()),
            _ => Effect::Nothing,
        }
    }

    /// Turns to another page of results.
    fn turn_to(&mut self, page: u32)
        ensures
            final(self).nav() == old(self).on_page(page as int),
            final(self).same_data(old(self)),
    {
        self.page = page;
        self.selected_index = 0;
        match self.current_tab {
            AppTab::Topic(_) => {
                self.viewer.selection.selected = None;
                self.viewer.close();
                self.post_scroll = 0;
            },
            _ => {},
        }
    }

    /// Turns to the next page of results and asks for it.
    pub fn next_page(&mut self) -> (effect: Effect)
        ensures
            (final(self).nav(), effect@) == old(self).after_next_page(),
            final(self).same_data(old(self)),
    {
        match self.current_tab {
            AppTab::Topics | AppTab::Topic(_) => {
                let page = if self.page < u32::MAX {
                    self.page + 1
                } else {
                    self.page
                };
                self.turn_to(page);
                self.begin_load();
                self.reload_effect()
            },
            _ => Effect::Nothing,
        }
    }

    /// Turns to the page of results before, if there is one, and asks for it.
    pub fn prev_page(&mut self) -> (effect: Effect)
        ensures
            (final(self).nav(), effect@) == old(self).after_prev_page(),
            final(self).same_data(old(self)),
    {
        if self.page > 1 {
            match self.current_tab {
                AppTab::Topics | AppTab::Topic(_) => {
                    let page = self.page - 1;
                    self.turn_to(page);
                    self.begin_load();
                    self.reload_effect()
                },
                _ => Effect::Nothing,
            }
        } else {
            Effect::Nothing
        }
    }

    /// Asks for what the page shows once more.
    pub fn refresh_current_view(&mut self) -> (effect: Effect)
        ensures
            (final(self).nav(), effect@) == old(self).after_refresh(),
            final(self).same_data(old(self)),
    {
        let effect = self.reload_effect();
        match effect {
            Effect::Nothing => {},
            _ => {
                self.begin_load();
            },
        }
        effect
    }

    /// Brings the page up to date as time passes, unless something is being loaded.
    pub fn tick(&mut self) -> (effect: Effect)
        ensures
            (final(self).nav(), effect@) == old(self).after_tick(),
            final(self).same_data(old(self)),
    {
        match self.loading_state {
            LoadingState::Loading => Effect::Nothing,
            _ => self.refresh_current_view(),
        }
    }

    /// The work that sends the text of the input line.
    pub fn submit_input(&self) -> (effect: Effect)
        ensures
            effect@ == self.submission(),
    {
        if self.input.as_str().is_empty() {
            return Effect::Nothing;
        }
        match self.current_tab {
            AppTab::Topic(id) => Effect::CreatePost(id, self.input.clone()),
            _ => Effect::Nothing,
        }
    }

    /// The references to the images of the post that the cursor is on.
    pub fn references_in_focus(&self) -> (references: Option<Vec<ImageReference>>)
        ensures
            match references {
                Some(list) => self.current_post() is Some && reference_views(list@)
                    == references_of(self.current_post()->0.cooked@),
                None => self.current_post() is None,
            },
    {
        match self.post_in_focus() {
            Some(post) => Some(extract_image_references(post.cooked.as_str())),
            None => None,
        }
    }

    /// Follows a key while an image fills the view.
    fn key_while_viewing(&mut self, key: KeyInput)
        requires
            old(self).viewer.mode == ViewMode::Viewing,
        ensures
            final(self).nav() == old(self).after_key_viewing(key),
            final(self).same_data(old(self)),
    {
        match key {
            KeyInput::Enter | KeyInput::Esc => {
                self.viewer.dismiss();
            },
            KeyInput::Char(c) => {
                if c == 'o' {
                    self.viewer.dismiss();
                }
            },
            _ => {},
        }
    }

    /// Follows a key while a post is shown in full.
    fn key_while_focused(&mut self, key: KeyInput, cache: &ImageCache)
        requires
            old(self).viewer.mode == ViewMode::FocusedPost,
        ensures
            final(self).nav() == old(self).after_key_focused(key, cache@),
            final(self).same_data(old(self)),
    {
        match key {
            KeyInput::Esc => {
                self.viewer.close();
                self.post_scroll = 0;
            },
            KeyInput::Enter => {
                self.viewer.close();
                self.post_scroll = 0;
                self.viewer.selection.selected = None;
            },
            KeyInput::Tab => {
                self.cycle_images(cache);
            },
            KeyInput::Up => {
                self.scroll_up();
            },
            KeyInput::Down => {
                self.scroll_down();
            },
            KeyInput::Char(c) => {
                if c == 'o' {
                    match self.references_in_focus() {
                        Some(references) => {
                            self.viewer.refresh(&references, cache);
                            self.viewer.activate(cache);
                        },
                        None => {},
                    }
                } else if c == 'i' {
                    self.cycle_images(cache);
                } else if c == 'k' {
                    self.scroll_up();
                } else if c == 'j' {
                    self.scroll_down();
                }
            },
            _ => {},
        }
    }

    /// Highlights the next stored image of the post in focus.
    fn cycle_images(&mut self, cache: &ImageCache)
        ensures
            final(self).nav() == match old(self).current_post() {
                Some(post) => NavModel {
                    viewer: old(self).nav().viewer.refreshed(
                        references_of(post.cooked@),
                        cache@,
                    ).cycled(),
                    ..old(self).nav()
                },
                None => old(self).nav(),
            },
            final(self).same_data(old(self)),
    {
        match self.references_in_focus() {
            Some(references) => {
                self.viewer.refresh(&references, cache);
                self.viewer.cycle();
            },
            None => {},
        }
    }

    /// Scrolls the post one line up, unless its top is shown.
    fn scroll_up(&mut self)
        ensures
            final(self).nav() == (NavModel {
                post_scroll: if old(self).post_scroll > 0 {
                    old(self).post_scroll - 1
                } else {
                    0
                },
                ..old(self).nav()
            }),
            final(self).same_data(old(self)),
    {
        if self.post_scroll > 0 {
            self.post_scroll -= 1;
        }
    }

    /// Scrolls the post one line down.
    fn scroll_down(&mut self)
        ensures
            final(self).nav() == (NavModel {
                post_scroll: if old(self).post_scroll < u16::MAX {
                    old(self).post_scroll + 1
                } else {
                    old(self).post_scroll as int
                },
                ..old(self).nav()
            }),
            final(self).same_data(old(self)),
    {
        if self.post_scroll < u16::MAX {
            self.post_scroll += 1;
        }
    }

    /// Follows a key while a text is typed.
    fn key_while_typing(&mut self, key: KeyInput) -> (effect: Effect)
        ensures
            (final(self).nav(), effect@) == old(self).after_key_input(key),
            final(self).same_data(old(self)),
    {
        match key {
            KeyInput::Enter => {
                let effect = self.submit_input();
                self.input_mode = false;
                self.input = String::new();
                effect
            },
            KeyInput::Esc => {
                self.input_mode = false;
                self.input = String::new();
                Effect::Nothing
            },
            KeyInput::Backspace => {
                pop_char(&mut self.input);
                Effect::Nothing
            },
            KeyInput::Char(c) => {
                push_char(&mut self.input, c);
                Effect::Nothing
            },
            _ => Effect::Nothing,
        }
    }

    /// Follows Enter on a page.
    fn key_enter(&mut self, cache: &ImageCache) -> (effect: Effect)
        ensures
            (final(self).nav(), effect@) == old(self).after_enter(cache@),
            final(self).same_data(old(self)),
    {
        match self.current_tab {
            AppTab::Settings => {
                if self.selected_index == 0 {
                    Effect::RunKeyGenerator
                } else {
                    Effect::Nothing
                }
            },
            AppTab::Topic(_) => {
                match self.references_in_focus() {
                    Some(references) => {
                        self.viewer.open(&references, cache);
                    },
                    None => {},
                }
                Effect::Nothing
            },
            _ => self.navigate_select(),
        }
    }

    /// Follows the key that leads to the images of a post.
    fn key_images(&mut self, cache: &ImageCache)
        ensures
            final(self).nav() == old(self).after_image_key(cache@),
            final(self).same_data(old(self)),
    {
        match self.current_tab {
            AppTab::Topic(_) => {
                match self.references_in_focus() {
                    Some(references) => {
                        let available = available_images(&references, cache);
                        if available.len() > 0 {
                            self.viewer.open(&references, cache);
                            self.post_scroll = 0;
                        }
                    },
                    None => {},
                }
            },
            _ => {},
        }
    }

    /// Follows a key while the reader moves between the pages.
    fn key_while_browsing(&mut self, key: KeyInput, cache: &ImageCache) -> (effect: Effect)
        ensures
            (final(self).nav(), effect@) == old(self).after_key_browsing(key, cache@),
            final(self).same_data(old(self)),
    {
        match key {
            KeyInput::Left => {
                self.navigate_back();
                Effect::Nothing
            },
            KeyInput::Down => {
                self.navigate_down();
                Effect::Nothing
            },
            KeyInput::Up => {
                self.navigate_up();
                Effect::Nothing
            },
            KeyInput::Right => self.navigate_next(),
            KeyInput::Enter => self.key_enter(cache),
            KeyInput::Char(c) => {
                if c == 'q' {
                    self.should_quit = true;
                    Effect::Nothing
                } else if c == '?' {
                    self.show_help = !self.show_help;
                    Effect::Nothing
                } else if c == 'h' {
                    self.navigate_back();
                    Effect::Nothing
                } else if c == 'j' {
                    self.navigate_down();
                    Effect::Nothing
                } else if c == 'k' {
                    self.navigate_up();
                    Effect::Nothing
                } else if c == 'l' {
                    self.navigate_next()
                } else if c == 't' {
                    self.go_to(AppTab::Topics);
                    self.begin_load();
                    Effect::LoadTopics
                } else if c == 'c' {
                    self.go_to(AppTab::Categories);
                    self.begin_load();
                    Effect::LoadCategories
                } else if c == 'i' {
                    self.key_images(cache);
                    Effect::Nothing
                } else if c == 's' {
                    self.go_to(AppTab::Settings);
                    Effect::Nothing
                } else if c == 'r' {
                    self.refresh_current_view()
                } else if c == 'n' {
                    self.next_page()
                } else if c == 'p' {
                    self.prev_page()
                } else {
                    Effect::Nothing
                }
            },
            _ => Effect::Nothing,
        }
    }

    /// Follows a key: changes the state and tells what outside work is to be done.
    pub fn handle_key_event(&mut self, key: KeyInput, cache: &ImageCache) -> (effect: Effect)
        ensures
            (final(self).nav(), effect@) == old(self).after_key(key, cache@),
            final(self).same_data(old(self)),
    {
        match self.viewer.mode {
            ViewMode::Viewing => {
                self.key_while_viewing(key);
                Effect::Nothing
            },
            ViewMode::FocusedPost => {
                self.key_while_focused(key, cache);
                Effect::Nothing
            },
            ViewMode::Browsing => {
                if self.input_mode {
                    self.key_while_typing(key)
                } else {
                    self.key_while_browsing(key, cache)
                }
            },
        }
    }

    /// Takes in the topics that were asked for, or notes why there are none.
    pub fn topics_loaded(&mut self, result: Result<Vec<Topic>, String>)
        ensures
            match result {
                Ok(topics) => final(self).topics == topics && final(self).loading_state@
                    == LoadingModel::NotLoading,
                Err(reason) => final(self).topics == old(self).topics
                    && final(self).loading_state@ == LoadingModel::Error(
                    TOPICS_FAILED@ + reason@,
                ),
            },
            final(self).nav() == (NavModel {
                loading: final(self).loading_state@,
                ..old(self).nav()
            }),
            final(self).config == old(self).config,
            final(self).categories == old(self).categories,
            final(self).posts == old(self).posts,
            final(self).users == old(self).users,
    {
        match result {
            Ok(topics) => {
                self.topics = topics;
                self.loading_state = LoadingState::NotLoading;
            },
            Err(reason) => {
                self.loading_state = LoadingState::Error(prefixed(TOPICS_FAILED, &reason));
            },
        }
    }

    /// Takes in the categories that were asked for, or notes why there are none.
    pub fn categories_loaded(&mut self, result: Result<Vec<Category>, String>)
        ensures
            match result {
                Ok(categories) => final(self).categories == categories
                    && final(self).loading_state@ == LoadingModel::NotLoading,
                Err(reason) => final(self).categories == old(self).categories
                    && final(self).loading_state@ == LoadingModel::Error(
                    CATEGORIES_FAILED@ + reason@,
                ),
            },
            final(self).nav() == (NavModel {
                loading: final(self).loading_state@,
                ..old(self).nav()
            }),
            final(self).config == old(self).config,
            final(self).topics == old(self).topics,
            final(self).posts == old(self).posts,
            final(self).users == old(self).users,
    {
        match result {
            Ok(categories) => {
                self.categories = categories;
                self.loading_state = LoadingState::NotLoading;
            },
            Err(reason) => {
                self.loading_state = LoadingState::Error(
                    prefixed(CATEGORIES_FAILED, &reason),
                );
            },
        }
    }

    /// Takes in the posts of a topic that were asked for. Where they could
    /// not be loaded, the reason is noted and handed back: the session
    /// does not go on after that.
    pub fn posts_loaded(&mut self, topic_id: u64, result: Result<Vec<Post>, String>) -> (outcome:
        Result<(), String>)
        ensures
            match result {
                Ok(posts) => outcome is Ok && final(self).posts@ == old(self).posts@.insert(
                    topic_id,
                    posts,
                ) && final(self).loading_state@ == LoadingModel::NotLoading,
                Err(reason) => outcome == Err::<(), String>(reason)
                    && final(self).posts == old(self).posts
                    && final(self).loading_state@ == LoadingModel::Error(
                    POSTS_FAILED@ + reason@,
                ),
            },
            final(self).nav() == (NavModel {
                loading: final(self).loading_state@,
                ..old(self).nav()
            }),
            final(self).config == old(self).config,
            final(self).topics == old(self).topics,
            final(self).categories == old(self).categories,
            final(self).users == old(self).users,
    {
        broadcast use vstd::std_specs::hash::group_hash_axioms;

        match result {
            Ok(posts) => {
                self.posts.insert(topic_id, posts);
                self.loading_state = LoadingState::NotLoading;
                Ok(())
            },
            Err(reason) => {
                self.loading_state = LoadingState::Error(prefixed(POSTS_FAILED, &reason));
                Err(reason)
            },
        }
    }

    /// Takes in the user that was asked for under `username`, in the place
    /// of one kept under that name before, or notes why there is none.
    pub fn user_loaded(&mut self, username: &str, result: Result<User, String>)
        ensures
            match result {
                Ok(user) => final(self).loading_state@ == LoadingModel::NotLoading && forall|
                    name: Seq<char>,
                |
                    user_named(final(self).users@, name) == if name == username@ {
                        Some(user)
                    } else {
                        user_named(old(self).users@, name)
                    },
                Err(reason) => final(self).users == old(self).users
                    && final(self).loading_state@ == LoadingModel::Error(
                    USER_FAILED@ + reason@,
                ),
            },
            final(self).nav() == (NavModel {
                loading: final(self).loading_state@,
                ..old(self).nav()
            }),
            final(self).config == old(self).config,
            final(self).topics == old(self).topics,
            final(self).categories == old(self).categories,
            final(self).posts == old(self).posts,
    {
        match result {
            Ok(user) => {
                let key = String::from_str(username);
                let ghost before = self.users@;
                match find_named(&self.users, &key) {
                    Some(at) => {
                        self.users[at] = (key, user);
                    },
                    None => {
                        self.users.push((key, user));
                    },
                }
                proof {
                    lemma_user_written(before, self.users@, username@, user);
                }
                self.loading_state = LoadingState::NotLoading;
            },
            Err(reason) => {
                self.loading_state = LoadingState::Error(prefixed(USER_FAILED, &reason));
            },
        }
    }

    /// The user that was loaded under `username`.
    pub fn find_user(&self, username: &str) -> (user: Option<&User>)
        ensures
            match user {
                Some(found) => user_named(self.users@, username@) == Some(*found),
                None => user_named(self.users@, username@) is None,
            },
    {
        let key = String::from_str(username);
        match find_named(&self.users, &key) {
            Some(at) => Some(&self.users[at].1),
            None => None,
        }
    }

    /// Notes that a post was added to a topic: its posts are to be loaded again.
    pub fn post_created(&mut self, topic_id: u64) -> (effect: Effect)
        ensures
            effect@ == EffectModel::LoadTopicPosts(topic_id),
            final(self).nav() == old(self).nav().loading(),
            final(self).same_data(old(self)),
    {
        self.begin_load();
        Effect::LoadTopicPosts(topic_id)
    }

    /// Takes in the settings that the key generator left, and asks for
    /// the screen to be drawn anew.
    pub fn key_generator_finished(&mut self, config: Config)
        ensures
            final(self).config == config,
            final(self).nav() == (NavModel { need_redraw: true, ..old(self).nav() }),
            final(self).topics == old(self).topics,
            final(self).categories == old(self).categories,
            final(self).posts == old(self).posts,
            final(self).users == old(self).users,
    {
        self.config = config;
        self.need_redraw = true;
    }

    /// Notes that the screen was drawn anew.
    pub fn redrawn(&mut self)
        ensures
            final(self).nav() == (NavModel { need_redraw: false, ..old(self).nav() }),
            final(self).same_data(old(self)),
    {
        self.need_redraw = false;
    }

    /// The post that the cursor is on.
    pub fn post_in_focus(&self) -> (post: Option<&Post>)
        ensures
            match post {
                Some(found) => self.current_post() == Some(*found),
                None => self.current_post() is None,
            },
    {
        match self.posts_on_page() {
            Some(posts) => if self.selected_index < posts.len() {
                Some(&posts[self.selected_index])
            } else {
                None
            },
            None => None,
        }
    }
}

} // verus!
