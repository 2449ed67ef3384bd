//! What each key makes of the state of the client, and what work it asks for.
//!
//! These are the rules; the functions that follow them are in `app`.

use vstd::prelude::*;
use crate::cache::CacheModel;
use crate::extract::references_of;
use crate::selection::available_in;
use crate::state::{App, AppTab, EffectModel, KeyInput, NavModel, TabModel};
use crate::viewer::ViewMode;

verus! {

impl App {
    /// The state after a step back.
    pub open spec fn after_back(&self) -> NavModel {
        let nav = self.nav();
        match self.current_tab {
            AppTab::Topic(_) => NavModel { page: 1, ..nav.on_tab(TabModel::Topics) }.without_focus(),
            AppTab::User(_) => nav.on_tab(TabModel::Home),
            AppTab::Settings => nav.on_tab(TabModel::Home),
            AppTab::Categories => nav.on_tab(TabModel::Topics),
            AppTab::Topics => nav.on_tab(TabModel::Home),
            AppTab::Home => nav,
        }
    }

    /// The number of entries that the cursor moves over on the page, where
    /// the page has a list.
    pub open spec fn entries_on_page(&self) -> Option<int> {
        match self.current_tab {
            AppTab::Home => Some(3),
            AppTab::Topics => Some(self.topics@.len() as int),
            AppTab::Categories => Some(self.categories@.len() as int),
            AppTab::Topic(_) => match self.current_posts() {
                Some(posts) => Some(posts.len() as int),
                None => None,
            },
            _ => None,
        }
    }

    /// The state after the cursor was moved to `index`: on a page of
    /// posts, no image is highlighted any more.
    pub open spec fn with_cursor(&self, index: int) -> NavModel {
        let moved = NavModel { selected_index: index, ..self.nav() };
        if self.current_tab is Topic {
            moved.without_highlight()
        } else {
            moved
        }
    }

    /// The state after a step down: the cursor moves on unless it is on the last entry.
    pub open spec fn after_down(&self) -> NavModel {
        match self.entries_on_page() {
            Some(count) => if self.selected_index + 1 < count {
                self.with_cursor(self.selected_index + 1)
            } else {
                self.nav()
            },
            None => self.nav(),
        }
    }

    /// The state after a step up: the cursor moves back unless it is on the first entry.
    pub open spec fn after_up(&self) -> NavModel {
        if self.selected_index > 0 && (self.current_tab is Home || self.current_tab is Topics
            || self.current_tab is Categories || self.current_tab is Topic) {
            self.with_cursor(self.selected_index - 1)
        } else {
            self.nav()
        }
    }

    /// The state and the work after a step to the next page.
    pub open spec fn after_next(&self) -> (NavModel, EffectModel) {
        let nav = self.nav();
        match self.current_tab {
            AppTab::Home => (nav.on_tab(TabModel::Topics).loading(), EffectModel::LoadTopics),
            AppTab::Topics => (
                nav.on_tab(TabModel::Categories).loading(),
                EffectModel::LoadCategories,
            ),
            AppTab::Categories => (nav.on_tab(TabModel::Settings), EffectModel::Nothing),
            _ => (nav, EffectModel::Nothing),
        }
    }

    /// The state and the work after the entry under the cursor was chosen.
    pub open spec fn after_select(&self) -> (NavModel, EffectModel) {
        let nav = self.nav();
        match self.current_tab {
            AppTab::Home => if self.selected_index == 0 {
                (
                    nav.on_tab(TabModel::Topics).loading().without_focus(),
                    EffectModel::LoadTopics,
                )
            } else if self.selected_index == 1 {
                (
                    nav.on_tab(TabModel::Categories).loading().without_focus(),
                    EffectModel::LoadCategories,
                )
            } else if self.selected_index == 2 {
                (nav.on_tab(TabModel::Settings).without_focus(), EffectModel::Nothing)
            } else {
                (nav.without_focus(), EffectModel::Nothing)
            },
            AppTab::Topics => if self.selected_index < self.topics@.len() {
                let id = self.topics@[self.selected_index as int].id;
                (
                    nav.on_tab(TabModel::Topic(id)).loading().without_focus(),
                    EffectModel::LoadTopicPosts(id),
                )
            } else {
                (nav, EffectModel::Nothing)
            },
            AppTab::Categories => if self.selected_index < self.categories@.len() {
                (nav.on_tab(TabModel::Topics).loading(), EffectModel::LoadTopics)
            } else {
                (nav, EffectModel::Nothing)
            },
            AppTab::Topic(_) => match self.current_post() {
                Some(post) => (
                    nav.on_tab(TabModel::User(post.username@)).loading(),
                    EffectModel::LoadUser(post.username@),
                ),
                None => (nav, EffectModel::Nothing),
            },
            AppTab::Settings => if self.selected_index == 0 {
                (nav, EffectModel::RunKeyGenerator)
            } else {
                (nav, EffectModel::Nothing)
            },
            AppTab::User(_) => (nav, EffectModel::Nothing),
        }
    }

    /// The state on another page of results, at its first entry: on a page
    /// of posts, the post in focus is left and no image is highlighted.
    pub open spec fn on_page(&self, page: int) -> NavModel {
        let turned = NavModel { page, selected_index: 0, ..self.nav() };
        if self.current_tab is Topic {
            NavModel { viewer: turned.viewer.closed(), post_scroll: 0, ..turned }.without_highlight()
        } else {
            turned
        }
    }

    /// The work that brings the page up to date.
    pub open spec fn reload(&self) -> EffectModel {
        match self.current_tab {
            AppTab::Topics => EffectModel::LoadTopics,
            AppTab::Categories => EffectModel::LoadCategories,
            AppTab::Topic(id) => EffectModel::LoadTopicPosts(id),
            AppTab::User(name) => EffectModel::LoadUser(name@),
            _ => EffectModel::Nothing,
        }
    }

    /// The state and the work after a turn to the next page of results.
    pub open spec fn after_next_page(&self) -> (NavModel, EffectModel) {
        if self.current_tab is Topics || self.current_tab is Topic {
            let page = if self.page < u32::MAX {
                self.page + 1
            } else {
                self.page as int
            };
            (self.on_page(page).loading(), self.reload())
        } else {
            (self.nav(), EffectModel::Nothing)
        }
    }

    /// The state and the work after a turn to the page of results before.
    pub open spec fn after_prev_page(&self) -> (NavModel, EffectModel) {
        if self.page > 1 && (self.current_tab is Topics || self.current_tab is Topic) {
            (self.on_page(self.page - 1).loading(), self.reload())
        } else {
            (self.nav(), EffectModel::Nothing)
        }
    }

    /// The state and the work after the page was asked to be brought up to date.
    pub open spec fn after_refresh(&self) -> (NavModel, EffectModel) {
        if self.reload() is Nothing {
            (self.nav(), EffectModel::Nothing)
        } else {
            (self.nav().loading(), self.reload())
        }
    }

    /// The state and the work after a tick of the clock: the page is
    /// brought up to date unless something is being loaded.
    pub open spec fn after_tick(&self) -> (NavModel, EffectModel) {
        if self.loading_state is Loading {
            (self.nav(), EffectModel::Nothing)
        } else {
            self.after_refresh()
        }
    }

    /// The work that sends the text of the input line: a post in the topic
    /// on the page, if there is a text and a topic.
    pub open spec fn submission(&self) -> EffectModel {
        if self.input@.len() == 0 {
            EffectModel::Nothing
        } else {
            match self.current_tab {
                AppTab::Topic(id) => EffectModel::CreatePost(id, self.input@),
                _ => EffectModel::Nothing,
            }
        }
    }

    /// The state after a key while an image fills the view: some keys
    /// leave the image, the others do nothing.
    pub open spec fn after_key_viewing(&self, key: KeyInput) -> NavModel {
        let nav = self.nav();
        if key == KeyInput::Enter || key == KeyInput::Esc || key == KeyInput::Char('o') {
            NavModel { viewer: nav.viewer.dismissed(), ..nav }
        } else {
            nav
        }
    }

    /// The state after a key while a post is shown in full.
    pub open spec fn after_key_focused(&self, key: KeyInput, cache: CacheModel) -> NavModel {
        let nav = self.nav();
        if key == KeyInput::Esc {
            NavModel { viewer: nav.viewer.closed(), post_scroll: 0, ..nav }
        } else if key == KeyInput::Enter {
            NavModel { viewer: nav.viewer.closed(), post_scroll: 0, ..nav }.without_highlight()
        } else if key == KeyInput::Char('o') {
            match self.current_post() {
                Some(post) => NavModel {
                    viewer: nav.viewer.refreshed(references_of(post.cooked@), cache).activated(
                        cache,
                    ),
                    ..nav
                },
                None => nav,
            }
        } else if key == KeyInput::Tab || key == KeyInput::Char('i') {
            match self.current_post() {
                Some(post) => NavModel {
                    viewer: nav.viewer.refreshed(references_of(post.cooked@), cache).cycled(),
                    ..nav
                },
                None => nav,
            }
        } else if key == KeyInput::Up || key == KeyInput::Char('k') {
            if nav.post_scroll > 0 {
                NavModel { post_scroll: nav.post_scroll - 1, ..nav }
            } else {
                nav
            }
        } else if key == KeyInput::Down || key == KeyInput::Char('j') {
            if nav.post_scroll < u16::MAX {
                NavModel { post_scroll: nav.post_scroll + 1, ..nav }
            } else {
                nav
            }
        } else {
            nav
        }
    }

    /// The state and the work after a key while a text is typed.
    pub open spec fn after_key_input(&self, key: KeyInput) -> (NavModel, EffectModel) {
        let nav = self.nav();
        match key {
            KeyInput::Enter => (
                NavModel { input_mode: false, input: Seq::empty(), ..nav },
                self.submission(),
            ),
            KeyInput::Esc => (
                NavModel { input_mode: false, input: Seq::empty(), ..nav },
                EffectModel::Nothing,
            ),
            KeyInput::Backspace => (
                NavModel {
                    input: if nav.input.len() > 0 {
                        nav.input.drop_last()
                    } else {
                        nav.input
                    },
                    ..nav
                },
                EffectModel::Nothing,
            ),
            KeyInput::Char(c) => (NavModel { input: nav.input.push(c), ..nav }, EffectModel::Nothing),
            _ => (nav, EffectModel::Nothing),
        }
    }

    /// The state and the work after Enter on a page.
    pub open spec fn after_enter(&self, cache: CacheModel) -> (NavModel, EffectModel) {
        let nav = self.nav();
        match self.current_tab {
            AppTab::Settings => if self.selected_index == 0 {
                (nav, EffectModel::RunKeyGenerator)
            } else {
                (nav, EffectModel::Nothing)
            },
            AppTab::Topic(_) => match self.current_post() {
                Some(post) => (
                    NavModel {
                        viewer: nav.viewer.opened(references_of(post.cooked@), cache),
                        ..nav
                    },
                    EffectModel::Nothing,
                ),
                None => (nav, EffectModel::Nothing),
            },
            _ => self.after_select(),
        }
    }

    /// The state after the key that leads to the images of a post: the
    /// post under the cursor is shown in full if it has a stored image.
    pub open spec fn after_image_key(&self, cache: CacheModel) -> NavModel {
        let nav = self.nav();
        if self.current_tab is Topic {
            match self.current_post() {
                Some(post) => if available_in(
                    references_of(post.cooked@),
                    cache,
                ).len() > 0 {
                    NavModel {
                        viewer: nav.viewer.opened(references_of(post.cooked@), cache),
                        post_scroll: 0,
                        ..nav
                    }
                } else {
                    nav
                },
                None => nav,
            }
        } else {
            nav
        }
    }

    /// The state and the work after a key while the reader moves between pages.
    pub open spec fn after_key_browsing(&self, key: KeyInput, cache: CacheModel) -> (
        NavModel,
        EffectModel,
    ) {
        let nav = self.nav();
        if key == KeyInput::Char('q') {
            (NavModel { should_quit: true, ..nav }, EffectModel::Nothing)
        } else if key == KeyInput::Char('?') {
            (NavModel { show_help: !nav.show_help, ..nav }, EffectModel::Nothing)
        } else if key == KeyInput::Char('h') || key == KeyInput::Left {
            (self.after_back(), EffectModel::Nothing)
        } else if key == KeyInput::Char('j') || key == KeyInput::Down {
            (self.after_down(), EffectModel::Nothing)
        } else if key == KeyInput::Char('k') || key == KeyInput::Up {
            (self.after_up(), EffectModel::Nothing)
        } else if key == KeyInput::Char('l') || key == KeyInput::Right {
            self.after_next()
        } else if key == KeyInput::Enter {
            self.after_enter(cache)
        } else if key == KeyInput::Char('t') {
            (nav.on_tab(TabModel::Topics).loading(), EffectModel::LoadTopics)
        } else if key == KeyInput::Char('c') {
            (nav.on_tab(TabModel::Categories).loading(), EffectModel::LoadCategories)
        } else if key == KeyInput::Char('i') {
            (self.after_image_key(cache), EffectModel::Nothing)
        } else if key == KeyInput::Char('s') {
            (nav.on_tab(TabModel::Settings), EffectModel::Nothing)
        } else if key == KeyInput::Char('r') {
            self.after_refresh()
        } else if key == KeyInput::Char('n') {
            self.after_next_page()
        } else if key == KeyInput::Char('p') {
            self.after_prev_page()
        } else {
            (nav, EffectModel::Nothing)
        }
    }

    /// The state and the work after a key. An image that fills the view
    /// takes every key; so does, next, a post shown in full; then the line
    /// of input; what is left moves the reader between the pages.
    pub open spec fn after_key(&self, key: KeyInput, cache: CacheModel) -> (NavModel, EffectModel) {
        if self.viewer.mode == ViewMode::Viewing {
            (self.after_key_viewing(key), EffectModel::Nothing)
        } else if self.viewer.mode == ViewMode::FocusedPost {
            (self.after_key_focused(key, cache), EffectModel::Nothing)
        } else if self.input_mode {
            self.after_key_input(key)
        } else {
            self.after_key_browsing(key, cache)
        }
    }
}

} // verus!
