use ldui::api::{Category, Post, Topic, User};
use ldui::app::{images_to_fetch, App, AppTab, Effect, KeyInput, LoadingState};
use ldui::cache::ImageCache;
use ldui::config::Config;
use ldui::viewer::ViewMode;

fn topic(id: u64) -> Topic {
    Topic {
        id,
        title: format!("topic {}", id),
        posts_count: 2,
        views: 10,
        created_at: 1_700_000_000,
        last_posted_at: None,
        posters: Vec::new(),
        tags: None,
    }
}

fn post(id: u64, username: &str, cooked: &str) -> Post {
    Post {
        id,
        topic_id: 7,
        user_id: 1,
        username: username.to_string(),
        created_at: 1_700_000_000,
        updated_at: None,
        cooked: cooked.to_string(),
        posts_count: 1,
    }
}

fn category(id: u64) -> Category {
    Category {
        id,
        name: format!("category {}", id),
        slug: format!("c{}", id),
        topic_count: 1,
        post_count: 1,
        description: None,
        color: "ff0000".to_string(),
        text_color: "ffffff".to_string(),
    }
}

fn user(name: &str, trust_level: u64) -> User {
    User {
        id: 1,
        username: name.to_string(),
        name: None,
        avatar_template: String::new(),
        trust_level,
    }
}

fn empty_cache() -> ImageCache {
    ImageCache::new("/tmp/images".to_string())
}

fn app_on_topic() -> App {
    let mut app = App::new(Config::default());
    app.topics_loaded(Ok(vec![topic(7), topic(8)]));
    app.current_tab = AppTab::Topic(7);
    let posts = vec![
        post(1, "ann", "<p>no images</p>"),
        post(2, "bob", "<p>one</p><img src=\"a.png\"><p>two</p><img src=\"b.png\">"),
    ];
    assert_eq!(app.posts_loaded(7, Ok(posts)), Ok(()));
    app
}

#[test]
fn session_begins_at_home() {
    let app = App::new(Config::default());
    assert_eq!(app.current_tab, AppTab::Home);
    assert_eq!(app.selected_index, 0);
    assert_eq!(app.page, 1);
    assert_eq!(app.loading_state, LoadingState::NotLoading);
    assert!(!app.should_quit());
    assert!(!app.show_help);
    assert!(!app.input_mode);
    assert_eq!(app.viewer.mode, ViewMode::Browsing);
    assert_eq!(app.post_scroll, 0);
    assert_eq!(app.get_current_topic_id(), 0);
}

#[test]
fn quit_and_help_keys() {
    let mut app = App::new(Config::default());
    let cache = empty_cache();
    assert_eq!(app.handle_key_event(KeyInput::Char('?'), &cache), Effect::Nothing);
    assert!(app.show_help);
    app.handle_key_event(KeyInput::Char('?'), &cache);
    assert!(!app.show_help);
    assert_eq!(app.handle_key_event(KeyInput::Char('q'), &cache), Effect::Nothing);
    assert!(app.should_quit());
    assert_eq!(app.handle_key_event(KeyInput::Other, &cache), Effect::Nothing);
    assert_eq!(app.handle_key_event(KeyInput::Char('x'), &cache), Effect::Nothing);
    assert_eq!(app.current_tab, AppTab::Home);
}

#[test]
fn cursor_moves_within_the_home_page() {
    let mut app = App::new(Config::default());
    let cache = empty_cache();
    app.handle_key_event(KeyInput::Up, &cache);
    assert_eq!(app.selected_index, 0);
    app.handle_key_event(KeyInput::Down, &cache);
    app.handle_key_event(KeyInput::Char('j'), &cache);
    assert_eq!(app.selected_index, 2);
    app.handle_key_event(KeyInput::Down, &cache);
    assert_eq!(app.selected_index, 2);
    app.handle_key_event(KeyInput::Char('k'), &cache);
    assert_eq!(app.selected_index, 1);
}

#[test]
fn home_entries_lead_to_their_pages() {
    let cache = empty_cache();
    let mut app = App::new(Config::default());
    assert_eq!(app.handle_key_event(KeyInput::Enter, &cache), Effect::LoadTopics);
    assert_eq!(app.current_tab, AppTab::Topics);
    assert_eq!(app.loading_state, LoadingState::Loading);

    let mut app = App::new(Config::default());
    app.selected_index = 1;
    assert_eq!(app.handle_key_event(KeyInput::Enter, &cache), Effect::LoadCategories);
    assert_eq!(app.current_tab, AppTab::Categories);
    assert_eq!(app.selected_index, 0);

    let mut app = App::new(Config::default());
    app.selected_index = 2;
    assert_eq!(app.handle_key_event(KeyInput::Enter, &cache), Effect::Nothing);
    assert_eq!(app.current_tab, AppTab::Settings);
    assert_eq!(app.loading_state, LoadingState::NotLoading);
    assert_eq!(app.handle_key_event(KeyInput::Enter, &cache), Effect::RunKeyGenerator);
}

#[test]
fn right_key_walks_through_the_tabs() {
    let cache = empty_cache();
    let mut app = App::new(Config::default());
    assert_eq!(app.handle_key_event(KeyInput::Right, &cache), Effect::LoadTopics);
    assert_eq!(app.handle_key_event(KeyInput::Char('l'), &cache), Effect::LoadCategories);
    assert_eq!(app.current_tab, AppTab::Categories);
    assert_eq!(app.handle_key_event(KeyInput::Right, &cache), Effect::Nothing);
    assert_eq!(app.current_tab, AppTab::Settings);
    assert_eq!(app.handle_key_event(KeyInput::Right, &cache), Effect::Nothing);
    assert_eq!(app.current_tab, AppTab::Settings);
}

#[test]
fn back_key_leads_to_the_page_before() {
    let cache = empty_cache();
    let mut app = app_on_topic();
    app.page = 3;
    app.selected_index = 1;
    assert_eq!(app.handle_key_event(KeyInput::Left, &cache), Effect::Nothing);
    assert_eq!(app.current_tab, AppTab::Topics);
    assert_eq!(app.page, 1);
    assert_eq!(app.selected_index, 0);
    app.handle_key_event(KeyInput::Char('h'), &cache);
    assert_eq!(app.current_tab, AppTab::Home);
    app.handle_key_event(KeyInput::Char('h'), &cache);
    assert_eq!(app.current_tab, AppTab::Home);
    app.current_tab = AppTab::Categories;
    app.navigate_back();
    assert_eq!(app.current_tab, AppTab::Topics);
    app.current_tab = AppTab::User("ann".to_string());
    app.navigate_back();
    assert_eq!(app.current_tab, AppTab::Home);
    app.current_tab = AppTab::Settings;
    app.navigate_back();
    assert_eq!(app.current_tab, AppTab::Home);
}

#[test]
fn topic_is_opened_from_the_list() {
    let cache = empty_cache();
    let mut app = App::new(Config::default());
    app.topics_loaded(Ok(vec![topic(7), topic(8)]));
    app.current_tab = AppTab::Topics;
    app.handle_key_event(KeyInput::Down, &cache);
    app.handle_key_event(KeyInput::Down, &cache);
    assert_eq!(app.selected_index, 1);
    assert_eq!(app.handle_key_event(KeyInput::Enter, &cache), Effect::LoadTopicPosts(8));
    assert_eq!(app.current_tab, AppTab::Topic(8));
    assert_eq!(app.get_current_topic_id(), 8);
    assert_eq!(app.selected_index, 0);
    assert_eq!(app.loading_state, LoadingState::Loading);
}

#[test]
fn stale_cursor_opens_nothing() {
    let cache = empty_cache();
    let mut app = App::new(Config::default());
    app.topics_loaded(Ok(vec![topic(7)]));
    app.current_tab = AppTab::Topics;
    app.selected_index = 5;
    assert_eq!(app.handle_key_event(KeyInput::Enter, &cache), Effect::Nothing);
    assert_eq!(app.current_tab, AppTab::Topics);
    app.categories_loaded(Ok(vec![category(1)]));
    app.current_tab = AppTab::Categories;
    assert_eq!(app.handle_key_event(KeyInput::Enter, &cache), Effect::Nothing);
    app.selected_index = 0;
    assert_eq!(app.handle_key_event(KeyInput::Enter, &cache), Effect::LoadTopics);
    assert_eq!(app.current_tab, AppTab::Topics);
}

#[test]
fn letter_keys_jump_to_pages() {
    let cache = empty_cache();
    let mut app = App::new(Config::default());
    app.selected_index = 2;
    assert_eq!(app.handle_key_event(KeyInput::Char('t'), &cache), Effect::LoadTopics);
    assert_eq!(app.current_tab, AppTab::Topics);
    assert_eq!(app.selected_index, 0);
    assert_eq!(app.handle_key_event(KeyInput::Char('c'), &cache), Effect::LoadCategories);
    assert_eq!(app.current_tab, AppTab::Categories);
    assert_eq!(app.handle_key_event(KeyInput::Char('s'), &cache), Effect::Nothing);
    assert_eq!(app.current_tab, AppTab::Settings);
    assert_eq!(app.handle_key_event(KeyInput::Char('r'), &cache), Effect::Nothing);
    app.current_tab = AppTab::User("ann".to_string());
    app.loading_state = LoadingState::NotLoading;
    assert_eq!(
        app.handle_key_event(KeyInput::Char('r'), &cache),
        Effect::LoadUser("ann".to_string())
    );
    assert_eq!(app.loading_state, LoadingState::Loading);
}

#[test]
fn pages_of_results_are_turned() {
    let cache = empty_cache();
    let mut app = app_on_topic();
    app.selected_index = 1;
    assert_eq!(app.handle_key_event(KeyInput::Char('p'), &cache), Effect::Nothing);
    assert_eq!(app.page, 1);
    assert_eq!(app.selected_index, 1);
    assert_eq!(app.handle_key_event(KeyInput::Char('n'), &cache), Effect::LoadTopicPosts(7));
    assert_eq!(app.page, 2);
    assert_eq!(app.selected_index, 0);
    assert_eq!(app.handle_key_event(KeyInput::Char('p'), &cache), Effect::LoadTopicPosts(7));
    assert_eq!(app.page, 1);
    app.current_tab = AppTab::Topics;
    assert_eq!(app.next_page(), Effect::LoadTopics);
    assert_eq!(app.page, 2);
    app.page = u32::MAX;
    assert_eq!(app.next_page(), Effect::LoadTopics);
    assert_eq!(app.page, u32::MAX);
    app.current_tab = AppTab::Home;
    assert_eq!(app.next_page(), Effect::Nothing);
    assert_eq!(app.prev_page(), Effect::Nothing);
    assert_eq!(app.page, u32::MAX);
}

#[test]
fn tick_reloads_unless_loading() {
    let mut app = app_on_topic();
    assert_eq!(app.tick(), Effect::LoadTopicPosts(7));
    assert_eq!(app.loading_state, LoadingState::Loading);
    assert_eq!(app.tick(), Effect::Nothing);
    app.loading_state = LoadingState::Error("x".to_string());
    app.current_tab = AppTab::Categories;
    assert_eq!(app.tick(), Effect::LoadCategories);
    app.loading_state = LoadingState::NotLoading;
    app.current_tab = AppTab::Home;
    assert_eq!(app.tick(), Effect::Nothing);
    assert_eq!(app.loading_state, LoadingState::NotLoading);
    app.current_tab = AppTab::Settings;
    assert_eq!(app.tick(), Effect::Nothing);
}

#[test]
fn cursor_moves_over_posts_and_drops_the_highlight() {
    let cache = empty_cache();
    let mut app = app_on_topic();
    app.viewer.selection.selected = Some(1);
    app.handle_key_event(KeyInput::Down, &cache);
    assert_eq!(app.selected_index, 1);
    assert_eq!(app.viewer.selection.selected, None);
    app.handle_key_event(KeyInput::Down, &cache);
    assert_eq!(app.selected_index, 1);
    app.viewer.selection.selected = Some(0);
    app.handle_key_event(KeyInput::Up, &cache);
    assert_eq!(app.selected_index, 0);
    assert_eq!(app.viewer.selection.selected, None);
    app.current_tab = AppTab::Topic(99);
    app.handle_key_event(KeyInput::Down, &cache);
    assert_eq!(app.selected_index, 0);
}

#[test]
fn enter_opens_the_post_under_the_cursor() {
    let mut cache = empty_cache();
    cache.add_to_cache("b.png", &[1]);
    let mut app = app_on_topic();
    app.selected_index = 1;
    assert_eq!(app.handle_key_event(KeyInput::Enter, &cache), Effect::Nothing);
    assert_eq!(app.viewer.mode, ViewMode::FocusedPost);
    assert_eq!(app.viewer.selection.available, vec![(1, "b.png".to_string())]);
    assert_eq!(app.current_tab, AppTab::Topic(7));
    app.handle_key_event(KeyInput::Down, &cache);
    app.handle_key_event(KeyInput::Char('j'), &cache);
    assert_eq!(app.post_scroll, 2);
    assert_eq!(app.selected_index, 1);
    app.handle_key_event(KeyInput::Char('k'), &cache);
    app.handle_key_event(KeyInput::Up, &cache);
    app.handle_key_event(KeyInput::Up, &cache);
    assert_eq!(app.post_scroll, 0);
    app.handle_key_event(KeyInput::Char('q'), &cache);
    assert!(!app.should_quit());
    app.handle_key_event(KeyInput::Down, &cache);
    app.handle_key_event(KeyInput::Esc, &cache);
    assert_eq!(app.viewer.mode, ViewMode::Browsing);
    assert_eq!(app.post_scroll, 0);
}

#[test]
fn enter_on_missing_post_opens_nothing() {
    let cache = empty_cache();
    let mut app = app_on_topic();
    app.selected_index = 2;
    assert_eq!(app.handle_key_event(KeyInput::Enter, &cache), Effect::Nothing);
    assert_eq!(app.viewer.mode, ViewMode::Browsing);
    app.selected_index = 0;
    app.current_tab = AppTab::Topic(99);
    assert_eq!(app.handle_key_event(KeyInput::Enter, &cache), Effect::Nothing);
    assert_eq!(app.viewer.mode, ViewMode::Browsing);
}

#[test]
fn images_of_a_post_are_stepped_through_and_opened() {
    let mut cache = empty_cache();
    let path_a = cache.add_to_cache("a.png", &[1]);
    let mut app = app_on_topic();
    app.selected_index = 1;
    assert_eq!(app.handle_key_event(KeyInput::Char('i'), &cache), Effect::Nothing);
    assert_eq!(app.viewer.mode, ViewMode::FocusedPost);
    assert_eq!(app.viewer.selection.selected, None);
    app.handle_key_event(KeyInput::Char('o'), &cache);
    assert_eq!(app.viewer.mode, ViewMode::FocusedPost);
    app.handle_key_event(KeyInput::Tab, &cache);
    assert_eq!(app.viewer.selection.selected, Some(0));
    app.handle_key_event(KeyInput::Char('i'), &cache);
    assert_eq!(app.viewer.selection.selected, Some(0));
    let path_b = cache.add_to_cache("b.png", &[2]);
    app.handle_key_event(KeyInput::Tab, &cache);
    assert_eq!(app.viewer.selection.selected, Some(1));
    assert_eq!(app.viewer.selection.available.len(), 2);
    app.handle_key_event(KeyInput::Char('o'), &cache);
    assert_eq!(app.viewer.mode, ViewMode::Viewing);
    assert_eq!(app.viewer.shown, Some(("b.png".to_string(), path_b)));
    app.handle_key_event(KeyInput::Down, &cache);
    app.handle_key_event(KeyInput::Char('q'), &cache);
    assert_eq!(app.viewer.mode, ViewMode::Viewing);
    assert!(!app.should_quit());
    app.handle_key_event(KeyInput::Char('o'), &cache);
    assert_eq!(app.viewer.mode, ViewMode::FocusedPost);
    assert_eq!(app.viewer.shown, None);
    app.handle_key_event(KeyInput::Tab, &cache);
    app.handle_key_event(KeyInput::Char('o'), &cache);
    assert_eq!(app.viewer.shown, Some(("a.png".to_string(), path_a)));
    app.handle_key_event(KeyInput::Esc, &cache);
    assert_eq!(app.viewer.mode, ViewMode::FocusedPost);
    app.handle_key_event(KeyInput::Enter, &cache);
    assert_eq!(app.viewer.mode, ViewMode::Browsing);
    assert_eq!(app.viewer.selection.selected, None);
}

#[test]
fn image_key_needs_a_stored_image() {
    let cache = empty_cache();
    let mut app = app_on_topic();
    app.selected_index = 1;
    app.handle_key_event(KeyInput::Char('i'), &cache);
    assert_eq!(app.viewer.mode, ViewMode::Browsing);
    app.current_tab = AppTab::Topics;
    app.handle_key_event(KeyInput::Char('i'), &cache);
    assert_eq!(app.viewer.mode, ViewMode::Browsing);
}

#[test]
fn user_is_opened_from_a_post() {
    let mut app = app_on_topic();
    app.selected_index = 1;
    assert_eq!(app.navigate_select(), Effect::LoadUser("bob".to_string()));
    assert_eq!(app.current_tab, AppTab::User("bob".to_string()));
    assert_eq!(app.selected_index, 0);
    assert_eq!(app.navigate_select(), Effect::Nothing);
}

#[test]
fn typed_text_is_sent_as_a_post() {
    let cache = empty_cache();
    let mut app = app_on_topic();
    app.input_mode = true;
    for c in "hi!x".chars() {
        assert_eq!(app.handle_key_event(KeyInput::Char(c), &cache), Effect::Nothing);
    }
    app.handle_key_event(KeyInput::Backspace, &cache);
    assert_eq!(app.input, "hi!");
    app.handle_key_event(KeyInput::Left, &cache);
    assert_eq!(app.current_tab, AppTab::Topic(7));
    assert_eq!(
        app.handle_key_event(KeyInput::Enter, &cache),
        Effect::CreatePost(7, "hi!".to_string())
    );
    assert!(!app.input_mode);
    assert_eq!(app.input, "");
    assert_eq!(app.post_created(7), Effect::LoadTopicPosts(7));
    assert_eq!(app.loading_state, LoadingState::Loading);
}

#[test]
fn empty_or_misplaced_text_is_not_sent() {
    let cache = empty_cache();
    let mut app = app_on_topic();
    app.input_mode = true;
    app.handle_key_event(KeyInput::Backspace, &cache);
    assert_eq!(app.input, "");
    assert_eq!(app.handle_key_event(KeyInput::Enter, &cache), Effect::Nothing);
    assert!(!app.input_mode);
    app.input_mode = true;
    app.current_tab = AppTab::Topics;
    app.handle_key_event(KeyInput::Char('a'), &cache);
    assert_eq!(app.handle_key_event(KeyInput::Enter, &cache), Effect::Nothing);
    app.input_mode = true;
    app.handle_key_event(KeyInput::Char('a'), &cache);
    assert_eq!(app.handle_key_event(KeyInput::Esc, &cache), Effect::Nothing);
    assert!(!app.input_mode);
    assert_eq!(app.input, "");
}

#[test]
fn loaded_data_is_taken_in() {
    let mut app = App::new(Config::default());
    app.loading_state = LoadingState::Loading;
    app.topics_loaded(Ok(vec![topic(1), topic(2), topic(3)]));
    assert_eq!(app.topics.len(), 3);
    assert_eq!(app.loading_state, LoadingState::NotLoading);
    app.categories_loaded(Ok(vec![category(1)]));
    assert_eq!(app.categories.len(), 1);
    app.user_loaded("ann", Ok(user("ann", 2)));
    app.user_loaded("bob", Ok(user("bob", 1)));
    app.user_loaded("ann", Ok(user("ann", 3)));
    assert_eq!(app.users.len(), 2);
    assert_eq!(app.find_user("ann").map(|u| u.trust_level), Some(3));
    assert_eq!(app.find_user("bob").map(|u| u.trust_level), Some(1));
    assert_eq!(app.find_user("Ann").map(|u| u.trust_level), None);
    assert_eq!(app.posts_loaded(5, Ok(vec![post(1, "ann", "x")])), Ok(()));
    assert_eq!(app.posts.get(&5).map(|p| p.len()), Some(1));
}

#[test]
fn failures_to_load_are_told() {
    let mut app = App::new(Config::default());
    app.topics_loaded(Ok(vec![topic(1)]));
    app.topics_loaded(Err("timeout".to_string()));
    assert_eq!(app.loading_state, LoadingState::Error("加载主题失败: timeout".to_string()));
    assert_eq!(app.topics.len(), 1);
    app.categories_loaded(Err("502".to_string()));
    assert_eq!(app.loading_state, LoadingState::Error("加载分类失败: 502".to_string()));
    app.user_loaded("ann", Err("gone".to_string()));
    assert_eq!(app.loading_state, LoadingState::Error("加载用户失败: gone".to_string()));
    assert_eq!(app.users.len(), 0);
    assert_eq!(app.posts_loaded(5, Err("down".to_string())), Err("down".to_string()));
    assert_eq!(app.loading_state, LoadingState::Error("加载帖子失败: down".to_string()));
    assert!(app.posts.get(&5).is_none());
}

#[test]
fn key_generator_leaves_new_settings() {
    let mut app = App::new(Config::default());
    assert!(!app.config.has_valid_api_key());
    let mut config = Config::default();
    config.discourse.api_key = "secret".to_string();
    app.key_generator_finished(config);
    assert!(app.config.has_valid_api_key());
    assert!(app.need_redraw);
    app.redrawn();
    assert!(!app.need_redraw);
}

#[test]
fn images_of_loaded_posts_are_fetched_once() {
    let mut cache = empty_cache();
    cache.add_to_cache("stored.png", &[1]);
    let posts = vec![
        post(1, "ann", "<img src=\"a.png\"><img class=\"avatar\" src=\"face.png\">"),
        post(2, "bob", "<img src=\"stored.png\"><img src=\"a.png\"><img src=\"data:x\">"),
        post(3, "cy", "<p>text</p><img src=\"c.png\">"),
    ];
    assert_eq!(
        images_to_fetch(&posts, &mut cache),
        vec!["a.png".to_string(), "c.png".to_string()]
    );
    assert!(cache.is_pending("a.png"));
    assert!(cache.is_pending("c.png"));
    assert!(!cache.is_pending("face.png"));
    assert_eq!(images_to_fetch(&posts, &mut cache), Vec::<String>::new());
    cache.abandon_fetch("a.png");
    assert_eq!(images_to_fetch(&posts, &mut cache), vec!["a.png".to_string()]);
}

#[test]
fn session_begins_by_loading_topics_and_categories() {
    let mut app = App::new(Config::default());
    assert_eq!(app.init(), vec![Effect::LoadTopics, Effect::LoadCategories]);
    assert_eq!(app.loading_state, LoadingState::Loading);
    assert_eq!(app.current_tab, AppTab::Home);
}
