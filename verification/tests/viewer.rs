use ldui::cache::ImageCache;
use ldui::extract::ImageReference;
use ldui::viewer::{PostViewer, ViewEvent, ViewMode};

fn references() -> Vec<ImageReference> {
    vec![
        ImageReference { url: "a.png".to_string(), ordinal: 0, raw_offset: None },
        ImageReference { url: "b.png".to_string(), ordinal: 1, raw_offset: None },
    ]
}

fn cache_with(urls: &[&str]) -> ImageCache {
    let mut cache = ImageCache::new("/tmp/images".to_string());
    for url in urls {
        cache.add_to_cache(url, &[1]);
    }
    cache
}

#[test]
fn session_begins_browsing() {
    let viewer = PostViewer::new();
    assert_eq!(viewer.mode, ViewMode::Browsing);
    assert_eq!(viewer.selection.available, vec![]);
    assert_eq!(viewer.selection.selected, None);
    assert_eq!(viewer.shown, None);
}

#[test]
fn reader_goes_from_list_to_post_to_image_and_back() {
    let cache = cache_with(&["a.png", "b.png"]);
    let references = references();
    let mut viewer = PostViewer::new();
    viewer.handle(ViewEvent::OpenFullView, &references, &cache);
    assert_eq!(viewer.mode, ViewMode::FocusedPost);
    assert_eq!(viewer.selection.available.len(), 2);
    assert_eq!(viewer.selection.selected, None);
    viewer.handle(ViewEvent::Cycle, &references, &cache);
    viewer.handle(ViewEvent::Cycle, &references, &cache);
    assert_eq!(viewer.selection.selected, Some(1));
    viewer.handle(ViewEvent::Activate, &references, &cache);
    assert_eq!(viewer.mode, ViewMode::Viewing);
    assert_eq!(viewer.shown, Some(("b.png".to_string(), cache.target_path("b.png"))));
    viewer.handle(ViewEvent::Dismiss, &references, &cache);
    assert_eq!(viewer.mode, ViewMode::FocusedPost);
    assert_eq!(viewer.shown, None);
    assert_eq!(viewer.selection.selected, Some(1));
    viewer.handle(ViewEvent::Close, &references, &cache);
    assert_eq!(viewer.mode, ViewMode::Browsing);
}

#[test]
fn activate_needs_a_highlighted_stored_image() {
    let references = references();
    let empty = cache_with(&[]);
    let mut viewer = PostViewer::new();
    viewer.open(&references, &empty);
    assert_eq!(viewer.mode, ViewMode::FocusedPost);
    viewer.activate(&empty);
    assert_eq!(viewer.mode, ViewMode::FocusedPost);
    viewer.cycle();
    assert_eq!(viewer.selection.selected, None);
    viewer.activate(&empty);
    assert_eq!(viewer.mode, ViewMode::FocusedPost);
    assert_eq!(viewer.shown, None);

    let cache = cache_with(&["a.png"]);
    viewer.refresh(&references, &cache);
    viewer.activate(&cache);
    assert_eq!(viewer.mode, ViewMode::FocusedPost);
    viewer.selection.selected = Some(2);
    viewer.activate(&cache);
    assert_eq!(viewer.mode, ViewMode::FocusedPost);
    assert_eq!(viewer.selection.selected, Some(2));
    assert_eq!(viewer.shown, None);
    viewer.selection.selected = Some(0);
    viewer.activate(&cache);
    assert_eq!(viewer.mode, ViewMode::Viewing);
}

#[test]
fn requests_out_of_place_change_nothing() {
    let cache = cache_with(&["a.png"]);
    let references = references();
    let mut viewer = PostViewer::new();
    for event in [ViewEvent::Cycle, ViewEvent::Activate, ViewEvent::Dismiss, ViewEvent::Close] {
        viewer.handle(event, &references, &cache);
        assert_eq!(viewer.mode, ViewMode::Browsing);
        assert_eq!(viewer.selection.selected, None);
        assert_eq!(viewer.selection.available, vec![]);
    }
    viewer.open(&references, &cache);
    viewer.cycle();
    viewer.activate(&cache);
    assert_eq!(viewer.mode, ViewMode::Viewing);
    for event in [ViewEvent::OpenFullView, ViewEvent::Cycle, ViewEvent::Activate, ViewEvent::Close]
    {
        viewer.handle(event, &references, &cache);
        assert_eq!(viewer.mode, ViewMode::Viewing);
        assert_eq!(viewer.selection.selected, Some(0));
    }
    viewer.dismiss();
    viewer.handle(ViewEvent::OpenFullView, &references, &cache);
    assert_eq!(viewer.mode, ViewMode::FocusedPost);
    assert_eq!(viewer.selection.selected, Some(0));
    viewer.handle(ViewEvent::Dismiss, &references, &cache);
    assert_eq!(viewer.mode, ViewMode::FocusedPost);
}

#[test]
fn refresh_takes_in_images_that_arrived() {
    let references = references();
    let mut cache = cache_with(&["b.png"]);
    let mut viewer = PostViewer::new();
    viewer.open(&references, &cache);
    assert_eq!(viewer.selection.available, vec![(1, "b.png".to_string())]);
    viewer.cycle();
    cache.add_to_cache("a.png", &[2]);
    viewer.refresh(&references, &cache);
    assert_eq!(
        viewer.selection.available,
        vec![(0, "a.png".to_string()), (1, "b.png".to_string())]
    );
    assert_eq!(viewer.selection.selected, Some(0));
    assert_eq!(viewer.mode, ViewMode::FocusedPost);
}

#[test]
fn opening_a_post_clears_the_highlight() {
    let cache = cache_with(&["a.png", "b.png"]);
    let references = references();
    let mut viewer = PostViewer::new();
    viewer.open(&references, &cache);
    viewer.cycle();
    assert_eq!(viewer.selection.selected, Some(0));
    viewer.close();
    viewer.open(&references, &cache);
    assert_eq!(viewer.selection.selected, None);
}
