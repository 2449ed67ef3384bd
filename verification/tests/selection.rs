use ldui::cache::ImageCache;
use ldui::extract::{extract_image_references, ImageReference};
use ldui::selection::{available_images, available_references, SelectionState};

fn reference(ordinal: usize, url: &str) -> ImageReference {
    ImageReference { url: url.to_string(), ordinal, raw_offset: None }
}

fn three_available() -> SelectionState {
    SelectionState {
        available: vec![
            (0, "a.png".to_string()),
            (1, "b.png".to_string()),
            (2, "c.png".to_string()),
        ],
        selected: None,
    }
}

#[test]
fn cycle_walks_round_three_images() {
    let state = three_available();
    let mut current = None;
    let mut seen = Vec::new();
    for _ in 0..8 {
        current = state.cycle(current);
        seen.push(current);
    }
    assert_eq!(
        seen,
        vec![Some(0), Some(1), Some(2), Some(0), Some(1), Some(2), Some(0), Some(1)]
    );
}

#[test]
fn cycle_selection_walks_round_three_images() {
    let mut state = three_available();
    let mut seen = Vec::new();
    for _ in 0..5 {
        state.cycle_selection();
        seen.push(state.selected);
    }
    assert_eq!(seen, vec![Some(0), Some(1), Some(2), Some(0), Some(1)]);
    assert_eq!(state.available.len(), 3);
}

#[test]
fn cycle_on_empty_list_is_absent() {
    let mut state = SelectionState { available: Vec::new(), selected: None };
    assert_eq!(state.cycle(None), None);
    assert_eq!(state.cycle(Some(0)), None);
    assert_eq!(state.cycle(Some(5)), None);
    state.selected = Some(3);
    state.cycle_selection();
    assert_eq!(state.selected, None);
}

#[test]
fn cycle_from_stale_index_wraps() {
    let state = three_available();
    assert_eq!(state.cycle(Some(2)), Some(0));
    assert_eq!(state.cycle(Some(3)), Some(1));
    assert_eq!(state.cycle(Some(7)), Some(2));
    assert_eq!(state.cycle(Some(usize::MAX)), Some((usize::MAX % 3 + 1) % 3));
}

#[test]
fn cycle_on_single_image_stays() {
    let state = SelectionState { available: vec![(4, "only.png".to_string())], selected: None };
    assert_eq!(state.cycle(None), Some(0));
    assert_eq!(state.cycle(Some(0)), Some(0));
}

#[test]
fn activate_out_of_range_is_a_no_op() {
    let mut cache = ImageCache::new("/tmp/images".to_string());
    cache.add_to_cache("only.png", &[1, 2]);
    let state = SelectionState { available: vec![(0, "only.png".to_string())], selected: Some(2) };
    assert_eq!(state.activate(2, &cache), None);
    assert_eq!(state.activate(1, &cache), None);
    assert_eq!(state.activate(usize::MAX, &cache), None);
    assert_eq!(state.available, vec![(0, "only.png".to_string())]);
    assert_eq!(state.selected, Some(2));
    assert_eq!(cache.len(), 1);
    assert_eq!(
        state.activate(0, &cache),
        Some(("only.png".to_string(), cache.target_path("only.png")))
    );
}

#[test]
fn activate_of_image_that_is_not_stored_is_a_no_op() {
    let cache = ImageCache::new("/tmp/images".to_string());
    let state = SelectionState { available: vec![(0, "gone.png".to_string())], selected: None };
    assert_eq!(state.activate(0, &cache), None);
}

#[test]
fn only_stored_images_are_available() {
    let mut cache = ImageCache::new("/tmp/images".to_string());
    cache.add_to_cache("b.png", &[1]);
    cache.ensure_fetched("c.png");
    let references = vec![
        reference(0, "a.png"),
        reference(1, "b.png"),
        reference(2, "c.png"),
        reference(3, "b.png"),
    ];
    assert_eq!(
        available_images(&references, &cache),
        vec![(1, "b.png".to_string()), (3, "b.png".to_string())]
    );
    let stored = available_references(&references, &cache);
    assert_eq!(stored.len(), 2);
    assert_eq!(stored[0].ordinal, 1);
    assert_eq!(stored[1].ordinal, 3);
    let state = SelectionState::build(&references, &cache);
    assert_eq!(state.available.len(), 2);
    assert_eq!(state.selected, None);
}

#[test]
fn post_with_one_of_two_images_stored() {
    let body = "<p>first</p><img src=\"https://example.com/one.png\"><p>second</p>\
                <img src=\"https://example.com/two.jpg\">";
    let references = extract_image_references(body);
    assert_eq!(references.len(), 2);
    let mut cache = ImageCache::new("/var/cache/ldui/images".to_string());
    let path = cache.add_to_cache("https://example.com/two.jpg", &[9, 9, 9]);
    assert_eq!(cache.get_cached_path("https://example.com/one.png"), None);
    assert_eq!(cache.get_cached_path("https://example.com/two.jpg"), Some(path.clone()));
    let mut state = SelectionState::build(&references, &cache);
    assert_eq!(state.available, vec![(1, "https://example.com/two.jpg".to_string())]);
    assert_eq!(state.cycle(None), Some(0));
    state.cycle_selection();
    assert_eq!(state.selected, Some(0));
    assert_eq!(
        state.activate(0, &cache),
        Some(("https://example.com/two.jpg".to_string(), path))
    );
}
