use ldui::cache::ImageCache;
use ldui::placement::PlacementHint;
use ldui::render::{
    blank_line, clamp_scroll, clean_markup, collapse_newlines, count_lines, full_post,
    is_image_size_info, is_whitespace, layout_post, line_rows, place_markers, post_text, preview,
    split_text, strip_tags, unescape, wrap_line, DisplayLine, PostText,
};

fn chars(text: &str) -> Vec<char> {
    text.chars().collect()
}

fn text(chars: &[char]) -> String {
    chars.iter().collect()
}

fn texts(lines: &[Vec<char>]) -> Vec<String> {
    lines.iter().map(|line| text(line)).collect()
}

fn strings(lines: &[&str]) -> Vec<String> {
    lines.iter().map(|line| line.to_string()).collect()
}

#[test]
fn paragraphs_and_breaks_become_line_breaks() {
    assert_eq!(clean_markup("<p>Hello<br>World</p>"), "Hello\nWorld\n");
    assert_eq!(clean_markup("one<br/>two<br />three"), "one\ntwo\nthree");
    assert_eq!(clean_markup("<strong>bold</strong> and <em>soft</em>"), "bold and soft");
    assert_eq!(clean_markup(""), "");
}

#[test]
fn named_characters_are_written_out() {
    assert_eq!(clean_markup("a&nbsp;b"), "a b");
    assert_eq!(clean_markup("&quot;q&quot; &apos;a&apos; x &amp; y"), "\"q\" 'a' x & y");
    assert_eq!(clean_markup("&amp;lt;"), "&lt;");
    assert_eq!(text(&unescape(chars("1 &lt; 2 &gt; 0"))), "1 < 2 > 0");
}

#[test]
fn written_out_angle_brackets_are_taken_for_tags() {
    assert_eq!(clean_markup("a &lt;b&gt; c"), "a  c");
    assert_eq!(clean_markup("1 &lt; 2"), "1 ");
}

#[test]
fn tags_are_taken_out() {
    assert_eq!(text(&strip_tags(&chars("<a href=\"x\">link</a> text"))), "link text");
    assert_eq!(text(&strip_tags(&chars("before <unclosed after"))), "before ");
    assert_eq!(text(&strip_tags(&chars("a > b"))), "a  b");
    assert_eq!(text(&strip_tags(&chars("<<x>>y"))), "y");
    assert_eq!(text(&strip_tags(&chars("plain"))), "plain");
}

#[test]
fn runs_of_line_breaks_are_shortened() {
    assert_eq!(text(&collapse_newlines(&chars("a\n\n\nb\nc\n\n"))), "a\nb\nc\n");
    assert_eq!(text(&collapse_newlines(&chars("\n\n"))), "\n");
    assert_eq!(text(&collapse_newlines(&chars("a\n \nb"))), "a\n \nb");
    assert_eq!(text(&collapse_newlines(&chars(""))), "");
}

#[test]
fn text_is_split_at_every_line_break() {
    assert_eq!(texts(&split_text(&chars("a\nb"), '\n')), strings(&["a", "b"]));
    assert_eq!(texts(&split_text(&chars("a\n"), '\n')), strings(&["a", ""]));
    assert_eq!(texts(&split_text(&chars("\n\nx"), '\n')), strings(&["", "", "x"]));
    assert_eq!(texts(&split_text(&chars(""), '\n')), strings(&[""]));
    assert_eq!(texts(&split_text(&chars("a,b,,c"), ',')), strings(&["a", "b", "", "c"]));
}

#[test]
fn lines_are_counted_with_an_open_last_line() {
    assert_eq!(count_lines(&chars("")), 0);
    assert_eq!(count_lines(&chars("a")), 1);
    assert_eq!(count_lines(&chars("a\n")), 1);
    assert_eq!(count_lines(&chars("a\nb")), 2);
    assert_eq!(count_lines(&chars("a\n\nb\n")), 3);
    assert_eq!(count_lines(&chars("\n")), 1);
    assert_eq!(count_lines(&chars("\n\n")), 2);
}

#[test]
fn white_space_is_recognised() {
    for c in [' ', '\t', '\n', '\r', '\u{0b}', '\u{0c}', '\u{85}', '\u{a0}', '\u{1680}',
        '\u{2000}', '\u{200a}', '\u{2028}', '\u{2029}', '\u{202f}', '\u{205f}', '\u{3000}']
    {
        assert!(is_whitespace(c));
        assert!(c.is_whitespace());
    }
    for c in ['a', '0', '\u{200b}', '\u{feff}', '\u{08}', '\u{0e}', '\u{1f}', '\u{180e}', '×'] {
        assert!(!is_whitespace(c));
        assert!(!c.is_whitespace());
    }
    assert!(blank_line(&chars("")));
    assert!(blank_line(&chars(" \t\u{3000}")));
    assert!(!blank_line(&chars("  x ")));
}

#[test]
fn white_space_agrees_with_the_standard_library() {
    let mut code: u32 = 0;
    while code <= 0x3100 {
        if let Some(c) = char::from_u32(code) {
            assert_eq!(is_whitespace(c), c.is_whitespace());
        }
        code += 1;
    }
}

#[test]
fn size_notes_are_recognised() {
    assert!(is_image_size_info("1920×1080 256 KB"));
    assert!(is_image_size_info("image.png 800×600 1.2 MB"));
    assert!(is_image_size_info("4000×3000 2 GB"));
    assert!(is_image_size_info("3×4 12 B "));
    assert!(!is_image_size_info("3×4 12 B"));
    assert!(!is_image_size_info("1920x1080 256 KB"));
    assert!(!is_image_size_info("×"));
    assert!(!is_image_size_info("256 KB"));
    assert!(!is_image_size_info("1920×1080 256KB"));
    assert!(!is_image_size_info(""));
}

#[test]
fn post_text_has_lines_and_measures() {
    let text = post_text("<p>Hello<br>World</p>");
    assert_eq!(text.lines, strings(&["Hello", "World", ""]));
    assert_eq!(text.total_lines, 2);
    assert_eq!(text.piece_count, 3);
    assert_eq!(text.byte_len, 12);
}

#[test]
fn post_text_leaves_size_notes_out() {
    let text = post_text("<p>look</p><p>pic.png 10×20 3 KB</p><p><br></p><p>done</p>");
    assert_eq!(text.lines, strings(&["look", "done", ""]));
    assert_eq!(text.total_lines, 5);
    assert_eq!(text.piece_count, 4);
}

#[test]
fn post_text_counts_bytes_not_characters() {
    let text = post_text("图片×");
    assert_eq!(text.lines, strings(&["图片×"]));
    assert_eq!(text.total_lines, 1);
    assert_eq!(text.byte_len, 8);
}

#[test]
fn markers_stand_above_the_first_text_line_at_their_place() {
    let lines = strings(&["intro", "", "text", "more"]);
    let hints = vec![PlacementHint { ordinal: 0, line: 0 }, PlacementHint { ordinal: 3, line: 1 }];
    let shown = layout_post(&lines, &hints, Some(1));
    assert_eq!(
        shown,
        vec![
            DisplayLine::ImageButton { index: 0, selected: false },
            DisplayLine::Text("intro".to_string()),
            DisplayLine::Blank,
            DisplayLine::ImageButton { index: 1, selected: true },
            DisplayLine::Text("text".to_string()),
            DisplayLine::Text("more".to_string()),
        ]
    );
}

#[test]
fn one_marker_per_line_and_none_below_the_text() {
    let lines = strings(&["a", "b", " "]);
    let hints = vec![
        PlacementHint { ordinal: 0, line: 0 },
        PlacementHint { ordinal: 1, line: 0 },
        PlacementHint { ordinal: 2, line: 0 },
        PlacementHint { ordinal: 3, line: 2 },
    ];
    let shown = layout_post(&lines, &hints, None);
    assert_eq!(
        shown,
        vec![
            DisplayLine::ImageButton { index: 0, selected: false },
            DisplayLine::Text("a".to_string()),
            DisplayLine::ImageButton { index: 1, selected: false },
            DisplayLine::Text("b".to_string()),
            DisplayLine::Blank,
        ]
    );
    assert_eq!(layout_post(&Vec::new(), &hints, Some(0)), vec![]);
    assert_eq!(
        layout_post(&lines, &Vec::new(), Some(0)),
        vec![
            DisplayLine::Text("a".to_string()),
            DisplayLine::Text("b".to_string()),
            DisplayLine::Blank,
        ]
    );
}

#[test]
fn full_post_shows_markers_of_stored_images_only() {
    let cooked = "<p>alpha</p><img src=\"x.png\"><p>beta</p><img src=\"y.png\"><p>gamma</p>";
    let mut cache = ImageCache::new("/tmp/images".to_string());
    let plain = vec![
        DisplayLine::Text("alpha".to_string()),
        DisplayLine::Text("beta".to_string()),
        DisplayLine::Text("gamma".to_string()),
        DisplayLine::Blank,
    ];
    assert_eq!(full_post(cooked, &cache, None), plain);
    cache.add_to_cache("y.png", &[1]);
    assert_eq!(
        place_markers(cooked, &cache, 3),
        vec![PlacementHint { ordinal: 1, line: 1 }]
    );
    assert_eq!(
        full_post(cooked, &cache, Some(0)),
        vec![
            DisplayLine::Text("alpha".to_string()),
            DisplayLine::ImageButton { index: 0, selected: true },
            DisplayLine::Text("beta".to_string()),
            DisplayLine::Text("gamma".to_string()),
            DisplayLine::Blank,
        ]
    );
    cache.add_to_cache("x.png", &[1]);
    assert_eq!(
        full_post(cooked, &cache, Some(1)),
        vec![
            DisplayLine::ImageButton { index: 0, selected: false },
            DisplayLine::Text("alpha".to_string()),
            DisplayLine::ImageButton { index: 1, selected: true },
            DisplayLine::Text("beta".to_string()),
            DisplayLine::Text("gamma".to_string()),
            DisplayLine::Blank,
        ]
    );
}

#[test]
fn long_lines_are_cut_into_rows() {
    assert_eq!(texts(&wrap_line(&chars("abcdefghij"), 4)), strings(&["abcd", "efgh", "ij"]));
    assert_eq!(texts(&wrap_line(&chars("abcdefgh"), 4)), strings(&["abcd", "efgh"]));
    assert_eq!(texts(&wrap_line(&chars("abc"), 4)), strings(&["abc"]));
    assert_eq!(texts(&wrap_line(&chars(""), 4)), Vec::<String>::new());
    assert_eq!(texts(&wrap_line(&chars("abc"), 0)), strings(&["", "", "", "", ""]));
    assert_eq!(texts(&line_rows("  ", 1)), strings(&[""]));
    assert_eq!(texts(&line_rows("short", 10)), strings(&["short"]));
    assert_eq!(texts(&line_rows("图片", 4)), strings(&["图片"]));
    assert_eq!(texts(&line_rows("图片图", 2)), strings(&["图片", "图"]));
}

#[test]
fn preview_shows_the_first_five_rows() {
    let text = post_text("short<br><br>abcdefghij");
    assert_eq!(text.lines, strings(&["short", "abcdefghij"]));
    assert_eq!(text.total_lines, 3);
    assert_eq!(text.piece_count, 2);
    assert_eq!(text.byte_len, 16);
    let wide = preview(&text, 4);
    assert_eq!(wide.rows, strings(&["shor", "t", "abcd", "efgh", "ij"]));
    assert!(!wide.truncated);
    let narrow = preview(&text, 3);
    assert_eq!(narrow.rows, strings(&["sho", "rt", "abc", "def", "ghi"]));
    assert!(narrow.truncated);
    let roomy = preview(&text, 80);
    assert_eq!(roomy.rows, strings(&["short", "abcdefghij"]));
    assert!(!roomy.truncated);
}

#[test]
fn preview_tells_when_lines_are_left_out() {
    let text = PostText {
        lines: strings(&["1", "", "3", "4", "5", "6", "7"]),
        total_lines: 7,
        piece_count: 7,
        byte_len: 12,
    };
    let shown = preview(&text, 40);
    assert_eq!(shown.rows, strings(&["1", "", "3", "4", "5"]));
    assert!(shown.truncated);
    let empty = PostText { lines: Vec::new(), total_lines: 0, piece_count: 1, byte_len: 0 };
    let nothing = preview(&empty, 40);
    assert_eq!(nothing.rows, Vec::<String>::new());
    assert!(nothing.truncated);
}

#[test]
fn scroll_is_held_at_the_end_of_the_post() {
    assert_eq!(clamp_scroll(0, 100, 20), 0);
    assert_eq!(clamp_scroll(50, 100, 20), 50);
    assert_eq!(clamp_scroll(80, 100, 20), 80);
    assert_eq!(clamp_scroll(81, 100, 20), 80);
    assert_eq!(clamp_scroll(500, 100, 20), 80);
    assert_eq!(clamp_scroll(5, 10, 20), 0);
    assert_eq!(clamp_scroll(5, 20, 20), 0);
    assert_eq!(clamp_scroll(u16::MAX, usize::MAX, 0), u16::MAX);
}
