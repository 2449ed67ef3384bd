//! From the markup of a post to the lines that the reader sees.

use vstd::prelude::*;
use vstd::string::StringSliceAdditionalSpecFns;
use vstd::utf8::encode_utf8;
use crate::cache::{CacheModel, ImageCache};
use crate::extract::{
    extract_image_references, lemma_references_in_document_order, qualifying, reference_views,
    references_of, selected_sources,
};
use crate::placement::{
    hint_views, known_offsets_ordered, lemma_lines_in_range, lemma_lines_non_decreasing,
    lines_in_range, lines_non_decreasing, offsets_are_natural, place_references, placement,
    smaller, HintModel, PlacementHint,
};
use crate::selection::{
    available_references, index_view, lemma_stored_offsets_in_order, stored_references,
};
use crate::text::{contains_text, from_chars, holds, replace_all, replaced, to_chars};

verus! {

/// The sign between the width and the height of an image.
pub const TIMES_SIGN: char = '\u{d7}';

/// The last angle bracket of `text` opens a tag that is not closed.
pub open spec fn inside_tag(text: Seq<char>) -> bool
    decreases text.len(),
{
    if text.len() == 0 {
        false
    } else if text.last() == '<' {
        true
    } else if text.last() == '>' {
        false
    } else {
        inside_tag(text.drop_last())
    }
}

/// `text` without its tags: without the angle brackets and without what
/// stands between an opening one and the next closing one.
pub open spec fn without_tags(text: Seq<char>) -> Seq<char>
    decreases text.len(),
{
    if text.len() == 0 {
        Seq::empty()
    } else {
        let before = without_tags(text.drop_last());
        let c = text.last();
        if c == '<' || c == '>' || inside_tag(text.drop_last()) {
            before
        } else {
            before.push(c)
        }
    }
}

/// Takes the tags out of a text.
pub fn strip_tags(text: &[char]) -> (plain: Vec<char>)
    ensures
        plain@ == without_tags(text@),
{
    let mut plain: Vec<char> = Vec::new();
    let mut in_tag = false;
    assert(text@.take(0) =~= Seq::empty());
    for i in 0..text.len()
        invariant
            plain@ == without_tags(text@.take(i as int)),
            in_tag == inside_tag(text@.take(i as int)),
    {
        assert(text@.take(i + 1).drop_last() =~= text@.take(i as int));
        let c = text[i];
        if c == '<' {
            in_tag = true;
        } else if c == '>' {
            in_tag = false;
        } else if !in_tag {
            plain.push(c);
        }
    }
    assert(text@.take(text.len() as int) =~= text@);
    plain
}

/// `text` with each run of line breaks shortened to one.
pub open spec fn single_newlines(text: Seq<char>) -> Seq<char>
    decreases text.len(),
{
    if text.len() == 0 {
        Seq::empty()
    } else {
        let before = single_newlines(text.drop_last());
        if text.last() == '\n' && text.len() >= 2 && text[text.len() - 2] == '\n' {
            before
        } else {
            before.push(text.last())
        }
    }
}

/// Shortens each run of line breaks to one.
pub fn collapse_newlines(text: &[char]) -> (collapsed: Vec<char>)
    ensures
        collapsed@ == single_newlines(text@),
{
    let mut collapsed: Vec<char> = Vec::new();
    let mut last_was_newline = false;
    assert(text@.take(0) =~= Seq::empty());
    for i in 0..text.len()
        invariant
            collapsed@ == single_newlines(text@.take(i as int)),
            last_was_newline == (i > 0 && text@[i - 1] == '\n'),
    {
        assert(text@.take(i + 1).drop_last() =~= text@.take(i as int));
        let c = text[i];
        if c == '\n' {
            if !last_was_newline {
                collapsed.push(c);
            }
            last_was_newline = true;
        } else {
            collapsed.push(c);
            last_was_newline = false;
        }
    }
    assert(text@.take(text.len() as int) =~= text@);
    collapsed
}

/// The pieces of `text` between its separators: one more than there are
/// separators, and empty where two separators meet or the text ends with one.
pub open spec fn split_on(text: Seq<char>, separator: char) -> Seq<Seq<char>>
    decreases text.len(),
{
    if text.len() == 0 {
        seq![Seq::empty()]
    } else {
        let before = split_on(text.drop_last(), separator);
        if text.last() == separator {
            before.push(Seq::empty())
        } else {
            before.drop_last().push(before.last().push(text.last()))
        }
    }
}

/// The texts of a list of lines.
pub open spec fn line_views(lines: Seq<Vec<char>>) -> Seq<Seq<char>> {
    lines.map_values(|line: Vec<char>| line@)
}

/// Splits a text at its separators.
pub fn split_text(text: &[char], separator: char) -> (pieces: Vec<Vec<char>>)
    ensures
        line_views(pieces@) == split_on(text@, separator),
{
    let mut pieces: Vec<Vec<char>> = Vec::new();
    let mut current: Vec<char> = Vec::new();
    assert(text@.take(0) =~= Seq::empty());
    assert(line_views(pieces@).push(current@) =~= seq![Seq::<char>::empty()]);
    for i in 0..text.len()
        invariant
            line_views(pieces@).push(current@) == split_on(text@.take(i as int), separator),
    {
        assert(text@.take(i + 1).drop_last() =~= text@.take(i as int));
        let ghost before_pieces = pieces@;
        let ghost before_current = current@;
        let ghost so_far = line_views(before_pieces).push(before_current);
        assert(so_far.last() == before_current);
        assert(so_far.drop_last() =~= line_views(before_pieces));
        let c = text[i];
        if c == separator {
            pieces.push(current);
            current = Vec::new();
            assert(line_views(pieces@) =~= so_far);
        } else {
            current.push(c);
        }
    }
    assert(text@.take(text.len() as int) =~= text@);
    let ghost before_pieces = pieces@;
    let ghost last = current@;
    pieces.push(current);
    assert(line_views(pieces@) =~= line_views(before_pieces).push(last));
    pieces
}

/// The number of line breaks in `text`.
pub open spec fn newline_count(text: Seq<char>) -> int
    decreases text.len(),
{
    if text.len() == 0 {
        0
    } else {
        newline_count(text.drop_last()) + if text.last() == '\n' {
            1int
        } else {
            0int
        }
    }
}

/// The number of lines of `text`: each line break ends one, and what
/// follows the last line break is a line if it is not empty.
pub open spec fn line_count(text: Seq<char>) -> int {
    newline_count(text) + if text.len() > 0 && text.last() != '\n' {
        1int
    } else {
        0int
    }
}

/// Counts the lines of a text.
pub fn count_lines(text: &[char]) -> (count: usize)
    ensures
        count == line_count(text@),
{
    let mut breaks: usize = 0;
    assert(text@.take(0) =~= Seq::empty());
    for i in 0..text.len()
        invariant
            breaks == newline_count(text@.take(i as int)),
            breaks <= i,
            i > 0 && text@[i - 1] != '\n' ==> breaks < i,
    {
        assert(text@.take(i + 1).drop_last() =~= text@.take(i as int));
        if text[i] == '\n' {
            breaks += 1;
        }
    }
    assert(text@.take(text.len() as int) =~= text@);
    if text.len() > 0 && text[text.len() - 1] != '\n' {
        breaks + 1
    } else {
        breaks
    }
}

/// The character is white space: a blank, a tab, a line break and the
/// like, as Unicode lists them.
pub open spec fn is_space(c: char) -> bool {
    let code = c as u32;
    ||| 0x09 <= code <= 0x0d
    ||| code == 0x20
    ||| code == 0x85
    ||| code == 0xa0
    ||| code == 0x1680
    ||| 0x2000 <= code <= 0x200a
    ||| code == 0x2028
    ||| code == 0x2029
    ||| code == 0x202f
    ||| code == 0x205f
    ||| code == 0x3000
}

/// The line holds nothing but white space.
pub open spec fn is_blank(line: Seq<char>) -> bool {
    forall|i: int| 0 <= i < line.len() ==> is_space(#[trigger] line[i])
}

/// Tells whether the character is white space.
pub fn is_whitespace(c: char) -> (space: bool)
    ensures
        space == is_space(c),
{
    let code = c as u32;
    (0x09 <= code && code <= 0x0d) || code == 0x20 || code == 0x85 || code == 0xa0 || code
        == 0x1680 || (0x2000 <= code && code <= 0x200a) || code == 0x2028 || code == 0x2029
        || code == 0x202f || code == 0x205f || code == 0x3000
}

/// Tells whether the line holds nothing but white space.
pub fn blank_line(line: &[char]) -> (blank: bool)
    ensures
        blank == is_blank(line@),
{
    for i in 0..line.len()
        invariant
            forall|k: int| 0 <= k < i ==> is_space(#[trigger] line@[k]),
    {
        if !is_whitespace(line[i]) {
            return false;
        }
    }
    true
}

/// The line tells the size of an image: it holds the sign between width
/// and height, and a unit of file size.
pub open spec fn is_size_note(line: Seq<char>) -> bool {
    line.contains(TIMES_SIGN) && (holds(line, " KB"@) || holds(line, " MB"@) || holds(
        line,
        " GB"@,
    ) || holds(line, " B "@))
}

/// Tells whether the characters hold the given one.
pub fn holds_char(line: &[char], c: char) -> (found: bool)
    ensures
        found == line@.contains(c),
{
    for i in 0..line.len()
        invariant
            forall|k: int| 0 <= k < i ==> line@[k] != c,
    {
        if line[i] == c {
            return true;
        }
    }
    false
}

/// Tells whether the characters tell the size of an image.
pub fn size_note(line: &[char]) -> (note: bool)
    ensures
        note == is_size_note(line@),
{
    if !holds_char(line, TIMES_SIGN) {
        return false;
    }
    let kb = to_chars(" KB");
    let mb = to_chars(" MB");
    let gb = to_chars(" GB");
    let b = to_chars(" B ");
    contains_text(line, kb.as_slice()) || contains_text(line, mb.as_slice()) || contains_text(
        line,
        gb.as_slice(),
    ) || contains_text(line, b.as_slice())
}

/// Tells whether a line of text tells the size of an image.
pub fn is_image_size_info(line: &str) -> (note: bool)
    ensures
        note == is_size_note(line@),
{
    let chars = to_chars(line);
    size_note(chars.as_slice())
}

/// Replaces every occurrence of one text in another.
pub fn replace_text(text: Vec<char>, from: &str, to: &str) -> (result: Vec<char>)
    ensures
        result@ == replaced(text@, from@, to@),
{
    let pattern = to_chars(from);
    let replacement = to_chars(to);
    replace_all(text.as_slice(), pattern.as_slice(), replacement.as_slice())
}

/// The markup with its line breaks and paragraphs turned into line breaks,
/// its marks of emphasis taken out and its named characters written out,
/// in this order.
pub open spec fn unescaped(markup: Seq<char>) -> Seq<char> {
    let breaks = replaced(
        replaced(replaced(markup, "<br>"@, "\n"@), "<br/>"@, "\n"@),
        "<br />"@,
        "\n"@,
    );
    let paragraphs = replaced(replaced(breaks, "<p>"@, ""@), "</p>"@, "\n"@);
    let strong = replaced(replaced(paragraphs, "<strong>"@, ""@), "</strong>"@, ""@);
    let emphasis = replaced(replaced(strong, "<em>"@, ""@), "</em>"@, ""@);
    let spaces = replaced(emphasis, "&nbsp;"@, " "@);
    let angles = replaced(replaced(spaces, "&lt;"@, "<"@), "&gt;"@, ">"@);
    let quotes = replaced(replaced(angles, "&quot;"@, "\""@), "&apos;"@, "'"@);
    replaced(quotes, "&amp;"@, "&"@)
}

/// Turns line breaks and paragraphs into line breaks, takes the marks of
/// emphasis out and writes the named characters out.
pub fn unescape(markup: Vec<char>) -> (text: Vec<char>)
    ensures
        text@ == unescaped(markup@),
{
    let text = replace_text(markup, "<br>", "\n");
    let text = replace_text(text, "<br/>", "\n");
    let text = replace_text(text, "<br />", "\n");
    let text = replace_text(text, "<p>", "");
    let text = replace_text(text, "</p>", "\n");
    let text = replace_text(text, "<strong>", "");
    let text = replace_text(text, "</strong>", "");
    let text = replace_text(text, "<em>", "");
    let text = replace_text(text, "</em>", "");
    let text = replace_text(text, "&nbsp;", " ");
    let text = replace_text(text, "&lt;", "<");
    let text = replace_text(text, "&gt;", ">");
    let text = replace_text(text, "&quot;", "\"");
    let text = replace_text(text, "&apos;", "'");
    replace_text(text, "&amp;", "&")
}

/// The text of a post: its markup unescaped and without tags.
pub open spec fn content_text(markup: Seq<char>) -> Seq<char> {
    without_tags(unescaped(markup))
}

/// The lines of a post that are shown: those of its text, runs of line
/// breaks taken as one, without the lines that tell the size of an image.
pub open spec fn shown_lines(markup: Seq<char>) -> Seq<Seq<char>> {
    split_on(single_newlines(content_text(markup)), '\n').filter(
        |line: Seq<char>| !is_size_note(line),
    )
}

/// The text of a post, made ready to be shown.
pub struct PostText {
    /// The lines that are shown.
    pub lines: Vec<String>,
    /// The number of lines of the text, before runs of line breaks were
    /// shortened: the measure against which images are placed.
    pub total_lines: usize,
    /// The number of lines after runs of line breaks were shortened,
    /// those that tell the size of an image included.
    pub piece_count: usize,
    /// The length of the text in bytes after runs of line breaks were shortened.
    pub byte_len: usize,
}

/// The texts of a list of strings.
pub open spec fn string_views(strings: Seq<String>) -> Seq<Seq<char>> {
    strings.map_values(|line: String| line@)
}

/// Makes the text of a post ready to be shown.
pub fn post_text(cooked: &str) -> (text: PostText)
    ensures
        string_views(text.lines@) == shown_lines(cooked@),
        text.total_lines == line_count(content_text(cooked@)),
        text.piece_count == split_on(single_newlines(content_text(cooked@)), '\n').len(),
        text.byte_len == encode_utf8(single_newlines(content_text(cooked@))).len(),
{
    let content = strip_tags(unescape(to_chars(cooked)).as_slice());
    let total_lines = count_lines(content.as_slice());
    let collapsed = collapse_newlines(content.as_slice());
    let pieces = split_text(collapsed.as_slice(), '\n');
    let mut lines: Vec<String> = Vec::new();
    let ghost all = line_views(pieces@);
    let ghost keep = |line: Seq<char>| !is_size_note(line);
    proof {
        reveal(Seq::filter);
        assert(all.take(0) =~= Seq::empty());
        assert(string_views(lines@) =~= all.take(0).filter(keep));
    }
    for i in 0..pieces.len()
        invariant
            all == line_views(pieces@),
            keep == |line: Seq<char>| !is_size_note(line),
            string_views(lines@) == all.take(i as int).filter(keep),
    {
        proof {
            assert(all.take(i + 1) =~= all.take(i as int).push(all[i as int]));
            all.take(i as int).lemma_filter_push(all[i as int], keep);
        }
        let ghost before = lines@;
        if !size_note(pieces[i].as_slice()) {
            lines.push(from_chars(pieces[i].as_slice()));
            assert(string_views(lines@) =~= string_views(before).push(pieces@[i as int]@));
        }
    }
    assert(all.take(pieces.len() as int) =~= all);
    let whole = from_chars(collapsed.as_slice());
    PostText {
        lines,
        total_lines,
        piece_count: pieces.len(),
        byte_len: whole.as_str().as_bytes().len(),
    }
}

/// Turns the markup of a post into its text.
pub fn clean_markup(cooked: &str) -> (text: String)
    ensures
        text@ == content_text(cooked@),
{
    let content = strip_tags(unescape(to_chars(cooked)).as_slice());
    from_chars(content.as_slice())
}

/// One line of a post as it is shown in full.
#[derive(Debug, PartialEq)]
pub enum DisplayLine {
    /// An empty line.
    Blank,
    /// A line of the text.
    Text(String),
    /// The marker of an image: its index among the stored images of the
    /// post, and whether it is the highlighted one.
    ImageButton { index: usize, selected: bool },
}

/// What a `DisplayLine` stands for.
pub enum DisplayModel {
    Blank,
    Text(Seq<char>),
    ImageButton { index: int, selected: bool },
}

impl View for DisplayLine {
    type V = DisplayModel;

    open spec fn view(&self) -> DisplayModel {
        match self {
            DisplayLine::Blank => DisplayModel::Blank,
            DisplayLine::Text(text) => DisplayModel::Text(text@),
            DisplayLine::ImageButton { index, selected } => DisplayModel::ImageButton {
                index: *index as int,
                selected: *selected,
            },
        }
    }
}

/// The models of a list of lines.
pub open spec fn display_views(lines: Seq<DisplayLine>) -> Seq<DisplayModel> {
    lines.map_values(|line: DisplayLine| line@)
}

/// A marker stands right above the line `i`, given that `above` markers
/// stand above the lines before it: the line is not blank, a marker is
/// left, and the line has reached the place of the next one.
pub open spec fn marker_due_after(
    lines: Seq<Seq<char>>,
    positions: Seq<int>,
    i: int,
    above: int,
) -> bool {
    !is_blank(lines[i]) && 0 <= above < positions.len() && i >= positions[above]
}

/// The number of markers that stand above the line `n`, its own not counted.
pub open spec fn markers_above(lines: Seq<Seq<char>>, positions: Seq<int>, n: int) -> int
    decreases n,
{
    if n <= 0 {
        0
    } else {
        let above = markers_above(lines, positions, n - 1);
        if marker_due_after(lines, positions, n - 1, above) {
            above + 1
        } else {
            above
        }
    }
}

/// A marker stands right above the line `i`.
pub open spec fn marker_due(lines: Seq<Seq<char>>, positions: Seq<int>, i: int) -> bool {
    marker_due_after(lines, positions, i, markers_above(lines, positions, i))
}

/// The first `n` lines of a post with the markers of its images put in.
pub open spec fn laid_out(
    lines: Seq<Seq<char>>,
    positions: Seq<int>,
    selected: Option<int>,
    n: int,
) -> Seq<DisplayModel>
    decreases n,
{
    if n <= 0 {
        Seq::empty()
    } else {
        let before = laid_out(lines, positions, selected, n - 1);
        let line = lines[n - 1];
        let above = markers_above(lines, positions, n - 1);
        if is_blank(line) {
            before.push(DisplayModel::Blank)
        } else if marker_due(lines, positions, n - 1) {
            before.push(
                DisplayModel::ImageButton { index: above, selected: selected == Some(above) },
            ).push(DisplayModel::Text(line))
        } else {
            before.push(DisplayModel::Text(line))
        }
    }
}

/// The lines at which the markers stand.
pub open spec fn hint_lines(hints: Seq<PlacementHint>) -> Seq<int> {
    hints.map_values(|hint: PlacementHint| hint.line as int)
}

/// Puts the markers of the images between the lines of a post. A marker
/// stands above the first line that is not blank at or below its place;
/// no line has more than one marker above it, and markers for which no
/// such line is left are not shown.
pub fn layout_post(
    lines: &Vec<String>,
    hints: &Vec<PlacementHint>,
    selected: Option<usize>,
) -> (shown: Vec<DisplayLine>)
    ensures
        display_views(shown@) == laid_out(
            string_views(lines@),
            hint_lines(hints@),
            index_view(selected),
            lines@.len() as int,
        ),
{
    let mut shown: Vec<DisplayLine> = Vec::new();
    let mut next: usize = 0;
    let ghost texts = string_views(lines@);
    let ghost positions = hint_lines(hints@);
    let ghost chosen = index_view(selected);
    assert(display_views(shown@) =~= Seq::empty());
    for i in 0..lines.len()
        invariant
            texts == string_views(lines@),
            positions == hint_lines(hints@),
            chosen == index_view(selected),
            next == markers_above(texts, positions, i as int),
            next <= i,
            next <= hints@.len(),
            display_views(shown@) == laid_out(texts, positions, chosen, i as int),
    {
        let ghost before = shown@;
        let chars = to_chars(lines[i].as_str());
        if blank_line(chars.as_slice()) {
            shown.push(DisplayLine::Blank);
            assert(display_views(shown@) =~= display_views(before).push(DisplayModel::Blank));
        } else {
            if next < hints.len() && i >= hints[next].line {
                let is_selected = match selected {
                    Some(index) => index == next,
                    None => false,
                };
                shown.push(DisplayLine::ImageButton { index: next, selected: is_selected });
                shown.push(DisplayLine::Text(lines[i].clone()));
                assert(display_views(shown@) =~= display_views(before).push(
                    DisplayModel::ImageButton { index: next as int, selected: is_selected },
                ).push(DisplayModel::Text(texts[i as int])));
                next += 1;
            } else {
                shown.push(DisplayLine::Text(lines[i].clone()));
                assert(display_views(shown@) =~= display_views(before).push(
                    DisplayModel::Text(texts[i as int]),
                ));
            }
        }
    }
    shown
}

/// How far a post can be scrolled: by the lines that do not fit the view.
pub open spec fn scroll_limit(content_height: int, visible_height: int) -> int {
    if content_height > visible_height {
        content_height - visible_height
    } else {
        0
    }
}

/// The scroll position that is shown: the asked one, held at the limit.
pub fn clamp_scroll(post_scroll: u16, content_height: usize, visible_height: u16) -> (shown: u16)
    ensures
        shown == smaller(
            post_scroll as int,
            scroll_limit(content_height as int, visible_height as int),
        ),
{
    let limit: usize = if content_height > visible_height as usize {
        content_height - visible_height as usize
    } else {
        0
    };
    if (post_scroll as usize) < limit {
        post_scroll
    } else {
        limit as u16
    }
}

/// The number of lines with which a post is shown in the list of posts.
pub const PREVIEW_LINES: usize = 5;

/// A line cut into rows of `width` characters, the last one shorter if it
/// comes to that. With no width at all, the rows are empty and as many as
/// a preview takes.
pub open spec fn chunks(line: Seq<char>, width: int) -> Seq<Seq<char>>
    decreases line.len(),
{
    if line.len() == 0 {
        Seq::empty()
    } else if width <= 0 {
        Seq::new(PREVIEW_LINES as nat, |i: int| Seq::<char>::empty())
    } else if line.len() <= width {
        seq![line]
    } else {
        seq![line.subrange(0, width)] + chunks(line.subrange(width, line.len() as int), width)
    }
}

/// The rows that one line takes in the list of posts: one empty row if
/// it is blank, the line cut into rows if its bytes outnumber the width,
/// the line itself otherwise.
pub open spec fn rows_of(line: Seq<char>, width: int) -> Seq<Seq<char>> {
    if is_blank(line) {
        seq![Seq::empty()]
    } else if encode_utf8(line).len() > width {
        chunks(line, width)
    } else {
        seq![line]
    }
}

/// The rows that the lines take, one line after the other.
pub open spec fn all_rows(lines: Seq<Seq<char>>, width: int) -> Seq<Seq<char>>
    decreases lines.len(),
{
    if lines.len() == 0 {
        Seq::empty()
    } else {
        all_rows(lines.drop_last(), width) + rows_of(lines.last(), width)
    }
}

/// The first `limit` of the rows, or all of them if they are fewer.
pub open spec fn first_rows(rows: Seq<Seq<char>>, limit: int) -> Seq<Seq<char>> {
    if rows.len() <= limit {
        rows
    } else {
        rows.subrange(0, limit)
    }
}

/// The rows of fewer lines are the first of the rows of all lines.
pub proof fn lemma_rows_grow(lines: Seq<Seq<char>>, width: int, n: int)
    requires
        0 <= n <= lines.len(),
    ensures
        all_rows(lines.take(n), width).is_prefix_of(all_rows(lines, width)),
    decreases lines.len() - n,
{
    if n == lines.len() {
        assert(lines.take(n) =~= lines);
    } else {
        lemma_rows_grow(lines, width, n + 1);
        assert(lines.take(n + 1).drop_last() =~= lines.take(n));
        let shorter = all_rows(lines.take(n), width);
        let longer = all_rows(lines.take(n + 1), width);
        let all = all_rows(lines, width);
        assert(longer == shorter + rows_of(lines.take(n + 1).last(), width));
        assert(shorter.is_prefix_of(longer));
        assert(shorter =~= all.subrange(0, shorter.len() as int)) by {
            assert(longer =~= all.subrange(0, longer.len() as int));
        }
    }
}

/// Cuts a line into rows of `width` characters.
pub fn wrap_line(line: &[char], width: usize) -> (rows: Vec<Vec<char>>)
    ensures
        line_views(rows@) == chunks(line@, width as int),
{
    let mut rows: Vec<Vec<char>> = Vec::new();
    if line.len() == 0 {
        assert(line_views(rows@) =~= Seq::empty());
        return rows;
    }
    if width == 0 {
        for i in 0..PREVIEW_LINES
            invariant
                rows@.len() == i,
                forall|k: int| 0 <= k < i ==> (#[trigger] rows@[k])@ == Seq::<char>::empty(),
        {
            rows.push(Vec::new());
        }
        assert(line_views(rows@) =~= chunks(line@, 0));
        return rows;
    }
    let mut at: usize = 0;
    assert(line@.subrange(0, line@.len() as int) =~= line@);
    assert(line_views(rows@) =~= Seq::empty());
    while line.len() - at > width
        invariant
            at < line.len(),
            width > 0,
            chunks(line@, width as int) == line_views(rows@) + chunks(
                line@.subrange(at as int, line@.len() as int),
                width as int,
            ),
        decreases line.len() - at,
    {
        let ghost rest = line@.subrange(at as int, line@.len() as int);
        let ghost before = rows@;
        let piece = vstd::slice::slice_subrange(line, at, at + width);
        let mut row: Vec<char> = Vec::new();
        row.extend_from_slice(piece);
        assert(row@ =~= rest.subrange(0, width as int));
        rows.push(row);
        at += width;
        assert(rest.subrange(width as int, rest.len() as int) =~= line@.subrange(
            at as int,
            line@.len() as int,
        ));
        assert(line_views(rows@) =~= line_views(before).push(rest.subrange(0, width as int)));
        assert(line_views(rows@) + chunks(
            line@.subrange(at as int, line@.len() as int),
            width as int,
        ) =~= line_views(before) + (seq![rest.subrange(0, width as int)] + chunks(
            line@.subrange(at as int, line@.len() as int),
            width as int,
        )));
    }
    let ghost rest = line@.subrange(at as int, line@.len() as int);
    let ghost before = rows@;
    let piece = vstd::slice::slice_subrange(line, at, line.len());
    let mut row: Vec<char> = Vec::new();
    row.extend_from_slice(piece);
    assert(row@ =~= rest);
    rows.push(row);
    assert(line_views(rows@) =~= line_views(before) + seq![rest]);
    rows
}

/// A post as the list of posts shows it.
pub struct Preview {
    /// The first rows of the post, `PREVIEW_LINES` at most.
    pub rows: Vec<String>,
    /// Whether the post has more to show than these rows.
    pub truncated: bool,
}

/// The post has more to show than `rows` rows of `width` bytes: more
/// lines, or more bytes.
pub open spec fn is_truncated(piece_count: int, byte_len: int, rows: int, width: int) -> bool {
    piece_count > rows || byte_len > width * rows
}

/// The rows that one line takes in the list of posts.
pub fn line_rows(line: &str, width: usize) -> (rows: Vec<Vec<char>>)
    ensures
        line_views(rows@) == rows_of(line@, width as int),
{
    let chars = to_chars(line);
    let mut rows: Vec<Vec<char>> = Vec::new();
    if blank_line(chars.as_slice()) {
        rows.push(Vec::new());
        assert(line_views(rows@) =~= seq![Seq::<char>::empty()]);
        rows
    } else if line.as_bytes().len() > width {
        wrap_line(chars.as_slice(), width)
    } else {
        rows.push(chars);
        assert(line_views(rows@) =~= seq![line@]);
        rows
    }
}

/// Shows a post as the list of posts does: by its first rows.
pub fn preview(text: &PostText, width: usize) -> (shown: Preview)
    ensures
        string_views(shown.rows@) == first_rows(
            all_rows(string_views(text.lines@), width as int),
            PREVIEW_LINES as int,
        ),
        shown.truncated == is_truncated(
            text.piece_count as int,
            text.byte_len as int,
            shown.rows@.len() as int,
            width as int,
        ),
{
    let mut rows: Vec<String> = Vec::new();
    let ghost lines = string_views(text.lines@);
    let ghost wide = width as int;
    let mut i: usize = 0;
    assert(lines.take(0) =~= Seq::empty());
    assert(string_views(rows@) =~= Seq::empty());
    while i < text.lines.len() && rows.len() < PREVIEW_LINES
        invariant
            i <= text.lines@.len(),
            lines == string_views(text.lines@),
            wide == width as int,
            rows@.len() <= PREVIEW_LINES,
            string_views(rows@) == first_rows(
                all_rows(lines.take(i as int), wide),
                PREVIEW_LINES as int,
            ),
        decreases text.lines@.len() - i,
    {
        let added = line_rows(text.lines[i].as_str(), width);
        let ghost base = all_rows(lines.take(i as int), wide);
        let ghost more = line_views(added@);
        proof {
            assert(lines.take(i + 1).drop_last() =~= lines.take(i as int));
            assert(all_rows(lines.take(i + 1), wide) == base + more);
            assert(string_views(rows@) == base);
        }
        let mut k: usize = 0;
        while k < added.len() && rows.len() < PREVIEW_LINES
            invariant
                k <= added@.len(),
                more == line_views(added@),
                rows@.len() <= PREVIEW_LINES,
                string_views(rows@) == first_rows(
                    base + more.subrange(0, k as int),
                    PREVIEW_LINES as int,
                ),
                rows@.len() < PREVIEW_LINES ==> string_views(rows@) == base + more.subrange(
                    0,
                    k as int,
                ),
            decreases added@.len() - k,
        {
            let ghost before = rows@;
            rows.push(from_chars(added[k].as_slice()));
            k += 1;
            assert(string_views(rows@) =~= string_views(before).push(more[k - 1]));
            assert(base + more.subrange(0, k as int) =~= (base + more.subrange(0, k - 1)).push(
                more[k - 1],
            ));
        }
        proof {
            if k < added@.len() {
                let partial = base + more.subrange(0, k as int);
                let full = base + more;
                assert(partial.len() >= PREVIEW_LINES);
                assert(first_rows(partial, PREVIEW_LINES as int) =~= first_rows(
                    full,
                    PREVIEW_LINES as int,
                ));
            } else {
                assert(more.subrange(0, k as int) =~= more);
            }
        }
        i += 1;
    }
    proof {
        let partial = all_rows(lines.take(i as int), wide);
        let full = all_rows(lines, wide);
        lemma_rows_grow(lines, wide, i as int);
        if i < text.lines@.len() {
            assert(first_rows(partial, PREVIEW_LINES as int) =~= first_rows(
                full,
                PREVIEW_LINES as int,
            ));
        } else {
            assert(lines.take(i as int) =~= lines);
        }
    }
    let count = rows.len();
    assert(width * count <= usize::MAX * 5) by (nonlinear_arith)
        requires
            0 <= width <= usize::MAX,
            0 <= count <= 5,
    ;
    let truncated = text.piece_count > count || (text.byte_len as u128) > (width as u128) * (
    count as u128);
    Preview { rows, truncated }
}

/// The places of the markers of a post: of its stored images, measured
/// against the bytes of its markup and the lines of its text.
pub open spec fn marker_hints(markup: Seq<char>, cache: CacheModel) -> Seq<HintModel> {
    placement(
        stored_references(references_of(markup), cache),
        encode_utf8(markup).len() as int,
        line_count(content_text(markup)),
    )
}

/// The markers of a post stand on lines of its text, and follow one
/// another down the text.
pub proof fn lemma_markers_follow_the_text(markup: Seq<char>, cache: CacheModel)
    ensures
        lines_in_range(marker_hints(markup, cache), line_count(content_text(markup))),
        lines_non_decreasing(marker_hints(markup, cache)),
{
    let bytes = encode_utf8(markup);
    let length = bytes.len() as int;
    let total = line_count(content_text(markup));
    let references = references_of(markup);
    let stored = stored_references(references, cache);
    lemma_references_in_document_order(bytes, qualifying(selected_sources(markup)));
    lemma_stored_offsets_in_order(references, cache, length);
    assert(offsets_are_natural(stored));
    assert(known_offsets_ordered(stored));
    lemma_lines_in_range(stored, length, total);
    lemma_lines_non_decreasing(stored, length, total);
}

/// The lines at which the markers stand.
pub open spec fn model_lines(hints: Seq<HintModel>) -> Seq<int> {
    hints.map_values(|hint: HintModel| hint.line)
}

/// A post as it is shown in full: the lines of its text, with the markers
/// of its stored images where the markup suggests them.
pub open spec fn full_view(markup: Seq<char>, cache: CacheModel, selected: Option<int>) -> Seq<
    DisplayModel,
> {
    laid_out(
        shown_lines(markup),
        model_lines(marker_hints(markup, cache)),
        selected,
        shown_lines(markup).len() as int,
    )
}

/// Decides where the markers of the stored images of a post stand.
pub fn place_markers(cooked: &str, cache: &ImageCache, total_lines: usize) -> (hints: Vec<
    PlacementHint,
>)
    ensures
        hint_views(hints@) == placement(
            stored_references(references_of(cooked@), cache@),
            encode_utf8(cooked@).len() as int,
            total_lines as int,
        ),
        lines_in_range(hint_views(hints@), total_lines as int),
        lines_non_decreasing(hint_views(hints@)),
{
    let references = extract_image_references(cooked);
    let stored = available_references(&references, cache);
    proof {
        lemma_stored_offsets_in_order(
            reference_views(references@),
            cache@,
            cooked.spec_bytes().len() as int,
        );
        assert(known_offsets_ordered(reference_views(stored@)));
    }
    place_references(&stored, cooked.as_bytes().len(), total_lines)
}

/// Makes a post ready to be shown in full.
pub fn full_post(cooked: &str, cache: &ImageCache, selected: Option<usize>) -> (shown: Vec<
    DisplayLine,
>)
    ensures
        display_views(shown@) == full_view(
            cooked@,
            cache@,
            index_view(selected),
        ),
{
    let text = post_text(cooked);
    let hints = place_markers(cooked, cache, text.total_lines);
    assert(hint_lines(hints@) =~= model_lines(hint_views(hints@)));
    layout_post(&text.lines, &hints, selected)
}

} // verus!
