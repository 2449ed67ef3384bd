//! Small decisions of the screen: colors, tabs, and the frame of an image.

use vstd::prelude::*;
use vstd::string::StringExecFns;
use crate::app::AppTab;
use crate::placement::smaller;
use crate::text::{find_last, last_position, text_is, to_chars};

verus! {

/// The colors that a category can be shown in.
#[derive(Clone, Copy, Debug, PartialEq, Eq, Structural)]
pub enum NamedColor {
    Red,
    Green,
    Blue,
    Yellow,
    Magenta,
    Cyan,
    White,
    Gray,
}

/// `text` without the run of `c` that it begins with.
pub open spec fn without_leading(text: Seq<char>, c: char) -> Seq<char>
    decreases text.len(),
{
    if text.len() > 0 && text[0] == c {
        without_leading(text.subrange(1, text.len() as int), c)
    } else {
        text
    }
}

/// The color that a color code of the forum is shown in: one of seven
/// plain colors for its code, gray for any other. Number signs before
/// the code do not count.
pub open spec fn color_of(code: Seq<char>) -> NamedColor {
    let hex = without_leading(code, '#');
    if hex == "ff0000"@ {
        NamedColor::Red
    } else if hex == "00ff00"@ {
        NamedColor::Green
    } else if hex == "0000ff"@ {
        NamedColor::Blue
    } else if hex == "ffff00"@ {
        NamedColor::Yellow
    } else if hex == "ff00ff"@ {
        NamedColor::Magenta
    } else if hex == "00ffff"@ {
        NamedColor::Cyan
    } else if hex == "ffffff"@ {
        NamedColor::White
    } else {
        NamedColor::Gray
    }
}

/// Reads the color of a category.
pub fn parse_color(color_str: &str) -> (color: NamedColor)
    ensures
        color == color_of(color_str@),
{
    let chars = to_chars(color_str);
    let mut start: usize = 0;
    assert(chars@.subrange(0, chars@.len() as int) =~= chars@);
    while start < chars.len() && chars[start] == '#'
        invariant
            start <= chars@.len(),
            without_leading(chars@, '#') == without_leading(
                chars@.subrange(start as int, chars@.len() as int),
                '#',
            ),
        decreases chars@.len() - start,
    {
        assert(chars@.subrange(start as int, chars@.len() as int).subrange(
            1,
            chars@.len() - start,
        ) =~= chars@.subrange(start + 1, chars@.len() as int));
        start += 1;
    }
    let hex = vstd::slice::slice_subrange(chars.as_slice(), start, chars.len());
    if text_is(hex, "ff0000") {
        NamedColor::Red
    } else if text_is(hex, "00ff00") {
        NamedColor::Green
    } else if text_is(hex, "0000ff") {
        NamedColor::Blue
    } else if text_is(hex, "ffff00") {
        NamedColor::Yellow
    } else if text_is(hex, "ff00ff") {
        NamedColor::Magenta
    } else if text_is(hex, "00ffff") {
        NamedColor::Cyan
    } else if text_is(hex, "ffffff") {
        NamedColor::White
    } else {
        NamedColor::Gray
    }
}

/// The tab that is marked for a page: its own for the four pages that
/// have one, the tab of the topics for the others.
pub fn selected_tab(tab: &AppTab) -> (index: usize)
    ensures
        index == match tab {
            AppTab::Home => 0usize,
            AppTab::Topics => 1usize,
            AppTab::Categories => 2usize,
            AppTab::Settings => 3usize,
            _ => 1usize,
        },
{
    match tab {
        AppTab::Home => 0,
        AppTab::Topics => 1,
        AppTab::Categories => 2,
        AppTab::Settings => 3,
        _ => 1,
    }
}

/// The entry of a list of posts that is shown as chosen: the one under
/// the cursor, the first one if the cursor is beyond the list, none if
/// the list is empty.
pub fn visible_cursor(selected_index: usize, count: usize) -> (shown: Option<usize>)
    ensures
        shown == if count == 0 {
            None
        } else if selected_index >= count {
            Some(0usize)
        } else {
            Some(selected_index)
        },
{
    if count == 0 {
        None
    } else if selected_index >= count {
        Some(0)
    } else {
        Some(selected_index)
    }
}

/// The share of the screen, in percent of its width and of its height,
/// that the frame of an image takes: more of a large screen.
pub fn image_frame_percent(screen_width: u16, screen_height: u16) -> (percent: (u16, u16))
    ensures
        percent.0 == if screen_width > 100 {
            90int
        } else {
            80int
        },
        percent.1 == if screen_height > 50 {
            80int
        } else {
            70int
        },
{
    (
        if screen_width > 100 {
            90
        } else {
            80
        },
        if screen_height > 50 {
            80
        } else {
            70
        },
    )
}

/// The rows below an image that are kept for its address.
pub const LINK_ROWS: u16 = 8;

/// The height that is left for an image in a frame of the given inner height.
pub fn image_rows(inner_height: u16) -> (rows: u16)
    ensures
        rows == if inner_height > LINK_ROWS {
            inner_height - LINK_ROWS
        } else {
            0
        },
{
    if inner_height > LINK_ROWS {
        inner_height - LINK_ROWS
    } else {
        0
    }
}

/// The smallest width in which an image is drawn.
pub const MIN_IMAGE_WIDTH: u16 = 10;

/// The smallest height in which an image is drawn.
pub const MIN_IMAGE_HEIGHT: u16 = 5;

/// Tells whether an area is too small for an image to be drawn in it.
pub fn too_small_for_image(width: u16, height: u16) -> (small: bool)
    ensures
        small == (width < MIN_IMAGE_WIDTH || height < MIN_IMAGE_HEIGHT),
{
    width < MIN_IMAGE_WIDTH || height < MIN_IMAGE_HEIGHT
}

/// The formats of image files that are told by the name of the file.
#[derive(Clone, Copy, Debug, PartialEq, Eq, Structural)]
pub enum ImageKind {
    Jpeg,
    Png,
    Gif,
    WebP,
    Bmp,
    Ico,
    Tiff,
}

/// What follows the last dot of the last part of a path; nothing if that
/// part has no dot, or none but its first character.
pub open spec fn path_extension(path: Seq<char>) -> Seq<char> {
    let name = match last_position(path, '/') {
        Some(at) => path.subrange(at + 1, path.len() as int),
        None => path,
    };
    match last_position(name, '.') {
        Some(at) => if at > 0 {
            name.subrange(at + 1, name.len() as int)
        } else {
            Seq::empty()
        },
        None => Seq::empty(),
    }
}

/// The format that the extension of a file stands for, if it is a known one.
pub open spec fn kind_of_extension(extension: Seq<char>) -> Option<ImageKind> {
    if extension == "jpg"@ || extension == "jpeg"@ {
        Some(ImageKind::Jpeg)
    } else if extension == "png"@ {
        Some(ImageKind::Png)
    } else if extension == "gif"@ {
        Some(ImageKind::Gif)
    } else if extension == "webp"@ {
        Some(ImageKind::WebP)
    } else if extension == "bmp"@ {
        Some(ImageKind::Bmp)
    } else if extension == "ico"@ {
        Some(ImageKind::Ico)
    } else if extension == "tiff"@ || extension == "tif"@ {
        Some(ImageKind::Tiff)
    } else {
        None
    }
}

/// Tells the format of an image file by the extension of its path. Where
/// it tells none, the format is to be guessed from the bytes of the file.
pub fn image_kind(path: &str) -> (kind: Option<ImageKind>)
    ensures
        kind == kind_of_extension(path_extension(path@)),
{
    let chars = to_chars(path);
    let length = chars.len();
    let start: usize = match find_last(chars.as_slice(), '/') {
        Some(at) => at + 1,
        None => 0,
    };
    let name = vstd::slice::slice_subrange(chars.as_slice(), start, length);
    assert(name@ == match last_position(path@, '/') {
        Some(at) => path@.subrange(at + 1, path@.len() as int),
        None => path@,
    });
    let from: usize = match find_last(name, '.') {
        Some(at) => if at > 0 {
            at + 1
        } else {
            name.len()
        },
        None => name.len(),
    };
    let extension = vstd::slice::slice_subrange(name, from, name.len());
    assert(extension@ =~= path_extension(path@));
    if text_is(extension, "jpg") || text_is(extension, "jpeg") {
        Some(ImageKind::Jpeg)
    } else if text_is(extension, "png") {
        Some(ImageKind::Png)
    } else if text_is(extension, "gif") {
        Some(ImageKind::Gif)
    } else if text_is(extension, "webp") {
        Some(ImageKind::WebP)
    } else if text_is(extension, "bmp") {
        Some(ImageKind::Bmp)
    } else if text_is(extension, "ico") {
        Some(ImageKind::Ico)
    } else if text_is(extension, "tiff") || text_is(extension, "tif") {
        Some(ImageKind::Tiff)
    } else {
        None
    }
}

/// How an image is to be drawn.
#[derive(Debug)]
pub struct ImageWidget {
    /// The file of the image.
    pub path: String,
    /// The largest width to draw it in, if there is a limit.
    pub max_width: Option<u16>,
    /// The largest height to draw it in, if there is a limit.
    pub max_height: Option<u16>,
    /// Whether the image keeps its proportions.
    pub maintain_aspect_ratio: bool,
}

impl ImageWidget {
    /// An image that is drawn as large as its area, in its proportions.
    pub fn new(path: &str) -> (widget: Self)
        ensures
            widget.path@ == path@,
            widget.max_width is None,
            widget.max_height is None,
            widget.maintain_aspect_ratio,
    {
        ImageWidget {
            path: String::from_str(path),
            max_width: None,
            max_height: None,
            maintain_aspect_ratio: true,
        }
    }

    /// The same image, no wider than `width`.
    pub fn max_width(self, width: u16) -> (widget: Self)
        ensures
            widget.max_width == Some(width),
            widget.path == self.path,
            widget.max_height == self.max_height,
            widget.maintain_aspect_ratio == self.maintain_aspect_ratio,
    {
        ImageWidget { max_width: Some(width), ..self }
    }

    /// The same image, no higher than `height`.
    pub fn max_height(self, height: u16) -> (widget: Self)
        ensures
            widget.max_height == Some(height),
            widget.path == self.path,
            widget.max_width == self.max_width,
            widget.maintain_aspect_ratio == self.maintain_aspect_ratio,
    {
        ImageWidget { max_height: Some(height), ..self }
    }

    /// The same image, keeping its proportions or not.
    pub fn maintain_aspect_ratio(self, maintain: bool) -> (widget: Self)
        ensures
            widget.maintain_aspect_ratio == maintain,
            widget.path == self.path,
            widget.max_width == self.max_width,
            widget.max_height == self.max_height,
    {
        ImageWidget { maintain_aspect_ratio: maintain, ..self }
    }
}

/// The column at which a message of `message_len` bytes begins that is
/// centered in an area, and the row in the middle of the area. A message
/// wider than the area begins at its left edge.
pub fn message_position(
    area_x: u16,
    area_y: u16,
    area_width: u16,
    area_height: u16,
    message_len: usize,
) -> (position: (u16, u16))
    ensures
        position.0 == smaller(
            area_x + (if message_len < area_width {
                area_width - message_len
            } else {
                0
            }) / 2,
            u16::MAX as int,
        ),
        position.1 == smaller(area_y + area_height / 2, u16::MAX as int),
{
    let free: u16 = if message_len < area_width as usize {
        area_width - message_len as u16
    } else {
        0
    };
    let x: u32 = area_x as u32 + (free / 2) as u32;
    let y: u32 = area_y as u32 + (area_height / 2) as u32;
    (
        if x < u16::MAX as u32 {
            x as u16
        } else {
            u16::MAX
        },
        if y < u16::MAX as u32 {
            y as u16
        } else {
            u16::MAX
        },
    )
}

} // verus!
