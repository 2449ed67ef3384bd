//! Extraction of image references from the markup of a post.
//!
//! The markup is parsed by the `scraper` crate; which of the image elements
//! qualify, in which order they are numbered and where each one stands in
//! the markup is decided here.

use vstd::prelude::*;
use vstd::string::StringSliceAdditionalSpecFns;
use vstd::utf8::encode_utf8;
use crate::scan::{
    find_byte, first_byte, first_where, lemma_first_where_found, lemma_first_where_is,
    lemma_first_where_none, matches_at, occurs_at,
};

verus! {

/// Selects the image elements that are neither avatars nor icons.
pub const IMAGE_SELECTOR: &'static str = "img:not(.avatar):not(.icon)";

/// Selects every image element; used if `IMAGE_SELECTOR` is not accepted.
pub const PLAIN_SELECTOR: &'static str = "img";

/// The attribute that holds the address of an image.
pub const SOURCE_ATTRIBUTE: &'static str = "src";

/// One qualifying image of a document.
#[derive(Debug)]
pub struct ImageReference {
    /// The address of the image, as the markup gives it.
    pub url: String,
    /// Position among the qualifying images of the document, from 0.
    pub ordinal: usize,
    /// Byte offset in the markup of an image tag that is written with this
    /// address, where one was found behind the tags of the references before.
    pub raw_offset: Option<usize>,
}

/// What an `ImageReference` stands for.
pub struct ReferenceModel {
    pub url: Seq<char>,
    pub ordinal: int,
    pub raw_offset: Option<int>,
}

impl View for ImageReference {
    type V = ReferenceModel;

    open spec fn view(&self) -> ReferenceModel {
        ReferenceModel {
            url: self.url@,
            ordinal: self.ordinal as int,
            raw_offset: match self.raw_offset {
                Some(offset) => Some(offset as int),
                None => None,
            },
        }
    }
}

impl Clone for ImageReference {
    fn clone(&self) -> (copy: Self)
        ensures
            copy@ == self@,
    {
        ImageReference { url: self.url.clone(), ordinal: self.ordinal, raw_offset: self.raw_offset }
    }
}

/// The models of a list of references.
pub open spec fn reference_views(references: Seq<ImageReference>) -> Seq<ReferenceModel> {
    references.map_values(|reference: ImageReference| reference@)
}

/// The texts of a list of strings.
pub open spec fn text_views(texts: Seq<String>) -> Seq<Seq<char>> {
    texts.map_values(|text: String| text@)
}

/// The texts of a list of attribute values, one entry per element.
pub open spec fn attribute_views(values: Seq<Option<String>>) -> Seq<Option<Seq<char>>> {
    values.map_values(
        |value: Option<String>|
            match value {
                Some(text) => Some(text@),
                None => None,
            },
    )
}

/// What `scraper` yields for a document, a selector and an attribute name:
/// `None` if it does not accept the selector; else, for each element of the
/// parsed document that the selector matches, in the order in which `scraper`
/// walks them, the value of the attribute, or `None` where the element has no
/// such attribute.
pub uninterp spec fn selected_attribute_values(
    markup: Seq<char>,
    selector: Seq<char>,
    attribute: Seq<char>,
) -> Option<Seq<Option<Seq<char>>>>;

/// Parses `selector` with `scraper::Selector::parse` and `markup` with
/// `scraper::Html::parse_document`, walks the matches of `Html::select` and
/// reads `attribute` of each with `Element::attr`. The contract only names the
/// outcome: it is `selected_attribute_values` of the three texts.
#[verifier::external_body]
fn select_attribute(markup: &str, selector: &str, attribute: &str) -> (found: Option<
    Vec<Option<String>>,
>)
    ensures
        match found {
            Some(values) => selected_attribute_values(markup@, selector@, attribute@) == Some(
                attribute_views(values@),
            ),
            None => selected_attribute_values(markup@, selector@, attribute@) is None,
        },
{
    match scraper::Selector::parse(selector) {
        Ok(parsed) => Some(
            scraper::Html::parse_document(markup)
                .select(&parsed)
                .map(|element| element.value().attr(attribute).map(|value| value.to_string()))
                .collect(),
        ),
        Err(_) => None,
    }
}

/// The source attributes of the image elements of `markup`: of those that
/// `IMAGE_SELECTOR` matches, or of all image elements if that selector is not
/// accepted, or none at all if the plain one is not accepted either.
pub open spec fn selected_sources(markup: Seq<char>) -> Seq<Option<Seq<char>>> {
    match selected_attribute_values(markup, IMAGE_SELECTOR@, SOURCE_ATTRIBUTE@) {
        Some(values) => values,
        None => match selected_attribute_values(markup, PLAIN_SELECTOR@, SOURCE_ATTRIBUTE@) {
            Some(values) => values,
            None => Seq::empty(),
        },
    }
}

/// Reads the source attributes of the image elements of `markup`.
pub fn image_sources(markup: &str) -> (sources: Vec<Option<String>>)
    ensures
        attribute_views(sources@) == selected_sources(markup@),
{
    match select_attribute(markup, IMAGE_SELECTOR, SOURCE_ATTRIBUTE) {
        Some(values) => values,
        None => match select_attribute(markup, PLAIN_SELECTOR, SOURCE_ATTRIBUTE) {
            Some(values) => values,
            None => {
                let values: Vec<Option<String>> = Vec::new();
                assert(attribute_views(values@) =~= Seq::empty());
                values
            },
        },
    }
}

/// The address is an inline `data:` one, which names nothing that could be fetched.
pub open spec fn is_data_uri(source: Seq<char>) -> bool {
    seq!['d', 'a', 't', 'a', ':'].is_prefix_of(source)
}

/// The address that an image element contributes, if it qualifies.
pub open spec fn qualifying_source(source: Option<Seq<char>>) -> Option<Seq<char>> {
    match source {
        Some(text) => if is_data_uri(text) {
            None
        } else {
            Some(text)
        },
        None => None,
    }
}

/// The addresses of the qualifying images, in the order of their elements.
pub open spec fn qualifying(sources: Seq<Option<Seq<char>>>) -> Seq<Seq<char>> {
    sources.filter_map(|source: Option<Seq<char>>| qualifying_source(source))
}

/// Tells whether the address is an inline `data:` one.
pub fn has_data_scheme(source: &str) -> (inline: bool)
    ensures
        inline == is_data_uri(source@),
{
    if source.unicode_len() < 5 {
        return false;
    }
    let inline = source.get_char(0) == 'd' && source.get_char(1) == 'a' && source.get_char(2)
        == 't' && source.get_char(3) == 'a' && source.get_char(4) == ':';
    proof {
        let prefix = seq!['d', 'a', 't', 'a', ':'];
        let head = source@.subrange(0, 5);
        if inline {
            assert(head =~= prefix);
        } else {
            assert(exists|i: int| 0 <= i < 5 && head[i] != prefix[i]);
        }
    }
    inline
}

/// Keeps the addresses of the qualifying images: those elements that have a
/// source attribute which is no inline `data:` address.
pub fn qualifying_urls(sources: &Vec<Option<String>>) -> (urls: Vec<String>)
    ensures
        text_views(urls@) == qualifying(attribute_views(sources@)),
{
    let mut urls: Vec<String> = Vec::new();
    let ghost keep = |source: Option<Seq<char>>| qualifying_source(source);
    let ghost all = attribute_views(sources@);
    assert(text_views(urls@) =~= all.take(0).filter_map(keep));
    for i in 0..sources.len()
        invariant
            all == attribute_views(sources@),
            keep == |source: Option<Seq<char>>| qualifying_source(source),
            text_views(urls@) == all.take(i as int).filter_map(keep),
    {
        proof {
            all.lemma_filter_map_take_succ(keep, i as int);
        }
        let ghost before = urls@;
        match &sources[i] {
            Some(text) => {
                if !has_data_scheme(text.as_str()) {
                    urls.push(text.clone());
                    assert(text_views(urls@) =~= text_views(before).push(text@));
                }
            },
            None => {},
        }
    }
    assert(all.take(sources.len() as int) =~= all);
    urls
}

/// Extracts the addresses of the qualifying images of a document, in the
/// order in which the parser yields their elements.
pub fn extract_image_urls(html_content: &str) -> (urls: Vec<String>)
    ensures
        text_views(urls@) == qualifying(selected_sources(html_content@)),
{
    let sources = image_sources(html_content);
    qualifying_urls(&sources)
}

/// The byte `>`, with which a tag ends.
pub const TAG_CLOSE: u8 = 0x3e;

/// The byte `"`, which encloses the value of an attribute.
pub const QUOTE: u8 = 0x22;

/// The bytes `<img`, with which the tag of an image opens.
pub open spec fn image_open() -> Seq<u8> {
    seq![0x3cu8, 0x69u8, 0x6du8, 0x67u8]
}

/// The bytes `src="`, with which the address of an image begins.
pub open spec fn source_open() -> Seq<u8> {
    seq![0x73u8, 0x72u8, 0x63u8, 0x3du8, 0x22u8]
}

/// The byte is white space as it separates the parts of a tag.
pub open spec fn is_tag_space(byte: u8) -> bool {
    byte == 0x20 || byte == 0x09 || byte == 0x0a || byte == 0x0c || byte == 0x0d
}

/// The tag of an image opens at `at`: the bytes `<img` stand there, and
/// white space follows them.
pub open spec fn image_tag_at(markup: Seq<u8>, at: int) -> bool {
    occurs_at(markup, image_open(), at) && at + 4 < markup.len() && is_tag_space(markup[at + 4])
}

/// A source attribute begins at `at`: the bytes `src="` stand there, behind white space.
pub open spec fn source_begins_at(markup: Seq<u8>, at: int) -> bool {
    1 <= at && at - 1 < markup.len() && is_tag_space(markup[at - 1]) && occurs_at(
        markup,
        source_open(),
        at,
    )
}

/// Where the address stands that the image tag at `at` is written with:
/// from behind the first `src="` of the tag up to the next `"`. There is
/// none if no image tag opens at `at`, if the tag does not end, or if it
/// holds no such attribute that is closed before the tag ends.
pub open spec fn written_source(markup: Seq<u8>, at: int) -> Option<(int, int)> {
    if image_tag_at(markup, at) {
        match first_byte(markup, TAG_CLOSE, at) {
            Some(end) => match first_where(|i: int| source_begins_at(markup, i), at + 5, end) {
                Some(begin) => match first_byte(markup, QUOTE, begin + 5) {
                    Some(close) => if close < end {
                        Some((begin + 5, close))
                    } else {
                        None
                    },
                    None => None,
                },
                None => None,
            },
            None => None,
        }
    } else {
        None
    }
}

/// An image tag opens at `at` that is written with the address `url`.
pub open spec fn opens_image_of(markup: Seq<u8>, at: int, url: Seq<u8>) -> bool {
    match written_source(markup, at) {
        Some((begin, close)) => markup.subrange(begin, close) == url,
        None => false,
    }
}

/// The offset of the first image tag from `start` on that is written with
/// the address `url`, if there is one.
pub open spec fn first_image(markup: Seq<u8>, url: Seq<u8>, start: int) -> Option<int> {
    first_where(|at: int| opens_image_of(markup, at, url), start, markup.len() as int)
}

/// Where the search for the image at `index` starts: behind the offset of
/// the last image before it that was found, or at 0.
pub open spec fn search_start(markup: Seq<u8>, urls: Seq<Seq<char>>, index: int) -> int
    decreases index,
{
    if index <= 0 {
        0
    } else {
        let before = search_start(markup, urls, index - 1);
        match first_image(markup, encode_utf8(urls[index - 1]), before) {
            Some(at) => at + 1,
            None => before,
        }
    }
}

/// The offset of the image at `index`: that of the first image tag, from
/// `search_start` on, that is written with its address. `None` if there is
/// no such tag.
pub open spec fn located_offset(markup: Seq<u8>, urls: Seq<Seq<char>>, index: int) -> Option<int> {
    first_image(markup, encode_utf8(urls[index]), search_start(markup, urls, index))
}

/// The references to the images with the given addresses, numbered in order
/// and each with the offset at which it is found in `markup`.
pub open spec fn references_in(markup: Seq<u8>, urls: Seq<Seq<char>>) -> Seq<ReferenceModel> {
    Seq::new(
        urls.len(),
        |index: int|
            ReferenceModel {
                url: urls[index],
                ordinal: index,
                raw_offset: located_offset(markup, urls, index),
            },
    )
}

/// Every offset that is known lies inside the markup, and is larger than
/// every known one before it.
pub open spec fn offsets_in_order(references: Seq<ReferenceModel>, markup_len: int) -> bool {
    &&& forall|i: int|
        0 <= i < references.len() ==> match (#[trigger] references[i]).raw_offset {
            Some(offset) => 0 <= offset < markup_len,
            None => true,
        }
    &&& forall|i: int, j: int|
        0 <= i < j < references.len() ==> match (
            (#[trigger] references[i]).raw_offset,
            (#[trigger] references[j]).raw_offset,
        ) {
            (Some(first), Some(second)) => first < second,
            _ => true,
        }
}

/// At every offset that is known, an image tag opens that is written with
/// the address of the reference.
pub open spec fn offsets_mark_images(references: Seq<ReferenceModel>, markup: Seq<u8>) -> bool {
    forall|i: int|
        0 <= i < references.len() ==> match (#[trigger] references[i]).raw_offset {
            Some(offset) => opens_image_of(markup, offset, encode_utf8(references[i].url)),
            None => true,
        }
}

/// The references are numbered from 0 in their order, and their offsets are in order.
pub open spec fn in_document_order(references: Seq<ReferenceModel>, markup_len: int) -> bool {
    &&& forall|i: int| 0 <= i < references.len() ==> (#[trigger] references[i]).ordinal == i
    &&& offsets_in_order(references, markup_len)
}

/// The search for a later image starts behind the offset of an earlier one.
pub proof fn lemma_search_start_grows(markup: Seq<u8>, urls: Seq<Seq<char>>, i: int, j: int)
    requires
        0 <= i < j,
    ensures
        search_start(markup, urls, i) <= search_start(markup, urls, j),
        match located_offset(markup, urls, i) {
            Some(at) => at < search_start(markup, urls, j),
            None => true,
        },
    decreases j,
{
    let url = encode_utf8(urls[j - 1]);
    let before = search_start(markup, urls, j - 1);
    lemma_first_where_found(
        |at: int| opens_image_of(markup, at, url),
        before,
        markup.len() as int,
    );
    if i < j - 1 {
        lemma_search_start_grows(markup, urls, i, j - 1);
    }
}

/// An offset that is known is that of an image tag written with the
/// address, the first one from where the search started; where the offset
/// is not known, no such tag opens from there on.
pub proof fn lemma_offset_marks_image(markup: Seq<u8>, urls: Seq<Seq<char>>, index: int)
    ensures
        match located_offset(markup, urls, index) {
            Some(offset) => {
                &&& search_start(markup, urls, index) <= offset < markup.len()
                &&& opens_image_of(markup, offset, encode_utf8(urls[index]))
                &&& forall|earlier: int|
                    search_start(markup, urls, index) <= earlier < offset ==> !opens_image_of(
                        markup,
                        earlier,
                        encode_utf8(urls[index]),
                    )
            },
            None => forall|at: int|
                search_start(markup, urls, index) <= at < markup.len() ==> !opens_image_of(
                    markup,
                    at,
                    encode_utf8(urls[index]),
                ),
        },
{
    let url = encode_utf8(urls[index]);
    let start = search_start(markup, urls, index);
    let holds = |at: int| opens_image_of(markup, at, url);
    lemma_first_where_found(holds, start, markup.len() as int);
    match located_offset(markup, urls, index) {
        Some(offset) => {
            assert(holds(offset));
            assert forall|earlier: int| start <= earlier < offset implies !opens_image_of(
                markup,
                earlier,
                url,
            ) by {
                assert(!holds(earlier));
            }
        },
        None => {
            assert forall|at: int| start <= at < markup.len() implies !opens_image_of(
                markup,
                at,
                url,
            ) by {
                assert(!holds(at));
            }
        },
    }
}

/// The search starts at or behind the beginning of the markup.
pub proof fn lemma_search_start_natural(markup: Seq<u8>, urls: Seq<Seq<char>>, index: int)
    ensures
        0 <= search_start(markup, urls, index),
    decreases index,
{
    if index > 0 {
        lemma_search_start_natural(markup, urls, index - 1);
        lemma_offset_marks_image(markup, urls, index - 1);
    }
}

/// What `locate_references` returns is numbered in order, its known offsets
/// grow from one reference to the next, and each of them is that of an
/// image tag written with the address of its reference.
pub proof fn lemma_references_in_document_order(markup: Seq<u8>, urls: Seq<Seq<char>>)
    ensures
        in_document_order(references_in(markup, urls), markup.len() as int),
        offsets_mark_images(references_in(markup, urls), markup),
{
    let references = references_in(markup, urls);
    assert forall|i: int| 0 <= i < references.len() implies match (
        #[trigger] references[i]).raw_offset {
        Some(offset) => 0 <= offset < markup.len() && opens_image_of(
            markup,
            offset,
            encode_utf8(references[i].url),
        ),
        None => true,
    } by {
        lemma_offset_marks_image(markup, urls, i);
        lemma_search_start_natural(markup, urls, i);
    }
    assert forall|i: int, j: int| 0 <= i < j < references.len() implies match (
        (#[trigger] references[i]).raw_offset,
        (#[trigger] references[j]).raw_offset,
    ) {
        (Some(first), Some(second)) => first < second,
        _ => true,
    } by {
        lemma_offset_marks_image(markup, urls, j);
        lemma_search_start_grows(markup, urls, i, j);
    }
}

/// Tells whether the byte is white space as it separates the parts of a tag.
pub fn tag_space(byte: u8) -> (space: bool)
    ensures
        space == is_tag_space(byte),
{
    byte == 0x20 || byte == 0x09 || byte == 0x0a || byte == 0x0c || byte == 0x0d
}

/// Tells whether the tag of an image opens at `at`.
pub fn image_opens_at(markup: &[u8], at: usize) -> (opens: bool)
    ensures
        opens == image_tag_at(markup@, at as int),
{
    if markup.len() < 5 || at > markup.len() - 5 {
        return false;
    }
    let opens = markup[at] == 0x3c && markup[at + 1] == 0x69 && markup[at + 2] == 0x6d && markup[at
        + 3] == 0x67;
    proof {
        let window = markup@.subrange(at as int, at + 4);
        if opens {
            assert(window =~= image_open());
        } else if window == image_open() {
            assert(window[0] == 0x3c && window[1] == 0x69 && window[2] == 0x6d && window[3]
                == 0x67);
        }
    }
    opens && tag_space(markup[at + 4])
}

/// Tells whether a source attribute begins at `at`.
pub fn source_at(markup: &[u8], at: usize) -> (begins: bool)
    ensures
        begins == source_begins_at(markup@, at as int),
{
    if at < 1 || markup.len() < 5 || at > markup.len() - 5 {
        return false;
    }
    let stands = markup[at] == 0x73 && markup[at + 1] == 0x72 && markup[at + 2] == 0x63 && markup[at
        + 3] == 0x3d && markup[at + 4] == 0x22;
    proof {
        let window = markup@.subrange(at as int, at + 5);
        if stands {
            assert(window =~= source_open());
        } else if window == source_open() {
            assert(window[0] == 0x73 && window[1] == 0x72 && window[2] == 0x63 && window[3]
                == 0x3d && window[4] == 0x22);
        }
    }
    stands && tag_space(markup[at - 1])
}

/// Finds the first source attribute that begins from `from` on and before `end`.
pub fn find_source(markup: &[u8], from: usize, end: usize) -> (found: Option<usize>)
    ensures
        match found {
            Some(at) => first_where(
                |i: int| source_begins_at(markup@, i),
                from as int,
                end as int,
            ) == Some(at as int) && source_begins_at(markup@, at as int),
            None => first_where(|i: int| source_begins_at(markup@, i), from as int, end as int)
                is None,
        },
{
    let ghost holds = |i: int| source_begins_at(markup@, i);
    let mut at: usize = from;
    while at < end
        invariant
            from <= at,
            holds == |i: int| source_begins_at(markup@, i),
            forall|earlier: int| from <= earlier < at ==> !#[trigger] holds(earlier),
        decreases end - at,
    {
        if source_at(markup, at) {
            proof {
                lemma_first_where_is(holds, from as int, end as int, at as int);
            }
            return Some(at);
        }
        at += 1;
    }
    proof {
        lemma_first_where_none(holds, from as int, end as int);
    }
    None
}

/// Finds where the address stands that the image tag at `at` is written with.
pub fn source_range(markup: &[u8], at: usize) -> (range: Option<(usize, usize)>)
    ensures
        match range {
            Some((begin, close)) => written_source(markup@, at as int) == Some(
                (begin as int, close as int),
            ) && begin <= close < markup@.len(),
            None => written_source(markup@, at as int) is None,
        },
{
    if !image_opens_at(markup, at) {
        return None;
    }
    let end = match find_byte(markup, TAG_CLOSE, at) {
        Some(end) => end,
        None => {
            return None;
        },
    };
    let begin = match find_source(markup, at + 5, end) {
        Some(begin) => begin,
        None => {
            return None;
        },
    };
    match find_byte(markup, QUOTE, begin + 5) {
        Some(close) => if close < end {
            Some((begin + 5, close))
        } else {
            None
        },
        None => None,
    }
}

/// Tells whether an image tag opens at `at` that is written with the address `url`.
pub fn opens_image(markup: &[u8], at: usize, url: &[u8]) -> (opens: bool)
    ensures
        opens == opens_image_of(markup@, at as int, url@),
{
    match source_range(markup, at) {
        Some((begin, close)) => {
            let same = close - begin == url.len() && matches_at(markup, url, begin);
            proof {
                if same {
                    assert(markup@.subrange(begin as int, close as int) =~= url@);
                }
            }
            same
        },
        None => false,
    }
}

/// Finds the first image tag from `start` on that is written with the address `url`.
pub fn find_image(markup: &[u8], url: &[u8], start: usize) -> (found: Option<usize>)
    ensures
        match found {
            Some(at) => first_image(markup@, url@, start as int) == Some(at as int) && start
                <= at < markup@.len(),
            None => first_image(markup@, url@, start as int) is None,
        },
{
    let ghost holds = |at: int| opens_image_of(markup@, at, url@);
    let mut at: usize = start;
    while at < markup.len()
        invariant
            start <= at,
            holds == |at: int| opens_image_of(markup@, at, url@),
            forall|earlier: int| start <= earlier < at ==> !#[trigger] holds(earlier),
        decreases markup.len() - at,
    {
        if opens_image(markup, at, url) {
            proof {
                lemma_first_where_is(holds, start as int, markup@.len() as int, at as int);
            }
            return Some(at);
        }
        at += 1;
    }
    proof {
        lemma_first_where_none(holds, start as int, markup@.len() as int);
    }
    None
}

/// Numbers the images with the given addresses and finds the tag of each
/// one again in the markup: the first image tag behind the tags of the
/// images before it that is written with its address.
pub fn locate_references(markup: &[u8], urls: &Vec<String>) -> (references: Vec<ImageReference>)
    ensures
        reference_views(references@) == references_in(markup@, text_views(urls@)),
        in_document_order(reference_views(references@), markup@.len() as int),
        offsets_mark_images(reference_views(references@), markup@),
{
    let mut references: Vec<ImageReference> = Vec::new();
    let mut start: usize = 0;
    let markup_len = markup.len();
    let ghost texts = text_views(urls@);
    for i in 0..urls.len()
        invariant
            texts == text_views(urls@),
            markup_len == markup@.len(),
            start == search_start(markup@, texts, i as int),
            start <= markup@.len(),
            references@.len() == i,
            forall|k: int|
                0 <= k < i ==> (#[trigger] references@[k])@ == references_in(markup@, texts)[k],
    {
        let raw_offset = find_image(markup, urls[i].as_str().as_bytes(), start);
        match raw_offset {
            Some(at) => {
                start = at + 1;
            },
            None => {},
        }
        references.push(ImageReference { url: urls[i].clone(), ordinal: i, raw_offset });
    }
    assert(reference_views(references@) =~= references_in(markup@, texts));
    proof {
        lemma_references_in_document_order(markup@, texts);
    }
    references
}

/// The references to the qualifying images of a document: its image
/// elements as `scraper` reads them, without those that do not qualify, each
/// found again in the bytes of the markup.
pub open spec fn references_of(markup: Seq<char>) -> Seq<ReferenceModel> {
    references_in(encode_utf8(markup), qualifying(selected_sources(markup)))
}

/// Extracts the references to the qualifying images of a document, in the
/// order in which the parser yields their elements. The same markup always
/// gives the same list.
pub fn extract_image_references(markup: &str) -> (references: Vec<ImageReference>)
    ensures
        reference_views(references@) == references_of(markup@),
        in_document_order(reference_views(references@), markup.spec_bytes().len() as int),
        offsets_mark_images(reference_views(references@), markup.spec_bytes()),
{
    let urls = extract_image_urls(markup);
    locate_references(markup.as_bytes(), &urls)
}

} // verus!
