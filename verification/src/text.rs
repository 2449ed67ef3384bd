//! Text as a sequence of characters: conversions and searches.

use vstd::prelude::*;

verus! {

/// Appends one character with `String::push`, of which vstd says nothing:
/// afterwards the text is the old one with `c` at its end.
#[verifier::external_body]
pub(crate) fn push_char(text: &mut String, c: char)
    ensures
        final(text)@ == old(text)@.push(c),
{
    text.push(c);
}

/// Takes the last character away with `String::pop`, of which vstd says
/// nothing: afterwards the text is the old one without its last character,
/// or still empty.
#[verifier::external_body]
pub(crate) fn pop_char(text: &mut String)
    ensures
        final(text)@ == if old(text)@.len() > 0 {
            old(text)@.drop_last()
        } else {
            old(text)@
        },
{
    text.pop();
}

/// The characters of a text, one by one.
pub fn to_chars(text: &str) -> (chars: Vec<char>)
    ensures
        chars@ == text@,
{
    let mut chars: Vec<char> = Vec::new();
    for c in it: text.chars()
        invariant
            chars@ == text@.take(it.index() as int),
            it.seq() == text@,
    {
        chars.push(c);
    }
    chars
}

/// The text made of the given characters.
pub fn from_chars(chars: &[char]) -> (text: String)
    ensures
        text@ == chars@,
{
    let mut text = String::new();
    for i in 0..chars.len()
        invariant
            text@ == chars@.take(i as int),
    {
        push_char(&mut text, chars[i]);
        assert(chars@.take(i + 1) =~= chars@.take(i as int).push(chars@[i as int]));
    }
    assert(chars@.take(chars.len() as int) =~= chars@);
    text
}

/// `at` is the last index at which `text` holds `c`.
pub open spec fn is_last_position(text: Seq<char>, c: char, at: int) -> bool {
    &&& 0 <= at < text.len()
    &&& text[at] == c
    &&& forall|later: int| at < later < text.len() ==> text[later] != c
}

/// The last index at which `text` holds `c`, if it holds it at all.
pub open spec fn last_position(text: Seq<char>, c: char) -> Option<int> {
    if exists|at: int| is_last_position(text, c, at) {
        Some(choose|at: int| is_last_position(text, c, at))
    } else {
        None
    }
}

/// Only one index is the last position of a character.
pub proof fn lemma_last_position_unique(text: Seq<char>, c: char, a: int, b: int)
    requires
        is_last_position(text, c, a),
        is_last_position(text, c, b),
    ensures
        a == b,
{
    if a < b {
        assert(text[b] != c);
    } else if b < a {
        assert(text[a] != c);
    }
}

/// Finds the last index at which `text` holds `c`.
pub fn find_last(text: &[char], c: char) -> (found: Option<usize>)
    ensures
        match found {
            Some(at) => is_last_position(text@, c, at as int) && last_position(text@, c) == Some(
                at as int,
            ),
            None => !text@.contains(c) && last_position(text@, c) is None,
        },
{
    let mut next: usize = text.len();
    while next > 0
        invariant
            next <= text.len(),
            forall|later: int| next <= later < text.len() ==> text[later] != c,
        decreases next,
    {
        next -= 1;
        if text[next] == c {
            proof {
                assert(is_last_position(text@, c, next as int));
                let chosen = choose|at: int| is_last_position(text@, c, at);
                lemma_last_position_unique(text@, c, chosen, next as int);
            }
            return Some(next);
        }
    }
    None
}

/// Tells whether two texts are the same.
pub fn same_text(a: &[char], b: &[char]) -> (same: bool)
    ensures
        same == (a@ == b@),
{
    if a.len() != b.len() {
        return false;
    }
    for i in 0..a.len()
        invariant
            a@.len() == b@.len(),
            forall|k: int| 0 <= k < i ==> a@[k] == b@[k],
    {
        if a[i] != b[i] {
            return false;
        }
    }
    assert(a@ =~= b@);
    true
}

/// Tells whether a text is the given one.
pub fn text_is(text: &[char], expected: &str) -> (same: bool)
    ensures
        same == (text@ == expected@),
{
    let chars = to_chars(expected);
    same_text(text, chars.as_slice())
}

/// `pattern` stands in `text` at index `at`.
pub open spec fn stands_at(text: Seq<char>, pattern: Seq<char>, at: int) -> bool {
    &&& 0 <= at
    &&& at + pattern.len() <= text.len()
    &&& text.subrange(at, at + pattern.len()) == pattern
}

/// `pattern` stands somewhere in `text`.
pub open spec fn holds(text: Seq<char>, pattern: Seq<char>) -> bool {
    exists|at: int| stands_at(text, pattern, at)
}

/// Tells whether `pattern` stands in `text` at index `at`.
pub fn has_at(text: &[char], pattern: &[char], at: usize) -> (found: bool)
    ensures
        found == stands_at(text@, pattern@, at as int),
{
    if pattern.len() > text.len() || at > text.len() - pattern.len() {
        return false;
    }
    let mut i: usize = 0;
    while i < pattern.len()
        invariant
            i <= pattern.len(),
            at + pattern.len() <= text.len(),
            forall|k: int| 0 <= k < i ==> text[at + k] == pattern[k],
        decreases pattern.len() - i,
    {
        if text[at + i] != pattern[i] {
            proof {
                let window = text@.subrange(at as int, at + pattern.len());
                assert(window[i as int] != pattern@[i as int]);
            }
            return false;
        }
        i += 1;
    }
    assert(text@.subrange(at as int, at + pattern.len()) =~= pattern@);
    true
}

/// Tells whether `pattern` stands somewhere in `text`.
pub fn contains_text(text: &[char], pattern: &[char]) -> (found: bool)
    ensures
        found == holds(text@, pattern@),
{
    if pattern.len() > text.len() {
        return false;
    }
    let last: usize = text.len() - pattern.len();
    let mut at: usize = 0;
    loop
        invariant
            at <= last,
            last == text.len() - pattern.len(),
            forall|earlier: int| 0 <= earlier < at ==> !stands_at(text@, pattern@, earlier),
        decreases last - at,
    {
        if has_at(text, pattern, at) {
            return true;
        }
        if at == last {
            return false;
        }
        at += 1;
    }
}

/// `text` with every occurrence of `from` replaced by `to`: the
/// occurrences are taken from the left, and none overlaps the one before.
/// An empty `from` occurs nowhere.
pub open spec fn replaced(text: Seq<char>, from: Seq<char>, to: Seq<char>) -> Seq<char>
    decreases text.len(),
{
    if from.len() == 0 || text.len() < from.len() {
        text
    } else if text.subrange(0, from.len() as int) == from {
        to + replaced(text.subrange(from.len() as int, text.len() as int), from, to)
    } else {
        seq![text[0]] + replaced(text.subrange(1, text.len() as int), from, to)
    }
}

/// Replaces every occurrence of `from` in `text` by `to`.
pub fn replace_all(text: &[char], from: &[char], to: &[char]) -> (result: Vec<char>)
    ensures
        result@ == replaced(text@, from@, to@),
{
    let mut result: Vec<char> = Vec::new();
    let mut at: usize = 0;
    if from.len() == 0 {
        result.extend_from_slice(text);
        return result;
    }
    assert(text@.subrange(0, text@.len() as int) =~= text@);
    while at < text.len()
        invariant
            at <= text.len(),
            from.len() > 0,
            replaced(text@, from@, to@) == result@ + replaced(
                text@.subrange(at as int, text@.len() as int),
                from@,
                to@,
            ),
        decreases text.len() - at,
    {
        let ghost rest = text@.subrange(at as int, text@.len() as int);
        let ghost before = result@;
        if has_at(text, from, at) {
            assert(rest.subrange(0, from@.len() as int) =~= text@.subrange(
                at as int,
                at + from@.len(),
            ));
            assert(rest.subrange(from@.len() as int, rest.len() as int) =~= text@.subrange(
                at + from@.len(),
                text@.len() as int,
            ));
            result.extend_from_slice(to);
            at += from.len();
            assert(result@ + replaced(
                text@.subrange(at as int, text@.len() as int),
                from@,
                to@,
            ) =~= before + (to@ + replaced(
                text@.subrange(at as int, text@.len() as int),
                from@,
                to@,
            )));
        } else {
            if text.len() - at >= from.len() {
                assert(rest.subrange(0, from@.len() as int) =~= text@.subrange(
                    at as int,
                    at + from@.len(),
                ));
                assert(rest.subrange(1, rest.len() as int) =~= text@.subrange(
                    at + 1,
                    text@.len() as int,
                ));
                assert(rest[0] == text@[at as int]);
                result.push(text[at]);
                at += 1;
                assert(result@ + replaced(
                    text@.subrange(at as int, text@.len() as int),
                    from@,
                    to@,
                ) =~= before + (seq![rest[0]] + replaced(
                    text@.subrange(at as int, text@.len() as int),
                    from@,
                    to@,
                )));
            } else {
                let remaining = vstd::slice::slice_subrange(text, at, text.len());
                result.extend_from_slice(remaining);
                at = text.len();
                assert(text@.subrange(at as int, text@.len() as int) =~= Seq::<char>::empty());
                assert(result@ =~= before + rest);
            }
        }
    }
    assert(text@.subrange(at as int, text@.len() as int) =~= Seq::<char>::empty());
    assert(result@ + Seq::<char>::empty() =~= result@);
    result
}

} // verus!
