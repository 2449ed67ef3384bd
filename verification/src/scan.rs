//! Searching byte strings: where bytes stand, and where something holds first.

use vstd::prelude::*;

verus! {

/// `needle` stands in `hay` at index `at`.
pub open spec fn occurs_at(hay: Seq<u8>, needle: Seq<u8>, at: int) -> bool {
    &&& 0 <= at
    &&& at + needle.len() <= hay.len()
    &&& hay.subrange(at, at + needle.len()) == needle
}

/// `at` is the first index from `from` on, and before `to`, of which `holds` is true.
pub open spec fn is_first_where(holds: spec_fn(int) -> bool, from: int, to: int, at: int) -> bool {
    &&& from <= at < to
    &&& holds(at)
    &&& forall|earlier: int| from <= earlier < at ==> !#[trigger] holds(earlier)
}

/// The first index from `from` on, and before `to`, of which `holds` is
/// true, if there is one.
pub open spec fn first_where(holds: spec_fn(int) -> bool, from: int, to: int) -> Option<int> {
    if exists|at: int| is_first_where(holds, from, to, at) {
        Some(choose|at: int| is_first_where(holds, from, to, at))
    } else {
        None
    }
}

/// An index that is the first of its kind is the one `first_where` names.
pub proof fn lemma_first_where_is(holds: spec_fn(int) -> bool, from: int, to: int, at: int)
    requires
        is_first_where(holds, from, to, at),
    ensures
        first_where(holds, from, to) == Some(at),
{
    let chosen = choose|a: int| is_first_where(holds, from, to, a);
    if chosen < at {
        assert(!holds(chosen));
    } else if at < chosen {
        assert(!holds(at));
    }
}

/// Where nothing of the kind is found in the range, `first_where` names nothing.
pub proof fn lemma_first_where_none(holds: spec_fn(int) -> bool, from: int, to: int)
    requires
        forall|at: int| from <= at < to ==> !#[trigger] holds(at),
    ensures
        first_where(holds, from, to) is None,
{
}

/// What `first_where` names is in the range, is of the kind, and is the first.
pub proof fn lemma_first_where_found(holds: spec_fn(int) -> bool, from: int, to: int)
    ensures
        match first_where(holds, from, to) {
            Some(at) => is_first_where(holds, from, to, at),
            None => forall|at: int| from <= at < to ==> !#[trigger] holds(at),
        },
{
    if first_where(holds, from, to) is None {
        assert forall|at: int| from <= at < to implies !#[trigger] holds(at) by {
            if holds(at) {
                lemma_some_first(holds, from, to, at);
            }
        }
    }
}

/// Where something of the kind is in the range, something is the first.
proof fn lemma_some_first(holds: spec_fn(int) -> bool, from: int, to: int, at: int)
    requires
        from <= at < to,
        holds(at),
    ensures
        exists|first: int| is_first_where(holds, from, to, first),
    decreases at - from,
{
    if forall|earlier: int| from <= earlier < at ==> !#[trigger] holds(earlier) {
        assert(is_first_where(holds, from, to, at));
    } else {
        let earlier = choose|earlier: int| from <= earlier < at && #[trigger] holds(earlier);
        lemma_some_first(holds, from, to, earlier);
    }
}

/// `hay` holds `byte` at index `at`.
pub open spec fn byte_at(hay: Seq<u8>, byte: u8, at: int) -> bool {
    0 <= at < hay.len() && hay[at] == byte
}

/// The index of the first `byte` in `hay` from `from` on, if there is one.
pub open spec fn first_byte(hay: Seq<u8>, byte: u8, from: int) -> Option<int> {
    first_where(|at: int| byte_at(hay, byte, at), from, hay.len() as int)
}

/// Tells whether `needle` stands in `hay` at index `at`.
pub fn matches_at(hay: &[u8], needle: &[u8], at: usize) -> (found: bool)
    ensures
        found == occurs_at(hay@, needle@, at as int),
{
    if needle.len() > hay.len() || at > hay.len() - needle.len() {
        return false;
    }
    let mut i: usize = 0;
    while i < needle.len()
        invariant
            i <= needle.len(),
            at + needle.len() <= hay.len(),
            forall|k: int| 0 <= k < i ==> hay[at + k] == needle[k],
        decreases needle.len() - i,
    {
        if hay[at + i] != needle[i] {
            proof {
                let window = hay@.subrange(at as int, at + needle.len());
                assert(window[i as int] != needle@[i as int]);
            }
            return false;
        }
        i += 1;
    }
    assert(hay@.subrange(at as int, at + needle.len()) =~= needle@);
    true
}

/// Finds the first `byte` in `hay` from `from` on.
pub fn find_byte(hay: &[u8], byte: u8, from: usize) -> (found: Option<usize>)
    ensures
        match found {
            Some(at) => first_byte(hay@, byte, from as int) == Some(at as int) && from <= at
                < hay@.len() && hay@[at as int] == byte,
            None => first_byte(hay@, byte, from as int) is None,
        },
{
    let ghost holds = |at: int| byte_at(hay@, byte, at);
    let mut at: usize = from;
    while at < hay.len()
        invariant
            from <= at,
            holds == |at: int| byte_at(hay@, byte, at),
            forall|earlier: int| from <= earlier < at ==> !#[trigger] holds(earlier),
        decreases hay.len() - at,
    {
        if hay[at] == byte {
            proof {
                lemma_first_where_is(holds, from as int, hay@.len() as int, at as int);
            }
            return Some(at);
        }
        at += 1;
    }
    proof {
        lemma_first_where_none(holds, from as int, hay@.len() as int);
    }
    None
}

} // verus!
