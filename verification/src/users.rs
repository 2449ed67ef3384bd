//! The users that were loaded, each kept under the name it was asked for by.

use vstd::prelude::*;
use crate::api::User;

verus! {

/// `at` is the first index at which a user is kept under `name`.
pub open spec fn is_first_named(users: Seq<(String, User)>, name: Seq<char>, at: int) -> bool {
    &&& 0 <= at < users.len()
    &&& users[at].0@ == name
    &&& forall|earlier: int| 0 <= earlier < at ==> (#[trigger] users[earlier]).0@ != name
}

/// The user kept under `name`: the first one, should there be several.
pub open spec fn user_named(users: Seq<(String, User)>, name: Seq<char>) -> Option<User> {
    if exists|at: int| is_first_named(users, name, at) {
        Some(users[choose|at: int| is_first_named(users, name, at)].1)
    } else {
        None
    }
}

/// Only one index is the first under a name.
pub proof fn lemma_first_named_unique(users: Seq<(String, User)>, name: Seq<char>, a: int, b: int)
    requires
        is_first_named(users, name, a),
        is_first_named(users, name, b),
    ensures
        a == b,
        user_named(users, name) == Some(users[a].1),
{
    if a < b {
        assert(users[a].0@ != name);
    } else if b < a {
        assert(users[b].0@ != name);
    }
    let chosen = choose|at: int| is_first_named(users, name, at);
    if a < chosen {
        assert(users[a].0@ != name);
    } else if chosen < a {
        assert(users[chosen].0@ != name);
    }
}

/// Finds the first user kept under `name`.
pub fn find_named(users: &Vec<(String, User)>, name: &String) -> (found: Option<usize>)
    ensures
        match found {
            Some(at) => is_first_named(users@, name@, at as int) && user_named(users@, name@)
                == Some(users@[at as int].1),
            None => user_named(users@, name@) is None && forall|at: int|
                0 <= at < users@.len() ==> (#[trigger] users@[at]).0@ != name@,
        },
{
    for i in 0..users.len()
        invariant
            forall|earlier: int| 0 <= earlier < i ==> (#[trigger] users@[earlier]).0@ != name@,
    {
        if users[i].0 == *name {
            proof {
                lemma_first_named_unique(users@, name@, i as int, i as int);
            }
            return Some(i);
        }
    }
    None
}

/// Writing a user under a name, in the place of the first one kept under
/// it or behind all others, changes what is found under that name only.
pub proof fn lemma_user_written(
    before: Seq<(String, User)>,
    after: Seq<(String, User)>,
    name: Seq<char>,
    user: User,
)
    requires
        (exists|at: int|
            is_first_named(before, name, at) && after.len() == before.len() && after[at].0@
                == name && after[at].1 == user && forall|i: int|
                0 <= i < before.len() && i != at ==> after[i] == before[i]) || (user_named(
            before,
            name,
        ) is None && after.len() == before.len() + 1 && after[before.len() as int].0@ == name
            && after[before.len() as int].1 == user && forall|i: int|
            0 <= i < before.len() ==> after[i] == before[i]),
    ensures
        forall|other: Seq<char>|
            user_named(after, other) == if other == name {
                Some(user)
            } else {
                user_named(before, other)
            },
{
    let at = if exists|at: int| is_first_named(before, name, at) {
        choose|at: int|
            is_first_named(before, name, at) && after.len() == before.len() && after[at].0@
                == name && after[at].1 == user && forall|i: int|
                0 <= i < before.len() && i != at ==> after[i] == before[i]
    } else {
        before.len() as int
    };
    assert forall|earlier: int| 0 <= earlier < at implies (#[trigger] after[earlier]).0@
        != name by {
        assert(after[earlier] == before[earlier]);
        if !exists|at: int| is_first_named(before, name, at) {
            lemma_absent_name(before, name, earlier);
        }
    }
    assert(is_first_named(after, name, at));
    lemma_first_named_unique(after, name, at, at);
    assert forall|other: Seq<char>| other != name implies user_named(after, other) == user_named(
        before,
        other,
    ) by {
        if exists|i: int| is_first_named(before, other, i) {
            let i = choose|i: int| is_first_named(before, other, i);
            assert(i != at);
            assert(after[i] == before[i]);
            assert forall|earlier: int| 0 <= earlier < i implies (#[trigger] after[earlier]).0@
                != other by {
                if earlier != at {
                    assert(after[earlier] == before[earlier]);
                }
            }
            assert(is_first_named(after, other, i));
            lemma_first_named_unique(after, other, i, i);
            lemma_first_named_unique(before, other, i, i);
        } else if exists|i: int| is_first_named(after, other, i) {
            let i = choose|i: int| is_first_named(after, other, i);
            assert(i != at);
            assert(after[i] == before[i]);
            assert forall|earlier: int| 0 <= earlier < i implies (#[trigger] before[earlier]).0@
                != other by {
                if earlier != at {
                    assert(after[earlier] == before[earlier]);
                }
            }
            assert(is_first_named(before, other, i));
        }
    }
}

/// Where no user is kept under a name, no entry bears it.
pub proof fn lemma_absent_name(users: Seq<(String, User)>, name: Seq<char>, at: int)
    requires
        !exists|i: int| is_first_named(users, name, i),
        0 <= at < users.len(),
    ensures
        users[at].0@ != name,
    decreases at,
{
    if users[at].0@ == name {
        if forall|earlier: int| 0 <= earlier < at ==> (#[trigger] users[earlier]).0@ != name {
            assert(is_first_named(users, name, at));
        } else {
            let earlier = choose|earlier: int|
                0 <= earlier < at && (#[trigger] users[earlier]).0@ == name;
            lemma_absent_name(users, name, earlier);
        }
    }
}

} // verus!
