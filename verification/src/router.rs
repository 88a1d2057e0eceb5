//! Named-fade routing: resolving a fade intent's logical name to the
//! first live playback handle that carries it.
//!
//! The matching rule is backend-independent; both backends route over
//! the same sequence-of-names model. Only how the resulting tween's
//! volume is applied differs per backend.

use vstd::prelude::*;

verus! {

/// Position `i` holds the first live handle whose logical name equals
/// `name`. Handles without a name never match; among several matches
/// the first wins, and ambiguity is not resolved further.
pub open spec fn is_first_match(names: Seq<Option<Seq<char>>>, name: Seq<char>, i: int) -> bool {
    &&& 0 <= i < names.len()
    &&& names[i] == Some(name)
    &&& forall|j: int| 0 <= j < i ==> names[j] != Some(name)
}

/// Some live handle carries `name`.
pub open spec fn has_match(names: Seq<Option<Seq<char>>>, name: Seq<char>) -> bool {
    exists|i: int| is_first_match(names, name, i)
}

/// The first match, if any.
pub open spec fn spec_first_match(names: Seq<Option<Seq<char>>>, name: Seq<char>) -> Option<int> {
    if has_match(names, name) {
        Some(choose|i: int| is_first_match(names, name, i))
    } else {
        None
    }
}

/// At most one position is the first match.
pub proof fn lemma_first_match_unique(
    names: Seq<Option<Seq<char>>>,
    name: Seq<char>,
    i: int,
    j: int,
)
    requires
        is_first_match(names, name, i),
        is_first_match(names, name, j),
    ensures
        i == j,
{
}

/// A found first match is the one `spec_first_match` names.
pub proof fn lemma_first_match_is_spec(names: Seq<Option<Seq<char>>>, name: Seq<char>, i: int)
    requires
        is_first_match(names, name, i),
    ensures
        spec_first_match(names, name) == Some(i),
{
    let w = choose|k: int| is_first_match(names, name, k);
    lemma_first_match_unique(names, name, i, w);
}

} // verus!
