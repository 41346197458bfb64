//! Character sequences: reading a string's characters and searching in them.
//!
//! Strings are modelled by their view, the sequence of their characters.
//! Indices count characters, not bytes.

use vstd::prelude::*;

verus! {

/// `pattern` stands in `text` at index `at`.
pub open spec fn occurs_at(text: Seq<char>, pattern: Seq<char>, at: int) -> bool {
    &&& 0 <= at
    &&& at + pattern.len() <= text.len()
    &&& text.subrange(at, at + pattern.len()) == pattern
}

/// `pattern` stands somewhere in `text`.
pub open spec fn occurs(text: Seq<char>, pattern: Seq<char>) -> bool {
    exists|at: int| occurs_at(text, pattern, at)
}

/// `pattern` stands in `text` at index `at`, and nowhere to the right of it.
pub open spec fn is_last_occurrence(text: Seq<char>, pattern: Seq<char>, at: int) -> bool {
    &&& occurs_at(text, pattern, at)
    &&& forall|later: int| at < later ==> !occurs_at(text, pattern, later)
}

/// The index of the rightmost occurrence of `pattern` in `text`.
/// Meaningful only where `occurs(text, pattern)`.
pub open spec fn last_index_of(text: Seq<char>, pattern: Seq<char>) -> int {
    choose|at: int| is_last_occurrence(text, pattern, at)
}

/// `text` without its leading `prefix`; `text` itself where it does not begin with `prefix`.
pub open spec fn without_prefix(text: Seq<char>, prefix: Seq<char>) -> Seq<char> {
    if prefix.is_prefix_of(text) {
        text.skip(prefix.len() as int)
    } else {
        text
    }
}

/// There is at most one rightmost occurrence.
pub proof fn lemma_last_occurrence_unique(text: Seq<char>, pattern: Seq<char>, a: int, b: int)
    requires
        is_last_occurrence(text, pattern, a),
        is_last_occurrence(text, pattern, b),
    ensures
        a == b,
{
}

/// A rightmost occurrence, once exhibited, is the one that `last_index_of` names.
pub proof fn lemma_last_index_is(text: Seq<char>, pattern: Seq<char>, at: int)
    requires
        is_last_occurrence(text, pattern, at),
    ensures
        occurs(text, pattern),
        last_index_of(text, pattern) == at,
{
    lemma_last_occurrence_unique(text, pattern, at, last_index_of(text, pattern));
}

/// Among the occurrences that start at `bound` or to the left of it, one is rightmost.
proof fn lemma_rightmost_below(text: Seq<char>, pattern: Seq<char>, at: int, bound: int)
    requires
        occurs_at(text, pattern, at),
        at <= bound,
    ensures
        exists|last: int|
            at <= last <= bound && #[trigger] occurs_at(text, pattern, last) && forall|later: int|
                last < later <= bound ==> !occurs_at(text, pattern, later),
    decreases bound - at,
{
    if at < bound {
        if occurs_at(text, pattern, bound) {
        } else {
            lemma_rightmost_below(text, pattern, at, bound - 1);
        }
    }
}

/// Where `pattern` occurs at all, it has a rightmost occurrence.
pub proof fn lemma_occurs_has_last(text: Seq<char>, pattern: Seq<char>)
    requires
        occurs(text, pattern),
    ensures
        is_last_occurrence(text, pattern, last_index_of(text, pattern)),
{
    let at = choose|at: int| occurs_at(text, pattern, at);
    lemma_rightmost_below(text, pattern, at, text.len() as int);
    let last = choose|last: int|
        at <= last <= text.len() && #[trigger] occurs_at(text, pattern, last) && forall|later: int|
            last < later <= text.len() ==> !occurs_at(text, pattern, later);
    assert(is_last_occurrence(text, pattern, last));
}

/// The characters of `text`, in order.
pub fn chars_of(text: &str) -> (chars: Vec<char>)
    ensures
        chars@ == text@,
{
    let mut chars: Vec<char> = Vec::new();
    for c in it: text.chars()
        invariant
            chars@ == it.history(),
            it.seq() == text@,
    {
        chars.push(c);
    }
    chars
}

/// Whether `pattern` stands in `text` at index `at`.
pub fn matches_at(text: &[char], pattern: &[char], at: usize) -> (found: bool)
    ensures
        found == occurs_at(text@, pattern@, at as int),
{
    if at > text.len() || pattern.len() > text.len() - at {
        return false;
    }
    let mut k: usize = 0;
    while k < pattern.len()
        invariant
            k <= pattern.len(),
            at + pattern.len() <= text.len(),
            forall|j: int| 0 <= j < k ==> text@[at + j] == pattern@[j],
        decreases pattern.len() - k,
    {
        if text[at + k] != pattern[k] {
            assert(text@.subrange(at as int, at + pattern.len())[k as int] != pattern@[k as int]);
            return false;
        }
        k += 1;
    }
    assert(text@.subrange(at as int, at + pattern.len()) =~= pattern@);
    true
}

/// The index of the rightmost occurrence of `pattern` in `text`, if there is one.
pub fn last_occurrence(text: &[char], pattern: &[char]) -> (found: Option<usize>)
    ensures
        match found {
            Some(at) => is_last_occurrence(text@, pattern@, at as int),
            None => !occurs(text@, pattern@),
        },
{
    if pattern.len() > text.len() {
        return None;
    }
    let mut at: usize = text.len() - pattern.len();
    loop
        invariant
            at + pattern.len() <= text.len(),
            forall|later: int| at < later ==> !occurs_at(text@, pattern@, later),
        decreases at,
    {
        if matches_at(text, pattern, at) {
            return Some(at);
        }
        if at == 0 {
            return None;
        }
        at -= 1;
    }
}

} // verus!
