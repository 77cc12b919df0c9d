//! The rule by which an important fact counts as already known.
//!
//! Two texts are compared in normalized form: trimmed, then in lowercase.
//! They count as the same fact when the normalized forms are equal, or when
//! both are longer than a few characters and one contains the other. The
//! second half is a rule of thumb: it also catches longer texts that merely
//! share a passage.

use crate::records::ImportantEntry;
use crate::text::{
    chars_of, contains, has_substring, lemma_trimmed_idempotent, lowercase_of, occurs_at,
    to_lowercase, trim, trimmed,
};
use vstd::prelude::*;

verus! {

/// Two normalized texts of more than this many characters are duplicates
/// already when one contains the other.
pub const MIN_CONTAINMENT_LEN: usize = 10;

/// A text as it is compared for duplicates: trimmed, then in lowercase.
pub open spec fn normalized(s: Seq<char>) -> Seq<char> {
    lowercase_of(trimmed(s))
}

/// Whether two normalized texts count as the same fact: they are equal, or
/// both are longer than `MIN_CONTAINMENT_LEN` and one contains the other.
pub open spec fn near_duplicates(a: Seq<char>, b: Seq<char>) -> bool {
    a == b || (a.len() > MIN_CONTAINMENT_LEN && b.len() > MIN_CONTAINMENT_LEN && (has_substring(
        a,
        b,
    ) || has_substring(b, a)))
}

/// Whether `entry` counts as the same fact as `candidate`.
pub open spec fn says_the_same(entry: ImportantEntry, candidate: Seq<char>) -> bool {
    near_duplicates(normalized(entry.content@), normalized(candidate))
}

/// Whether some entry of `entries` counts as the same fact as `candidate`.
pub open spec fn has_near_duplicate(entries: Seq<ImportantEntry>, candidate: Seq<char>) -> bool {
    exists|i: int| 0 <= i < entries.len() && says_the_same(#[trigger] entries[i], candidate)
}

/// Whitespace around a candidate makes no difference to the rule.
pub proof fn lemma_trimmed_says_the_same(entries: Seq<ImportantEntry>, candidate: Seq<char>)
    ensures
        normalized(trimmed(candidate)) == normalized(candidate),
        has_near_duplicate(entries, trimmed(candidate)) == has_near_duplicate(entries, candidate),
{
    lemma_trimmed_idempotent(candidate);
    if has_near_duplicate(entries, trimmed(candidate)) {
        let i = choose|i: int|
            0 <= i < entries.len() && says_the_same(#[trigger] entries[i], trimmed(candidate));
        assert(says_the_same(entries[i], candidate));
    }
    if has_near_duplicate(entries, candidate) {
        let i = choose|i: int|
            0 <= i < entries.len() && says_the_same(#[trigger] entries[i], candidate);
        assert(says_the_same(entries[i], trimmed(candidate)));
    }
}

/// The normalized form of `content`.
pub fn normalize(content: &str) -> (out: Vec<char>)
    ensures
        out@ == normalized(content@),
{
    let cut = trim(content);
    let lower = to_lowercase(cut.as_str());
    chars_of(lower.as_str())
}

/// Whether two normalized texts count as the same fact.
pub fn are_near_duplicates(a: &Vec<char>, b: &Vec<char>) -> (r: bool)
    ensures
        r == near_duplicates(a@, b@),
{
    if a.len() == b.len() {
        // Texts of one length contain each other only when they are equal.
        let same = contains(a, b);
        proof {
            if a@ == b@ {
                assert(a@.subrange(0, a@.len() as int) =~= b@);
                assert(occurs_at(a@, b@, 0));
            }
            if has_substring(a@, b@) {
                let at = choose|at: int| occurs_at(a@, b@, at);
                assert(a@.subrange(0, a@.len() as int) =~= a@);
            }
            if has_substring(b@, a@) {
                let at = choose|at: int| occurs_at(b@, a@, at);
                assert(b@.subrange(0, b@.len() as int) =~= b@);
            }
        }
        same
    } else {
        a.len() > MIN_CONTAINMENT_LEN && b.len() > MIN_CONTAINMENT_LEN && (contains(a, b)
            || contains(b, a))
    }
}

/// Position of the first entry of `entries` that counts as the same fact as
/// `content`, if there is one.
pub fn find_near_duplicate(entries: &Vec<ImportantEntry>, content: &str) -> (at: Option<usize>)
    ensures
        match at {
            Some(i) => {
                &&& i < entries.len()
                &&& says_the_same(entries@[i as int], content@)
                &&& forall|k: int| 0 <= k < i ==> !says_the_same(#[trigger] entries@[k], content@)
            },
            None => !has_near_duplicate(entries@, content@),
        },
{
    let wanted = normalize(content);
    let mut i: usize = 0;
    while i < entries.len()
        invariant
            i <= entries.len(),
            wanted@ == normalized(content@),
            forall|k: int| 0 <= k < i ==> !says_the_same(#[trigger] entries@[k], content@),
        decreases entries.len() - i,
    {
        let existing = normalize(entries[i].content.as_str());
        if are_near_duplicates(&existing, &wanted) {
            return Some(i);
        }
        i += 1;
    }
    None
}

} // verus!
