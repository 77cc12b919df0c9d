//! What holds of the memory manager across calls.

use crate::context::{ids_of, lemma_related_turns, not_excluded};
use crate::dedup::{has_near_duplicate, normalized, says_the_same};
use crate::memory::MemoryManager;
use crate::ordering::{
    in_order, is_ordered, lemma_filter_stays_ordered, lemma_sorted_stays, Timestamped,
};
use crate::records::{ConversationTurn, ImportantEntry, Record};
use crate::store::{records_of, rows_with_rowid, Row};
use crate::text::{lemma_trimmed_idempotent, trimmed};
use vstd::prelude::*;

verus! {

/// The recency window holds exactly the newest turns, as many as the window
/// is wide or all of them if there are fewer, and shows them oldest first:
/// no turn outside the window is newer than a turn inside.
pub proof fn law_recency_window(m: MemoryManager)
    requires
        m.wf(),
    ensures
        m.recent().len() == if m.window() <= m.turns().len() {
            m.window()
        } else {
            m.turns().len()
        },
        is_ordered(m.recent(), false),
        forall|i: int|
            0 <= i < m.recent().len() ==> #[trigger] m.recent()[i] == m.turns()[m.turns().len()
                - m.recent().len() + i],
        forall|j: int, i: int|
            0 <= j < m.turns().len() - m.recent().len() && 0 <= i < m.recent().len() ==> (
            #[trigger] m.turns()[j]).stamp() <= (#[trigger] m.recent()[i]).stamp(),
{
    let rows = m.store().turns.rows();
    let turns = m.turns();
    let recent = m.recent();
    let skipped = turns.len() - recent.len();
    assert forall|i: int| 0 <= i < recent.len() implies #[trigger] recent[i] == turns[skipped + i]
        && recent[i] == rows[skipped + i].record by {}
    assert forall|i: int, j: int| 0 <= i < j < recent.len() implies in_order(
        #[trigger] recent[i].stamp(),
        #[trigger] recent[j].stamp(),
        false,
    ) by {
        assert(rows[skipped + i].record.stamp() <= rows[skipped + j].record.stamp());
    }
    assert forall|j: int, i: int|
        0 <= j < turns.len() - recent.len() && 0 <= i < recent.len() implies (
    #[trigger] turns[j]).stamp() <= (#[trigger] recent[i]).stamp() by {
        assert(rows[j].record.stamp() <= rows[skipped + i].record.stamp());
    }
}

/// No turn is shown both as recent and as related: whatever the index
/// returned, the public id of a related turn is not the id of any turn of
/// the recency window.
pub proof fn law_sections_disjoint(m: MemoryManager, matches: Seq<u64>, top_k: nat)
    ensures
        forall|i: int, j: int|
            0 <= i < m.related(matches, top_k).len() && 0 <= j < m.recent().len() ==> (
            #[trigger] m.related(matches, top_k)[i]).id@ != (#[trigger] m.recent()[j]).id@,
{
    let recent = m.recent();
    let related = m.related(matches, top_k);
    lemma_related_turns(m.candidates(matches), ids_of(recent), top_k);
    assert forall|i: int, j: int| 0 <= i < related.len() && 0 <= j < recent.len() implies (
    #[trigger] related[i]).id@ != (#[trigger] recent[j]).id@ by {
        assert(!ids_of(recent).contains(related[i].id@));
        assert(ids_of(recent)[j] == recent[j].id@);
    }
}

/// Every element of a sequence passes a filter that all of them satisfy.
proof fn lemma_filter_all<A>(s: Seq<A>, keep: spec_fn(A) -> bool)
    requires
        forall|i: int| 0 <= i < s.len() ==> keep(#[trigger] s[i]),
    ensures
        s.filter(keep) == s,
    decreases s.len(),
{
    reveal(Seq::filter);
    if s.len() > 0 {
        let front = s.drop_last();
        assert forall|i: int| 0 <= i < front.len() implies keep(#[trigger] front[i]) by {
            assert(front[i] == s[i]);
        }
        lemma_filter_all(front, keep);
        assert(keep(s[s.len() - 1]));
        assert(front.push(s.last()) =~= s);
    }
}

/// No element of a sequence passes a filter that none of them satisfies.
proof fn lemma_filter_none<A>(s: Seq<A>, keep: spec_fn(A) -> bool)
    requires
        forall|i: int| 0 <= i < s.len() ==> !keep(#[trigger] s[i]),
    ensures
        s.filter(keep) == Seq::<A>::empty(),
    decreases s.len(),
{
    reveal(Seq::filter);
    if s.len() > 0 {
        let front = s.drop_last();
        assert forall|i: int| 0 <= i < front.len() implies !keep(#[trigger] front[i]) by {
            assert(front[i] == s[i]);
        }
        lemma_filter_none(front, keep);
        assert(!keep(s[s.len() - 1]));
    }
}

/// What passes a filter was in the sequence, at some index.
proof fn lemma_filtered_from<A>(s: Seq<A>, keep: spec_fn(A) -> bool, i: int) -> (k: int)
    requires
        0 <= i < s.filter(keep).len(),
    ensures
        0 <= k < s.len(),
        s[k] == s.filter(keep)[i],
        keep(s[k]),
{
    let x = s.filter(keep)[i];
    assert(s.filter(keep).contains(x));
    s.lemma_filter_contains_rev(keep, x);
    s.lemma_filter_pred(keep, i);
    choose|k: int| 0 <= k < s.len() && s[k] == x
}

/// A row identity that the store has handed out resolves to exactly one
/// stored turn: looking up the identity of the row at index `at` gives that
/// row's turn and nothing else. This holds in particular of the key that
/// `record_turn` returns for the index.
pub proof fn law_key_resolves_to_one_turn(m: MemoryManager, at: int)
    requires
        m.wf(),
        0 <= at < m.turns().len(),
    ensures
        m.candidates(seq![m.store().turns.rows()[at].rowid]) == seq![m.turns()[at]],
{
    let rows = m.store().turns.rows();
    let key = rows[at].rowid;
    let wanted = |row: Row<ConversationTurn>| seq![key].contains(row.rowid);
    let before = rows.take(at);
    let after = rows.skip(at + 1);
    assert(rows =~= before + seq![rows[at]] + after);
    Seq::filter_distributes_over_add(before + seq![rows[at]], after, wanted);
    Seq::filter_distributes_over_add(before, seq![rows[at]], wanted);
    assert(seq![key][0] == key);
    lemma_filter_all(seq![rows[at]], wanted);
    assert forall|i: int| 0 <= i < before.len() implies !wanted(#[trigger] before[i]) by {
        assert(rows[i].rowid < rows[at].rowid);
    }
    lemma_filter_none(before, wanted);
    assert forall|i: int| 0 <= i < after.len() implies !wanted(#[trigger] after[i]) by {
        assert(after[i] == rows[at + 1 + i]);
        assert(rows[at].rowid < rows[at + 1 + i].rowid);
    }
    lemma_filter_none(after, wanted);
    assert(rows.filter(wanted) =~= seq![rows[at]]);
    assert(m.candidates(seq![key]) =~= seq![m.turns()[at]]);
}

/// The turns shown as related are the oldest of the stored turns that the
/// search pointed at and that are older than the recency window: the first
/// `top_k` of them in the order of the store.
pub proof fn law_related_are_oldest_matches(m: MemoryManager, matches: Seq<u64>, top_k: nat)
    requires
        m.wf(),
    ensures
        ({
            let rows = m.store().turns.rows();
            let older = rows.take(rows.len() - m.recent().len());
            let found = records_of(rows_with_rowid(older, matches));
            m.related(matches, top_k) == if top_k >= found.len() {
                found
            } else {
                found.take(top_k as int)
            }
        }),
{
    let rows = m.store().turns.rows();
    let turns = m.turns();
    let recent = m.recent();
    let skipped = rows.len() - recent.len();
    let older = rows.take(skipped);
    let newer = rows.skip(skipped);
    let wanted = |row: Row<ConversationTurn>| matches.contains(row.rowid);
    let exclude = ids_of(recent);
    let keep = |t: ConversationTurn| !exclude.contains(t.id@);
    let unwrap = |row: Row<ConversationTurn>| row.record;

    assert(rows =~= older + newer);
    Seq::filter_distributes_over_add(older, newer, wanted);
    let found_old = older.filter(wanted);
    let found_new = newer.filter(wanted);
    assert(rows.filter(wanted) == found_old + found_new);
    let old_turns = records_of(found_old);
    let new_turns = records_of(found_new);
    assert(m.candidates(matches) =~= old_turns + new_turns);
    Seq::filter_distributes_over_add(old_turns, new_turns, keep);

    assert forall|j: int| 0 <= j < recent.len() implies #[trigger] recent[j] == rows[skipped
        + j].record by {}

    // No turn older than the window has the id of a turn of the window.
    assert forall|i: int| 0 <= i < old_turns.len() implies keep(#[trigger] old_turns[i]) by {
        let k = lemma_filtered_from(older, wanted, i);
        assert(old_turns[i] == rows[k].record);
        if exclude.contains(old_turns[i].id@) {
            let j = choose|j: int| 0 <= j < exclude.len() && exclude[j] == old_turns[i].id@;
            assert(exclude[j] == recent[j].id@);
            assert(rows[k].record.key() != rows[skipped + j].record.key());
        }
    }
    lemma_filter_all(old_turns, keep);

    // Every match inside the window is a turn of the window.
    assert forall|i: int| 0 <= i < new_turns.len() implies !keep(#[trigger] new_turns[i]) by {
        let k = lemma_filtered_from(newer, wanted, i);
        assert(new_turns[i] == rows[skipped + k].record);
        assert(recent[k] == rows[skipped + k].record);
        assert(exclude[k] == recent[k].id@);
    }
    lemma_filter_none(new_turns, keep);
    assert(not_excluded(m.candidates(matches), exclude) =~= old_turns);

    // The store keeps its rows in order, so there is nothing left to sort.
    assert(is_ordered(older, false)) by {
        assert forall|i: int, j: int| 0 <= i < j < older.len() implies in_order(
            #[trigger] older[i].stamp(),
            #[trigger] older[j].stamp(),
            false,
        ) by {
            assert(rows[i].record.stamp() <= rows[j].record.stamp());
        }
    }
    lemma_filter_stays_ordered(older, wanted, false);
    assert(is_ordered(old_turns, false)) by {
        assert forall|i: int, j: int| 0 <= i < j < old_turns.len() implies in_order(
            #[trigger] old_turns[i].stamp(),
            #[trigger] old_turns[j].stamp(),
            false,
        ) by {
            assert(in_order(found_old[i].stamp(), found_old[j].stamp(), false));
        }
    }
    lemma_sorted_stays(old_turns, false);
}

/// A stored turn that the index search points at, and that is older than the
/// recency window, is shown as related if and only if fewer than `top_k` of
/// the turns stored before it were pointed at as well.
///
/// So a turn that matches the query is shown unless `top_k` older matches
/// take its place.
pub proof fn law_match_is_related(m: MemoryManager, matches: Seq<u64>, top_k: nat, at: int)
    requires
        m.wf(),
        0 <= at < m.turns().len() - m.recent().len(),
        matches.contains(m.store().turns.rows()[at].rowid),
    ensures
        m.related(matches, top_k).contains(m.turns()[at]) <==> rows_with_rowid(
            m.store().turns.rows().take(at),
            matches,
        ).len() < top_k,
{
    let rows = m.store().turns.rows();
    let recent = m.recent();
    let skipped = rows.len() - recent.len();
    let older = rows.take(skipped);
    let wanted = |row: Row<ConversationTurn>| matches.contains(row.rowid);
    let turn = m.turns()[at];
    law_related_are_oldest_matches(m, matches, top_k);
    let related = m.related(matches, top_k);

    // The matches among the older rows: those before `at`, the row at `at`, those after.
    let before = rows.take(at);
    let after = older.skip(at + 1);
    assert(older =~= before + seq![rows[at]] + after);
    Seq::filter_distributes_over_add(before + seq![rows[at]], after, wanted);
    Seq::filter_distributes_over_add(before, seq![rows[at]], wanted);
    assert(seq![rows[at]].filter(wanted) =~= seq![rows[at]]) by {
        lemma_filter_all(seq![rows[at]], wanted);
    }
    let found_before = before.filter(wanted);
    let found_after = after.filter(wanted);
    let found = older.filter(wanted);
    assert(found == found_before + seq![rows[at]] + found_after);
    let p = found_before.len() as int;
    assert(found[p] == rows[at]);
    let shown = records_of(found);
    assert(shown[p] == turn);

    // No other match has the id of the row at `at`.
    assert forall|q: int| 0 <= q < found.len() && q != p implies (#[trigger] shown[q]) != turn by {
        if q < p {
            assert(found[q] == found_before[q]);
            let k = lemma_filtered_from(before, wanted, q);
            assert(rows[k].record.key() != rows[at].record.key());
        } else {
            assert(found[q] == found_after[q - p - 1]);
            let k = lemma_filtered_from(after, wanted, q - p - 1);
            assert(after[k] == rows[at + 1 + k]);
            assert(rows[at].record.key() != rows[at + 1 + k].record.key());
        }
    }
    if p < top_k {
        assert(related[p] == turn);
    } else {
        if related.contains(turn) {
            let q = choose|q: int| 0 <= q < related.len() && related[q] == turn;
            assert(related[q] == shown[q]);
        }
    }
}

/// The oldest stored turn that the index search points at is shown as
/// related, provided that it is older than the recency window and that at
/// least one related turn is asked for.
pub proof fn law_oldest_match_is_related(m: MemoryManager, matches: Seq<u64>, top_k: nat, at: int)
    requires
        m.wf(),
        top_k >= 1,
        0 <= at < m.turns().len() - m.recent().len(),
        matches.contains(m.store().turns.rows()[at].rowid),
        forall|i: int| 0 <= i < at ==> !matches.contains((#[trigger] m.store().turns.rows()[i]).rowid),
    ensures
        m.related(matches, top_k).len() >= 1,
        m.related(matches, top_k)[0] == m.turns()[at],
{
    let rows = m.store().turns.rows();
    let wanted = |row: Row<ConversationTurn>| matches.contains(row.rowid);
    let before = rows.take(at);
    assert forall|i: int| 0 <= i < before.len() implies !wanted(#[trigger] before[i]) by {
        assert(before[i] == rows[i]);
    }
    lemma_filter_none(before, wanted);
    law_match_is_related(m, matches, top_k, at);
    law_related_are_oldest_matches(m, matches, top_k);
    // It stands first: every related turn is one of the older matches, in store order.
    let older = rows.take(rows.len() - m.recent().len());
    let after = older.skip(at + 1);
    assert(older =~= before + seq![rows[at]] + after);
    Seq::filter_distributes_over_add(before + seq![rows[at]], after, wanted);
    Seq::filter_distributes_over_add(before, seq![rows[at]], wanted);
    lemma_filter_all(seq![rows[at]], wanted);
    assert(older.filter(wanted) =~= seq![rows[at]] + after.filter(wanted));
    assert(records_of(older.filter(wanted))[0] == m.turns()[at]);
}

/// A fact is stored once: after `first` has been remembered, a text `second`
/// that differs from it only in case and in surrounding whitespace is a
/// near-duplicate of a stored entry, so remembering it is skipped.
///
/// `before` and `after` are the important entries around the first call:
/// either `first` was itself skipped and nothing changed, or one entry that
/// holds `first`, trimmed, was written behind the others.
pub proof fn law_case_variant_is_skipped(
    before: Seq<ImportantEntry>,
    after: Seq<ImportantEntry>,
    first: Seq<char>,
    second: Seq<char>,
)
    requires
        normalized(first) == normalized(second),
        has_near_duplicate(before, first) ==> after == before,
        !has_near_duplicate(before, first) ==> after.len() == before.len() + 1 && after.drop_last()
            == before && after.last().content@ == trimmed(first),
    ensures
        has_near_duplicate(after, second),
{
    if has_near_duplicate(before, first) {
        let i = choose|i: int| 0 <= i < before.len() && says_the_same(#[trigger] before[i], first);
        assert(says_the_same(after[i], second));
    } else {
        let i = after.len() - 1;
        lemma_trimmed_idempotent(first);
        assert(normalized(after[i].content@) == normalized(second));
        assert(says_the_same(after[i], second));
    }
}

} // verus!
