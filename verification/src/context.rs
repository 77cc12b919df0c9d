//! Assembly of the context window handed to the model.
//!
//! A context has up to three sections, always in this order: the important
//! facts, the most recent turns, and older turns related to the query. A
//! section without rows is left out altogether, header included.

use crate::ordering::{
    in_order, is_ordered, lemma_stable_sorted, sort_by_time, stable_sorted, Timestamped,
};
use crate::records::{ConversationTurn, ImportantEntry};
use vstd::prelude::*;
use vstd::string::StringExecFns;

verus! {

/// Header of the section of important facts.
pub const IMPORTANT_HEADER: &'static str = "# Important Facts\n\n";

/// Header of the section of the most recent turns.
pub const RECENT_HEADER: &'static str = "# Recent Conversations\n\n";

/// Header of the section of older turns related to the query.
pub const RELATED_HEADER: &'static str = "# Related Past Conversations\n\n";

/// Extra results asked of the index on top of what filtering may remove.
pub const SEARCH_SLACK: usize = 5;

/// One important fact as a bullet line.
pub open spec fn bullet_line(entry: ImportantEntry) -> Seq<char> {
    "- "@ + entry.content@ + "\n"@
}

/// The bullet lines of `entries`, in order.
pub open spec fn bullet_lines(entries: Seq<ImportantEntry>) -> Seq<char>
    decreases entries.len(),
{
    if entries.len() == 0 {
        Seq::empty()
    } else {
        bullet_lines(entries.drop_last()) + bullet_line(entries.last())
    }
}

/// The section of important facts; empty when there is no fact.
pub open spec fn important_section(entries: Seq<ImportantEntry>) -> Seq<char> {
    if entries.len() == 0 {
        Seq::empty()
    } else {
        IMPORTANT_HEADER@ + bullet_lines(entries)
    }
}

/// One turn as a two-line block followed by a blank line.
pub open spec fn turn_block(turn: ConversationTurn) -> Seq<char> {
    turn.context_text() + "\n\n"@
}

/// The blocks of `turns`, in order.
pub open spec fn turn_blocks(turns: Seq<ConversationTurn>) -> Seq<char>
    decreases turns.len(),
{
    if turns.len() == 0 {
        Seq::empty()
    } else {
        turn_blocks(turns.drop_last()) + turn_block(turns.last())
    }
}

/// A section of turns under `header`; empty when there is no turn.
pub open spec fn turn_section(header: Seq<char>, turns: Seq<ConversationTurn>) -> Seq<char> {
    if turns.len() == 0 {
        Seq::empty()
    } else {
        header + turn_blocks(turns)
    }
}

/// The whole context: the three sections in their fixed order, the section
/// of important facts followed by a blank line when it is present.
pub open spec fn context_text(
    important: Seq<ImportantEntry>,
    recent: Seq<ConversationTurn>,
    related: Seq<ConversationTurn>,
) -> Seq<char> {
    (if important.len() == 0 {
        Seq::empty()
    } else {
        important_section(important) + "\n"@
    }) + turn_section(RECENT_HEADER@, recent) + turn_section(RELATED_HEADER@, related)
}

/// The public ids of `turns`, in order.
pub open spec fn ids_of(turns: Seq<ConversationTurn>) -> Seq<Seq<char>> {
    turns.map_values(|turn: ConversationTurn| turn.id@)
}

/// What each string of `strings` holds.
pub open spec fn texts_of(strings: Seq<String>) -> Seq<Seq<char>> {
    strings.map_values(|s: String| s@)
}

/// The candidates whose public id is not one of `exclude`, in order.
pub open spec fn not_excluded(candidates: Seq<ConversationTurn>, exclude: Seq<Seq<char>>) -> Seq<
    ConversationTurn,
> {
    candidates.filter(|turn: ConversationTurn| !exclude.contains(turn.id@))
}

/// The turns shown as related: the candidates that are not excluded, oldest
/// first, cut to the first `top_k`.
pub open spec fn related_turns(
    candidates: Seq<ConversationTurn>,
    exclude: Seq<Seq<char>>,
    top_k: nat,
) -> Seq<ConversationTurn> {
    let ordered = stable_sorted(not_excluded(candidates, exclude), false);
    if top_k >= ordered.len() {
        ordered
    } else {
        ordered.take(top_k as int)
    }
}

/// How many results to ask of the index so that `top_k` are left once the
/// `recent` turns already shown have been filtered out.
pub open spec fn overfetch(top_k: nat, recent: nat) -> nat {
    top_k + recent + SEARCH_SLACK as nat
}

/// Every related turn is a candidate, none is excluded, they stand oldest
/// first, and there are at most `top_k` of them.
pub proof fn lemma_related_turns(
    candidates: Seq<ConversationTurn>,
    exclude: Seq<Seq<char>>,
    top_k: nat,
)
    ensures
        related_turns(candidates, exclude, top_k).len() <= top_k,
        related_turns(candidates, exclude, top_k).len() <= candidates.len(),
        is_ordered(related_turns(candidates, exclude, top_k), false),
        forall|i: int|
            0 <= i < related_turns(candidates, exclude, top_k).len() ==> {
                let turn = #[trigger] related_turns(candidates, exclude, top_k)[i];
                candidates.contains(turn) && !exclude.contains(turn.id@)
            },
{
    let keep = |turn: ConversationTurn| !exclude.contains(turn.id@);
    let kept = candidates.filter(keep);
    let ordered = stable_sorted(kept, false);
    let related = related_turns(candidates, exclude, top_k);
    lemma_stable_sorted(kept, false);
    candidates.lemma_filter_len(keep);
    assert forall|i: int| 0 <= i < related.len() implies {
        let turn = #[trigger] related[i];
        candidates.contains(turn) && !exclude.contains(turn.id@)
    } by {
        let turn = related[i];
        assert(turn == ordered[i]);
        assert(ordered.contains(turn));
        vstd::seq_lib::to_multiset_contains(ordered, turn);
        vstd::seq_lib::to_multiset_contains(kept, turn);
        assert(kept.contains(turn));
        candidates.lemma_filter_contains_rev(keep, turn);
    }
    assert forall|i: int, j: int| 0 <= i < j < related.len() implies in_order(
        #[trigger] related[i].stamp(),
        #[trigger] related[j].stamp(),
        false,
    ) by {
        assert(related[i] == ordered[i] && related[j] == ordered[j]);
    }
}

/// Whether one of `ids` is the id of `turn`.
pub fn is_excluded(ids: &Vec<String>, turn: &ConversationTurn) -> (r: bool)
    ensures
        r == texts_of(ids@).contains(turn.id@),
{
    let ghost texts = texts_of(ids@);
    let mut i: usize = 0;
    while i < ids.len()
        invariant
            i <= ids.len(),
            texts == texts_of(ids@),
            forall|k: int| 0 <= k < i ==> texts[k] != turn.id@,
        decreases ids.len() - i,
    {
        if ids[i] == turn.id {
            assert(texts[i as int] == turn.id@);
            return true;
        }
        i += 1;
    }
    false
}

/// The public ids of `turns`, in order.
pub fn turn_ids(turns: &Vec<ConversationTurn>) -> (ids: Vec<String>)
    ensures
        texts_of(ids@) == ids_of(turns@),
{
    let mut ids: Vec<String> = Vec::new();
    let mut i: usize = 0;
    while i < turns.len()
        invariant
            i <= turns.len(),
            texts_of(ids@) == ids_of(turns@.take(i as int)),
        decreases turns.len() - i,
    {
        let ghost before = ids@;
        ids.push(turns[i].id.clone());
        assert(texts_of(ids@) =~= texts_of(before).push(turns@[i as int].id@));
        assert(ids_of(turns@.take(i + 1)) =~= ids_of(turns@.take(i as int)).push(
            turns@[i as int].id@,
        ));
        i += 1;
    }
    assert(turns@.take(turns@.len() as int) =~= turns@);
    ids
}

/// Chooses the turns to show as related to a query.
///
/// `candidates` are the stored turns that the index search pointed at.
/// Turns whose public id is in `exclude_ids` are dropped, the rest is put in
/// chronological order, and only the first `top_k` are kept.
pub fn select_related(
    candidates: Vec<ConversationTurn>,
    exclude_ids: &Vec<String>,
    top_k: usize,
) -> (related: Vec<ConversationTurn>)
    ensures
        related@ == related_turns(candidates@, texts_of(exclude_ids@), top_k as nat),
{
    let ghost all = candidates@;
    let ghost exclude = texts_of(exclude_ids@);
    let ghost keep = |turn: ConversationTurn| !exclude.contains(turn.id@);
    let mut kept: Vec<ConversationTurn> = Vec::new();
    for turn in it: candidates
        invariant
            it.seq() == all,
            exclude == texts_of(exclude_ids@),
            keep == |turn: ConversationTurn| !exclude.contains(turn.id@),
            kept@ == all.take(it.index() as int).filter(keep),
    {
        proof {
            let done = all.take(it.index() as int);
            assert(all.take(it.index() as int + 1) =~= done.push(turn));
            done.lemma_filter_push(turn, keep);
        }
        if !is_excluded(exclude_ids, &turn) {
            kept.push(turn);
        }
    }
    assert(all.take(all.len() as int) =~= all);
    let mut related = sort_by_time(kept, false);
    related.truncate(top_k);
    related
}

/// Number of results to ask of the index for `top_k` related turns when
/// `recent` turns are already shown; `None` when the sum cannot be counted.
pub fn search_width(top_k: usize, recent: usize) -> (n: Option<usize>)
    ensures
        match n {
            Some(n) => n == overfetch(top_k as nat, recent as nat),
            None => overfetch(top_k as nat, recent as nat) > usize::MAX,
        },
{
    match top_k.checked_add(recent) {
        None => None,
        Some(sum) => sum.checked_add(SEARCH_SLACK),
    }
}

/// Appends the bullet lines of `entries` to `out`.
fn push_bullets(out: &mut String, entries: &Vec<ImportantEntry>)
    ensures
        final(out)@ == old(out)@ + bullet_lines(entries@),
{
    let mut i: usize = 0;
    while i < entries.len()
        invariant
            i <= entries.len(),
            out@ == old(out)@ + bullet_lines(entries@.take(i as int)),
        decreases entries.len() - i,
    {
        let ghost before = out@;
        out.append("- ");
        out.append(entries[i].content.as_str());
        out.append("\n");
        proof {
            let done = entries@.take(i as int);
            let next = entries@.take(i + 1);
            assert(next.drop_last() =~= done);
            assert(next.last() == entries@[i as int]);
            assert(out@ =~= before + bullet_line(entries@[i as int]));
            assert(out@ =~= old(out)@ + bullet_lines(next));
        }
        i += 1;
    }
    assert(entries@.take(entries@.len() as int) =~= entries@);
}

/// Appends the blocks of `turns` to `out`.
fn push_blocks(out: &mut String, turns: &Vec<ConversationTurn>)
    ensures
        final(out)@ == old(out)@ + turn_blocks(turns@),
{
    let mut i: usize = 0;
    while i < turns.len()
        invariant
            i <= turns.len(),
            out@ == old(out)@ + turn_blocks(turns@.take(i as int)),
        decreases turns.len() - i,
    {
        let ghost before = out@;
        let text = turns[i].format_for_context();
        out.append(text.as_str());
        out.append("\n\n");
        proof {
            let done = turns@.take(i as int);
            let next = turns@.take(i + 1);
            assert(next.drop_last() =~= done);
            assert(next.last() == turns@[i as int]);
            assert(out@ =~= before + turn_block(turns@[i as int]));
            assert(out@ =~= old(out)@ + turn_blocks(next));
        }
        i += 1;
    }
    assert(turns@.take(turns@.len() as int) =~= turns@);
}

/// Renders the important facts on their own: the header, then one bullet
/// line per fact; the empty string when there is no fact.
pub fn render_important(entries: &Vec<ImportantEntry>) -> (out: String)
    ensures
        out@ == important_section(entries@),
{
    let mut out = String::new();
    if entries.len() > 0 {
        out.append(IMPORTANT_HEADER);
        push_bullets(&mut out, entries);
    }
    assert(out@ =~= important_section(entries@));
    out
}

/// Appends a section of turns under `header` to `out`; nothing when there is
/// no turn.
fn push_turn_section(out: &mut String, header: &str, turns: &Vec<ConversationTurn>)
    ensures
        final(out)@ == old(out)@ + turn_section(header@, turns@),
{
    if turns.len() > 0 {
        out.append(header);
        push_blocks(out, turns);
    }
    assert(out@ =~= old(out)@ + turn_section(header@, turns@));
}

/// Renders a context from its three sources.
pub fn render_context(
    important: &Vec<ImportantEntry>,
    recent: &Vec<ConversationTurn>,
    related: &Vec<ConversationTurn>,
) -> (out: String)
    ensures
        out@ == context_text(important@, recent@, related@),
{
    let mut out = render_important(important);
    if important.len() > 0 {
        out.append("\n");
    }
    push_turn_section(&mut out, RECENT_HEADER, recent);
    push_turn_section(&mut out, RELATED_HEADER, related);
    assert(out@ =~= context_text(important@, recent@, related@));
    out
}

} // verus!
