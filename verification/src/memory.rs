//! The memory manager: it records turns, keeps the important facts free of
//! near-duplicates, and assembles the context for a query.
//!
//! Embedding a text and searching the index by a vector are done by the
//! caller. What the manager needs of them comes in as arguments: the row
//! identities that a search returned. What the caller needs for them goes
//! out as results: the number of results to ask the index for, and the row
//! identity under which to index a new turn.

use crate::context::{
    context_text, ids_of, overfetch, related_turns, render_context, search_width, turn_ids,
};
use crate::dedup::{has_near_duplicate, lemma_trimmed_says_the_same};
use crate::index::needs_growth;
use crate::records::{ConversationTurn, ImportantEntry, Record};
use crate::stamp::{fresh_entry_id, not_before, now_micros, ENTRY_ID_LEN};
use crate::store::{has_id, last_n, RecordStore, StoreError};
use crate::text::{trim, trimmed};
use crate::vector_db::{
    appended, fresh_turn_written, grown_as_needed, holds_entry_id, holds_turn_id, newest_stamp,
    refusal, MemoryError, VectorDb,
};
use vstd::prelude::*;

verus! {

/// Number of most recent turns shown in a context unless told otherwise.
pub const DEFAULT_RECENT_TURNS: usize = 5;

/// The conversational memory of one agent.
pub struct MemoryManager {
    vector_db: VectorDb,
    recent_turns: usize,
}

impl MemoryManager {
    /// The storage subsystem.
    pub closed spec fn db(&self) -> VectorDb {
        self.vector_db
    }

    /// How many of the most recent turns a context shows.
    pub closed spec fn window(&self) -> nat {
        self.recent_turns as nat
    }

    /// The manager's invariant: its store is well formed.
    pub open spec fn wf(&self) -> bool {
        self.db().wf()
    }

    /// The record store.
    pub open spec fn store(&self) -> RecordStore {
        self.db().store()
    }

    /// The stored turns, oldest first.
    pub open spec fn turns(&self) -> Seq<ConversationTurn> {
        self.db().turns()
    }

    /// The important entries, oldest first.
    pub open spec fn important(&self) -> Seq<ImportantEntry> {
        self.db().important()
    }

    /// The turns of the recency window, oldest first.
    pub open spec fn recent(&self) -> Seq<ConversationTurn> {
        last_n(self.turns(), self.window())
    }

    /// The stored turns that a search result `matches` points at.
    pub open spec fn candidates(&self, matches: Seq<u64>) -> Seq<ConversationTurn> {
        self.db().candidates(matches)
    }

    /// The turns shown as related for a search result `matches`.
    pub open spec fn related(&self, matches: Seq<u64>, top_k: nat) -> Seq<ConversationTurn> {
        related_turns(self.candidates(matches), ids_of(self.recent()), top_k)
    }

    /// The context for a search result `matches`.
    pub open spec fn context_for(&self, matches: Seq<u64>, top_k: nat) -> Seq<char> {
        context_text(self.important(), self.recent(), self.related(matches, top_k))
    }

    /// A manager over `vector_db` whose contexts show the last
    /// `recent_turns` turns.
    pub fn new(vector_db: VectorDb, recent_turns: usize) -> (m: Self)
        requires
            vector_db.wf(),
        ensures
            m.wf(),
            m.db() == vector_db,
            m.window() == recent_turns,
    {
        MemoryManager { vector_db, recent_turns }
    }

    /// The storage subsystem.
    pub fn vector_db(&self) -> (db: &VectorDb)
        ensures
            *db == self.db(),
    {
        &self.vector_db
    }

    /// The storage subsystem, to be changed in place.
    pub fn vector_db_mut(&mut self) -> (db: &mut VectorDb)
        ensures
            *db == old(self).db(),
            final(self).db() == *final(db),
            final(self).window() == old(self).window(),
    {
        &mut self.vector_db
    }

    /// Records a completed exchange under a fresh id, stamped with the
    /// current time, and returns the row identity under which the caller
    /// adds its vector to the index. See `VectorDb::add_turn` for when the
    /// call succeeds and when each error comes.
    pub fn add_turn(&mut self, author: &str, user_input: &str, assistant_response: &str) -> (r:
        Result<u64, MemoryError>)
        requires
            old(self).wf(),
        ensures
            final(self).wf(),
            final(self).window() == old(self).window(),
            final(self).store().important == old(self).store().important,
            grown_as_needed(old(self).db().index(), final(self).db().index(), r is Ok),
            ({
                let before = old(self).store().turns;
                let after = final(self).store().turns;
                let written = fresh_turn_written(
                    before,
                    after,
                    author@,
                    user_input@,
                    assistant_response@,
                );
                match r {
                    Ok(key) => written && key == before.next_rowid(),
                    Err(MemoryError::Store(e)) => {
                        &&& after.same_as(before)
                        &&& final(self).db().index() == old(self).db().index()
                        &&& match e {
                            StoreError::DuplicateId => holds_turn_id(before.rows()),
                            StoreError::Exhausted => before.next_rowid() >= u64::MAX,
                            _ => false,
                        }
                    },
                    Err(MemoryError::Index(_)) => written && needs_growth(
                        old(self).db().index().held(),
                        old(self).db().index().limit(),
                    ),
                    Err(MemoryError::Embedding(_)) => false,
                }
            }),
            !holds_turn_id(old(self).store().turns.rows()) && old(self).store().turns.next_rowid()
                < u64::MAX && !needs_growth(
                old(self).db().index().held(),
                old(self).db().index().limit(),
            ) ==> r is Ok,
    {
        self.vector_db.add_turn(author, user_input, assistant_response)
    }

    /// The turns of the recency window, oldest first.
    pub fn recent_turns(&self) -> (out: Vec<ConversationTurn>)
        ensures
            out@ == self.recent(),
    {
        self.vector_db.recent_turns(self.recent_turns)
    }

    /// How many results the caller asks of the index for `top_k` related
    /// turns: `top_k` and, to make up for what the filter takes out, the
    /// size of the recency window and a little more. `None` when the number
    /// cannot be counted.
    pub fn search_width(&self, top_k: usize) -> (n: Option<usize>)
        ensures
            match n {
                Some(n) => n == overfetch(top_k as nat, self.recent().len()),
                None => overfetch(top_k as nat, self.recent().len()) > usize::MAX,
            },
    {
        let stored = self.vector_db.record_store().turns.len();
        let recent = if self.recent_turns >= stored {
            stored
        } else {
            self.recent_turns
        };
        search_width(top_k, recent)
    }

    /// Assembles the context for a query, given the row identities `matches`
    /// that the index returned for it.
    ///
    /// The context shows all important facts, the recency window, and up to
    /// `top_k` older turns among those that `matches` points at. A turn of
    /// the recency window is never shown a second time as related.
    pub fn get_context(&self, matches: &Vec<u64>, top_k: usize) -> (out: String)
        ensures
            out@ == self.context_for(matches@, top_k as nat),
    {
        let important = self.vector_db.list_important();
        let recent = self.recent_turns();
        let shown = turn_ids(&recent);
        let related = self.vector_db.search_turns(matches, top_k, &shown);
        render_context(&important, &recent, &related)
    }

    /// Remembers `content`, trimmed, as an important fact with the given id
    /// and time of writing, unless a stored fact already says the same.
    ///
    /// Returns whether the fact was written. A near-duplicate is skipped in
    /// silence: the result is `Ok(false)` and nothing changes.
    pub fn remember(&mut self, id: String, content: &str, now: i64) -> (r: Result<bool, MemoryError>)
        requires
            old(self).wf(),
        ensures
            final(self).wf(),
            final(self).window() == old(self).window(),
            final(self).store().turns == old(self).store().turns,
            final(self).db().index() == old(self).db().index(),
            ({
                let before = old(self).store().important;
                let after = final(self).store().important;
                if has_near_duplicate(old(self).important(), content@) {
                    r == Ok::<bool, MemoryError>(false) && after.same_as(before)
                } else {
                    match r {
                        Ok(written) => {
                            &&& written
                            &&& refusal(before, id@) is None
                            &&& appended(before.rows(), after.rows(), before.next_rowid())
                            &&& after.next_rowid() == before.next_rowid() + 1
                            &&& after.rows().last().record.id@ == id@
                            &&& after.rows().last().record.content@ == trimmed(content@)
                            &&& after.rows().last().record.timestamp_micros == not_before(
                                now as int,
                                newest_stamp(before.rows()),
                            )
                        },
                        Err(MemoryError::Store(e)) => refusal(before, id@) == Some(e)
                            && after.same_as(before),
                        Err(_) => false,
                    }
                }
            }),
    {
        proof {
            lemma_trimmed_says_the_same(self.important(), content@);
        }
        let ghost before = self.vector_db.store().important.rows();
        match self.vector_db.store_entry(id, trim(content), now) {
            Ok(Some(_)) => {
                proof {
                    assert(self.vector_db.store().important.rows().drop_last() =~= before);
                }
                Ok(true)
            },
            Ok(None) => Ok(false),
            Err(e) => Err(e),
        }
    }

    /// Remembers `content` as an important fact under a fresh id, unless a
    /// stored fact already says the same. See `remember`.
    pub fn add_to_long_term(&mut self, content: &str) -> (r: Result<bool, MemoryError>)
        requires
            old(self).wf(),
        ensures
            final(self).wf(),
            final(self).window() == old(self).window(),
            final(self).store().turns == old(self).store().turns,
            final(self).db().index() == old(self).db().index(),
            ({
                let before = old(self).store().important;
                let after = final(self).store().important;
                if has_near_duplicate(old(self).important(), content@) {
                    r == Ok::<bool, MemoryError>(false) && after.same_as(before)
                } else {
                    match r {
                        Ok(written) => {
                            &&& written
                            &&& appended(before.rows(), after.rows(), before.next_rowid())
                            &&& after.next_rowid() == before.next_rowid() + 1
                            &&& after.rows().last().record.content@ == trimmed(content@)
                        },
                        Err(MemoryError::Store(e)) => after.same_as(before) && match e {
                            StoreError::DuplicateId => holds_entry_id(before.rows()),
                            StoreError::Exhausted => before.next_rowid() >= u64::MAX,
                            _ => false,
                        },
                        Err(_) => false,
                    }
                }
            }),
            !holds_entry_id(old(self).store().important.rows())
                && old(self).store().important.next_rowid() < u64::MAX ==> r is Ok,
    {
        let id = fresh_entry_id();
        let now = now_micros();
        let ghost before = self.vector_db.store().important.rows();
        proof {
            if has_id(before, id@) {
                let i = choose|i: int|
                    0 <= i < before.len() && (#[trigger] before[i]).record.key() == id@;
                assert(before[i].record.id@.len() == ENTRY_ID_LEN);
            }
        }
        self.remember(id, content, now)
    }
}

} // verus!
