//! The storage subsystem: the record store and the nearest-neighbour index
//! side by side, the index keyed by the row identities of the store.
//!
//! The store is written first and is the authority. The index is derived
//! from it: a turn can be stored without being indexed, never the other way
//! round. Vectors do not pass through here. The caller adds a turn's vector
//! to the index under the key that `add_turn` returns, and hands the keys
//! that a search of the index returned to `search_turns`.

use crate::context::{important_section, related_turns, render_important, select_related, texts_of};
use crate::dedup::{find_near_duplicate, has_near_duplicate, says_the_same};
use crate::index::{
    needs_growth, ApproximateIndex, IndexError, GROWTH_INCREMENT, INITIAL_CAPACITY,
};
use crate::records::{ConversationTurn, ImportantEntry, Record};
use crate::stamp::{
    fresh_entry_id, fresh_turn_id, is_lower_hex, is_uuid_text, not_before, now_micros,
    stamp_not_before, ENTRY_ID_LEN,
};
use crate::store::{
    has_id, last_n, records_of, rows_with_rowid, RecordStore, Row, StoreError, Table,
};
use vstd::prelude::*;
use vstd::string::StringExecFns;

verus! {

/// Why a memory operation failed.
#[derive(Debug)]
pub enum MemoryError {
    /// The embedding provider failed; this is its message.
    Embedding(String),
    /// The nearest-neighbour index failed.
    Index(IndexError),
    /// The record store refused a row.
    Store(StoreError),
}

/// The stamp of the newest row of `rows`, if there is a row.
pub open spec fn newest_stamp<R: Record>(rows: Seq<Row<R>>) -> Option<i64> {
    if rows.len() == 0 {
        None
    } else {
        Some(rows.last().record.stamp() as i64)
    }
}

/// Whether `after` is `before` with one more row, written last under the row
/// identity `rowid`.
pub open spec fn appended<R>(before: Seq<Row<R>>, after: Seq<Row<R>>, rowid: int) -> bool {
    &&& after.len() == before.len() + 1
    &&& after.drop_last() == before
    &&& after.last().rowid == rowid
}

/// Why a row with the public id `id`, stamped no earlier than the newest
/// row, cannot be written to `table`, if it cannot.
pub open spec fn refusal<R: Record>(table: Table<R>, id: Seq<char>) -> Option<StoreError> {
    if has_id(table.rows(), id) {
        Some(StoreError::DuplicateId)
    } else if table.next_rowid() >= u64::MAX {
        Some(StoreError::Exhausted)
    } else {
        None
    }
}

/// How the index stands after room was made for one more vector: it holds
/// the same vectors of the same width and its capacity has not shrunk. An
/// index that was more than one slot away from full is untouched. One that
/// was not has, when `made` room, at least `GROWTH_INCREMENT` slots more and
/// a free slot.
pub open spec fn grown_as_needed(before: ApproximateIndex, after: ApproximateIndex, made: bool) -> bool {
    &&& after.keys() == before.keys()
    &&& after.width() == before.width()
    &&& after.limit() >= before.limit()
    &&& !needs_growth(before.held(), before.limit()) ==> after == before
    &&& made ==> after.held() < after.limit()
    &&& made && needs_growth(before.held(), before.limit()) ==> after.limit() >= before.limit()
        + GROWTH_INCREMENT
}

/// Whether some row of `rows` has a public id of the shape of a turn id.
pub open spec fn holds_turn_id(rows: Seq<Row<ConversationTurn>>) -> bool {
    exists|i: int| 0 <= i < rows.len() && is_uuid_text((#[trigger] rows[i]).record.id@)
}

/// Whether some row of `rows` has a public id as long as an entry id.
pub open spec fn holds_entry_id(rows: Seq<Row<ImportantEntry>>) -> bool {
    exists|i: int| 0 <= i < rows.len() && (#[trigger] rows[i]).record.id@.len() == ENTRY_ID_LEN
}

/// Whether `after` is `before` with one more turn, written last: the record
/// of the given exchange under the id and the stamp given.
pub open spec fn turn_written(
    before: Table<ConversationTurn>,
    after: Table<ConversationTurn>,
    id: Seq<char>,
    author: Seq<char>,
    user_input: Seq<char>,
    assistant_response: Seq<char>,
    stamp: int,
) -> bool {
    &&& appended(before.rows(), after.rows(), before.next_rowid())
    &&& after.next_rowid() == before.next_rowid() + 1
    &&& is_turn_of(after.rows().last().record, id, author, user_input, assistant_response, stamp)
}

/// Whether `after` is `before` with one more turn, written last: the record
/// of the given exchange under a fresh id, stamped no earlier than the
/// newest turn before it.
pub open spec fn fresh_turn_written(
    before: Table<ConversationTurn>,
    after: Table<ConversationTurn>,
    author: Seq<char>,
    user_input: Seq<char>,
    assistant_response: Seq<char>,
) -> bool {
    let turn = after.rows().last().record;
    &&& appended(before.rows(), after.rows(), before.next_rowid())
    &&& after.next_rowid() == before.next_rowid() + 1
    &&& is_uuid_text(turn.id@)
    &&& !has_id(before.rows(), turn.id@)
    &&& turn.author@ == author
    &&& turn.user_input@ == user_input
    &&& turn.assistant_response@ == assistant_response
    &&& newest_stamp(before.rows()) matches Some(newest) ==> turn.timestamp_micros >= newest
}

/// Whether `turn` is the record of the given exchange.
pub open spec fn is_turn_of(
    turn: ConversationTurn,
    id: Seq<char>,
    author: Seq<char>,
    user_input: Seq<char>,
    assistant_response: Seq<char>,
    stamp: int,
) -> bool {
    &&& turn.id@ == id
    &&& turn.author@ == author
    &&& turn.user_input@ == user_input
    &&& turn.assistant_response@ == assistant_response
    &&& turn.timestamp_micros == stamp
}

/// The record store together with the index over its turns.
pub struct VectorDb {
    store: RecordStore,
    index: ApproximateIndex,
}

impl VectorDb {
    /// The record store.
    pub closed spec fn store(&self) -> RecordStore {
        self.store
    }

    /// The nearest-neighbour index.
    pub closed spec fn index(&self) -> ApproximateIndex {
        self.index
    }

    /// The invariant: the store is well formed.
    pub open spec fn wf(&self) -> bool {
        self.store().wf()
    }

    /// The stored turns, oldest first.
    pub open spec fn turns(&self) -> Seq<ConversationTurn> {
        self.store().turns.records()
    }

    /// The important entries, oldest first.
    pub open spec fn important(&self) -> Seq<ImportantEntry> {
        self.store().important.records()
    }

    /// The stored turns that the keys `matches` point at, oldest first.
    pub open spec fn candidates(&self, matches: Seq<u64>) -> Seq<ConversationTurn> {
        records_of(rows_with_rowid(self.store().turns.rows(), matches))
    }

    /// A store and an index that belong together.
    pub fn from_parts(store: RecordStore, index: ApproximateIndex) -> (db: Self)
        requires
            store.wf(),
        ensures
            db.wf(),
            db.store() == store,
            db.index() == index,
    {
        VectorDb { store, index }
    }

    /// A store and an index that was filled elsewhere, from a saved file
    /// above all. The index has to take vectors of `dimensions` components
    /// and must not hold more vectors than it has room for.
    pub fn with_loaded_index(store: RecordStore, index: ApproximateIndex, dimensions: usize) -> (r:
        Result<Self, MemoryError>)
        requires
            store.wf(),
        ensures
            r is Ok <==> index.width() == dimensions && index.held() <= index.limit(),
            match r {
                Ok(db) => db.wf() && db.store() == store && db.index() == index,
                Err(e) => e == MemoryError::Index(
                    if index.width() != dimensions {
                        IndexError::WrongDimensions
                    } else {
                        IndexError::Overfull
                    },
                ),
            },
    {
        match index.validate(dimensions) {
            Err(e) => Err(MemoryError::Index(e)),
            Ok(()) => Ok(VectorDb { store, index }),
        }
    }

    /// An empty store with a new index for vectors of `dimensions`
    /// components.
    pub fn new(dimensions: usize) -> (r: Result<Self, MemoryError>)
        ensures
            match r {
                Ok(db) => {
                    &&& db.wf()
                    &&& db.turns().len() == 0
                    &&& db.important().len() == 0
                    &&& db.index().held() == 0
                    &&& db.index().limit() >= INITIAL_CAPACITY
                    &&& db.index().width() == dimensions
                },
                Err(e) => e matches MemoryError::Index(IndexError::Backend(_)),
            },
    {
        match ApproximateIndex::new(dimensions) {
            Err(e) => Err(MemoryError::Index(e)),
            Ok(index) => {
                let store = RecordStore::new();
                assert(records_of(store.turns.rows()).len() == 0);
                assert(records_of(store.important.rows()).len() == 0);
                Ok(VectorDb { store, index })
            },
        }
    }

    /// The index, for the caller to add, search, save and load vectors.
    pub fn vector_index(&self) -> (index: &ApproximateIndex)
        ensures
            *index == self.index(),
    {
        &self.index
    }

    /// The index, for the caller to add vectors and to load a saved index.
    /// The store is out of reach of what the caller does there.
    pub fn vector_index_mut(&mut self) -> (index: &mut ApproximateIndex)
        ensures
            *index == old(self).index(),
            final(self).index() == *final(index),
            final(self).store() == old(self).store(),
    {
        &mut self.index
    }

    /// The record store, for the caller to persist.
    pub fn record_store(&self) -> (store: &RecordStore)
        ensures
            *store == self.store(),
    {
        &self.store
    }

    /// Writes a turn whose id and time of writing are given to the store, and
    /// returns its row identity. The index is not touched.
    ///
    /// The turn is stamped with `now`, or with the stamp of the newest turn
    /// if that is later.
    pub fn write_turn(
        &mut self,
        id: String,
        author: &str,
        user_input: &str,
        assistant_response: &str,
        now: i64,
    ) -> (r: Result<u64, MemoryError>)
        requires
            old(self).wf(),
        ensures
            final(self).wf(),
            final(self).store().important == old(self).store().important,
            final(self).index() == old(self).index(),
            ({
                let before = old(self).store().turns;
                let after = final(self).store().turns;
                match r {
                    Ok(key) => {
                        &&& refusal(before, id@) is None
                        &&& key == before.next_rowid()
                        &&& turn_written(
                            before,
                            after,
                            id@,
                            author@,
                            user_input@,
                            assistant_response@,
                            not_before(now as int, newest_stamp(before.rows())),
                        )
                    },
                    Err(MemoryError::Store(e)) => refusal(before, id@) == Some(e) && after.same_as(
                        before,
                    ),
                    Err(_) => false,
                }
            }),
    {
        let stamp = stamp_not_before(now, self.store.turns.latest_timestamp());
        let turn = ConversationTurn {
            id,
            author: String::from_str(author),
            user_input: String::from_str(user_input),
            assistant_response: String::from_str(assistant_response),
            timestamp_micros: stamp,
        };
        let ghost before = self.store.turns.rows();
        match self.store.insert_turn(turn) {
            Err(e) => Err(MemoryError::Store(e)),
            Ok(key) => {
                proof {
                    let after = self.store.turns.rows();
                    assert(after.drop_last() =~= before);
                }
                Ok(key)
            },
        }
    }

    /// Writes a completed exchange to the store under a fresh id, stamped
    /// with the current time, and returns its row identity. The index is not
    /// touched.
    ///
    /// The write is refused only when the id drawn is already stored or no
    /// row identity is left.
    pub fn store_turn(&mut self, author: &str, user_input: &str, assistant_response: &str) -> (r:
        Result<u64, MemoryError>)
        requires
            old(self).wf(),
        ensures
            final(self).wf(),
            final(self).store().important == old(self).store().important,
            final(self).index() == old(self).index(),
            ({
                let before = old(self).store().turns;
                let after = final(self).store().turns;
                match r {
                    Ok(key) => key == before.next_rowid() && fresh_turn_written(
                        before,
                        after,
                        author@,
                        user_input@,
                        assistant_response@,
                    ),
                    Err(MemoryError::Store(e)) => after.same_as(before) && match e {
                        StoreError::DuplicateId => holds_turn_id(before.rows()),
                        StoreError::Exhausted => before.next_rowid() >= u64::MAX,
                        _ => false,
                    },
                    Err(_) => false,
                }
            }),
            !holds_turn_id(old(self).store().turns.rows()) && old(self).store().turns.next_rowid()
                < u64::MAX ==> r is Ok,
    {
        let id = fresh_turn_id();
        let now = now_micros();
        let ghost drawn = id@;
        let ghost rows = self.store.turns.rows();
        proof {
            if has_id(rows, drawn) {
                let i = choose|i: int| 0 <= i < rows.len() && (#[trigger] rows[i]).record.key()
                    == drawn;
                assert(is_uuid_text(rows[i].record.id@));
            }
        }
        self.write_turn(id, author, user_input, assistant_response, now)
    }

    /// Makes room in the index for the vector of one more turn: see
    /// `ApproximateIndex::ensure_room`. The store is not touched.
    pub fn make_room(&mut self) -> (r: Result<(), MemoryError>)
        ensures
            final(self).store() == old(self).store(),
            grown_as_needed(old(self).index(), final(self).index(), r is Ok),
            !needs_growth(old(self).index().held(), old(self).index().limit()) ==> r is Ok,
            r matches Err(e) ==> e is Index,
            needs_growth(old(self).index().held(), old(self).index().limit())
                && old(self).index().limit() + GROWTH_INCREMENT > usize::MAX ==> (r matches Err(
                MemoryError::Index(IndexError::CapacityOverflow),
            )) && final(self).index() == old(self).index(),
            r matches Err(MemoryError::Index(IndexError::CapacityOverflow))
                ==> old(self).index().limit() + GROWTH_INCREMENT > usize::MAX,
            r matches Err(MemoryError::Index(IndexError::Full)) ==> final(self).index().held()
                >= final(self).index().limit(),
    {
        match self.index.ensure_room() {
            Err(e) => Err(MemoryError::Index(e)),
            Ok(()) => Ok(()),
        }
    }

    /// Records a turn whose id and time of writing are given.
    ///
    /// The turn is written to the store first (`write_turn`). Only then is
    /// the index asked to make room for its vector (`make_room`); if that
    /// fails the turn stays recorded and is merely left out of the index. On
    /// success the result is the row identity under which the caller adds
    /// the vector.
    pub fn record_turn(
        &mut self,
        id: String,
        author: &str,
        user_input: &str,
        assistant_response: &str,
        now: i64,
    ) -> (r: Result<u64, MemoryError>)
        requires
            old(self).wf(),
        ensures
            final(self).wf(),
            final(self).store().important == old(self).store().important,
            grown_as_needed(old(self).index(), final(self).index(), r is Ok),
            ({
                let before = old(self).store().turns;
                let after = final(self).store().turns;
                let written = turn_written(
                    before,
                    after,
                    id@,
                    author@,
                    user_input@,
                    assistant_response@,
                    not_before(now as int, newest_stamp(before.rows())),
                );
                match r {
                    Ok(key) => {
                        &&& refusal(before, id@) is None
                        &&& written
                        &&& key == before.next_rowid()
                    },
                    Err(MemoryError::Store(e)) => {
                        &&& refusal(before, id@) == Some(e)
                        &&& after.same_as(before)
                        &&& final(self).index() == old(self).index()
                    },
                    Err(MemoryError::Index(_)) => {
                        &&& refusal(before, id@) is None
                        &&& written
                        &&& needs_growth(old(self).index().held(), old(self).index().limit())
                    },
                    Err(MemoryError::Embedding(_)) => false,
                }
            }),
            refusal(old(self).store().turns, id@) is None && !needs_growth(
                old(self).index().held(),
                old(self).index().limit(),
            ) ==> r is Ok,
    {
        let key = match self.write_turn(id, author, user_input, assistant_response, now) {
            Err(e) => {
                return Err(e);
            },
            Ok(key) => key,
        };
        match self.make_room() {
            Err(e) => Err(e),
            Ok(()) => Ok(key),
        }
    }

    /// Records a completed exchange under a fresh id, stamped with the
    /// current time: `store_turn`, then `make_room`.
    ///
    /// The call succeeds whenever no stored turn has an id of the shape of
    /// a fresh one, a row identity is left and the index needs no growth.
    /// It fails with a store error only when the id drawn is already stored
    /// or no row identity is left, and with an index error only when the
    /// index had to grow and could not; the turn is stored all the same
    /// then.
    pub fn add_turn(&mut self, author: &str, user_input: &str, assistant_response: &str) -> (r:
        Result<u64, MemoryError>)
        requires
            old(self).wf(),
        ensures
            final(self).wf(),
            final(self).store().important == old(self).store().important,
            grown_as_needed(old(self).index(), final(self).index(), r is Ok),
            ({
                let before = old(self).store().turns;
                let after = final(self).store().turns;
                let written = fresh_turn_written(
                    before,
                    after,
                    author@,
                    user_input@,
                    assistant_response@,
                );
                match r {
                    Ok(key) => written && key == before.next_rowid(),
                    Err(MemoryError::Store(e)) => {
                        &&& after.same_as(before)
                        &&& final(self).index() == old(self).index()
                        &&& match e {
                            StoreError::DuplicateId => holds_turn_id(before.rows()),
                            StoreError::Exhausted => before.next_rowid() >= u64::MAX,
                            _ => false,
                        }
                    },
                    Err(MemoryError::Index(_)) => written && needs_growth(
                        old(self).index().held(),
                        old(self).index().limit(),
                    ),
                    Err(MemoryError::Embedding(_)) => false,
                }
            }),
            !holds_turn_id(old(self).store().turns.rows()) && old(self).store().turns.next_rowid()
                < u64::MAX && !needs_growth(old(self).index().held(), old(self).index().limit())
                ==> r is Ok,
    {
        let key = match self.store_turn(author, user_input, assistant_response) {
            Err(e) => {
                return Err(e);
            },
            Ok(key) => key,
        };
        match self.make_room() {
            Err(e) => Err(e),
            Ok(()) => Ok(key),
        }
    }

    /// Takes back the turn with the public id `id`: for a turn that could
    /// not be made durable. Returns whether there was one. Exactly that
    /// turn leaves the store; its row identity is not handed out again.
    pub fn withdraw_turn(&mut self, id: &str) -> (found: bool)
        requires
            old(self).wf(),
        ensures
            final(self).wf(),
            final(self).store().important == old(self).store().important,
            final(self).index() == old(self).index(),
            final(self).store().turns.next_rowid() == old(self).store().turns.next_rowid(),
            found == has_id(old(self).store().turns.rows(), id@),
            !has_id(final(self).store().turns.rows(), id@),
            found ==> exists|i: int|
                0 <= i < old(self).store().turns.rows().len() && (
                #[trigger] old(self).store().turns.rows()[i]).record.key() == id@
                    && final(self).store().turns.rows() == old(self).store().turns.rows().remove(
                    i,
                ),
            !found ==> final(self).store().turns.rows() == old(self).store().turns.rows(),
    {
        self.store.turns.remove_by_id(id)
    }

    /// The `n` most recent turns, oldest first.
    pub fn recent_turns(&self, n: usize) -> (out: Vec<ConversationTurn>)
        ensures
            out@ == last_n(self.turns(), n as nat),
    {
        self.store.recent_turns(n)
    }

    /// The turns to show for a search of the index that returned the keys
    /// `matches`: the stored turns among them, without those whose public id
    /// is one of `exclude_ids`, oldest first, and at most `top_k` of them.
    pub fn search_turns(&self, matches: &Vec<u64>, top_k: usize, exclude_ids: &Vec<String>) -> (out:
        Vec<ConversationTurn>)
        ensures
            out@ == related_turns(self.candidates(matches@), texts_of(exclude_ids@), top_k as nat),
    {
        let candidates = self.store.turns_by_rowid(matches);
        select_related(candidates, exclude_ids, top_k)
    }

    /// Writes an important entry without looking for duplicates.
    fn write_entry(&mut self, id: String, content: String, now: i64) -> (r: Result<
        u64,
        StoreError,
    >)
        requires
            old(self).wf(),
        ensures
            final(self).wf(),
            final(self).store().turns == old(self).store().turns,
            final(self).index() == old(self).index(),
            ({
                let before = old(self).store().important;
                let after = final(self).store().important;
                let entry = ImportantEntry {
                    id,
                    content,
                    timestamp_micros: not_before(now as int, newest_stamp(before.rows())) as i64,
                };
                match r {
                    Ok(rowid) => {
                        &&& refusal(before, id@) is None
                        &&& rowid == before.next_rowid()
                        &&& after.next_rowid() == rowid + 1
                        &&& after.rows() == before.rows().push(Row { rowid, record: entry })
                    },
                    Err(e) => refusal(before, id@) == Some(e) && after.same_as(before),
                }
            }),
    {
        let stamp = stamp_not_before(now, self.store.important.latest_timestamp());
        let entry = ImportantEntry { id, content, timestamp_micros: stamp };
        self.store.insert_important(entry)
    }

    /// Stores `content` as an important fact with the given id and time of
    /// writing, unless a stored fact already says the same.
    ///
    /// A near-duplicate is skipped in silence: the result is `Ok(None)` and
    /// nothing changes. Otherwise the entry is stamped with `now`, or with
    /// the stamp of the newest entry if that is later, and written last; the
    /// result is its row identity.
    pub fn store_entry(&mut self, id: String, content: String, now: i64) -> (r: Result<
        Option<u64>,
        MemoryError,
    >)
        requires
            old(self).wf(),
        ensures
            final(self).wf(),
            final(self).store().turns == old(self).store().turns,
            final(self).index() == old(self).index(),
            ({
                let before = old(self).store().important;
                let after = final(self).store().important;
                let entry = ImportantEntry {
                    id,
                    content,
                    timestamp_micros: not_before(now as int, newest_stamp(before.rows())) as i64,
                };
                if has_near_duplicate(old(self).important(), content@) {
                    r == Ok::<Option<u64>, MemoryError>(None) && after.same_as(before)
                } else {
                    match r {
                        Ok(Some(rowid)) => {
                            &&& refusal(before, id@) is None
                            &&& rowid == before.next_rowid()
                            &&& after.next_rowid() == rowid + 1
                            &&& after.rows() == before.rows().push(Row { rowid, record: entry })
                        },
                        Ok(None) => false,
                        Err(MemoryError::Store(e)) => refusal(before, id@) == Some(e)
                            && after.same_as(before),
                        Err(_) => false,
                    }
                }
            }),
    {
        let existing = self.store.list_important();
        if find_near_duplicate(&existing, content.as_str()).is_some() {
            return Ok(None);
        }
        match self.write_entry(id, content, now) {
            Ok(rowid) => Ok(Some(rowid)),
            Err(e) => Err(MemoryError::Store(e)),
        }
    }

    /// Stores `content` as an important fact and returns the id under which
    /// it is known.
    ///
    /// When a stored fact already says the same, nothing is written and the
    /// id is that of the oldest such fact. Otherwise the fact is written
    /// under a fresh id.
    pub fn add_important(&mut self, content: &str) -> (r: Result<String, MemoryError>)
        requires
            old(self).wf(),
        ensures
            final(self).wf(),
            final(self).store().turns == old(self).store().turns,
            final(self).index() == old(self).index(),
            ({
                let before = old(self).store().important;
                let after = final(self).store().important;
                if has_near_duplicate(old(self).important(), content@) {
                    &&& after.same_as(before)
                    &&& r matches Ok(id)
                    &&& exists|i: int|
                        {
                            &&& 0 <= i < old(self).important().len()
                            &&& says_the_same(#[trigger] old(self).important()[i], content@)
                            &&& old(self).important()[i].id@ == id@
                            &&& forall|k: int|
                                0 <= k < i ==> !says_the_same(
                                    #[trigger] old(self).important()[k],
                                    content@,
                                )
                        }
                } else {
                    match r {
                        Ok(id) => {
                            &&& id@.len() == ENTRY_ID_LEN
                            &&& forall|i: int|
                                0 <= i < id@.len() ==> is_lower_hex(#[trigger] id@[i])
                            &&& !has_id(before.rows(), id@)
                            &&& appended(before.rows(), after.rows(), before.next_rowid())
                            &&& after.next_rowid() == before.next_rowid() + 1
                            &&& after.rows().last().record.id@ == id@
                            &&& after.rows().last().record.content@ == content@
                        },
                        Err(MemoryError::Store(e)) => after.same_as(before) && match e {
                            StoreError::DuplicateId => holds_entry_id(before.rows()),
                            StoreError::Exhausted => before.next_rowid() >= u64::MAX,
                            _ => false,
                        },
                        Err(_) => false,
                    }
                }
            }),
            !holds_entry_id(old(self).store().important.rows())
                && old(self).store().important.next_rowid() < u64::MAX ==> r is Ok,
    {
        let existing = self.store.list_important();
        match find_near_duplicate(&existing, content) {
            Some(i) => Ok(existing[i].id.clone()),
            None => {
                let id = fresh_entry_id();
                let now = now_micros();
                let ghost before = self.store.important.rows();
                proof {
                    if has_id(before, id@) {
                        let i = choose|i: int|
                            0 <= i < before.len() && (#[trigger] before[i]).record.key() == id@;
                        assert(before[i].record.id@.len() == ENTRY_ID_LEN);
                    }
                }
                match self.write_entry(id.clone(), String::from_str(content), now) {
                    Ok(_) => {
                        proof {
                            assert(self.store.important.rows().drop_last() =~= before);
                        }
                        Ok(id)
                    },
                    Err(e) => Err(MemoryError::Store(e)),
                }
            },
        }
    }

    /// All important entries, oldest first.
    pub fn list_important(&self) -> (out: Vec<ImportantEntry>)
        ensures
            out@ == self.important(),
    {
        self.store.list_important()
    }

    /// Deletes the important entry with the public id `id`. Returns whether
    /// there was one; an unknown id is no error and changes nothing.
    pub fn delete_important(&mut self, id: &str) -> (found: bool)
        requires
            old(self).wf(),
        ensures
            final(self).wf(),
            final(self).store().turns == old(self).store().turns,
            final(self).index() == old(self).index(),
            final(self).store().important.next_rowid() == old(self).store().important.next_rowid(),
            found == has_id(old(self).store().important.rows(), id@),
            !has_id(final(self).store().important.rows(), id@),
            found ==> exists|i: int|
                0 <= i < old(self).store().important.rows().len() && (
                #[trigger] old(self).store().important.rows()[i]).record.key() == id@
                    && final(self).store().important.rows()
                    == old(self).store().important.rows().remove(i),
            !found ==> final(self).store().important.same_as(old(self).store().important),
    {
        self.store.delete_important(id)
    }

    /// The important facts rendered on their own, as they stand at the head
    /// of a context: the empty string when there is none.
    pub fn get_important_context(&self) -> (out: String)
        ensures
            out@ == important_section(self.important()),
    {
        let entries = self.store.list_important();
        render_important(&entries)
    }
}

} // verus!
