//! The store of record: two append-only tables, one of conversation turns
//! and one of important facts.
//!
//! Every row has two identities. The public id is the string by which
//! callers name a row. The row identity is a number that the store assigns;
//! it is what the nearest-neighbour index uses as its key.

use crate::ordering::Timestamped;
use crate::records::{ConversationTurn, ImportantEntry, Record};
use vstd::prelude::*;
use vstd::string::StringExecFns;

verus! {

/// Why the store refused a row.
#[derive(Debug, Clone, Copy, PartialEq, Eq, Structural)]
pub enum StoreError {
    /// A row with the same public id is already stored.
    DuplicateId,
    /// The row is stamped earlier than the latest row of its table.
    OutOfOrder,
    /// The table has run out of row identities.
    Exhausted,
    /// The row identity is not above those already handed out.
    StaleRowId,
}

/// A stored record together with the row identity it was given.
pub struct Row<R> {
    pub rowid: u64,
    pub record: R,
}

impl<R: Timestamped> Timestamped for Row<R> {
    open spec fn stamp(&self) -> int {
        self.record.stamp()
    }

    fn timestamp(&self) -> (t: i64) {
        self.record.timestamp()
    }
}

/// The records of `rows`, in order.
pub open spec fn records_of<R>(rows: Seq<Row<R>>) -> Seq<R> {
    rows.map_values(|row: Row<R>| row.record)
}

/// Whether some row of `rows` has the public id `id`.
pub open spec fn has_id<R: Record>(rows: Seq<Row<R>>, id: Seq<char>) -> bool {
    exists|i: int| 0 <= i < rows.len() && (#[trigger] rows[i]).record.key() == id
}

/// The rows of `rows` whose row identity is one of `keys`, in table order.
pub open spec fn rows_with_rowid<R>(rows: Seq<Row<R>>, keys: Seq<u64>) -> Seq<Row<R>> {
    rows.filter(|row: Row<R>| keys.contains(row.rowid))
}

/// The row identity that a table holding `rows` hands out next: one above
/// its last, or 1 when it is empty.
pub open spec fn rowid_after<R>(rows: Seq<Row<R>>) -> int {
    if rows.len() == 0 {
        1
    } else {
        rows.last().rowid + 1
    }
}

/// Why a row cannot be put behind `rows` under the row identity `rowid`, if
/// it cannot; `next_rowid` is the lowest identity still free.
pub open spec fn misfit<R: Record>(
    rows: Seq<Row<R>>,
    next_rowid: int,
    rowid: u64,
    record: R,
) -> Option<StoreError> {
    if rowid < next_rowid {
        Some(StoreError::StaleRowId)
    } else if rowid == u64::MAX {
        Some(StoreError::Exhausted)
    } else if has_id(rows, record.key()) {
        Some(StoreError::DuplicateId)
    } else if rows.len() > 0 && record.stamp() < rows.last().record.stamp() {
        Some(StoreError::OutOfOrder)
    } else {
        None
    }
}

/// Why the row at index `k` of `rows` cannot follow the rows before it.
pub open spec fn misfit_at<R: Record>(rows: Seq<Row<R>>, k: int) -> Option<StoreError> {
    misfit(rows.take(k), rowid_after(rows.take(k)), rows[k].rowid, rows[k].record)
}

/// The last `n` elements of `s`, or all of them if there are fewer.
pub open spec fn last_n<A>(s: Seq<A>, n: nat) -> Seq<A> {
    if n >= s.len() {
        s
    } else {
        s.skip(s.len() - n)
    }
}

/// An append-only table whose rows stay in the order of their writing.
pub struct Table<R: Record> {
    rows: Vec<Row<R>>,
    next_rowid: u64,
}

impl<R: Record> Table<R> {
    /// The rows of the table, oldest first.
    pub closed spec fn rows(&self) -> Seq<Row<R>> {
        self.rows@
    }

    /// The row identity that the next insert will hand out.
    pub closed spec fn next_rowid(&self) -> int {
        self.next_rowid as int
    }

    /// The records of the table, oldest first.
    pub open spec fn records(&self) -> Seq<R> {
        records_of(self.rows())
    }

    /// The table's invariant: row identities grow along the table and stay
    /// below the next one to be handed out, timestamps never decrease along
    /// the table, and no public id occurs twice.
    pub open spec fn wf(&self) -> bool {
        let rows = self.rows();
        &&& forall|i: int, j: int|
            0 <= i < j < rows.len() ==> (#[trigger] rows[i]).rowid < (#[trigger] rows[j]).rowid
        &&& forall|i: int| 0 <= i < rows.len() ==> (#[trigger] rows[i]).rowid < self.next_rowid()
        &&& forall|i: int, j: int|
            0 <= i < j < rows.len() ==> (#[trigger] rows[i]).record.stamp() <= (
            #[trigger] rows[j]).record.stamp()
        &&& forall|i: int, j: int|
            0 <= i < j < rows.len() ==> (#[trigger] rows[i]).record.key() != (
            #[trigger] rows[j]).record.key()
    }

    /// Why `record` cannot be appended, if it cannot.
    pub open spec fn rejection(&self, record: R) -> Option<StoreError> {
        let rows = self.rows();
        if has_id(rows, record.key()) {
            Some(StoreError::DuplicateId)
        } else if rows.len() > 0 && record.stamp() < rows.last().record.stamp() {
            Some(StoreError::OutOfOrder)
        } else if self.next_rowid() >= u64::MAX {
            Some(StoreError::Exhausted)
        } else {
            None
        }
    }

    /// Whether the two tables hold the same rows and will hand out the same
    /// row identity next.
    pub open spec fn same_as(&self, other: Self) -> bool {
        self.rows() == other.rows() && self.next_rowid() == other.next_rowid()
    }

    /// An empty table whose first row will get the identity 1.
    pub fn new() -> (table: Self)
        ensures
            table.wf(),
            table.rows() == Seq::<Row<R>>::empty(),
            table.next_rowid() == 1,
    {
        Table { rows: Vec::new(), next_rowid: 1 }
    }

    /// Number of rows.
    pub fn len(&self) -> (n: usize)
        ensures
            n == self.rows().len(),
    {
        self.rows.len()
    }

    /// Timestamp of the newest row, if there is a row.
    pub fn latest_timestamp(&self) -> (t: Option<i64>)
        ensures
            self.rows().len() == 0 ==> t is None,
            self.rows().len() > 0 ==> t == Some(self.rows().last().record.stamp() as i64),
    {
        if self.rows.len() == 0 {
            None
        } else {
            Some(self.rows[self.rows.len() - 1].record.timestamp())
        }
    }

    /// A copy of the newest row with its row identity, if there is a row.
    pub fn newest(&self) -> (row: Option<(u64, R)>)
        ensures
            self.rows().len() == 0 ==> row is None,
            self.rows().len() > 0 ==> row == Some(
                (self.rows().last().rowid, self.rows().last().record),
            ),
    {
        if self.rows.len() == 0 {
            None
        } else {
            let last = &self.rows[self.rows.len() - 1];
            Some((last.rowid, last.record.duplicate()))
        }
    }

    /// Position of the row with the public id `id`, if there is one.
    pub fn position_of(&self, id: &str) -> (at: Option<usize>)
        ensures
            match at {
                Some(i) => i < self.rows().len() && self.rows()[i as int].record.key() == id@,
                None => !has_id(self.rows(), id@),
            },
    {
        let wanted = String::from_str(id);
        let mut i: usize = 0;
        while i < self.rows.len()
            invariant
                i <= self.rows.len(),
                wanted@ == id@,
                forall|k: int| 0 <= k < i ==> (#[trigger] self.rows@[k]).record.key() != id@,
            decreases self.rows.len() - i,
        {
            if *self.rows[i].record.id() == wanted {
                return Some(i);
            }
            i += 1;
        }
        None
    }

    /// Why `record` cannot be put back under the row identity `rowid`, if it
    /// cannot.
    pub open spec fn rejection_at(&self, rowid: u64, record: R) -> Option<StoreError> {
        misfit(self.rows(), self.next_rowid(), rowid, record)
    }

    /// Appends a row that nothing speaks against.
    fn append(&mut self, rowid: u64, record: R)
        requires
            old(self).wf(),
            old(self).next_rowid() <= rowid < u64::MAX,
            !has_id(old(self).rows(), record.key()),
            old(self).rows().len() > 0 ==> old(self).rows().last().record.stamp() <= record.stamp(),
        ensures
            final(self).wf(),
            final(self).next_rowid() == rowid + 1,
            final(self).rows() == old(self).rows().push(Row { rowid, record }),
    {
        let ghost before = self.rows@;
        self.rows.push(Row { rowid, record });
        self.next_rowid = rowid + 1;
        proof {
            let after = self.rows@;
            let n = before.len();
            assert forall|i: int, j: int| 0 <= i < j < after.len() implies (#[trigger] after[i]).rowid
                < (#[trigger] after[j]).rowid && after[i].record.stamp() <= after[j].record.stamp()
                && after[i].record.key() != after[j].record.key() by {
                assert(after[i] == before[i]);
                if j < before.len() {
                    assert(after[j] == before[j]);
                } else {
                    assert(before[i].record.stamp() <= before[n - 1].record.stamp());
                }
            }
        }
    }

    /// Appends `record` and returns the row identity it was given.
    ///
    /// The row is refused, and the table left as it was, when its public id
    /// is already stored, when it is stamped earlier than the newest row, or
    /// when no row identity is left.
    pub fn insert(&mut self, record: R) -> (r: Result<u64, StoreError>)
        requires
            old(self).wf(),
        ensures
            final(self).wf(),
            match r {
                Ok(rowid) => {
                    &&& old(self).rejection(record) is None
                    &&& rowid == old(self).next_rowid()
                    &&& final(self).next_rowid() == rowid + 1
                    &&& final(self).rows() == old(self).rows().push(Row { rowid, record })
                },
                Err(e) => {
                    &&& old(self).rejection(record) == Some(e)
                    &&& final(self).same_as(*old(self))
                },
            },
    {
        if self.position_of(record.id().as_str()).is_some() {
            return Err(StoreError::DuplicateId);
        }
        let n = self.rows.len();
        if n > 0 && record.timestamp() < self.rows[n - 1].record.timestamp() {
            return Err(StoreError::OutOfOrder);
        }
        if self.next_rowid == u64::MAX {
            return Err(StoreError::Exhausted);
        }
        let rowid = self.next_rowid;
        self.append(rowid, record);
        Ok(rowid)
    }

    /// Puts back a row that was written earlier, under the row identity it
    /// had then. Rows are put back oldest first: the identity has to be
    /// above all those handed out so far.
    pub fn restore(&mut self, rowid: u64, record: R) -> (r: Result<(), StoreError>)
        requires
            old(self).wf(),
        ensures
            final(self).wf(),
            match r {
                Ok(()) => {
                    &&& old(self).rejection_at(rowid, record) is None
                    &&& final(self).next_rowid() == rowid + 1
                    &&& final(self).rows() == old(self).rows().push(Row { rowid, record })
                },
                Err(e) => {
                    &&& old(self).rejection_at(rowid, record) == Some(e)
                    &&& final(self).same_as(*old(self))
                },
            },
    {
        if rowid < self.next_rowid {
            return Err(StoreError::StaleRowId);
        }
        if rowid == u64::MAX {
            return Err(StoreError::Exhausted);
        }
        if self.position_of(record.id().as_str()).is_some() {
            return Err(StoreError::DuplicateId);
        }
        let n = self.rows.len();
        if n > 0 && record.timestamp() < self.rows[n - 1].record.timestamp() {
            return Err(StoreError::OutOfOrder);
        }
        self.append(rowid, record);
        Ok(())
    }

    /// A table that holds `rows`, each under the row identity it brings.
    ///
    /// The rows have to come as a table holds them: row identities growing
    /// from 1 or above, timestamps never decreasing, no public id twice. The
    /// first row that does not fit behind those before it is the reason of
    /// the refusal.
    pub fn from_rows(rows: Vec<Row<R>>) -> (r: Result<Self, StoreError>)
        ensures
            r is Ok <==> forall|k: int| 0 <= k < rows@.len() ==> misfit_at(rows@, k) is None,
            match r {
                Ok(table) => {
                    &&& table.wf()
                    &&& table.rows() == rows@
                    &&& table.next_rowid() == rowid_after(rows@)
                },
                Err(e) => exists|k: int|
                    {
                        &&& 0 <= k < rows@.len()
                        &&& #[trigger] misfit_at(rows@, k) == Some(e)
                        &&& forall|j: int| 0 <= j < k ==> misfit_at(rows@, j) is None
                    },
            },
    {
        let ghost all = rows@;
        let mut table: Table<R> = Table::new();
        for row in it: rows
            invariant
                it.seq() == all,
                table.wf(),
                table.rows() == all.take(it.index() as int),
                table.next_rowid() == rowid_after(all.take(it.index() as int)),
                forall|j: int| 0 <= j < it.index() ==> misfit_at(all, j) is None,
        {
            let ghost k = it.index() as int;
            let ghost done = table.rows();
            assert(row == all[k]);
            match table.restore(row.rowid, row.record) {
                Err(e) => {
                    assert(misfit_at(all, k) == Some(e));
                    return Err(e);
                },
                Ok(()) => {
                    assert(all.take(k + 1) =~= done.push(row));
                    assert(misfit_at(all, k) is None);
                },
            }
        }
        assert(all.take(all.len() as int) =~= all);
        Ok(table)
    }

    /// Deletes the row with the public id `id`. Returns whether there was one.
    pub fn remove_by_id(&mut self, id: &str) -> (found: bool)
        requires
            old(self).wf(),
        ensures
            final(self).wf(),
            final(self).next_rowid() == old(self).next_rowid(),
            found == has_id(old(self).rows(), id@),
            !has_id(final(self).rows(), id@),
            found ==> exists|i: int|
                0 <= i < old(self).rows().len() && (#[trigger] old(self).rows()[i]).record.key()
                    == id@ && final(self).rows() == old(self).rows().remove(i),
            !found ==> final(self).rows() == old(self).rows(),
    {
        match self.position_of(id) {
            None => false,
            Some(i) => {
                let ghost before = self.rows@;
                self.rows.remove(i);
                proof {
                    let after = self.rows@;
                    assert(after == before.remove(i as int));
                    assert forall|a: int, b: int| 0 <= a < b < after.len() implies (
                    #[trigger] after[a]).rowid < (#[trigger] after[b]).rowid
                        && after[a].record.stamp() <= after[b].record.stamp()
                        && after[a].record.key() != after[b].record.key() by {
                        let a0 = if a < i { a } else { a + 1 };
                        let b0 = if b < i { b } else { b + 1 };
                        assert(after[a] == before[a0] && after[b] == before[b0]);
                    }
                    assert forall|a: int| 0 <= a < after.len() implies (#[trigger] after[a]).rowid
                        < self.next_rowid() && after[a].record.key() != id@ by {
                        let a0 = if a < i { a } else { a + 1 };
                        assert(after[a] == before[a0]);
                        if a0 < i {
                            assert(before[a0].record.key() != before[i as int].record.key());
                        } else {
                            assert(before[i as int].record.key() != before[a0].record.key());
                        }
                    }
                    assert(has_id(before, id@));
                }
                true
            },
        }
    }

    /// Copies of the last `n` records, oldest first.
    pub fn last(&self, n: usize) -> (out: Vec<R>)
        ensures
            out@ == last_n(self.records(), n as nat),
    {
        let len = self.rows.len();
        let start: usize = if n >= len {
            0
        } else {
            len - n
        };
        let mut out: Vec<R> = Vec::new();
        let mut i: usize = start;
        while i < len
            invariant
                start <= i <= len,
                len == self.rows.len(),
                out@ == self.records().subrange(start as int, i as int),
            decreases len - i,
        {
            out.push(self.rows[i].record.duplicate());
            assert(self.records().subrange(start as int, i + 1) =~= self.records().subrange(
                start as int,
                i as int,
            ).push(self.records()[i as int]));
            i += 1;
        }
        assert(self.records().subrange(start as int, len as int) =~= last_n(
            self.records(),
            n as nat,
        ));
        out
    }

    /// Copies of all records, oldest first.
    pub fn all(&self) -> (out: Vec<R>)
        ensures
            out@ == self.records(),
    {
        self.last(self.rows.len())
    }

    /// Copies of the records whose row identity is one of `keys`, oldest first.
    pub fn select(&self, keys: &Vec<u64>) -> (out: Vec<R>)
        ensures
            out@ == records_of(rows_with_rowid(self.rows(), keys@)),
    {
        let ghost wanted = |row: Row<R>| keys@.contains(row.rowid);
        let mut out: Vec<R> = Vec::new();
        let mut i: usize = 0;
        while i < self.rows.len()
            invariant
                i <= self.rows.len(),
                wanted == |row: Row<R>| keys@.contains(row.rowid),
                out@ == records_of(self.rows@.take(i as int).filter(wanted)),
            decreases self.rows.len() - i,
        {
            let hit = holds_key(keys, self.rows[i].rowid);
            proof {
                let done = self.rows@.take(i as int);
                let row = self.rows@[i as int];
                assert(self.rows@.take(i + 1) =~= done.push(row));
                done.lemma_filter_push(row, wanted);
                if hit {
                    assert(records_of(done.filter(wanted).push(row)) =~= records_of(
                        done.filter(wanted),
                    ).push(row.record));
                }
            }
            if hit {
                out.push(self.rows[i].record.duplicate());
            }
            i += 1;
        }
        assert(self.rows@.take(self.rows@.len() as int) =~= self.rows@);
        out
    }
}

/// Whether `key` is one of `keys`.
pub fn holds_key(keys: &Vec<u64>, key: u64) -> (r: bool)
    ensures
        r == keys@.contains(key),
{
    let mut i: usize = 0;
    while i < keys.len()
        invariant
            i <= keys.len(),
            forall|k: int| 0 <= k < i ==> keys@[k] != key,
        decreases keys.len() - i,
    {
        if keys[i] == key {
            return true;
        }
        i += 1;
    }
    false
}

/// The store of record for conversation turns and important facts.
pub struct RecordStore {
    pub turns: Table<ConversationTurn>,
    pub important: Table<ImportantEntry>,
}

impl RecordStore {
    /// Both tables are well formed.
    pub open spec fn wf(&self) -> bool {
        self.turns.wf() && self.important.wf()
    }

    /// A store without rows.
    pub fn new() -> (store: Self)
        ensures
            store.wf(),
            store.turns.rows().len() == 0,
            store.important.rows().len() == 0,
    {
        RecordStore { turns: Table::new(), important: Table::new() }
    }

    /// A store that holds the given rows; see `Table::from_rows`. The turns
    /// are looked at first.
    pub fn from_rows(turns: Vec<Row<ConversationTurn>>, important: Vec<Row<ImportantEntry>>) -> (r:
        Result<Self, StoreError>)
        ensures
            r is Ok <==> (forall|k: int| 0 <= k < turns@.len() ==> misfit_at(turns@, k) is None)
                && (forall|k: int| 0 <= k < important@.len() ==> misfit_at(important@, k) is None),
            r matches Ok(store) ==> {
                &&& store.wf()
                &&& store.turns.rows() == turns@
                &&& store.important.rows() == important@
                &&& store.turns.next_rowid() == rowid_after(turns@)
                &&& store.important.next_rowid() == rowid_after(important@)
            },
            r matches Err(e) ==> (exists|k: int|
                0 <= k < turns@.len() && #[trigger] misfit_at(turns@, k) == Some(e)) || (exists|
                k: int,
            | 0 <= k < important@.len() && #[trigger] misfit_at(important@, k) == Some(e)),
    {
        let turns = match Table::from_rows(turns) {
            Ok(table) => table,
            Err(e) => {
                return Err(e);
            },
        };
        let important = match Table::from_rows(important) {
            Ok(table) => table,
            Err(e) => {
                return Err(e);
            },
        };
        Ok(RecordStore { turns, important })
    }

    /// Writes a turn and returns its row identity.
    pub fn insert_turn(&mut self, turn: ConversationTurn) -> (r: Result<u64, StoreError>)
        requires
            old(self).wf(),
        ensures
            final(self).wf(),
            final(self).important == old(self).important,
            match r {
                Ok(rowid) => {
                    &&& old(self).turns.rejection(turn) is None
                    &&& rowid == old(self).turns.next_rowid()
                    &&& final(self).turns.next_rowid() == rowid + 1
                    &&& final(self).turns.rows() == old(self).turns.rows().push(
                        Row { rowid, record: turn },
                    )
                },
                Err(e) => {
                    &&& old(self).turns.rejection(turn) == Some(e)
                    &&& final(self).turns.same_as(old(self).turns)
                },
            },
    {
        self.turns.insert(turn)
    }

    /// Writes an important entry and returns its row identity.
    pub fn insert_important(&mut self, entry: ImportantEntry) -> (r: Result<u64, StoreError>)
        requires
            old(self).wf(),
        ensures
            final(self).wf(),
            final(self).turns == old(self).turns,
            match r {
                Ok(rowid) => {
                    &&& old(self).important.rejection(entry) is None
                    &&& rowid == old(self).important.next_rowid()
                    &&& final(self).important.next_rowid() == rowid + 1
                    &&& final(self).important.rows() == old(self).important.rows().push(
                        Row { rowid, record: entry },
                    )
                },
                Err(e) => {
                    &&& old(self).important.rejection(entry) == Some(e)
                    &&& final(self).important.same_as(old(self).important)
                },
            },
    {
        self.important.insert(entry)
    }

    /// Deletes the important entry with the public id `id`. Returns whether
    /// there was one; an unknown id is no error and changes nothing.
    pub fn delete_important(&mut self, id: &str) -> (found: bool)
        requires
            old(self).wf(),
        ensures
            final(self).wf(),
            final(self).turns == old(self).turns,
            final(self).important.next_rowid() == old(self).important.next_rowid(),
            found == has_id(old(self).important.rows(), id@),
            !has_id(final(self).important.rows(), id@),
            found ==> exists|i: int|
                0 <= i < old(self).important.rows().len() && (
                #[trigger] old(self).important.rows()[i]).record.key() == id@
                    && final(self).important.rows() == old(self).important.rows().remove(i),
            !found ==> final(self).important.same_as(old(self).important),
    {
        self.important.remove_by_id(id)
    }

    /// The `n` most recent turns, oldest first.
    pub fn recent_turns(&self, n: usize) -> (out: Vec<ConversationTurn>)
        ensures
            out@ == last_n(self.turns.records(), n as nat),
    {
        self.turns.last(n)
    }

    /// The turns whose row identity is one of `keys`, oldest first.
    pub fn turns_by_rowid(&self, keys: &Vec<u64>) -> (out: Vec<ConversationTurn>)
        ensures
            out@ == records_of(rows_with_rowid(self.turns.rows(), keys@)),
    {
        self.turns.select(keys)
    }

    /// All important entries, oldest first.
    pub fn list_important(&self) -> (out: Vec<ImportantEntry>)
        ensures
            out@ == self.important.records(),
    {
        self.important.all()
    }
}

} // verus!
