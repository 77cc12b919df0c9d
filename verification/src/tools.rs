//! The tools through which the model reads and changes the memory: what
//! each is called with, what it checks, and what it answers.

use crate::context::related_turns;
use crate::dedup::{has_near_duplicate, says_the_same};
use crate::memory::MemoryManager;
use crate::index::IndexError;
use crate::records::{ConversationTurn, ImportantEntry};
use crate::stamp::{minute_label, utc_minute_label};
use crate::store::{has_id, StoreError};
use crate::vector_db::{appended, holds_entry_id, MemoryError, VectorDb};
use crate::text::{decimal, push_decimal, trimmed};
use vstd::prelude::*;
use vstd::string::StringExecFns;

verus! {

#[verifier::external_type_specification]
#[verifier::external_body]
pub struct ExIoError(std::io::Error);

/// Why a tool call failed.
#[derive(Debug)]
pub enum ToolError {
    CommandFailed(String),
    MemoryFailed(String),
    SearchFailed(String),
    FetchFailed(String),
    ScheduleFailed(String),
    WeatherFailed(String),
    Io(std::io::Error),
    Timeout,
}

/// Arguments of the tool that saves an important fact.
pub struct ImportantAddArgs {
    pub content: String,
}

/// Arguments of the tool that lists the important facts: none.
pub struct ImportantListArgs {}

/// Arguments of the tool that deletes an important fact.
pub struct ImportantDeleteArgs {
    pub id: String,
}

/// Arguments of the tool that remembers a fact unless it is already known.
pub struct RememberArgs {
    pub content: String,
}

/// Arguments of the tool that searches past conversations.
pub struct SearchMemoryArgs {
    pub query: String,
    pub top_k: usize,
}

/// Number of results of a memory search when the caller names none.
pub const DEFAULT_TOP_K: usize = 5;

/// Largest number of results of a memory search.
pub const MAX_TOP_K: usize = 20;

/// What `add` answers to anyone but the owner.
pub const ADD_DENIED: &'static str =
    "Permission denied: only the bot owner can add important entries";

/// What `delete` answers to anyone but the owner.
pub const DELETE_DENIED: &'static str =
    "Permission denied: only the bot owner can delete important entries";

/// What `list` answers when nothing is stored.
pub const NOTHING_STORED: &'static str = "No important entries stored.";

/// What a search answers when nothing was found.
pub const NOTHING_FOUND: &'static str = "No relevant conversations found.";

/// What is shown in place of a timestamp that the calendar cannot hold.
pub const UNKNOWN_TIME: &'static str = "unknown";

/// The number of results of a memory search when the caller names none.
pub fn default_top_k() -> (k: usize)
    ensures
        k == DEFAULT_TOP_K,
{
    DEFAULT_TOP_K
}

/// `top_k` held between 1 and `MAX_TOP_K`.
pub open spec fn clamped_top_k(top_k: usize) -> usize {
    if top_k < 1 {
        1
    } else if top_k > MAX_TOP_K {
        MAX_TOP_K
    } else {
        top_k
    }
}

/// The number of results asked for, held between 1 and `MAX_TOP_K`.
pub fn clamp_top_k(top_k: usize) -> (k: usize)
    ensures
        k == clamped_top_k(top_k),
{
    if top_k < 1 {
        1
    } else if top_k > MAX_TOP_K {
        MAX_TOP_K
    } else {
        top_k
    }
}

/// `std::io::Error` in its `Display` form. Nothing is promised of the text.
#[verifier::external_body]
fn io_error_text(error: &std::io::Error) -> (text: String) {
    error.to_string()
}

impl StoreError {
    /// The error in words.
    pub open spec fn text(&self) -> Seq<char> {
        match *self {
            StoreError::DuplicateId => "a row with this id is already stored"@,
            StoreError::OutOfOrder => "the row is older than the newest stored row"@,
            StoreError::Exhausted => "no row identity is left"@,
            StoreError::StaleRowId => "the row identity was handed out before"@,
        }
    }

    pub fn describe(&self) -> (text: &'static str)
        ensures
            text@ == self.text(),
    {
        match self {
            StoreError::DuplicateId => "a row with this id is already stored",
            StoreError::OutOfOrder => "the row is older than the newest stored row",
            StoreError::Exhausted => "no row identity is left",
            StoreError::StaleRowId => "the row identity was handed out before",
        }
    }
}

impl IndexError {
    /// The error in words.
    pub open spec fn text(&self) -> Seq<char> {
        match *self {
            IndexError::Backend(message) => message@,
            IndexError::CapacityOverflow => "the index cannot grow any further"@,
            IndexError::Full => "the index has no free slot"@,
            IndexError::WrongDimensions => "the index takes vectors of another length"@,
            IndexError::Overfull => "the index holds more vectors than it has room for"@,
        }
    }

    pub fn describe(&self) -> (text: String)
        ensures
            text@ == self.text(),
    {
        match self {
            IndexError::Backend(message) => message.clone(),
            IndexError::CapacityOverflow => String::from_str("the index cannot grow any further"),
            IndexError::Full => String::from_str("the index has no free slot"),
            IndexError::WrongDimensions => String::from_str(
                "the index takes vectors of another length",
            ),
            IndexError::Overfull => String::from_str(
                "the index holds more vectors than it has room for",
            ),
        }
    }
}

impl MemoryError {
    /// The error in words, behind the name of the part that failed.
    pub open spec fn text(&self) -> Seq<char> {
        match *self {
            MemoryError::Embedding(message) => "embedding failed: "@ + message@,
            MemoryError::Index(e) => "index failed: "@ + e.text(),
            MemoryError::Store(e) => "store failed: "@ + e.text(),
        }
    }

    pub fn describe(&self) -> (text: String)
        ensures
            text@ == self.text(),
    {
        match self {
            MemoryError::Embedding(message) => {
                let mut text = String::from_str("embedding failed: ");
                text.append(message.as_str());
                text
            },
            MemoryError::Index(e) => {
                let mut text = String::from_str("index failed: ");
                let inner = e.describe();
                text.append(inner.as_str());
                text
            },
            MemoryError::Store(e) => {
                let mut text = String::from_str("store failed: ");
                text.append(e.describe());
                text
            },
        }
    }
}

impl ToolError {
    /// Whether `out` is the error in words. The words of an I/O error are
    /// those of the operating system and are not pinned down.
    pub open spec fn is_message(&self, out: Seq<char>) -> bool {
        match *self {
            ToolError::CommandFailed(detail) => out == "Command execution failed: "@ + detail@,
            ToolError::MemoryFailed(detail) => out == "Memory operation failed: "@ + detail@,
            ToolError::SearchFailed(detail) => out == "Search failed: "@ + detail@,
            ToolError::FetchFailed(detail) => out == "Fetch failed: "@ + detail@,
            ToolError::ScheduleFailed(detail) => out == "Schedule operation failed: "@ + detail@,
            ToolError::WeatherFailed(detail) => out == "Weather operation failed: "@ + detail@,
            ToolError::Io(_) => "IO error: "@.is_prefix_of(out),
            ToolError::Timeout => out == "Timeout"@,
        }
    }

    /// The error in words.
    pub fn message(&self) -> (out: String)
        ensures
            self.is_message(out@),
    {
        match self {
            ToolError::CommandFailed(detail) => labelled("Command execution failed: ", detail),
            ToolError::MemoryFailed(detail) => labelled("Memory operation failed: ", detail),
            ToolError::SearchFailed(detail) => labelled("Search failed: ", detail),
            ToolError::FetchFailed(detail) => labelled("Fetch failed: ", detail),
            ToolError::ScheduleFailed(detail) => labelled("Schedule operation failed: ", detail),
            ToolError::WeatherFailed(detail) => labelled("Weather operation failed: ", detail),
            ToolError::Io(error) => {
                let detail = io_error_text(error);
                let out = labelled("IO error: ", &detail);
                assert(out@.subrange(0, "IO error: "@.len() as int) =~= "IO error: "@);
                out
            },
            ToolError::Timeout => String::from_str("Timeout"),
        }
    }
}

/// `detail` behind `label`.
fn labelled(label: &str, detail: &String) -> (out: String)
    ensures
        out@ == label@ + detail@,
{
    let mut out = String::from_str(label);
    out.append(detail.as_str());
    out
}

/// A timestamp as a tool shows it: its minute in UTC, or `unknown`.
pub open spec fn shown_time(micros: i64) -> Seq<char> {
    match utc_minute_label(micros) {
        Some(text) => text,
        None => UNKNOWN_TIME@,
    }
}

/// Appends the shown form of a timestamp to `out`.
fn push_time(out: &mut String, micros: i64)
    ensures
        final(out)@ == old(out)@ + shown_time(micros),
{
    match minute_label(micros) {
        Some(text) => out.append(text.as_str()),
        None => out.append(UNKNOWN_TIME),
    }
}

/// What `add` answers once the fact is stored under `id`.
pub fn saved_reply(id: &str, content: &str) -> (out: String)
    ensures
        out@ == "Saved (ID: "@ + id@ + "): "@ + content@,
{
    let mut out = String::from_str("Saved (ID: ");
    out.append(id);
    out.append("): ");
    out.append(content);
    out
}

/// What `delete` answers.
pub fn deleted_reply(id: &str) -> (out: String)
    ensures
        out@ == "Deleted important entry: "@ + id@,
{
    let mut out = String::from_str("Deleted important entry: ");
    out.append(id);
    out
}

/// One important entry as `list` shows it.
pub open spec fn listed_entry(entry: ImportantEntry) -> Seq<char> {
    "ID: "@ + entry.id@ + " | "@ + shown_time(entry.timestamp_micros) + "\n  "@ + entry.content@
        + "\n\n"@
}

/// The entries as `list` shows them, in order.
pub open spec fn listed_entries(entries: Seq<ImportantEntry>) -> Seq<char>
    decreases entries.len(),
{
    if entries.len() == 0 {
        Seq::empty()
    } else {
        listed_entries(entries.drop_last()) + listed_entry(entries.last())
    }
}

/// What `list` answers.
pub open spec fn list_text(entries: Seq<ImportantEntry>) -> Seq<char> {
    if entries.len() == 0 {
        NOTHING_STORED@
    } else {
        "Important entries ("@ + decimal(entries.len()) + "):\n\n"@ + listed_entries(entries)
    }
}

/// Renders the answer of `list`.
pub fn list_reply(entries: &Vec<ImportantEntry>) -> (out: String)
    ensures
        out@ == list_text(entries@),
{
    if entries.len() == 0 {
        return String::from_str(NOTHING_STORED);
    }
    let mut out = String::from_str("Important entries (");
    push_decimal(&mut out, entries.len() as u64);
    out.append("):\n\n");
    let ghost head = out@;
    let mut i: usize = 0;
    while i < entries.len()
        invariant
            i <= entries.len(),
            out@ == head + listed_entries(entries@.take(i as int)),
        decreases entries.len() - i,
    {
        let ghost before = out@;
        out.append("ID: ");
        out.append(entries[i].id.as_str());
        out.append(" | ");
        push_time(&mut out, entries[i].timestamp_micros);
        out.append("\n  ");
        out.append(entries[i].content.as_str());
        out.append("\n\n");
        proof {
            let next = entries@.take(i + 1);
            assert(next.drop_last() =~= entries@.take(i as int));
            assert(next.last() == entries@[i as int]);
            assert(out@ =~= before + listed_entry(entries@[i as int]));
            assert(out@ =~= head + listed_entries(next));
        }
        i += 1;
    }
    assert(entries@.take(entries@.len() as int) =~= entries@);
    out
}

/// One turn as a search shows it.
pub open spec fn found_turn(turn: ConversationTurn) -> Seq<char> {
    "["@ + shown_time(turn.timestamp_micros) + "] "@ + turn.context_text() + "\n\n"@
}

/// The turns as a search shows them, in order.
pub open spec fn found_turns(turns: Seq<ConversationTurn>) -> Seq<char>
    decreases turns.len(),
{
    if turns.len() == 0 {
        Seq::empty()
    } else {
        found_turns(turns.drop_last()) + found_turn(turns.last())
    }
}

/// What a search answers.
pub open spec fn search_text(turns: Seq<ConversationTurn>) -> Seq<char> {
    if turns.len() == 0 {
        NOTHING_FOUND@
    } else {
        "Found "@ + decimal(turns.len()) + " relevant conversations:\n\n"@ + found_turns(turns)
    }
}

/// Renders the answer of a search.
pub fn search_reply(turns: &Vec<ConversationTurn>) -> (out: String)
    ensures
        out@ == search_text(turns@),
{
    if turns.len() == 0 {
        return String::from_str(NOTHING_FOUND);
    }
    let mut out = String::from_str("Found ");
    push_decimal(&mut out, turns.len() as u64);
    out.append(" relevant conversations:\n\n");
    let ghost head = out@;
    let mut i: usize = 0;
    while i < turns.len()
        invariant
            i <= turns.len(),
            out@ == head + found_turns(turns@.take(i as int)),
        decreases turns.len() - i,
    {
        let ghost before = out@;
        out.append("[");
        push_time(&mut out, turns[i].timestamp_micros);
        out.append("] ");
        let text = turns[i].format_for_context();
        out.append(text.as_str());
        out.append("\n\n");
        proof {
            let next = turns@.take(i + 1);
            assert(next.drop_last() =~= turns@.take(i as int));
            assert(next.last() == turns@[i as int]);
            assert(out@ =~= before + found_turn(turns@[i as int]));
            assert(out@ =~= head + found_turns(next));
        }
        i += 1;
    }
    assert(turns@.take(turns@.len() as int) =~= turns@);
    out
}

/// The text that `add` answers with once the fact is known under `id`.
pub open spec fn saved_text(id: Seq<char>, content: Seq<char>) -> Seq<char> {
    "Saved (ID: "@ + id + "): "@ + content
}

/// Whether `after` is `before` with one more important entry, written last,
/// that holds `content` under the public id `id`.
pub open spec fn is_saved(
    before: VectorDb,
    after: VectorDb,
    id: Seq<char>,
    content: Seq<char>,
) -> bool {
    let old_table = before.store().important;
    let new_table = after.store().important;
    &&& appended(old_table.rows(), new_table.rows(), old_table.next_rowid())
    &&& new_table.next_rowid() == old_table.next_rowid() + 1
    &&& new_table.rows().last().record.id@ == id
    &&& new_table.rows().last().record.content@ == content
}

/// Whether a stored entry of `db` says the same as `content` and is known
/// under the public id `id`.
pub open spec fn is_known_as(db: VectorDb, id: Seq<char>, content: Seq<char>) -> bool {
    exists|i: int|
        0 <= i < db.important().len() && says_the_same(#[trigger] db.important()[i], content)
            && db.important()[i].id@ == id
}

/// The tool `important_add`: stores a fact for the owner, and refuses
/// everyone else before anything is touched. A fact that is already known
/// is not stored again; the answer then names the entry that holds it.
pub fn important_add(vectordb: &mut VectorDb, is_owner: bool, args: &ImportantAddArgs) -> (r:
    Result<String, ToolError>)
    requires
        old(vectordb).wf(),
    ensures
        final(vectordb).wf(),
        final(vectordb).store().turns == old(vectordb).store().turns,
        final(vectordb).index() == old(vectordb).index(),
        !is_owner ==> *final(vectordb) == *old(vectordb) && (r matches Err(
            ToolError::MemoryFailed(why),
        ) && why@ == ADD_DENIED@),
        is_owner ==> ({
            let before = old(vectordb).store().important;
            let after = final(vectordb).store().important;
            if has_near_duplicate(old(vectordb).important(), args.content@) {
                &&& after.same_as(before)
                &&& r matches Ok(out)
                &&& exists|id: Seq<char>| #[trigger]
                    is_known_as(*old(vectordb), id, args.content@) && out@ == saved_text(
                        id,
                        args.content@,
                    )
            } else {
                match r {
                    Ok(out) => exists|id: Seq<char>| #[trigger]
                        is_saved(*old(vectordb), *final(vectordb), id, args.content@) && out@
                            == saved_text(id, args.content@),
                    Err(e) => {
                        &&& e is MemoryFailed
                        &&& after.same_as(before)
                        &&& holds_entry_id(before.rows()) || before.next_rowid() >= u64::MAX
                    },
                }
            }
        }),
        is_owner && !holds_entry_id(old(vectordb).store().important.rows())
            && old(vectordb).store().important.next_rowid() < u64::MAX ==> r is Ok,
{
    if !is_owner {
        return Err(ToolError::MemoryFailed(String::from_str(ADD_DENIED)));
    }
    let ghost known = has_near_duplicate(vectordb.important(), args.content@);
    match vectordb.add_important(args.content.as_str()) {
        Ok(id) => {
            let out = saved_reply(id.as_str(), args.content.as_str());
            proof {
                if known {
                    assert(is_known_as(*old(vectordb), id@, args.content@));
                } else {
                    assert(is_saved(*old(vectordb), *vectordb, id@, args.content@));
                }
            }
            Ok(out)
        },
        Err(e) => Err(ToolError::MemoryFailed(e.describe())),
    }
}

/// The tool `important_list`.
pub fn important_list(vectordb: &VectorDb) -> (out: String)
    ensures
        out@ == list_text(vectordb.important()),
{
    let entries = vectordb.list_important();
    list_reply(&entries)
}

/// The tool `important_delete`: deletes a fact for the owner, and refuses
/// everyone else before anything is touched. Exactly the entry named is
/// deleted; deleting an id that is not stored changes nothing and is no
/// error.
pub fn important_delete(vectordb: &mut VectorDb, is_owner: bool, args: &ImportantDeleteArgs) -> (r:
    Result<String, ToolError>)
    requires
        old(vectordb).wf(),
    ensures
        final(vectordb).wf(),
        final(vectordb).store().turns == old(vectordb).store().turns,
        final(vectordb).index() == old(vectordb).index(),
        final(vectordb).store().important.next_rowid()
            == old(vectordb).store().important.next_rowid(),
        !is_owner ==> *final(vectordb) == *old(vectordb) && (r matches Err(
            ToolError::MemoryFailed(why),
        ) && why@ == DELETE_DENIED@),
        is_owner ==> ({
            let before = old(vectordb).store().important.rows();
            let after = final(vectordb).store().important.rows();
            &&& r matches Ok(out)
            &&& out@ == "Deleted important entry: "@ + args.id@
            &&& !has_id(after, args.id@)
            &&& if has_id(before, args.id@) {
                exists|i: int|
                    0 <= i < before.len() && (#[trigger] before[i]).record.id@ == args.id@ && after
                        == before.remove(i)
            } else {
                after == before
            }
        }),
{
    if !is_owner {
        return Err(ToolError::MemoryFailed(String::from_str(DELETE_DENIED)));
    }
    let _ = vectordb.delete_important(args.id.as_str());
    Ok(deleted_reply(args.id.as_str()))
}

/// The tool `remember`: stores a fact, trimmed, unless a stored one says
/// the same. The answer is `Saved` either way.
pub fn remember(memory: &mut MemoryManager, args: &RememberArgs) -> (r: Result<String, ToolError>)
    requires
        old(memory).wf(),
    ensures
        final(memory).wf(),
        final(memory).window() == old(memory).window(),
        final(memory).store().turns == old(memory).store().turns,
        final(memory).db().index() == old(memory).db().index(),
        ({
            let before = old(memory).store().important;
            let after = final(memory).store().important;
            if has_near_duplicate(old(memory).important(), args.content@) {
                r is Ok && after.same_as(before)
            } else {
                match r {
                    Ok(_) => {
                        &&& appended(before.rows(), after.rows(), before.next_rowid())
                        &&& after.next_rowid() == before.next_rowid() + 1
                        &&& after.rows().last().record.content@ == trimmed(args.content@)
                    },
                    Err(e) => {
                        &&& e is MemoryFailed
                        &&& after.same_as(before)
                        &&& holds_entry_id(before.rows()) || before.next_rowid() >= u64::MAX
                    },
                }
            }
        }),
        !holds_entry_id(old(memory).store().important.rows())
            && old(memory).store().important.next_rowid() < u64::MAX ==> r is Ok,
        r matches Ok(out) ==> out@ == "Saved"@,
{
    match memory.add_to_long_term(args.content.as_str()) {
        Ok(_) => Ok(String::from_str("Saved")),
        Err(e) => Err(ToolError::MemoryFailed(e.describe())),
    }
}

/// The tool `search_memory`, once the index has answered: shows the stored
/// turns among `matches`, oldest first, at most as many as asked for.
pub fn search_memory(vectordb: &VectorDb, matches: &Vec<u64>, args: &SearchMemoryArgs) -> (out:
    String)
    ensures
        out@ == search_text(
            related_turns(
                vectordb.candidates(matches@),
                Seq::empty(),
                clamped_top_k(args.top_k) as nat,
            ),
        ),
{
    let top_k = clamp_top_k(args.top_k);
    let nothing: Vec<String> = Vec::new();
    assert(crate::context::texts_of(nothing@) =~= Seq::<Seq<char>>::empty());
    let found = vectordb.search_turns(matches, top_k, &nothing);
    search_reply(&found)
}

} // verus!
