//! The two entities of the record store: conversation turns and important
//! facts.

use crate::ordering::Timestamped;
use vstd::prelude::*;
use vstd::string::StringExecFns;

verus! {

/// One completed exchange between a user and the assistant.
#[derive(Debug)]
pub struct ConversationTurn {
    pub id: String,
    pub author: String,
    pub user_input: String,
    pub assistant_response: String,
    pub timestamp_micros: i64,
}

/// A persistent fact that the user asked to be remembered.
#[derive(Debug)]
pub struct ImportantEntry {
    pub id: String,
    pub content: String,
    pub timestamp_micros: i64,
}

/// The text of an exchange: the author's line, then the assistant's line.
pub open spec fn exchange_text(
    author: Seq<char>,
    user_input: Seq<char>,
    assistant_response: Seq<char>,
) -> Seq<char> {
    author + ": "@ + user_input + "\nAssistant: "@ + assistant_response
}

/// Renders an exchange as `"{author}: {user_input}\nAssistant: {assistant_response}"`.
///
/// This is both how a turn is shown in a context window and the exact text
/// over which its passage embedding is computed.
pub fn format_exchange(author: &str, user_input: &str, assistant_response: &str) -> (out: String)
    ensures
        out@ == exchange_text(author@, user_input@, assistant_response@),
{
    let mut out = String::from_str(author);
    out.append(": ");
    out.append(user_input);
    out.append("\nAssistant: ");
    out.append(assistant_response);
    out
}

impl ConversationTurn {
    /// The turn as it is shown in a context window.
    pub open spec fn context_text(&self) -> Seq<char> {
        exchange_text(self.author@, self.user_input@, self.assistant_response@)
    }

    pub fn format_for_context(&self) -> (out: String)
        ensures
            out@ == self.context_text(),
    {
        format_exchange(
            self.author.as_str(),
            self.user_input.as_str(),
            self.assistant_response.as_str(),
        )
    }
}

impl Clone for ConversationTurn {
    fn clone(&self) -> (out: Self)
        ensures
            out == *self,
    {
        ConversationTurn {
            id: self.id.clone(),
            author: self.author.clone(),
            user_input: self.user_input.clone(),
            assistant_response: self.assistant_response.clone(),
            timestamp_micros: self.timestamp_micros,
        }
    }
}

impl Clone for ImportantEntry {
    fn clone(&self) -> (out: Self)
        ensures
            out == *self,
    {
        ImportantEntry {
            id: self.id.clone(),
            content: self.content.clone(),
            timestamp_micros: self.timestamp_micros,
        }
    }
}

/// A row of the record store: it is stamped with its time of writing and
/// known to the outside by a public id.
pub trait Record: Timestamped {
    /// The row's public id.
    spec fn key(&self) -> Seq<char>;

    fn id(&self) -> (id: &String)
        ensures
            id@ == self.key(),
    ;

    /// A copy of the row.
    fn duplicate(&self) -> (out: Self)
        ensures
            out == *self,
    ;
}

impl Record for ConversationTurn {
    open spec fn key(&self) -> Seq<char> {
        self.id@
    }

    fn id(&self) -> (id: &String) {
        &self.id
    }

    fn duplicate(&self) -> (out: Self) {
        self.clone()
    }
}

impl Record for ImportantEntry {
    open spec fn key(&self) -> Seq<char> {
        self.id@
    }

    fn id(&self) -> (id: &String) {
        &self.id
    }

    fn duplicate(&self) -> (out: Self) {
        self.clone()
    }
}

impl Timestamped for ConversationTurn {
    open spec fn stamp(&self) -> int {
        self.timestamp_micros as int
    }

    fn timestamp(&self) -> (t: i64) {
        self.timestamp_micros
    }
}

impl Timestamped for ImportantEntry {
    open spec fn stamp(&self) -> int {
        self.timestamp_micros as int
    }

    fn timestamp(&self) -> (t: i64) {
        self.timestamp_micros
    }
}

} // verus!
