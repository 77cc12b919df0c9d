//! What the agent layer puts around a context before it calls the model:
//! who is speaking, which files came with the message, and the prompt that
//! holds them together.

use crate::context::texts_of;
use crate::text::{chars_of, decimal, push_decimal, starts_with, string_of_range};
use vstd::prelude::*;
use vstd::string::StringExecFns;

verus! {

#[verifier::external_type_specification]
#[verifier::external_body]
pub struct ExPathBuf(std::path::PathBuf);

/// `Clone` for `std::path::PathBuf`. Trusted: the copy is the same path.
pub assume_specification[ <std::path::PathBuf as Clone>::clone ](
    path: &std::path::PathBuf,
) -> (out: std::path::PathBuf)
    ensures
        out == *path,
;

/// A file that a tool produced and that is still to be sent to the user.
#[derive(Debug, Clone)]
pub struct PendingFile {
    pub filename: String,
    pub path: std::path::PathBuf,
}

/// The answer of the agent to one message.
pub struct AgentResponse {
    pub text: String,
    pub files: Vec<PendingFile>,
}

/// What the agent reports while an answer is being produced.
#[derive(Debug, Clone)]
pub enum StreamEvent {
    TextDelta(String),
    Done,
    Error(String),
}

/// The author of a message, as the chat service describes them.
#[derive(Debug, Clone, Default)]
pub struct UserInfo {
    pub name: String,
    pub global_name: Option<String>,
    pub nickname: Option<String>,
    pub id: u64,
    pub roles: Vec<String>,
    pub avatar_url: Option<String>,
}

/// A file that came with a message and was saved for the tools to read.
#[derive(Debug, Clone)]
pub struct AttachmentInfo {
    pub filename: String,
    pub container_path: String,
    pub size: u32,
    pub content_type: Option<String>,
}

/// `parts` joined by `sep`.
pub open spec fn joined(parts: Seq<Seq<char>>, sep: Seq<char>) -> Seq<char>
    decreases parts.len(),
{
    if parts.len() == 0 {
        Seq::empty()
    } else if parts.len() == 1 {
        parts[0]
    } else {
        joined(parts.drop_last(), sep) + sep + parts.last()
    }
}

/// A line `label` + `value` if there is a value, else nothing.
pub open spec fn optional_line(label: Seq<char>, value: Option<String>) -> Seq<char> {
    match value {
        Some(text) => label + text@,
        None => Seq::empty(),
    }
}

/// Appends `label` and the value to `out` if there is a value.
fn push_optional_line(out: &mut String, label: &str, value: &Option<String>)
    ensures
        final(out)@ == old(out)@ + optional_line(label@, *value),
{
    match value {
        Some(text) => {
            out.append(label);
            out.append(text.as_str());
            assert(out@ =~= old(out)@ + optional_line(label@, *value));
        },
        None => {
            assert(out@ =~= old(out)@ + optional_line(label@, *value));
        },
    }
}

impl UserInfo {
    /// The roles as they are listed: joined by a comma and a blank, behind
    /// their label; nothing when there is no role.
    pub open spec fn roles_line(&self) -> Seq<char> {
        if self.roles@.len() == 0 {
            Seq::empty()
        } else {
            "\nRoles: "@ + joined(texts_of(self.roles@), ", "@)
        }
    }

    /// The user as described to the model: a header line, then one line for
    /// each thing known, in a fixed order.
    pub open spec fn prompt_text(&self) -> Seq<char> {
        "[User Info]\nUsername: "@ + self.name@ + optional_line(
            "\nDisplay name: "@,
            self.global_name,
        ) + optional_line("\nServer nickname: "@, self.nickname) + "\nID: "@ + decimal(
            self.id as nat,
        ) + self.roles_line() + optional_line("\nAvatar: "@, self.avatar_url)
    }

    /// Appends the roles line to `out`.
    fn push_roles(&self, out: &mut String)
        ensures
            final(out)@ == old(out)@ + self.roles_line(),
    {
        if self.roles.len() == 0 {
            assert(out@ =~= old(out)@ + self.roles_line());
            return ;
        }
        out.append("\nRoles: ");
        out.append(self.roles[0].as_str());
        let ghost texts = texts_of(self.roles@);
        let ghost head = old(out)@ + "\nRoles: "@;
        assert(texts.take(1) =~= seq![texts[0]]);
        assert(joined(texts.take(1), ", "@) == texts[0]);
        let mut i: usize = 1;
        while i < self.roles.len()
            invariant
                1 <= i <= self.roles.len(),
                texts == texts_of(self.roles@),
                out@ == head + joined(texts.take(i as int), ", "@),
            decreases self.roles.len() - i,
        {
            out.append(", ");
            out.append(self.roles[i].as_str());
            proof {
                let next = texts.take(i + 1);
                assert(next.drop_last() =~= texts.take(i as int));
                assert(next.last() == self.roles@[i as int]@);
                assert(out@ =~= head + joined(next, ", "@));
            }
            i += 1;
        }
        assert(texts.take(texts.len() as int) =~= texts);
        assert(out@ =~= old(out)@ + self.roles_line());
    }

    pub fn format_for_prompt(&self) -> (out: String)
        ensures
            out@ == self.prompt_text(),
    {
        let mut out = String::from_str("[User Info]\nUsername: ");
        out.append(self.name.as_str());
        push_optional_line(&mut out, "\nDisplay name: ", &self.global_name);
        push_optional_line(&mut out, "\nServer nickname: ", &self.nickname);
        out.append("\nID: ");
        push_decimal(&mut out, self.id);
        self.push_roles(&mut out);
        push_optional_line(&mut out, "\nAvatar: ", &self.avatar_url);
        out
    }
}

/// Header of the list of attachments.
pub const ATTACHMENTS_HEADER: &'static str = "[Attachments uploaded to /workspace/upload/]\n";

impl AttachmentInfo {
    /// The content type as shown: `unknown` when none was given.
    pub open spec fn shown_type(&self) -> Seq<char> {
        match self.content_type {
            Some(kind) => kind@,
            None => "unknown"@,
        }
    }

    /// One attachment as a line of the list.
    pub open spec fn line(&self) -> Seq<char> {
        "- "@ + self.filename@ + " ("@ + decimal(self.size as nat) + " bytes, "@
            + self.shown_type() + "): "@ + self.container_path@ + "\n"@
    }

    /// The lines of `attachments`, in order.
    pub open spec fn lines(attachments: Seq<AttachmentInfo>) -> Seq<char>
        decreases attachments.len(),
    {
        if attachments.len() == 0 {
            Seq::empty()
        } else {
            Self::lines(attachments.drop_last()) + attachments.last().line()
        }
    }

    /// The attachments as described to the model: a header and one line for
    /// each; nothing at all when there is no attachment.
    pub open spec fn prompt_text(attachments: Seq<AttachmentInfo>) -> Seq<char> {
        if attachments.len() == 0 {
            Seq::empty()
        } else {
            ATTACHMENTS_HEADER@ + Self::lines(attachments)
        }
    }

    /// Appends this attachment's line to `out`.
    fn push_line(&self, out: &mut String)
        ensures
            final(out)@ == old(out)@ + self.line(),
    {
        out.append("- ");
        out.append(self.filename.as_str());
        out.append(" (");
        push_decimal(out, self.size as u64);
        out.append(" bytes, ");
        match &self.content_type {
            Some(kind) => out.append(kind.as_str()),
            None => out.append("unknown"),
        }
        out.append("): ");
        out.append(self.container_path.as_str());
        out.append("\n");
        assert(out@ =~= old(out)@ + self.line());
    }

    pub fn format_for_prompt(attachments: &[AttachmentInfo]) -> (out: String)
        ensures
            out@ == Self::prompt_text(attachments@),
    {
        let mut out = String::new();
        if attachments.len() == 0 {
            return out;
        }
        out.append(ATTACHMENTS_HEADER);
        let mut i: usize = 0;
        while i < attachments.len()
            invariant
                i <= attachments.len(),
                out@ == ATTACHMENTS_HEADER@ + Self::lines(attachments@.take(i as int)),
            decreases attachments.len() - i,
        {
            attachments[i].push_line(&mut out);
            proof {
                let next = attachments@.take(i + 1);
                assert(next.drop_last() =~= attachments@.take(i as int));
                assert(next.last() == attachments@[i as int]);
                assert(out@ =~= ATTACHMENTS_HEADER@ + Self::lines(next));
            }
            i += 1;
        }
        assert(attachments@.take(attachments@.len() as int) =~= attachments@);
        out
    }
}

/// `part` followed by `end`, or nothing when `part` is empty.
pub open spec fn closed_part(part: Seq<char>, end: Seq<char>) -> Seq<char> {
    if part.len() == 0 {
        Seq::empty()
    } else {
        part + end
    }
}

/// The prompt for one message: the memory context, the description of the
/// user and the list of attachments, each only if it is not empty, and last
/// the message itself.
pub open spec fn prompt_text(
    context: Seq<char>,
    user_section: Seq<char>,
    attachment_section: Seq<char>,
    user_input: Seq<char>,
) -> Seq<char> {
    closed_part(context, "\n\n"@) + closed_part(user_section, "\n"@) + closed_part(
        attachment_section,
        "\n"@,
    ) + "User: "@ + user_input
}

/// Appends `part` and `end` to `out` unless `part` is empty.
fn push_closed_part(out: &mut String, part: &str, end: &str)
    ensures
        final(out)@ == old(out)@ + closed_part(part@, end@),
{
    if !part.is_empty() {
        out.append(part);
        out.append(end);
    }
    assert(out@ =~= old(out)@ + closed_part(part@, end@));
}

/// Builds the prompt for one message.
pub fn compose_prompt(
    context: &str,
    user_section: &str,
    attachment_section: &str,
    user_input: &str,
) -> (out: String)
    ensures
        out@ == prompt_text(context@, user_section@, attachment_section@, user_input@),
{
    let mut out = String::new();
    push_closed_part(&mut out, context, "\n\n");
    push_closed_part(&mut out, user_section, "\n");
    push_closed_part(&mut out, attachment_section, "\n");
    out.append("User: ");
    out.append(user_input);
    assert(out@ =~= prompt_text(context@, user_section@, attachment_section@, user_input@));
    out
}

/// What is still to be shown of a finished answer `full` when `sent` has
/// been shown already: all of it when nothing was shown, what follows
/// `sent` when `full` continues it, and nothing otherwise or when nothing is
/// left.
pub open spec fn unsent_text(sent: Seq<char>, full: Seq<char>) -> Option<Seq<char>> {
    if sent.len() == 0 {
        Some(full)
    } else if sent.is_prefix_of(full) && sent.len() < full.len() {
        Some(full.skip(sent.len() as int))
    } else {
        None
    }
}

/// The part of the finished answer `full` that is still to be sent.
pub fn unsent_part(sent: &str, full: &str) -> (rest: Option<String>)
    ensures
        match rest {
            Some(text) => unsent_text(sent@, full@) == Some(text@),
            None => unsent_text(sent@, full@) is None,
        },
{
    let shown = chars_of(sent);
    let all = chars_of(full);
    if shown.len() == 0 {
        Some(String::from_str(full))
    } else if starts_with(&all, &shown) && shown.len() < all.len() {
        let rest = string_of_range(&all, shown.len(), all.len());
        assert(all@.subrange(shown@.len() as int, all@.len() as int) =~= all@.skip(
            shown@.len() as int,
        ));
        Some(rest)
    } else {
        None
    }
}

/// The name under which a turn is recorded: the user's name, or `User` when
/// nothing is known of them.
pub fn author_name(user: Option<&UserInfo>) -> (name: String)
    ensures
        name@ == match user {
            Some(info) => info.name@,
            None => "User"@,
        },
{
    match user {
        Some(info) => info.name.clone(),
        None => String::from_str("User"),
    }
}

} // verus!
