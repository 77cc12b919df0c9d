//! Scheduled prompts: the task record, the normal form of a cron expression,
//! and what the scheduling tools answer.

use crate::stamp::{fresh_entry_id, is_lower_hex, ENTRY_ID_LEN};
use crate::text::{
    chars_of, decimal, is_whitespace, push_decimal, push_range, trim_bounds, trimmed,
    whitespace_char,
};
use vstd::prelude::*;
use vstd::string::StringExecFns;

verus! {

/// A prompt that is run on a schedule.
#[derive(Debug, Clone)]
pub struct ScheduledTask {
    pub id: String,
    pub cron_expr: String,
    pub prompt: String,
    pub description: String,
    pub is_owner: bool,
    pub discord_channel_id: Option<u64>,
}

/// Arguments of the tool that schedules a prompt.
pub struct ScheduleAddArgs {
    pub cron_expr: String,
    pub prompt: String,
    pub description: String,
}

/// Arguments of the tool that lists the scheduled prompts: none.
pub struct ScheduleListArgs {}

/// Arguments of the tool that removes a scheduled prompt.
pub struct ScheduleDeleteArgs {
    pub task_id: String,
}

/// Number of fields of a cron expression that leaves the seconds out.
pub const FIELDS_WITHOUT_SECONDS: usize = 5;

/// Whether a word starts at index `i` of `s`: the character there is not
/// whitespace, and it is the first or follows whitespace.
pub open spec fn word_starts_at(s: Seq<char>, i: int) -> bool {
    0 <= i < s.len() && !whitespace_char(s[i]) && (i == 0 || whitespace_char(s[i - 1]))
}

/// Number of words of `s`: runs of characters that are not whitespace.
pub open spec fn word_count(s: Seq<char>) -> nat
    decreases s.len(),
{
    if s.len() == 0 {
        0
    } else {
        word_count(s.drop_last()) + (if word_starts_at(s, s.len() - 1) {
            1nat
        } else {
            0nat
        })
    }
}

/// A cron expression in the form the scheduler takes: one of five fields
/// gets a field of seconds, `0`, in front of its trimmed form; every other
/// expression is left as it is.
pub open spec fn normal_cron(expr: Seq<char>) -> Seq<char> {
    if word_count(expr) == FIELDS_WITHOUT_SECONDS {
        "0 "@ + trimmed(expr)
    } else {
        expr
    }
}

/// Number of words of `v`.
pub fn count_words(v: &Vec<char>) -> (n: usize)
    ensures
        n == word_count(v@),
{
    let mut n: usize = 0;
    let mut after_space: bool = true;
    let mut i: usize = 0;
    while i < v.len()
        invariant
            i <= v.len(),
            n <= i,
            n == word_count(v@.take(i as int)),
            after_space == (i == 0 || whitespace_char(v@[i - 1])),
        decreases v.len() - i,
    {
        let space = is_whitespace(v[i]);
        proof {
            let next = v@.take(i + 1);
            assert(next.drop_last() =~= v@.take(i as int));
            assert(word_starts_at(next, i as int) == (!space && after_space));
        }
        if !space && after_space {
            n += 1;
        }
        after_space = space;
        i += 1;
    }
    assert(v@.take(v@.len() as int) =~= v@);
    n
}

/// Puts a cron expression into the form the scheduler takes.
pub fn normalize_cron_expr(cron_expr: &str) -> (out: String)
    ensures
        out@ == normal_cron(cron_expr@),
{
    let v = chars_of(cron_expr);
    if count_words(&v) == FIELDS_WITHOUT_SECONDS {
        let (a, b) = trim_bounds(&v);
        let mut out = String::from_str("0 ");
        push_range(&mut out, &v, a, b);
        out
    } else {
        String::from_str(cron_expr)
    }
}

/// A task for the given prompt under a fresh id, its cron expression in
/// normal form.
pub fn new_task(
    cron_expr: &str,
    prompt: &str,
    description: &str,
    is_owner: bool,
    discord_channel_id: Option<u64>,
) -> (task: ScheduledTask)
    ensures
        task.id@.len() == ENTRY_ID_LEN,
        forall|i: int| 0 <= i < task.id@.len() ==> is_lower_hex(#[trigger] task.id@[i]),
        task.cron_expr@ == normal_cron(cron_expr@),
        task.prompt@ == prompt@,
        task.description@ == description@,
        task.is_owner == is_owner,
        task.discord_channel_id == discord_channel_id,
{
    ScheduledTask {
        id: fresh_entry_id(),
        cron_expr: normalize_cron_expr(cron_expr),
        prompt: String::from_str(prompt),
        description: String::from_str(description),
        is_owner,
        discord_channel_id,
    }
}

/// What the listing answers when nothing is scheduled.
pub const NOTHING_SCHEDULED: &'static str = "No scheduled tasks";

/// One task as the listing shows it.
pub open spec fn listed_task(task: ScheduledTask) -> Seq<char> {
    "ID: "@ + task.id@ + "\n  Cron: "@ + task.cron_expr@ + "\n  Description: "@ + task.description@
        + "\n  Prompt: "@ + task.prompt@ + "\n\n"@
}

/// The tasks as the listing shows them, in order.
pub open spec fn listed_tasks(tasks: Seq<ScheduledTask>) -> Seq<char>
    decreases tasks.len(),
{
    if tasks.len() == 0 {
        Seq::empty()
    } else {
        listed_tasks(tasks.drop_last()) + listed_task(tasks.last())
    }
}

/// What the listing answers.
pub open spec fn schedule_text(tasks: Seq<ScheduledTask>) -> Seq<char> {
    if tasks.len() == 0 {
        NOTHING_SCHEDULED@
    } else {
        "Scheduled tasks ("@ + decimal(tasks.len()) + "):\n\n"@ + listed_tasks(tasks)
    }
}

/// Renders the answer of the listing.
pub fn schedule_list_reply(tasks: &Vec<ScheduledTask>) -> (out: String)
    ensures
        out@ == schedule_text(tasks@),
{
    if tasks.len() == 0 {
        return String::from_str(NOTHING_SCHEDULED);
    }
    let mut out = String::from_str("Scheduled tasks (");
    push_decimal(&mut out, tasks.len() as u64);
    out.append("):\n\n");
    let ghost head = out@;
    let mut i: usize = 0;
    while i < tasks.len()
        invariant
            i <= tasks.len(),
            out@ == head + listed_tasks(tasks@.take(i as int)),
        decreases tasks.len() - i,
    {
        let ghost before = out@;
        out.append("ID: ");
        out.append(tasks[i].id.as_str());
        out.append("\n  Cron: ");
        out.append(tasks[i].cron_expr.as_str());
        out.append("\n  Description: ");
        out.append(tasks[i].description.as_str());
        out.append("\n  Prompt: ");
        out.append(tasks[i].prompt.as_str());
        out.append("\n\n");
        proof {
            let next = tasks@.take(i + 1);
            assert(next.drop_last() =~= tasks@.take(i as int));
            assert(next.last() == tasks@[i as int]);
            assert(out@ =~= before + listed_task(tasks@[i as int]));
            assert(out@ =~= head + listed_tasks(next));
        }
        i += 1;
    }
    assert(tasks@.take(tasks@.len() as int) =~= tasks@);
    out
}

/// What the removal of the task `task_id` answers.
pub fn schedule_delete_reply(task_id: &str, removed: bool) -> (out: String)
    ensures
        out@ == (if removed {
            "Removed scheduled task: "@
        } else {
            "Task not found: "@
        }) + task_id@,
{
    let mut out = if removed {
        String::from_str("Removed scheduled task: ")
    } else {
        String::from_str("Task not found: ")
    };
    out.append(task_id);
    out
}

} // verus!
