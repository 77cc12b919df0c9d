use rustclaw::schedule::{
    count_words, new_task, normalize_cron_expr, schedule_delete_reply, schedule_list_reply,
    ScheduleAddArgs, ScheduleDeleteArgs, ScheduleListArgs, ScheduledTask,
};

fn chars(s: &str) -> Vec<char> {
    s.chars().collect()
}

#[test]
fn count_words_counts_runs_between_whitespace() {
    assert_eq!(count_words(&chars("")), 0);
    assert_eq!(count_words(&chars("   ")), 0);
    assert_eq!(count_words(&chars("one")), 1);
    assert_eq!(count_words(&chars(" one  two\tthree\n")), 3);
    assert_eq!(count_words(&chars("*/5 * * * *")), 5);
}

#[test]
fn five_fields_get_seconds_in_front() {
    assert_eq!(normalize_cron_expr("*/5 * * * *"), "0 */5 * * * *");
    assert_eq!(normalize_cron_expr("  0 9 * * 1  "), "0 0 9 * * 1");
    assert_eq!(normalize_cron_expr("0\t9  *\n* 1"), "0 0\t9  *\n* 1");
}

#[test]
fn other_expressions_are_left_as_they_are() {
    assert_eq!(normalize_cron_expr("0 */5 * * * *"), "0 */5 * * * *");
    assert_eq!(normalize_cron_expr(" 0 0 9 * * 1 "), " 0 0 9 * * 1 ");
    assert_eq!(normalize_cron_expr("@daily"), "@daily");
    assert_eq!(normalize_cron_expr(""), "");
    assert_eq!(normalize_cron_expr("* * * *"), "* * * *");
}

#[test]
fn a_new_task_gets_a_fresh_id_and_a_normal_expression() {
    let task = new_task("0 9 * * 1", "say hi", "weekly hello", true, Some(42));
    assert_eq!(task.id.chars().count(), 8);
    assert!(task.id.chars().all(|c| matches!(c, '0'..='9' | 'a'..='f')));
    assert_eq!(task.cron_expr, "0 0 9 * * 1");
    assert_eq!(task.prompt, "say hi");
    assert_eq!(task.description, "weekly hello");
    assert!(task.is_owner);
    assert_eq!(task.discord_channel_id, Some(42));
    let other = new_task("0 9 * * 1", "say hi", "weekly hello", false, None);
    assert_ne!(task.id, other.id);
    assert!(!other.is_owner);
    assert_eq!(other.discord_channel_id, None);
}

#[test]
fn the_listing_shows_every_task() {
    assert_eq!(schedule_list_reply(&vec![]), "No scheduled tasks");
    let task = ScheduledTask {
        id: "ab12cd34".to_string(),
        cron_expr: "0 0 9 * * 1".to_string(),
        prompt: "say hi".to_string(),
        description: "weekly hello".to_string(),
        is_owner: false,
        discord_channel_id: None,
    };
    assert_eq!(
        schedule_list_reply(&vec![task.clone(), task]),
        "Scheduled tasks (2):\n\n\
         ID: ab12cd34\n  Cron: 0 0 9 * * 1\n  Description: weekly hello\n  Prompt: say hi\n\n\
         ID: ab12cd34\n  Cron: 0 0 9 * * 1\n  Description: weekly hello\n  Prompt: say hi\n\n"
    );
}

#[test]
fn the_removal_says_whether_the_task_was_there() {
    assert_eq!(schedule_delete_reply("ab12cd34", true), "Removed scheduled task: ab12cd34");
    assert_eq!(schedule_delete_reply("ab12cd34", false), "Task not found: ab12cd34");
}

#[test]
fn the_arguments_are_plain_records() {
    let add = ScheduleAddArgs { cron_expr: "* * * * *".to_string(), prompt: "p".to_string(), description: "d".to_string() };
    assert_eq!(normalize_cron_expr(&add.cron_expr), "0 * * * * *");
    let _list = ScheduleListArgs {};
    let delete = ScheduleDeleteArgs { task_id: "x".to_string() };
    assert_eq!(delete.task_id, "x");
}
