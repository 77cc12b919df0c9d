use rustclaw::context::{
    is_excluded, render_context, render_important, search_width, select_related, turn_ids,
    IMPORTANT_HEADER, RECENT_HEADER, RELATED_HEADER, SEARCH_SLACK,
};
use rustclaw::records::{ConversationTurn, ImportantEntry};

fn turn(id: &str, stamp: i64) -> ConversationTurn {
    ConversationTurn {
        id: id.to_string(),
        author: "ann".to_string(),
        user_input: format!("q-{}", id),
        assistant_response: format!("a-{}", id),
        timestamp_micros: stamp,
    }
}

fn entry(content: &str) -> ImportantEntry {
    ImportantEntry { id: "e".to_string(), content: content.to_string(), timestamp_micros: 0 }
}

fn ids(turns: &[ConversationTurn]) -> Vec<String> {
    turns.iter().map(|t| t.id.clone()).collect()
}

#[test]
fn the_headers_are_fixed() {
    assert_eq!(IMPORTANT_HEADER, "# Important Facts\n\n");
    assert_eq!(RECENT_HEADER, "# Recent Conversations\n\n");
    assert_eq!(RELATED_HEADER, "# Related Past Conversations\n\n");
    assert_eq!(SEARCH_SLACK, 5);
}

#[test]
fn search_width_adds_the_recent_turns_and_the_slack() {
    assert_eq!(search_width(5, 10), Some(20));
    assert_eq!(search_width(0, 0), Some(5));
    assert_eq!(search_width(1, 3), Some(9));
    assert_eq!(search_width(usize::MAX - 5, 0), Some(usize::MAX));
    assert_eq!(search_width(usize::MAX - 5, 1), None);
    assert_eq!(search_width(usize::MAX, 0), None);
    assert_eq!(search_width(3, usize::MAX), None);
}

#[test]
fn turn_ids_lists_the_public_ids() {
    assert_eq!(turn_ids(&vec![turn("a", 1), turn("b", 2)]), vec!["a", "b"]);
    assert!(turn_ids(&vec![]).is_empty());
}

#[test]
fn is_excluded_compares_whole_ids() {
    let ids = vec!["abc".to_string(), "x".to_string()];
    assert!(is_excluded(&ids, &turn("abc", 0)));
    assert!(is_excluded(&ids, &turn("x", 0)));
    assert!(!is_excluded(&ids, &turn("ab", 0)));
    assert!(!is_excluded(&ids, &turn("abcd", 0)));
    assert!(!is_excluded(&vec![], &turn("abc", 0)));
}

#[test]
fn select_related_drops_excluded_turns_sorts_and_cuts() {
    let candidates = vec![turn("d", 40), turn("a", 10), turn("c", 30), turn("b", 20)];
    let exclude = vec!["c".to_string()];
    assert_eq!(ids(&select_related(candidates, &exclude, 5)), vec!["a", "b", "d"]);
    let candidates = vec![turn("d", 40), turn("a", 10), turn("c", 30), turn("b", 20)];
    assert_eq!(ids(&select_related(candidates, &exclude, 2)), vec!["a", "b"]);
    let candidates = vec![turn("d", 40), turn("a", 10)];
    assert!(select_related(candidates, &exclude, 0).is_empty());
}

#[test]
fn select_related_with_everything_excluded_is_empty() {
    let exclude = vec!["a".to_string(), "b".to_string()];
    assert!(select_related(vec![turn("a", 1), turn("b", 2)], &exclude, 3).is_empty());
    assert!(select_related(vec![], &exclude, 3).is_empty());
}

#[test]
fn render_important_lists_one_bullet_per_fact() {
    assert_eq!(render_important(&vec![]), "");
    assert_eq!(
        render_important(&vec![entry("likes tea"), entry("born in May")]),
        "# Important Facts\n\n- likes tea\n- born in May\n"
    );
}

#[test]
fn an_empty_context_is_the_empty_string() {
    assert_eq!(render_context(&vec![], &vec![], &vec![]), "");
}

#[test]
fn a_full_context_has_three_sections_in_order() {
    let out = render_context(&vec![entry("likes tea")], &vec![turn("r", 2)], &vec![turn("o", 1)]);
    assert_eq!(
        out,
        "# Important Facts\n\n- likes tea\n\n\
         # Recent Conversations\n\nann: q-r\nAssistant: a-r\n\n\
         # Related Past Conversations\n\nann: q-o\nAssistant: a-o\n\n"
    );
}

#[test]
fn an_empty_section_leaves_no_header_behind() {
    let only_recent = render_context(&vec![], &vec![turn("r", 2), turn("s", 3)], &vec![]);
    assert_eq!(
        only_recent,
        "# Recent Conversations\n\nann: q-r\nAssistant: a-r\n\nann: q-s\nAssistant: a-s\n\n"
    );
    let only_related = render_context(&vec![], &vec![], &vec![turn("o", 1)]);
    assert_eq!(only_related, "# Related Past Conversations\n\nann: q-o\nAssistant: a-o\n\n");
    let only_facts = render_context(&vec![entry("x")], &vec![], &vec![]);
    assert_eq!(only_facts, "# Important Facts\n\n- x\n\n");
    assert!(!only_facts.contains("Recent"));
    assert!(!only_recent.contains("Important"));
    assert!(!only_recent.contains("Related"));
}
