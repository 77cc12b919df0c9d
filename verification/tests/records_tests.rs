use rustclaw::ordering::Timestamped;
use rustclaw::records::{format_exchange, ConversationTurn, ImportantEntry, Record};

#[test]
fn format_exchange_puts_the_two_lines_together() {
    assert_eq!(
        format_exchange("ann", "how are you?", "fine, thanks"),
        "ann: how are you?\nAssistant: fine, thanks"
    );
    assert_eq!(format_exchange("", "", ""), ": \nAssistant: ");
}

#[test]
fn format_for_context_is_the_exchange_text() {
    let turn = ConversationTurn {
        id: "id-1".to_string(),
        author: "bob".to_string(),
        user_input: "tell me about cats".to_string(),
        assistant_response: "cats are felines".to_string(),
        timestamp_micros: 17,
    };
    assert_eq!(turn.format_for_context(), "bob: tell me about cats\nAssistant: cats are felines");
}

#[test]
fn clone_copies_every_field() {
    let turn = ConversationTurn {
        id: "id-2".to_string(),
        author: "eve".to_string(),
        user_input: "in".to_string(),
        assistant_response: "out".to_string(),
        timestamp_micros: -5,
    };
    let copy = turn.clone();
    assert_eq!(copy.id, "id-2");
    assert_eq!(copy.author, "eve");
    assert_eq!(copy.user_input, "in");
    assert_eq!(copy.assistant_response, "out");
    assert_eq!(copy.timestamp_micros, -5);
    let entry = ImportantEntry { id: "ab12cd34".to_string(), content: "likes tea".to_string(), timestamp_micros: 9 };
    let copy = entry.duplicate();
    assert_eq!(copy.id, "ab12cd34");
    assert_eq!(copy.content, "likes tea");
    assert_eq!(copy.timestamp_micros, 9);
}

#[test]
fn records_expose_id_and_timestamp() {
    let entry = ImportantEntry { id: "k".to_string(), content: "c".to_string(), timestamp_micros: 42 };
    assert_eq!(entry.id(), "k");
    assert_eq!(entry.timestamp(), 42);
    let turn = ConversationTurn {
        id: "t".to_string(),
        author: String::new(),
        user_input: String::new(),
        assistant_response: String::new(),
        timestamp_micros: 43,
    };
    assert_eq!(turn.id(), "t");
    assert_eq!(turn.timestamp(), 43);
    assert_eq!(turn.duplicate().id, "t");
}
