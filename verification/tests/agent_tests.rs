use rustclaw::agent::{
    author_name, compose_prompt, unsent_part, AgentResponse, AttachmentInfo, PendingFile,
    StreamEvent, UserInfo,
};
use std::path::PathBuf;

fn user() -> UserInfo {
    UserInfo {
        name: "ann".to_string(),
        global_name: Some("Ann A.".to_string()),
        nickname: Some("annie".to_string()),
        id: 123456789012345678,
        roles: vec!["admin".to_string(), "dev".to_string(), "ops".to_string()],
        avatar_url: Some("https://cdn.example/a.png".to_string()),
    }
}

#[test]
fn a_user_is_described_line_by_line() {
    assert_eq!(
        user().format_for_prompt(),
        "[User Info]\nUsername: ann\nDisplay name: Ann A.\nServer nickname: annie\n\
         ID: 123456789012345678\nRoles: admin, dev, ops\nAvatar: https://cdn.example/a.png"
    );
}

#[test]
fn what_is_not_known_of_a_user_is_left_out() {
    let bare = UserInfo { name: "bob".to_string(), id: 7, ..Default::default() };
    assert_eq!(bare.format_for_prompt(), "[User Info]\nUsername: bob\nID: 7");
    let one_role = UserInfo { name: "c".to_string(), id: 0, roles: vec!["mod".to_string()], ..Default::default() };
    assert_eq!(one_role.format_for_prompt(), "[User Info]\nUsername: c\nID: 0\nRoles: mod");
    let nick_only = UserInfo { name: "d".to_string(), nickname: Some("dd".to_string()), id: u64::MAX, ..Default::default() };
    assert_eq!(
        nick_only.format_for_prompt(),
        "[User Info]\nUsername: d\nServer nickname: dd\nID: 18446744073709551615"
    );
}

#[test]
fn attachments_are_listed_under_a_header() {
    let files = vec![
        AttachmentInfo {
            filename: "a.png".to_string(),
            container_path: "/workspace/upload/a.png".to_string(),
            size: 2048,
            content_type: Some("image/png".to_string()),
        },
        AttachmentInfo {
            filename: "b.bin".to_string(),
            container_path: "/workspace/upload/b.bin".to_string(),
            size: 0,
            content_type: None,
        },
    ];
    assert_eq!(
        AttachmentInfo::format_for_prompt(&files),
        "[Attachments uploaded to /workspace/upload/]\n\
         - a.png (2048 bytes, image/png): /workspace/upload/a.png\n\
         - b.bin (0 bytes, unknown): /workspace/upload/b.bin\n"
    );
}

#[test]
fn no_attachments_give_no_text() {
    assert_eq!(AttachmentInfo::format_for_prompt(&[]), "");
}

#[test]
fn the_prompt_holds_every_part_that_is_not_empty() {
    assert_eq!(compose_prompt("ctx", "user", "files", "hi"), "ctx\n\nuser\nfiles\nUser: hi");
    assert_eq!(compose_prompt("", "", "", "hi"), "User: hi");
    assert_eq!(compose_prompt("ctx", "", "", "hi"), "ctx\n\nUser: hi");
    assert_eq!(compose_prompt("", "user", "", ""), "user\nUser: ");
    assert_eq!(compose_prompt("", "", "files", "x"), "files\nUser: x");
}

#[test]
fn the_author_is_the_user_or_a_stand_in() {
    assert_eq!(author_name(Some(&user())), "ann");
    assert_eq!(author_name(None), "User");
}

#[test]
fn unsent_part_is_what_the_final_answer_adds() {
    assert_eq!(unsent_part("", "all of it"), Some("all of it".to_string()));
    assert_eq!(unsent_part("", ""), Some(String::new()));
    assert_eq!(unsent_part("all", "all of it"), Some(" of it".to_string()));
    assert_eq!(unsent_part("all of it", "all of it"), None);
    assert_eq!(unsent_part("other", "all of it"), None);
    assert_eq!(unsent_part("all of it and more", "all of it"), None);
    assert_eq!(unsent_part("grüß", "grüße"), Some("e".to_string()));
}

#[test]
fn the_plain_records_can_be_built_and_copied() {
    let file = PendingFile { filename: "out.txt".to_string(), path: PathBuf::from("/tmp/out.txt") };
    let copy = file.clone();
    assert_eq!(copy.filename, "out.txt");
    assert_eq!(copy.path, PathBuf::from("/tmp/out.txt"));
    let response = AgentResponse { text: "done".to_string(), files: vec![file] };
    assert_eq!(response.text, "done");
    assert_eq!(response.files.len(), 1);
    let events = vec![StreamEvent::TextDelta("a".to_string()), StreamEvent::Done, StreamEvent::Error("e".to_string())];
    assert!(matches!(events[0].clone(), StreamEvent::TextDelta(t) if t == "a"));
    assert!(matches!(events[1], StreamEvent::Done));
    assert!(matches!(&events[2], StreamEvent::Error(e) if e == "e"));
}
