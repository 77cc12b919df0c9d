use rustclaw::chunking::{split_message, split_streaming, update_code_block_state};

fn state_after(start: Option<&str>, text: &str) -> Option<String> {
    let mut state = start.map(|s| s.to_string());
    update_code_block_state(&mut state, text);
    state
}

#[test]
fn a_short_text_is_one_message() {
    assert_eq!(split_message("hello world", 100), vec!["hello world"]);
    assert_eq!(split_message("hello world", 11), vec!["hello world"]);
    assert_eq!(split_message("", 10), vec![""]);
    assert_eq!(split_message("", 0), vec![""]);
}

#[test]
fn lengths_count_characters() {
    assert_eq!(split_message("ääääää", 6), vec!["ääääää"]);
    assert_eq!(split_message("äääääää", 6), vec!["ääääää", "ä"]);
}

#[test]
fn a_long_text_is_cut_behind_blanks() {
    assert_eq!(split_message("aaaa bbbb cccc", 6), vec!["aaaa ", "bbbb ", "cccc"]);
}

#[test]
fn a_line_break_is_preferred_to_a_blank() {
    assert_eq!(
        split_message("one two\nthree four five", 12),
        vec!["one two\n", "three four ", "five"]
    );
}

#[test]
fn a_text_without_blanks_is_cut_at_the_limit() {
    assert_eq!(split_message("abcdefghij", 4), vec!["abcd", "efgh", "ij"]);
}

#[test]
fn every_chunk_of_plain_text_fits() {
    let text = "lorem ipsum dolor sit amet consectetur adipiscing elit sed do eiusmod tempor ".repeat(20);
    let chunks = split_message(&text, 50);
    assert!(chunks.len() > 1);
    for chunk in &chunks {
        assert!(chunk.chars().count() <= 50);
    }
    assert_eq!(chunks.concat(), text);
}

#[test]
fn blank_chunks_are_dropped() {
    assert_eq!(split_message("ab      cd", 4), vec!["ab  ", "cd"]);
}

#[test]
fn a_text_of_blanks_only_gives_its_first_characters() {
    assert_eq!(split_message("        ", 3), vec!["   "]);
}

#[test]
fn a_code_block_is_closed_and_reopened_at_a_cut() {
    let text = "```rust\nfn a() {}\nfn b() {}\n```";
    assert_eq!(
        split_message(text, 20),
        vec!["```rust\nfn a() {}\n\n```", "```rust\nfn b() \n```", "```rust\n{}\n```"]
    );
}

#[test]
fn a_code_block_that_ends_before_the_cut_is_left_alone() {
    let text = "```\nx\n```\nplain text that goes on and on";
    assert_eq!(
        split_message(text, 20),
        vec!["```\nx\n```\n", "plain text that ", "goes on and on"]
    );
}

#[test]
fn a_fence_tag_that_fills_the_chunk_still_lets_the_text_through() {
    assert_eq!(
        split_message("```abcdefgh\nxy", 10),
        vec![
            "```abcdefg\n```",
            "```abcdefg\nh\n```",
            "```abcdefg\n\n\n```",
            "```abcdefg\nx\n```",
            "```abcdefg\ny\n```",
        ]
    );
}

#[test]
fn the_fence_state_follows_the_lines() {
    assert_eq!(state_after(None, "plain\ntext"), None);
    assert_eq!(state_after(None, "```rust\nfn main() {}"), Some("rust".to_string()));
    assert_eq!(state_after(None, "```rust\nfn main() {}\n```"), None);
    assert_eq!(state_after(None, "```\ncode"), Some(String::new()));
    assert_eq!(state_after(None, "  ```  py  \r\ncode"), Some("py".to_string()));
    assert_eq!(state_after(Some("rust"), "more code"), Some("rust".to_string()));
    assert_eq!(state_after(Some("rust"), "end\n```\n"), None);
    assert_eq!(state_after(Some("rust"), "```\n```js"), Some("js".to_string()));
    assert_eq!(state_after(None, "text ``` not a fence"), None);
    assert_eq!(state_after(None, ""), None);
}

#[test]
fn a_growing_answer_is_cut_behind_a_blank() {
    assert_eq!(
        split_streaming("hello world foo", 8),
        ("hello ".to_string(), "world foo".to_string())
    );
}

#[test]
fn a_growing_answer_that_fits_is_sent_whole() {
    assert_eq!(split_streaming("short", 100), ("short".to_string(), String::new()));
    assert_eq!(split_streaming("abc def", 7), ("abc ".to_string(), "def".to_string()));
    assert_eq!(split_streaming("", 5), (String::new(), String::new()));
}

#[test]
fn a_growing_code_block_is_closed_and_carried_over() {
    assert_eq!(
        split_streaming("```py\nprint(1)\nprint(2)", 16),
        ("```py\nprint(1)\n\n```".to_string(), "```py\nprint(2)".to_string())
    );
}

#[test]
fn a_limit_of_zero_sends_nothing() {
    assert_eq!(split_streaming("abc", 0), (String::new(), "abc".to_string()));
}
