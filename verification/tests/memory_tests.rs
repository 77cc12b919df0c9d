use rustclaw::index::ApproximateIndex;
use rustclaw::dedup::{are_near_duplicates, find_near_duplicate, normalize, MIN_CONTAINMENT_LEN};
use rustclaw::memory::{MemoryManager, DEFAULT_RECENT_TURNS};
use rustclaw::records::{ConversationTurn, ImportantEntry};
use rustclaw::store::{RecordStore, StoreError};
use rustclaw::vector_db::{MemoryError, VectorDb};

fn chars(s: &str) -> Vec<char> {
    s.chars().collect()
}

fn entry(content: &str) -> ImportantEntry {
    ImportantEntry { id: "e".to_string(), content: content.to_string(), timestamp_micros: 0 }
}

fn manager(window: usize) -> MemoryManager {
    MemoryManager::new(VectorDb::new(2).unwrap(), window)
}

fn related_section(context: &str) -> String {
    match context.find("# Related Past Conversations") {
        Some(i) => context[i..].to_string(),
        None => String::new(),
    }
}

fn recent_section(context: &str) -> String {
    let start = match context.find("# Recent Conversations") {
        Some(i) => i,
        None => return String::new(),
    };
    let end = context.find("# Related Past Conversations").unwrap_or(context.len());
    context[start..end].to_string()
}

#[test]
fn the_memory_constants_are_those_of_the_deployment() {
    assert_eq!(DEFAULT_RECENT_TURNS, 5);
    assert_eq!(MIN_CONTAINMENT_LEN, 10);
}

#[test]
fn normalize_trims_then_lowercases() {
    assert_eq!(normalize("  Hello World \n"), chars("hello world"));
    assert_eq!(normalize("ÄÖÜ"), chars("äöü"));
    assert_eq!(normalize("   "), chars(""));
    assert_eq!(normalize("X"), chars("x"));
}

#[test]
fn equal_texts_are_near_duplicates_whatever_their_length() {
    assert!(are_near_duplicates(&chars("x"), &chars("x")));
    assert!(are_near_duplicates(&chars(""), &chars("")));
    assert!(are_near_duplicates(&chars("exactly ten"), &chars("exactly ten")));
    assert!(!are_near_duplicates(&chars("x"), &chars("y")));
}

#[test]
fn containment_counts_only_for_texts_longer_than_ten_characters() {
    let long = chars("the user likes green tea");
    assert!(are_near_duplicates(&long, &chars("likes green tea")));
    assert!(are_near_duplicates(&chars("likes green tea"), &long));
    assert!(!are_near_duplicates(&long, &chars("green tea")));
    assert!(!are_near_duplicates(&chars("0123456789"), &chars("0123456789a")));
    assert!(are_near_duplicates(&chars("0123456789a"), &chars("0123456789ab")));
    assert!(!are_near_duplicates(&chars("0123456789a"), &chars("x123456789ab")));
}

#[test]
fn containment_counts_characters_not_bytes() {
    // nine characters, eighteen bytes: too short to count as contained
    let short = chars("ääääääääää");
    let longer = chars("ääääääääääö");
    assert_eq!(short.len(), 10);
    assert!(!are_near_duplicates(&short, &longer));
}

#[test]
fn find_near_duplicate_normalizes_both_sides() {
    let entries = vec![entry("  Likes Tea "), entry("Birthday is on 4 May")];
    assert_eq!(find_near_duplicate(&entries, "likes tea"), Some(0));
    assert_eq!(find_near_duplicate(&entries, "LIKES TEA\n"), Some(0));
    assert_eq!(find_near_duplicate(&entries, "the birthday is on 4 may, remember"), Some(1));
    assert_eq!(find_near_duplicate(&entries, "likes coffee"), None);
    assert_eq!(find_near_duplicate(&vec![], "likes tea"), None);
}

#[test]
fn a_new_manager_holds_nothing() {
    let m = manager(3);
    assert!(m.recent_turns().is_empty());
    assert!(m.vector_db().list_important().is_empty());
    assert_eq!(m.get_context(&vec![], 5), "");
    assert_eq!(m.vector_db().get_important_context(), "");
    assert_eq!(m.vector_db().vector_index().size(), 0);
    assert_eq!(m.search_width(5), Some(10));
}

#[test]
fn a_manager_takes_over_store_and_index() {
    let mut store = RecordStore::new();
    store
        .insert_turn(ConversationTurn {
            id: "t".to_string(),
            author: "a".to_string(),
            user_input: "q".to_string(),
            assistant_response: "r".to_string(),
            timestamp_micros: 1,
        })
        .unwrap();
    let index = ApproximateIndex::new(2).unwrap();
    let m = MemoryManager::new(VectorDb::from_parts(store, index), 4);
    assert_eq!(m.recent_turns().len(), 1);
    assert_eq!(m.vector_db().record_store().turns.len(), 1);
    assert_eq!(m.search_width(2), Some(8));
}

#[test]
fn record_turn_writes_the_turn_and_returns_its_key() {
    let mut m = manager(5);
    let key = m.vector_db_mut().record_turn("id-1".to_string(), "ann", "hi", "hello", 100).unwrap();
    assert_eq!(key, 1);
    let key = m.vector_db_mut().record_turn("id-2".to_string(), "bob", "yo", "hey", 200).unwrap();
    assert_eq!(key, 2);
    let turns = m.recent_turns();
    assert_eq!(turns.len(), 2);
    assert_eq!(turns[0].id, "id-1");
    assert_eq!(turns[0].author, "ann");
    assert_eq!(turns[0].user_input, "hi");
    assert_eq!(turns[0].assistant_response, "hello");
    assert_eq!(turns[0].timestamp_micros, 100);
    assert_eq!(turns[1].timestamp_micros, 200);
    assert_eq!(m.vector_db().vector_index().size(), 0);
}

#[test]
fn record_turn_never_stamps_a_turn_before_its_predecessor() {
    let mut m = manager(5);
    m.vector_db_mut().record_turn("a".to_string(), "u", "1", "1", 500).unwrap();
    m.vector_db_mut().record_turn("b".to_string(), "u", "2", "2", 100).unwrap();
    m.vector_db_mut().record_turn("c".to_string(), "u", "3", "3", 500).unwrap();
    let stamps: Vec<i64> = m.recent_turns().iter().map(|t| t.timestamp_micros).collect();
    assert_eq!(stamps, vec![500, 500, 500]);
}

#[test]
fn record_turn_refuses_a_known_id_and_leaves_everything_as_it_was() {
    let mut m = manager(5);
    m.vector_db_mut().record_turn("same".to_string(), "u", "1", "1", 1).unwrap();
    let r = m.vector_db_mut().record_turn("same".to_string(), "u", "2", "2", 2);
    assert!(matches!(r, Err(MemoryError::Store(StoreError::DuplicateId))));
    assert_eq!(m.recent_turns().len(), 1);
    assert_eq!(m.recent_turns()[0].user_input, "1");
}

#[test]
fn add_turn_stamps_id_and_time_itself() {
    let mut m = manager(5);
    let k1 = m.add_turn("ann", "first", "one").unwrap();
    let k2 = m.add_turn("ann", "second", "two").unwrap();
    assert_eq!((k1, k2), (1, 2));
    let turns = m.recent_turns();
    assert_eq!(turns[0].id.chars().count(), 36);
    assert_ne!(turns[0].id, turns[1].id);
    assert!(turns[0].timestamp_micros <= turns[1].timestamp_micros);
    assert!(turns[0].timestamp_micros > 1_600_000_000_000_000);
    assert_eq!(turns[1].user_input, "second");
}

#[test]
fn the_recency_window_holds_the_newest_turns_oldest_first() {
    let mut m = manager(3);
    for i in 0..2 {
        m.vector_db_mut().record_turn(format!("t{}", i), "u", "q", "a", i).unwrap();
    }
    assert_eq!(m.recent_turns().len(), 2);
    for i in 2..7 {
        m.vector_db_mut().record_turn(format!("t{}", i), "u", "q", "a", i).unwrap();
    }
    let recent = m.recent_turns();
    let ids: Vec<&str> = recent.iter().map(|t| t.id.as_str()).collect();
    assert_eq!(ids, vec!["t4", "t5", "t6"]);
    for pair in recent.windows(2) {
        assert!(pair[0].timestamp_micros <= pair[1].timestamp_micros);
    }
    assert_eq!(m.search_width(5), Some(13));
}

#[test]
fn a_window_of_zero_shows_no_recent_turn() {
    let mut m = manager(0);
    m.vector_db_mut().record_turn("a".to_string(), "u", "q", "a", 1).unwrap();
    assert!(m.recent_turns().is_empty());
    let context = m.get_context(&vec![1], 5);
    assert_eq!(context, "# Related Past Conversations\n\nu: q\nAssistant: a\n\n");
}

#[test]
fn get_context_never_shows_a_turn_twice() {
    let mut m = manager(2);
    let mut keys = Vec::new();
    for i in 0..5 {
        keys.push(m.vector_db_mut().record_turn(format!("t{}", i), "u", &format!("q{}", i), "a", i).unwrap());
    }
    let context = m.get_context(&keys, 10);
    for i in 0..5 {
        let needle = format!("u: q{}\n", i);
        assert_eq!(context.matches(&needle).count(), 1);
    }
    let recent = recent_section(&context);
    let related = related_section(&context);
    assert!(recent.contains("q3") && recent.contains("q4"));
    assert!(!related.contains("q3") && !related.contains("q4"));
    assert!(related.contains("q0") && related.contains("q1") && related.contains("q2"));
}

#[test]
fn related_turns_are_cut_to_top_k_oldest_first() {
    let mut m = manager(1);
    let mut keys = Vec::new();
    for i in 0..6 {
        keys.push(m.vector_db_mut().record_turn(format!("t{}", i), "u", &format!("q{}", i), "a", i).unwrap());
    }
    keys.reverse();
    let context = m.get_context(&keys, 2);
    assert_eq!(
        related_section(&context),
        "# Related Past Conversations\n\nu: q0\nAssistant: a\n\nu: q1\nAssistant: a\n\n"
    );
}

#[test]
fn unknown_matches_are_ignored() {
    let mut m = manager(1);
    m.vector_db_mut().record_turn("a".to_string(), "u", "q", "a", 1).unwrap();
    let context = m.get_context(&vec![99, 0, 7], 5);
    assert_eq!(context, "# Recent Conversations\n\nu: q\nAssistant: a\n\n");
}

#[test]
fn cats_and_dogs() {
    let mut m = manager(1);
    let t1 = m.vector_db_mut().record_turn("T1".to_string(), "ann", "I love cats", "Cats are great", 1_000).unwrap();
    let t2 = m.vector_db_mut().record_turn("T2".to_string(), "ann", "I walk dogs", "Dogs need walks", 2_000).unwrap();
    let t3 = m.vector_db_mut().record_turn("T3".to_string(), "ann", "cats again", "Still great", 3_000).unwrap();
    for (key, vector) in [(t1, [1.0f32, 0.0]), (t2, [0.0f32, 1.0]), (t3, [0.95f32, 0.05])] {
        m.vector_db_mut().vector_index_mut().inner_mut().add(key, &vector).unwrap();
    }
    // a query about felines lies close to the two turns about cats
    let width = m.search_width(2).unwrap();
    assert_eq!(width, 8);
    let found = m.vector_db().vector_index().inner().search(&[0.99f32, 0.01], 2).unwrap();
    let mut matches = found.keys.clone();
    matches.sort();
    assert_eq!(matches, vec![t1, t3]);
    let context = m.get_context(&matches, 2);
    assert_eq!(
        context,
        "# Recent Conversations\n\nann: cats again\nAssistant: Still great\n\n\
         # Related Past Conversations\n\nann: I love cats\nAssistant: Cats are great\n\n"
    );
    assert!(!context.contains("dogs"));
}

#[test]
fn cats_and_dogs_with_nothing_recent() {
    let mut m = manager(0);
    let t1 = m.vector_db_mut().record_turn("T1".to_string(), "ann", "I love cats", "Cats are great", 1_000).unwrap();
    let _t2 = m.vector_db_mut().record_turn("T2".to_string(), "ann", "I walk dogs", "Dogs need walks", 2_000).unwrap();
    let t3 = m.vector_db_mut().record_turn("T3".to_string(), "ann", "cats again", "Still great", 3_000).unwrap();
    let context = m.get_context(&vec![t3, t1], 5);
    assert_eq!(
        context,
        "# Related Past Conversations\n\nann: I love cats\nAssistant: Cats are great\n\n\
         ann: cats again\nAssistant: Still great\n\n"
    );
}

#[test]
fn add_turn_makes_room_in_the_index_before_the_caller_adds() {
    let db = VectorDb::from_parts(RecordStore::new(), ApproximateIndex::unreserved(2).unwrap());
    let mut m = MemoryManager::new(db, 3);
    let before = m.vector_db().vector_index().capacity();
    let key = m.add_turn("ann", "hi", "hello").unwrap();
    assert!(m.vector_db().vector_index().capacity() >= before + 1000);
    assert!(m.vector_db().vector_index().size() < m.vector_db().vector_index().capacity());
    m.vector_db_mut().vector_index_mut().inner_mut().add(key, &[1.0f32, 0.0]).unwrap();
    assert_eq!(m.vector_db().vector_index().size(), 1);
}

#[test]
fn a_case_variant_is_stored_once() {
    let mut m = manager(3);
    assert_eq!(m.add_to_long_term("X").unwrap(), true);
    assert_eq!(m.add_to_long_term("x").unwrap(), false);
    let stored = m.vector_db().list_important();
    assert_eq!(stored.len(), 1);
    assert_eq!(stored[0].content, "X");
}

#[test]
fn add_to_long_term_stores_the_trimmed_text() {
    let mut m = manager(3);
    assert!(m.add_to_long_term("  The user likes green tea \n").unwrap());
    assert!(!m.add_to_long_term("the user likes GREEN tea").unwrap());
    assert!(!m.add_to_long_term("likes green tea").unwrap());
    assert!(m.add_to_long_term("green tea").unwrap());
    let stored = m.vector_db().list_important();
    assert_eq!(stored.len(), 2);
    assert_eq!(stored[0].content, "The user likes green tea");
    assert_eq!(stored[1].content, "green tea");
    assert_eq!(stored[0].id.chars().count(), 8);
}

#[test]
fn remember_takes_id_and_time_from_the_caller() {
    let mut m = manager(3);
    assert_eq!(m.remember("aaaaaaaa".to_string(), " one ", 10).unwrap(), true);
    assert_eq!(m.remember("bbbbbbbb".to_string(), "ONE", 20).unwrap(), false);
    assert_eq!(m.remember("bbbbbbbb".to_string(), "two", 5).unwrap(), true);
    let stored = m.vector_db().list_important();
    assert_eq!(stored.len(), 2);
    assert_eq!((stored[0].id.as_str(), stored[0].content.as_str(), stored[0].timestamp_micros), ("aaaaaaaa", "one", 10));
    assert_eq!((stored[1].id.as_str(), stored[1].content.as_str(), stored[1].timestamp_micros), ("bbbbbbbb", "two", 10));
    let r = m.remember("aaaaaaaa".to_string(), "three", 30);
    assert!(matches!(r, Err(MemoryError::Store(StoreError::DuplicateId))));
    assert_eq!(m.vector_db().list_important().len(), 2);
}

#[test]
fn add_important_does_not_store_a_known_fact_again() {
    let mut m = manager(3);
    let id1 = m.vector_db_mut().add_important("Likes tea").unwrap();
    let id2 = m.vector_db_mut().add_important("  likes TEA ").unwrap();
    assert_eq!(id1, id2);
    assert_eq!(id1.chars().count(), 8);
    let stored = m.vector_db().list_important();
    assert_eq!(stored.len(), 1);
    assert_eq!(stored[0].id, id1);
    assert_eq!(stored[0].content, "Likes tea");
    let id3 = m.vector_db_mut().add_important("likes coffee").unwrap();
    assert_ne!(id1, id3);
    assert_eq!(m.vector_db().list_important().len(), 2);
    assert_eq!(m.add_to_long_term("LIKES COFFEE").unwrap(), false);
    assert_eq!(m.vector_db_mut().add_important("and he likes coffee too").unwrap(), id3);
    assert_eq!(m.vector_db().list_important().len(), 2);
}

#[test]
fn store_entry_keeps_the_content_as_given_and_skips_what_is_known() {
    let mut m = manager(3);
    assert_eq!(m.vector_db_mut().store_entry("id".to_string(), "  raw  ".to_string(), 7).unwrap(), Some(1));
    assert_eq!(m.vector_db().list_important()[0].content, "  raw  ");
    assert_eq!(m.vector_db().list_important()[0].timestamp_micros, 7);
    assert_eq!(m.vector_db_mut().store_entry("other".to_string(), "RAW".to_string(), 8).unwrap(), None);
    assert_eq!(m.vector_db().list_important().len(), 1);
    assert_eq!(m.vector_db_mut().store_entry("other".to_string(), "new".to_string(), 3).unwrap(), Some(2));
    assert_eq!(m.vector_db().list_important()[1].timestamp_micros, 7);
    let r = m.vector_db_mut().store_entry("id".to_string(), "third".to_string(), 9);
    assert!(matches!(r, Err(MemoryError::Store(StoreError::DuplicateId))));
}

#[test]
fn a_turn_that_was_not_made_durable_is_taken_back() {
    let mut db = VectorDb::new(2).unwrap();
    db.record_turn("a".to_string(), "u", "1", "1", 1).unwrap();
    db.record_turn("b".to_string(), "u", "2", "2", 2).unwrap();
    assert!(db.withdraw_turn("b"));
    assert!(!db.withdraw_turn("b"));
    assert_eq!(db.recent_turns(5).len(), 1);
    assert_eq!(db.record_turn("c".to_string(), "u", "3", "3", 3).unwrap(), 3);
}

#[test]
fn a_new_vector_db_has_the_width_and_the_room_asked_for() {
    let db = VectorDb::new(7).unwrap();
    assert_eq!(db.vector_index().dimensions(), 7);
    assert_eq!(db.vector_index().size(), 0);
    assert!(db.vector_index().capacity() >= 1000);
}

#[test]
fn a_turn_grows_the_index_by_the_fixed_increment_only_when_it_is_nearly_full() {
    let mut db = VectorDb::new(2).unwrap();
    let start = db.vector_index().capacity();
    db.record_turn("a".to_string(), "u", "1", "1", 1).unwrap();
    assert_eq!(db.vector_index().capacity(), start);
    let full = VectorDb::from_parts(RecordStore::new(), ApproximateIndex::unreserved(2).unwrap());
    let mut full = full;
    let none = full.vector_index().capacity();
    full.record_turn("a".to_string(), "u", "1", "1", 1).unwrap();
    assert!(full.vector_index().capacity() >= none + 1000);
}

#[test]
fn delete_important_on_an_id_never_created_is_false() {
    let mut m = manager(3);
    assert_eq!(m.vector_db_mut().delete_important("deadbeef"), false);
    let id = m.vector_db_mut().add_important("a fact").unwrap();
    assert_eq!(m.vector_db_mut().delete_important("deadbeef"), false);
    assert_eq!(m.vector_db().list_important().len(), 1);
    assert_eq!(m.vector_db_mut().delete_important(&id), true);
    assert_eq!(m.vector_db_mut().delete_important(&id), false);
    assert!(m.vector_db().list_important().is_empty());
}

#[test]
fn get_important_context_is_the_head_of_the_context() {
    let mut m = manager(3);
    m.remember("a".to_string(), "likes tea", 1).unwrap();
    m.remember("b".to_string(), "born in May", 2).unwrap();
    assert_eq!(m.vector_db().get_important_context(), "# Important Facts\n\n- likes tea\n- born in May\n");
    m.vector_db_mut().record_turn("t".to_string(), "u", "q", "a", 1).unwrap();
    let context = m.get_context(&vec![], 5);
    assert_eq!(
        context,
        "# Important Facts\n\n- likes tea\n- born in May\n\n# Recent Conversations\n\nu: q\nAssistant: a\n\n"
    );
    assert!(context.starts_with(&m.vector_db().get_important_context()));
}

#[test]
fn a_memory_error_has_words() {
    assert_eq!(MemoryError::Embedding("no model".to_string()).describe(), "embedding failed: no model");
    assert_eq!(
        MemoryError::Store(StoreError::DuplicateId).describe(),
        "store failed: a row with this id is already stored"
    );
    assert_eq!(
        MemoryError::Index(rustclaw::index::IndexError::Full).describe(),
        "index failed: the index has no free slot"
    );
}

#[test]
fn search_turns_filters_sorts_and_cuts() {
    let mut db = VectorDb::new(2).unwrap();
    let mut keys = Vec::new();
    for i in 0..5 {
        keys.push(db.record_turn(format!("t{}", i), "u", "q", "a", i).unwrap());
    }
    let exclude = vec!["t1".to_string()];
    let found = db.search_turns(&vec![keys[4], keys[1], keys[0], keys[3]], 2, &exclude);
    let ids: Vec<&str> = found.iter().map(|t| t.id.as_str()).collect();
    assert_eq!(ids, vec!["t0", "t3"]);
    assert!(db.search_turns(&vec![], 2, &exclude).is_empty());
    assert_eq!(db.search_turns(&keys, 10, &vec![]).len(), 5);
    assert_eq!(db.recent_turns(2).len(), 2);
    assert_eq!(db.recent_turns(2)[0].id, "t3");
}

#[test]
fn a_vector_db_starts_empty_and_hands_out_its_parts() {
    let db = VectorDb::new(4).unwrap();
    assert!(db.recent_turns(3).is_empty());
    assert!(db.list_important().is_empty());
    assert_eq!(db.get_important_context(), "");
    assert_eq!(db.vector_index().size(), 0);
    assert_eq!(db.vector_index().inner().dimensions(), 4);
    assert_eq!(db.record_store().turns.len(), 0);
}

#[test]
fn the_key_of_a_new_turn_resolves_to_that_turn_alone() {
    let mut db = VectorDb::new(2).unwrap();
    db.record_turn("a".to_string(), "u", "first", "1", 1).unwrap();
    let key = db.record_turn("b".to_string(), "u", "second", "2", 2).unwrap();
    db.record_turn("c".to_string(), "u", "third", "3", 3).unwrap();
    let found = db.search_turns(&vec![key], 5, &vec![]);
    assert_eq!(found.len(), 1);
    assert_eq!(found[0].id, "b");
    assert_eq!(found[0].user_input, "second");
}

#[test]
fn a_match_is_left_out_only_when_older_matches_fill_the_section() {
    let mut m = manager(1);
    let mut keys = Vec::new();
    for i in 0..5 {
        keys.push(m.vector_db_mut().record_turn(format!("t{}", i), "u", &format!("q{}", i), "a", i).unwrap());
    }
    // t4 is recent; t0, t1 and t3 match; two fit
    let shown = m.get_context(&vec![keys[3], keys[0], keys[1]], 2);
    let related = related_section(&shown);
    assert!(related.contains("q0") && related.contains("q1"));
    assert!(!related.contains("q3"));
    let shown = m.get_context(&vec![keys[3], keys[0], keys[1]], 3);
    assert!(related_section(&shown).contains("q3"));
}

#[test]
fn a_turn_is_written_first_and_room_is_made_after() {
    let mut db = VectorDb::from_parts(RecordStore::new(), ApproximateIndex::unreserved(2).unwrap());
    let none = db.vector_index().capacity();
    let key = db.store_turn("ann", "hi", "hello").unwrap();
    assert_eq!(key, 1);
    assert_eq!(db.vector_index().capacity(), none);
    assert_eq!(db.recent_turns(1)[0].user_input, "hi");
    db.make_room().unwrap();
    assert!(db.vector_index().capacity() >= none + 1000);
    let grown = db.vector_index().capacity();
    db.make_room().unwrap();
    assert_eq!(db.vector_index().capacity(), grown);
    assert_eq!(db.write_turn("fixed".to_string(), "bob", "q", "a", 5).unwrap(), 2);
    let r = db.write_turn("fixed".to_string(), "bob", "q", "a", 6);
    assert!(matches!(r, Err(MemoryError::Store(StoreError::DuplicateId))));
    assert_eq!(db.recent_turns(9).len(), 2);
}

#[test]
fn add_turn_on_an_empty_store_succeeds() {
    for _ in 0..50 {
        let mut db = VectorDb::new(2).unwrap();
        assert_eq!(db.add_turn("ann", "hi", "hello").unwrap(), 1);
        assert_eq!(db.add_important("a fact to keep").unwrap().chars().count(), 8);
    }
}

#[test]
fn a_loaded_index_has_to_fit_the_provider() {
    let index = ApproximateIndex::new(4).unwrap();
    assert!(VectorDb::with_loaded_index(RecordStore::new(), index, 4).is_ok());
    let index = ApproximateIndex::new(4).unwrap();
    let r = VectorDb::with_loaded_index(RecordStore::new(), index, 384);
    assert!(matches!(r, Err(MemoryError::Index(rustclaw::index::IndexError::WrongDimensions))));
}
