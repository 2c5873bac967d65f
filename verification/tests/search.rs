use kv_search::documents::{Document, Documents};
use kv_search::search_engine::SearchEngine;
use kv_search::text::{same_text, split_words, trim};

#[test]
fn split_words_skips_every_kind_of_whitespace() {
    let words = split_words("  hello\tworld\u{3000}again\n\u{85}x  ");
    assert_eq!(words, vec!["hello", "world", "again", "x"]);
    assert!(split_words("").is_empty());
    assert!(split_words(" \t\r\n ").is_empty());
    assert_eq!(split_words("one"), vec!["one"]);
}

#[test]
fn split_words_matches_std() {
    for s in ["a  b", "\u{a0}lead", "trail\u{2028}", "mixed\u{1680}unicode\u{205f}spaces", "x"] {
        let ours = split_words(s);
        let std_words: Vec<&str> = s.split_whitespace().collect();
        assert_eq!(ours, std_words);
    }
}

#[test]
fn trim_removes_outer_whitespace_only() {
    assert_eq!(trim("  exit \n"), "exit");
    assert_eq!(trim("a b"), "a b");
    assert_eq!(trim("   "), "");
    assert_eq!(trim("\u{3000}x\u{3000}"), "x");
}

#[test]
fn same_text_compares_characters() {
    assert!(same_text("abc", "abc"));
    assert!(!same_text("abc", "abd"));
    assert!(!same_text("abc", "ab"));
    assert!(same_text("", ""));
}

#[test]
fn search_engine_lowercases_non_ascii_queries() {
    let mut engine = SearchEngine::new();
    engine.insert_full_content("àb", "straße", 2);
    assert_eq!(engine.search_engine("ÀB"), Some(&vec![2]));
    assert_eq!(engine.search_engine("STRAßE"), Some(&vec![2]));
}

#[test]
fn insert_hashmap_keeps_ids_unique_and_in_order() {
    let mut engine = SearchEngine::new();
    engine.insert_hashmap("apple", 3);
    engine.insert_hashmap("apple", 1);
    engine.insert_hashmap("apple", 3);
    engine.insert_hashmap("pear", 2);
    assert_eq!(engine.lookup("apple"), Some(&vec![3, 1]));
    assert_eq!(engine.lookup("pear"), Some(&vec![2]));
    assert_eq!(engine.lookup("plum"), None);
}

#[test]
fn insert_full_content_records_title_and_content_words() {
    let mut engine = SearchEngine::new();
    engine.insert_full_content("rust book", "the rust language", 0);
    engine.insert_full_content("go", "the go language", 1);
    assert_eq!(engine.lookup("rust"), Some(&vec![0]));
    assert_eq!(engine.lookup("the"), Some(&vec![0, 1]));
    assert_eq!(engine.lookup("language"), Some(&vec![0, 1]));
    assert_eq!(engine.lookup("book"), Some(&vec![0]));
    assert_eq!(engine.lookup("go"), Some(&vec![1]));
}

#[test]
fn recording_the_same_content_twice_changes_nothing() {
    let mut once = SearchEngine::new();
    once.insert_full_content("a b", "b c", 7);
    let mut twice = SearchEngine::new();
    twice.insert_full_content("a b", "b c", 7);
    twice.insert_full_content("a b", "b c", 7);
    for w in ["a", "b", "c", "d"] {
        assert_eq!(once.lookup(w), twice.lookup(w));
    }
}

#[test]
fn search_engine_lowercases_the_query_but_not_the_words() {
    let mut engine = SearchEngine::new();
    engine.insert_full_content("Hello", "world", 4);
    assert_eq!(engine.search_engine("WORLD"), Some(&vec![4]));
    assert_eq!(engine.search_engine("World"), Some(&vec![4]));
    // "Hello" was recorded with its capital; a query is lower-cased first.
    assert_eq!(engine.lookup("Hello"), Some(&vec![4]));
    assert_eq!(engine.search_engine("Hello"), None);
    assert_eq!(engine.search_engine("missing"), None);
}

#[test]
fn inserted_document_is_found_by_each_word() {
    let mut docs = Documents::new();
    let mut engine = SearchEngine::new();
    docs.insert_documents("first post", "about rust", &mut engine);
    docs.insert_documents("second post", "about go", &mut engine);
    let found = docs.search_key("post", &engine).unwrap();
    assert_eq!(found.len(), 2);
    assert_eq!(found[0].title, "first post");
    assert_eq!(found[1].title, "second post");
    let found = docs.search_key("RUST", &engine).unwrap();
    assert_eq!(found.len(), 1);
    assert_eq!(found[0].contents, "about rust");
}

#[test]
fn search_key_reports_unknown_words() {
    let mut docs = Documents::new();
    let mut engine = SearchEngine::new();
    docs.insert_documents("title", "body", &mut engine);
    assert_eq!(docs.search_key("nothing", &engine).unwrap_err(), "No found 💀");
}

#[test]
fn delete_documents_refuses_ids_past_the_end() {
    let mut docs = Documents::new();
    let mut engine = SearchEngine::new();
    assert_eq!(docs.delete_documents(0).unwrap_err(), "Invalide Document Id 🏴‍☠️");
    docs.insert_documents("a", "b", &mut engine);
    docs.insert_documents("c", "d", &mut engine);
    let removed: Document = docs.delete_documents(0).unwrap();
    assert_eq!(removed.title, "a");
    assert_eq!(docs.docs.len(), 1);
    assert_eq!(docs.docs[0].title, "c");
    assert_eq!(docs.delete_documents(1).unwrap_err(), "Invalide Document Id 🏴‍☠️");
}

#[test]
fn search_key_checked_refuses_stale_ids() {
    let mut docs = Documents::new();
    let mut engine = SearchEngine::new();
    docs.insert_documents("a", "x", &mut engine);
    docs.insert_documents("b", "y", &mut engine);
    assert!(docs.delete_documents(0).is_ok());
    // "y" still points at id 1, past the end now.
    assert!(docs.search_key_checked("y", &engine).is_none());
    // "x" points at id 0, which is now document "b".
    let found = docs.search_key_checked("x", &engine).unwrap().unwrap();
    assert_eq!(found[0].title, "b");
    assert_eq!(docs.search_key_checked("z", &engine).unwrap().unwrap_err(), "No found 💀");
}

#[test]
fn split_words_are_already_trimmed() {
    for w in split_words(" a\tbc  d\u{2003}e ") {
        assert!(!w.is_empty());
        assert_eq!(trim(w), w);
    }
}

#[test]
fn recording_leaves_other_words_and_keeps_old_ids_first() {
    let mut engine = SearchEngine::new();
    engine.insert_full_content("alpha", "beta", 5);
    engine.insert_full_content("beta", "gamma", 2);
    assert_eq!(engine.lookup("alpha"), Some(&vec![5]));
    assert_eq!(engine.lookup("beta"), Some(&vec![5, 2]));
    assert_eq!(engine.lookup("gamma"), Some(&vec![2]));
}

#[test]
fn documents_built_by_inserts_are_always_searchable() {
    let mut docs = Documents::new();
    let mut engine = SearchEngine::new();
    for (t, c) in [("a b", "c"), ("b", "c d"), ("e", "a")] {
        docs.insert_documents(t, c, &mut engine);
    }
    for w in ["a", "b", "c", "d", "e", "f"] {
        assert!(docs.search_key_checked(w, &engine).is_some());
    }
    let found = docs.search_key("a", &engine).unwrap();
    assert_eq!(found.len(), 2);
    assert_eq!(found[0].title, "a b");
    assert_eq!(found[1].title, "e");
}

#[test]
fn search_engine_ignores_ascii_case_of_the_query() {
    let mut engine = SearchEngine::new();
    engine.insert_full_content("hello", "world", 1);
    let q = "HeLLo";
    assert_eq!(engine.search_engine(q), engine.search_engine(&q.to_ascii_uppercase()));
    assert_eq!(engine.search_engine(q), engine.search_engine(&q.to_ascii_lowercase()));
    assert_eq!(engine.search_engine(q), Some(&vec![1]));
}

#[test]
fn words_recorded_with_capitals_are_never_found() {
    let mut engine = SearchEngine::new();
    engine.insert_full_content("Rust", "RUST rust", 3);
    assert_eq!(engine.lookup("Rust"), Some(&vec![3]));
    for q in ["Rust", "RUST", "rust", "rUsT"] {
        assert_eq!(engine.search_engine(q), engine.lookup("rust"));
    }
    let mut only_capital = SearchEngine::new();
    only_capital.insert_full_content("Title", "ABC", 0);
    for q in ["Title", "TITLE", "title", "ABC", "abc"] {
        assert_eq!(only_capital.search_engine(q), None);
    }
}
