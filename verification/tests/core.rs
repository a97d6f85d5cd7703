use llm_top::collector::order::insert_by_start;
use llm_top::collector::sanitize::sanitize_terminal_text;
use llm_top::json::{parse_json, Json};
use llm_top::model::AgentSession;
use llm_top::text::case::same_ignoring_case;
use llm_top::text::number::{decimal_text, low32, parse_u32, parse_u64};
use llm_top::text::scan::{contains, lines, past_last, pieces, split_after, trim, until, words};
use llm_top::text::{pad_left, pad_right};

#[test]
fn documents_are_read_into_trees() {
    let j = parse_json(" {\"b\":[null,true,-1,1.5,7],\"a\":\"x\\n\"} ").unwrap();
    assert_eq!(j.field("a").as_str(), Some("x\n"));
    let list = j.field("b").as_array().unwrap();
    assert!(matches!(list[0], Json::Null));
    assert!(list[1].is_true());
    assert_eq!(list[2].as_u64(), None);
    assert_eq!(list[3].as_u64(), None);
    assert_eq!(list[4].as_u64(), Some(7));
    assert!(matches!(j.field("c"), Json::Null));
    assert!(matches!(j.field("a").field("b"), Json::Null));
    // Members come in the order of their names.
    assert!(matches!(&j, Json::Object(fields) if fields[0].0 == "a" && fields[1].0 == "b"));
}

#[test]
fn texts_that_are_no_documents_are_refused() {
    for text in ["", "{", "{} {}", "nul", "{\"a\":}"] {
        assert!(parse_json(text).is_none());
    }
}

#[test]
fn sessions_that_started_together_keep_their_order() {
    let mut list = Vec::new();
    for (start, id) in [(5, "a"), (9, "b"), (5, "c"), (7, "d"), (9, "e")] {
        let mut s = AgentSession::blank();
        s.started_at = start;
        s.session_id = id.to_string();
        insert_by_start(&mut list, s);
    }
    let ids: Vec<&str> = list.iter().map(|s| s.session_id.as_str()).collect();
    assert_eq!(ids, vec!["b", "e", "d", "a", "c"]);
}

#[test]
fn control_characters_are_taken_out() {
    assert_eq!(
        sanitize_terminal_text("a\u{1b}[31mb\u{7f}\u{9f}c\u{2066}d"),
        "a[31mbcd"
    );
}

#[test]
fn numbers_are_read_as_a_whole() {
    assert_eq!(parse_u64("18446744073709551615"), Some(u64::MAX));
    assert_eq!(parse_u64("18446744073709551616"), None);
    assert_eq!(parse_u64("+7"), Some(7));
    for text in ["", "+", "-1", " 1", "1 ", "1.0", "0x1"] {
        assert_eq!(parse_u64(text), None);
    }
    assert_eq!(parse_u32("4294967295"), Some(u32::MAX));
    assert_eq!(parse_u32("4294967296"), None);
    assert_eq!(decimal_text(0), "0");
    assert_eq!(decimal_text(u64::MAX), "18446744073709551615");
    assert_eq!(low32(4294967298), 2);
}

#[test]
fn texts_are_taken_apart() {
    assert!(contains("abc", ""));
    assert!(contains("abc", "bc"));
    assert!(!contains("abc", "ac"));
    assert_eq!(trim("\u{3000} a b \n"), "a b");
    assert_eq!(words(" a  b\tc\n"), vec!["a", "b", "c"]);
    assert_eq!(lines("a\r\nb\n\nc\r"), vec!["a", "b", "", "c\r"]);
    assert_eq!(until("a:b:c", ':'), "a");
    assert_eq!(until("abc", ':'), "abc");
    assert_eq!(past_last("a/b/c", '/'), "c");
    assert_eq!(past_last("abc", '/'), "abc");
    assert_eq!(pieces("a|b|c|d", '|', 3), vec!["a", "b", "c|d"]);
    assert_eq!(pieces("", '|', 3), vec![""]);
    assert_eq!(split_after("a--b--c", "--").as_deref(), Some("b--c"));
    assert_eq!(split_after("abc", "--"), None);
}

#[test]
fn columns_are_padded_by_characters() {
    assert_eq!(pad_right("äb", 4), "äb  ");
    assert_eq!(pad_left("7", 3), "  7");
    assert_eq!(pad_right("long", 2), "long");
    assert_eq!(pad_left("long", 2), "long");
}

#[test]
fn only_ascii_letters_lose_their_case() {
    assert!(same_ignoring_case("CoDeX", "codex"));
    assert!(!same_ignoring_case("Ä", "ä"));
    assert!(!same_ignoring_case("a", "ab"));
}
