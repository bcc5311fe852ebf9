use toolhooks::json::JsonValue;
use toolhooks::json::clone_json;
use toolhooks::json::to_text;
use toolhooks::matcher::matcher_matches;
use toolhooks::parse::json_parse;
use toolhooks::text::char_from_u32;
use toolhooks::text::chars_of;
use toolhooks::text::string_of;
use toolhooks::text::trimmed;
use toolhooks::text::u64_to_dec;

fn sample_value() -> JsonValue {
    JsonValue::Obj(vec![
        ("name".to_string(), JsonValue::Str("line1\nline2\t\"q\"".to_string())),
        ("count".to_string(), JsonValue::Num("42".to_string())),
        ("on".to_string(), JsonValue::Bool(true)),
        ("gap".to_string(), JsonValue::Null),
        (
            "items".to_string(),
            JsonValue::Arr(vec![
                JsonValue::Num("-1".to_string()),
                JsonValue::Str("\u{1F600} unicode".to_string()),
                JsonValue::Obj(vec![]),
            ]),
        ),
    ])
}

#[test]
fn printed_json_is_what_the_reference_reader_sees() {
    let text = to_text(&sample_value());
    let value: serde_json::Value = serde_json::from_str(&text).expect("the text is JSON");
    assert_eq!(value["name"], "line1\nline2\t\"q\"");
    assert_eq!(value["count"], 42);
    assert_eq!(value["on"], true);
    assert_eq!(value["gap"], serde_json::Value::Null);
    assert_eq!(value["items"][0], -1);
    assert_eq!(value["items"][1], "\u{1F600} unicode");
    assert!(value["items"][2].is_object());
}

#[test]
fn printed_json_escapes_control_characters() {
    let text = to_text(&JsonValue::Str("a\u{1}b\\c\"d\u{8}\u{c}\r".to_string()));
    assert_eq!(text, "\"a\\u0001b\\\\c\\\"d\\b\\f\\r\"");
    let back: String = serde_json::from_str(&text).expect("the escape forms are standard");
    assert_eq!(back, "a\u{1}b\\c\"d\u{8}\u{c}\r");
}

#[test]
fn parse_undoes_print() {
    let text = to_text(&sample_value());
    let back = json_parse(&text).expect("the printer writes JSON");
    assert_eq!(back, sample_value());
}

#[test]
fn parse_reads_escapes_and_whitespace() {
    let v = json_parse(" \r\n\t {\"k\": \"\\u0041\\n\\/\\uD834\\uDD1E\"} ").expect("valid JSON");
    assert_eq!(
        v,
        JsonValue::Obj(vec![(
            "k".to_string(),
            JsonValue::Str("A\n/\u{1D11E}".to_string())
        )])
    );
}

#[test]
fn parse_keeps_number_tokens() {
    let v = json_parse("[0, -1, 3.5, 1e10, 2E-3]").expect("valid JSON");
    assert_eq!(
        v,
        JsonValue::Arr(vec![
            JsonValue::Num("0".to_string()),
            JsonValue::Num("-1".to_string()),
            JsonValue::Num("3.5".to_string()),
            JsonValue::Num("1e10".to_string()),
            JsonValue::Num("2E-3".to_string()),
        ])
    );
}

#[test]
fn parse_rejects_what_is_not_json() {
    assert!(json_parse("not json").is_none());
    assert!(json_parse("{\"a\":1} trailing").is_none());
    assert!(json_parse("[1,]").is_none());
    assert!(json_parse("{\"a\"}").is_none());
    assert!(json_parse("01").is_none());
    assert!(json_parse("\"\\uD834\"").is_none());
    assert!(json_parse("\"unterminated").is_none());
    assert!(json_parse("").is_none());
}

#[test]
fn parse_agrees_with_the_reference_reader_on_samples() {
    let samples = [
        "{\"decision\":\"block\",\"reason\":\"policy\"}",
        "[\"a\", {\"b\": [true, false, null]}, -0.5]",
        "\"\\t tab\"",
        "{}",
        "[[]]",
        "{\"a\":1,\"a\":2}",
        "tru",
        "[1 2]",
    ];
    for text in samples {
        let mine = json_parse(text).is_some();
        let theirs = serde_json::from_str::<serde_json::Value>(text).is_ok();
        assert_eq!(mine, theirs, "disagreement on {text}");
    }
}

#[test]
fn clone_json_copies_deeply() {
    let v = sample_value();
    let c = clone_json(&v);
    assert_eq!(c, v);
}

#[test]
fn chars_round_trip_through_a_vector() {
    let s = "mixed \u{1F600} text\n";
    let cs = chars_of(s);
    assert_eq!(cs.len(), 13);
    assert_eq!(string_of(&cs), s);
}

#[test]
fn trimmed_removes_unicode_whitespace() {
    let cs = chars_of("\u{a0} \t hello there \u{3000}\n");
    assert_eq!(string_of(&trimmed(&cs)), "hello there");
    let all_ws = chars_of(" \t\n");
    assert_eq!(string_of(&trimmed(&all_ws)), "");
}

#[test]
fn decimal_printing_matches_the_value() {
    assert_eq!(string_of(&u64_to_dec(0)), "0");
    assert_eq!(string_of(&u64_to_dec(10_000)), "10000");
    assert_eq!(string_of(&u64_to_dec(u64::MAX)), u64::MAX.to_string());
}

#[test]
fn char_from_u32_accepts_exactly_scalar_values() {
    assert_eq!(char_from_u32(0x41), Some('A'));
    assert_eq!(char_from_u32(0x1D11E), Some('\u{1D11E}'));
    assert_eq!(char_from_u32(0xD800), None);
    assert_eq!(char_from_u32(0x110000), None);
}

#[test]
fn matcher_follows_the_regex_engine() {
    let edit = "Edit".to_string();
    assert!(matcher_matches(Some(&edit), "Edit"));
    assert!(!matcher_matches(Some(&edit), "Write"));
    // An anchored pattern is a real regex, not a substring test.
    let anchored = "^Wri".to_string();
    assert!(matcher_matches(Some(&anchored), "Write"));
    assert!(!matcher_matches(Some(&anchored), "Rewrite"));
    // An unanchored pattern matches anywhere in the subject.
    let within = "rit".to_string();
    assert!(matcher_matches(Some(&within), "Write"));
    // No matcher fires for everything; a broken one for nothing.
    assert!(matcher_matches(None, "anything"));
    let broken = "(".to_string();
    assert!(!matcher_matches(Some(&broken), "anything"));
}
