use vimeo_rs::json::{from_text, int_to_string, to_text, Json};

#[test]
fn int_to_string_writes_decimal() {
    assert_eq!(int_to_string(0), "0");
    assert_eq!(int_to_string(123), "123");
    assert_eq!(int_to_string(-45), "-45");
    assert_eq!(int_to_string(i64::MAX), "9223372036854775807");
    assert_eq!(int_to_string(i64::MIN), "-9223372036854775808");
}

#[test]
fn to_text_writes_compact_json() {
    let j = Json::Obj(vec![
        ("a".to_string(), Json::Int(1)),
        ("b".to_string(), Json::Arr(vec![Json::Null, Json::Bool(true)])),
    ]);
    assert_eq!(to_text(&j), "{\"a\":1,\"b\":[null,true]}");
}

#[test]
fn to_text_escapes_strings() {
    let j = Json::Str("a\"b\\c\nd".to_string());
    assert_eq!(to_text(&j), "\"a\\\"b\\\\c\\nd\"");
}

#[test]
fn from_text_reads_whitespace_and_escapes() {
    let j = from_text(" { \"k\" : \"a\\tb\" , \"n\" : -7 } ").unwrap();
    match j {
        Json::Obj(fields) => {
            assert_eq!(fields.len(), 2);
            assert_eq!(fields[0].0, "k");
            match &fields[0].1 {
                Json::Str(s) => assert_eq!(s, "a\tb"),
                _ => panic!("expected a string"),
            }
            match &fields[1].1 {
                Json::Int(n) => assert_eq!(*n, -7),
                _ => panic!("expected an integer"),
            }
        }
        _ => panic!("expected an object"),
    }
}

#[test]
fn from_text_rejects_broken_documents() {
    assert!(from_text("").is_none());
    assert!(from_text("{").is_none());
    assert!(from_text("[1,]").is_none());
    assert!(from_text("\"unterminated").is_none());
    assert!(from_text("nul").is_none());
    assert!(from_text("1 2").is_none());
}

#[test]
fn text_round_trip_keeps_the_value() {
    let j = Json::Obj(vec![
        ("s".to_string(), Json::Str("x\"\\\r\n\t y".to_string())),
        ("i".to_string(), Json::Int(-9007199254740993)),
        (
            "a".to_string(),
            Json::Arr(vec![
                Json::Int(0),
                Json::Str(String::new()),
                Json::Obj(vec![]),
                Json::Arr(vec![]),
            ]),
        ),
        ("z".to_string(), Json::Null),
    ]);
    let text = to_text(&j);
    let back = from_text(&text).unwrap();
    assert_eq!(back, j);
    assert_eq!(to_text(&back), text);
}

#[test]
fn control_characters_are_escaped_and_read_back() {
    let j = Json::Str("a\u{1}b\u{1f}c".to_string());
    let text = to_text(&j);
    assert_eq!(text, "\"a\\u0001b\\u001fc\"");
    assert_eq!(from_text(&text).unwrap(), j);
}

#[test]
fn unicode_escapes_are_read() {
    assert_eq!(from_text("\"\\u0041\""), Some(Json::Str("A".to_string())));
    // an astral character written as a surrogate pair
    assert_eq!(
        from_text("\"\\ud83d\\ude00\""),
        Some(Json::Str("\u{1f600}".to_string()))
    );
    // a lone half of a pair is not a character
    assert!(from_text("\"\\ud83d\"").is_none());
    assert!(from_text("\"\\udc00x\"").is_none());
}
