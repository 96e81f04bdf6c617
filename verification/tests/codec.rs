use slate::codec::{decode, encode, gather, load, LoadPolicy};
use slate::errors::SlateError;
use slate::mapping::{Entry, Mapping};

fn mapping_of(pairs: &[(&str, &str)]) -> Mapping {
    let mut m = Mapping::new();
    for (key, value) in pairs {
        m.insert(key.to_string(), value.to_string());
    }
    m
}

#[test]
fn encoding_then_decoding_gives_the_mapping_back() {
    let m = mapping_of(&[("a", "1"), ("b", "2")]);
    let text = encode(&m).unwrap();

    assert_eq!("{\"a\":\"1\",\"b\":\"2\"}", text);
    assert_eq!(m, decode(&text, LoadPolicy::Strict).unwrap());
    assert_eq!(m, load(&text));
}

#[test]
fn the_order_of_insertion_does_not_show_in_the_text() {
    let forward = mapping_of(&[("a", "1"), ("b", "2"), ("c", "3")]);
    let backward = mapping_of(&[("c", "3"), ("b", "2"), ("a", "1")]);

    assert_eq!(forward, backward);
    assert_eq!(encode(&forward).unwrap(), encode(&backward).unwrap());
    assert_eq!("{\"a\":\"1\",\"b\":\"2\",\"c\":\"3\"}", encode(&backward).unwrap());
}

#[test]
fn the_empty_mapping_is_the_empty_object() {
    assert_eq!("{}", encode(&Mapping::new()).unwrap());
    assert_eq!(Mapping::new(), decode("{}", LoadPolicy::Strict).unwrap());
    assert_eq!(Mapping::new(), decode(" { } ", LoadPolicy::Strict).unwrap());
}

#[test]
fn every_character_survives_the_round_trip() {
    let mut all_controls = String::new();
    for code in 0u32..0x21 {
        all_controls.push(char::from_u32(code).unwrap());
    }
    let awkward = [
        "",
        "\"",
        "\\",
        "\\\"",
        "/",
        "\u{7f}",
        "\u{80}\u{9f}",
        "\u{2028}\u{2029}",
        "\u{e9}\u{df7}\u{ffff}",
        "\u{1f600}\u{10ffff}",
        "{\"a\":\"1\"}",
        "\\u0041",
        "tab\there",
        all_controls.as_str(),
    ];
    let mut m = Mapping::new();
    for (i, s) in awkward.iter().enumerate() {
        m.insert(s.to_string(), format!("{}{}", i, s));
        m.insert(format!("k{}", i), s.to_string());
    }
    let text = encode(&m).unwrap();
    let back = decode(&text, LoadPolicy::Strict).unwrap();

    assert_eq!(m, back);
    for s in awkward {
        assert_eq!(m.get(s), back.get(s));
        assert!(back.get(s).is_some());
    }
    assert_eq!(text, encode(&back).unwrap());
}

#[test]
fn escapes_are_written_as_the_format_asks() {
    let m = mapping_of(&[("q\"", "a\\b"), ("n", "x\ny\tz\r"), ("c", "\u{1}\u{1f}"), ("u", "\u{e9}\u{1f600}")]);

    assert_eq!(
        "{\"c\":\"\\u0001\\u001f\",\"n\":\"x\\ny\\tz\\r\",\"q\\\"\":\"a\\\\b\",\"u\":\"\u{e9}\u{1f600}\"}",
        encode(&m).unwrap()
    );
}

#[test]
fn a_later_field_of_the_same_name_wins() {
    let m = decode("{\"a\":\"1\",\"b\":\"x\",\"a\":\"2\"}", LoadPolicy::Strict).unwrap();

    assert_eq!(mapping_of(&[("a", "2"), ("b", "x")]), m);
}

#[test]
fn fields_are_found_whatever_their_order_in_the_text() {
    let m = load("{\"zeta\":\"z\",\"alpha\":\"a\",\"Mid\":\"m\",\"\":\"e\"}");

    assert_eq!(vec!["", "Mid", "alpha", "zeta"], m.keys());
    assert_eq!(Some(&"z".to_string()), m.get("zeta"));
    assert_eq!(Some(&"e".to_string()), m.get(""));
    assert_eq!(None, m.get("beta"));
}

#[test]
fn the_tolerant_policy_takes_any_other_text_as_empty() {
    for corrupt in ["", " ", "x", "{", "}", "[]", "\"a\"", "12", "true", "{\"a\":null}", "{\"a\":[\"b\"]}", "{a:\"b\"}", "{\"a\":\"b\",}", "{\"a\":\"b\"} x"] {
        assert_eq!(Mapping::new(), decode(corrupt, LoadPolicy::Tolerant).unwrap());
        assert_eq!(Mapping::new(), load(corrupt));
    }
}

#[test]
fn the_strict_policy_reports_any_other_text() {
    for corrupt in ["", " ", "x", "{", "}", "[]", "\"a\"", "12", "true", "{\"a\":null}", "{\"a\":[\"b\"]}", "{a:\"b\"}", "{\"a\":\"b\",}", "{\"a\":\"b\"} x"] {
        match decode(corrupt, LoadPolicy::Strict) {
            Err(SlateError::JSON(_)) => {}
            other => panic!("{:?} gave {:?}", corrupt, other),
        }
    }
}

#[test]
fn deep_nesting_is_refused_and_not_followed() {
    let deep = "[".repeat(100_000);

    assert_eq!(Mapping::new(), load(&deep));
    assert!(matches!(decode(&deep, LoadPolicy::Strict), Err(SlateError::JSON(_))));
}

fn entry(key: &str, value: &str) -> Entry {
    Entry { key: key.to_string(), value: value.to_string() }
}

#[test]
fn gathering_takes_entries_in_any_order() {
    let m = gather(vec![entry("b", "2"), entry("c", "3"), entry("a", "1")]);

    assert_eq!(mapping_of(&[("a", "1"), ("b", "2"), ("c", "3")]), m);
    assert_eq!(vec!["a", "b", "c"], m.keys());
}

#[test]
fn gathering_nothing_gives_the_empty_mapping() {
    assert_eq!(Mapping::new(), gather(vec![]));
}

#[test]
fn of_two_entries_with_one_key_the_earlier_counts() {
    let m = gather(vec![entry("a", "first"), entry("b", "x"), entry("a", "second"), entry("a", "third")]);

    assert_eq!(mapping_of(&[("a", "first"), ("b", "x")]), m);
}
