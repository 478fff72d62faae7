use rhai_core::dynamic::{Dynamic, MapEntry, Union};
use rhai_core::engine::Engine;
use rhai_core::error::EvalAltResult;

fn get<'a>(m: &'a [MapEntry], key: &str) -> &'a Dynamic {
    &m.iter().find(|e| e.key == key).expect("key should exist").value
}

fn is_parse_error(r: &Result<Vec<MapEntry>, Box<EvalAltResult>>) -> bool {
    matches!(r, Err(b) if matches!(**b, EvalAltResult::ErrorParsing(..)))
}

#[test]
fn parse_json_doc_example() {
    let engine = Engine::new();
    let map = engine
        .parse_json(
            r#"
{
    "a": 123,
    "b": 42,
    "c": {
        "x": false,
        "y": true,
        "z": '$'
    },
    "d": null
}"#,
            true,
        )
        .expect("the example should parse");
    assert_eq!(map.len(), 4);
    assert_eq!(get(&map, "a").as_int(), Some(123));
    assert_eq!(get(&map, "b").as_int(), Some(42));
    assert!(get(&map, "d").is_unit());
    match &get(&map, "c").value {
        Union::ObjectMap(c) => {
            assert_eq!(get(c, "x").as_bool(), Some(false));
            assert_eq!(get(c, "y").as_bool(), Some(true));
            assert_eq!(get(c, "z").as_char(), Some('$'));
        }
        _ => panic!("c should be an object map"),
    }
}

#[test]
fn parse_json_entries_come_in_key_order() {
    let engine = Engine::new();
    let map = engine.parse_json(r#"{"b": 1, "a": 2, "c": 3}"#, false).unwrap();
    let keys: Vec<&str> = map.iter().map(|e| e.key.as_str()).collect();
    assert_eq!(keys, vec!["a", "b", "c"]);
    assert_eq!(get(&map, "a").as_int(), Some(2));
}

#[test]
fn parse_json_null_needs_has_null() {
    let engine = Engine::new();
    assert!(is_parse_error(&engine.parse_json(r#"{"d": null}"#, false)));
    let map = engine.parse_json(r#"{"d": null}"#, true).unwrap();
    assert!(get(&map, "d").is_unit());
}

#[test]
fn parse_json_refuses_a_primitive_value() {
    let engine = Engine::new();
    assert!(is_parse_error(&engine.parse_json("42", true)));
    assert!(is_parse_error(&engine.parse_json(r#""text""#, true)));
    assert!(is_parse_error(&engine.parse_json("[1, 2]", true)));
}

#[test]
fn parse_json_refuses_malformed_texts() {
    let engine = Engine::new();
    assert!(is_parse_error(&engine.parse_json(r#"{"a": 1, "a": 2}"#, true)));
    assert!(is_parse_error(&engine.parse_json(r#"{"a": 1.5}"#, true)));
    assert!(is_parse_error(&engine.parse_json(r#"{"a": 1"#, true)));
    assert!(is_parse_error(&engine.parse_json(r#"{"a" 1}"#, true)));
    assert!(is_parse_error(&engine.parse_json(r#"{a: 1}"#, true)));
    assert!(is_parse_error(&engine.parse_json(r#"{"a": 1} x"#, true)));
    assert!(is_parse_error(&engine.parse_json(r#"{"a": 99999999999999999999}"#, true)));
    assert!(is_parse_error(&engine.parse_json("", true)));
}

#[test]
fn parse_json_arrays_strings_and_negative_numbers() {
    let engine = Engine::new();
    let map = engine
        .parse_json(r#" { "list": [1, -2, "x\n", [], {}], "s": "q\"t", "n": -9223372036854775808, } "#, false)
        .unwrap();
    assert_eq!(map.len(), 3);
    assert_eq!(get(&map, "n").as_int(), Some(i64::MIN));
    match &get(&map, "s").value {
        Union::Str(s) => assert_eq!(s, "q\"t"),
        _ => panic!("s should be a string"),
    }
    match &get(&map, "list").value {
        Union::Array(a) => {
            assert_eq!(a.len(), 5);
            assert_eq!(a[0].as_int(), Some(1));
            assert_eq!(a[1].as_int(), Some(-2));
            assert!(matches!(&a[2].value, Union::Str(s) if s == "x\n"));
            assert!(matches!(&a[3].value, Union::Array(v) if v.is_empty()));
            assert!(matches!(&a[4].value, Union::ObjectMap(v) if v.is_empty()));
        }
        _ => panic!("list should be an array"),
    }
}

#[test]
fn parse_json_empty_object() {
    let engine = Engine::new();
    assert_eq!(engine.parse_json(" {} ", false).unwrap().len(), 0);
}

#[test]
fn parse_json_escapes() {
    let engine = Engine::new();
    let map = engine
        .parse_json(r#"{"a": "\u0041\x42\U00000043\t\"", "b": '\u0024', "c": '\''}"#, false)
        .unwrap();
    match &get(&map, "a").value {
        Union::Str(s) => assert_eq!(s, "ABC\t\""),
        _ => panic!("a should be a string"),
    }
    assert_eq!(get(&map, "b").as_char(), Some('$'));
    assert_eq!(get(&map, "c").as_char(), Some('\''));
    assert!(is_parse_error(&engine.parse_json(r#"{"a": "\/"}"#, false)));
    assert!(is_parse_error(&engine.parse_json(r#"{"a": "\uD800"}"#, false)));
    assert!(is_parse_error(&engine.parse_json(r#"{"a": "\u00g1"}"#, false)));
    assert!(is_parse_error(&engine.parse_json(r#"{"a": "\'"}"#, false)));
}

#[test]
fn parse_json_integer_forms() {
    let engine = Engine::new();
    let map = engine
        .parse_json(
            r#"{"a": 0x10, "b": 0o17, "c": 0b101, "d": 1_000, "e": -0xFF, "f": 0xffff_ffff_ffff_ffff, "g": 0X1f, "h": 0x_a}"#,
            true,
        )
        .expect("integer forms should parse");
    assert_eq!(get(&map, "a").as_int(), Some(16));
    assert_eq!(get(&map, "b").as_int(), Some(15));
    assert_eq!(get(&map, "c").as_int(), Some(5));
    assert_eq!(get(&map, "d").as_int(), Some(1000));
    assert_eq!(get(&map, "e").as_int(), Some(-255));
    assert_eq!(get(&map, "f").as_int(), Some(-1));
    assert_eq!(get(&map, "g").as_int(), Some(31));
    assert_eq!(get(&map, "h").as_int(), Some(10));
    assert!(is_parse_error(&engine.parse_json(r#"{"a": 0x}"#, true)));
    assert!(is_parse_error(&engine.parse_json(r#"{"a": 0b2}"#, true)));
    assert!(is_parse_error(&engine.parse_json(r#"{"a": 0x1_0000_0000_0000_0000}"#, true)));
    assert!(is_parse_error(&engine.parse_json(r#"{"a": _1}"#, true)));
}
