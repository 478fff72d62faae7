use rhai_core::dynamic::{Dynamic, FnPtr, MapEntry, Union};
use rhai_core::engine::Engine;
use rhai_core::json::format_map_as_json;

fn entry(key: &str, value: Dynamic) -> MapEntry {
    MapEntry { key: key.to_string(), value }
}

fn map(entries: Vec<MapEntry>) -> Dynamic {
    Dynamic::from_union(Union::ObjectMap(entries))
}

#[test]
fn json_of_empty_map() {
    assert_eq!(format_map_as_json(&Vec::new()), "{}");
}

#[test]
fn json_of_scalars() {
    let m = vec![
        entry("a", Dynamic::from_int(123)),
        entry("b", Dynamic::from_bool(false)),
        entry("c", Dynamic::unit()),
        entry("d", Dynamic::from_string("hi \"there\"".to_string())),
        entry("e", Dynamic::from_char('$')),
        entry("f", Dynamic::from_int(-7)),
    ];
    assert_eq!(
        format_map_as_json(&m),
        r#"{"a":123,"b":false,"c":null,"d":"hi \"there\"","e":'$',"f":-7}"#
    );
}

#[test]
fn json_of_nested_values() {
    let inner = vec![entry("x", Dynamic::from_bool(true))];
    let m = vec![
        entry("arr", Dynamic::from_array(vec![Dynamic::from_int(1), Dynamic::from_int(2)])),
        entry("blob", Dynamic::from_blob(vec![0, 15, 255])),
        entry("obj", map(inner)),
        entry("empty", Dynamic::from_array(Vec::new())),
    ];
    assert_eq!(
        format_map_as_json(&m),
        r#"{"arr":[1,2],"blob":[0,15,255],"obj":{"x":true},"empty":[]}"#
    );
}

#[test]
fn json_of_function_pointers_and_ranges() {
    let plain = Dynamic::from_union(Union::FnPtr(Box::new(FnPtr { name: "f".to_string(), curry: Vec::new() })));
    let curried = Dynamic::from_union(Union::FnPtr(Box::new(FnPtr {
        name: "g".to_string(),
        curry: vec![Dynamic::from_int(1), Dynamic::unit()],
    })));
    let m = vec![
        entry("p", plain),
        entry("c", curried),
        entry("r", Dynamic::from_union(Union::Range(1, 5))),
        entry("ri", Dynamic::from_union(Union::RangeInclusive(-1, 3))),
    ];
    assert_eq!(format_map_as_json(&m), r#"{"p":"f","c":["g",1,null],"r":1..5,"ri":-1..=3}"#);
}

#[test]
fn json_escapes_keys() {
    let m = vec![entry("a\"b", Dynamic::from_int(1))];
    assert_eq!(format_map_as_json(&m), r#"{"a\"b":1}"#);
}

#[test]
fn as_string_gives_the_string_or_the_type_name() {
    assert_eq!(Dynamic::from_string("abc".to_string()).as_string(), Ok("abc".to_string()));
    assert_eq!(Dynamic::from_int(1).as_string(), Err("i64".to_string()));
    assert_eq!(Dynamic::from_bool(true).as_immutable_string(), Err("bool".to_string()));
    assert_eq!(Dynamic::from_string("x".to_string()).as_immutable_string(), Ok("x".to_string()));
}

#[test]
fn default_tag_can_be_changed_in_place() {
    let mut e = Engine::new();
    e.default_tag_mut().set_tag(5);
    *e.default_tag_mut() = Dynamic::from_int(9);
    assert!(matches!(e.default_tag().value, Union::Int(9)));
}
