use rhai_core::ast::{FnAccess, ScriptFuncDef};
use rhai_core::callable::{CallableFunction, IteratorFn, NativeFn};
use rhai_core::dynamic::{Dynamic, Union};
use rhai_core::module::{FnNamespace, Module};
use std::rc::Rc;

fn num(i: i64) -> Dynamic {
    Dynamic::from_int(i)
}

fn int_of(d: &Dynamic) -> i64 {
    match d.value {
        Union::Int(i) => i,
        _ => panic!("not an integer: {:?}", d),
    }
}

fn native(name: &str) -> CallableFunction {
    CallableFunction::Pure(NativeFn { name: name.to_string() }, false)
}

fn script_fn(name: &str, params: &[&str], access: FnAccess) -> ScriptFuncDef {
    ScriptFuncDef {
        name: name.to_string(),
        access,
        params: params.iter().map(|p| p.to_string()).collect(),
        body: Vec::new(),
        comments: Vec::new(),
    }
}

fn strings(v: &[&str]) -> Vec<String> {
    v.iter().map(|s| s.to_string()).collect()
}

#[test]
fn new_module_is_empty_and_indexed() {
    let m = Module::new();
    assert!(m.is_empty());
    assert!(m.is_indexed());
    assert!(!m.contains_indexed_global_functions());
    assert_eq!(m.id(), None);
    assert_eq!(m.doc(), "");
    assert_eq!(m.count(), (0, 0, 0));
}

#[test]
fn module_id_and_doc() {
    let mut m = Module::new();
    m.set_id("hello");
    assert_eq!(m.id(), Some("hello"));
    m.set_id("");
    assert_eq!(m.id(), None);
    m.set_id("hello");
    m.clear_id();
    assert_eq!(m.id(), None);
    m.set_doc("//! This is my special module.");
    assert_eq!(m.doc(), "//! This is my special module.");
    m.clear_doc();
    assert_eq!(m.doc(), "");
}

#[test]
fn module_variables() {
    let mut m = Module::new();
    m.set_var("answer", num(42));
    assert!(m.contains_var("answer"));
    assert!(!m.contains_var("question"));
    assert_eq!(int_of(&m.get_var("answer").expect("answer should exist")), 42);
    m.set_var("answer", num(7));
    assert_eq!(int_of(&m.get_var("answer").unwrap()), 7);
    assert_eq!(m.count().0, 1);
    assert!(m.get_var("question").is_none());
}

#[test]
fn variables_are_kept_in_name_order() {
    let mut m = Module::new();
    m.set_var("b", num(2));
    m.set_var("c", num(3));
    m.set_var("a", num(1));
    let names: Vec<&str> = m.iter_var().iter().map(|(k, _)| k.as_str()).collect();
    assert_eq!(names, vec!["a", "b", "c"]);
}

#[test]
fn indexed_module_indexes_new_variables() {
    let mut m = Module::new();
    assert!(m.is_indexed());
    m.set_var("x", num(1));
    assert_eq!(m.all_variables.as_ref().map(|v| v.len()), Some(1));
}

#[test]
fn module_sub_modules() {
    let mut m = Module::new();
    let sub = Module::new();
    m.set_sub_module("question", sub);
    assert!(m.contains_sub_module("question"));
    assert!(m.get_sub_module("question").is_some());
    assert!(m.get_sub_module("answer").is_none());
    assert!(!m.is_indexed());
}

#[test]
fn native_functions() {
    let mut m = Module::new();
    let hash = m.set_fn(
        "calc",
        FnNamespace::Internal,
        FnAccess::Public,
        None,
        &strings(&["i64", "String"]),
        native("calc"),
    );
    assert!(hash != 0);
    assert!(m.contains_fn(hash));
    assert!(!m.is_indexed());
    let f = m.iter_fn()[0];
    assert_eq!(f.metadata.num_params, 2);
    assert_eq!(f.metadata.param_types, strings(&["i64", "ImmutableString"]));
    assert!(m.get_fn(hash).is_some());
    let hash2 = m.set_fn(
        "calc",
        FnNamespace::Internal,
        FnAccess::Public,
        None,
        &strings(&["i64", "String"]),
        native("calc"),
    );
    assert_eq!(hash, hash2);
    assert_eq!(m.count().1, 1);
}

#[test]
fn method_keeps_its_first_parameter_type() {
    let mut m = Module::new();
    m.set_fn(
        "m",
        FnNamespace::Internal,
        FnAccess::Public,
        None,
        &strings(&["String", "&str"]),
        CallableFunction::Method(NativeFn { name: "m".to_string() }, false),
    );
    let f = m.iter_fn()[0];
    assert_eq!(f.metadata.param_types, strings(&["String", "ImmutableString"]));
}

#[test]
fn parameter_names_and_return_type() {
    let mut m = Module::new();
    let names = strings(&["x: i64", "y: i64", "bool"]);
    let hash = m.set_fn_with_comments(
        "cmp",
        FnNamespace::Internal,
        FnAccess::Public,
        Some(&names),
        &strings(&["i64", "i64"]),
        &strings(&["/// compares"]),
        native("cmp"),
    );
    let f = m.iter_fn()[0];
    assert_eq!(f.metadata.params_info, strings(&["x: i64", "y: i64"]));
    assert_eq!(f.metadata.return_type, "bool");
    assert_eq!(f.metadata.comments, strings(&["/// compares"]));
    assert_eq!(m.gen_fn_signatures(), vec!["cmp(x: i64, y: i64) -> bool".to_string()]);
    m.update_fn_metadata(hash, &strings(&["a: i64", "b: i64"]));
    let f = m.iter_fn()[0];
    assert_eq!(f.metadata.params_info, strings(&["a: i64", "b: i64"]));
    assert_eq!(f.metadata.return_type, "");
    m.update_fn_metadata_with_comments(hash, &strings(&["a: i64", "b: i64", "i64"]), &strings(&["/// new"]));
    let f = m.iter_fn()[0];
    assert_eq!(f.metadata.return_type, "i64");
    assert_eq!(f.metadata.comments, strings(&["/// new"]));
}

#[test]
fn namespace_update() {
    let mut m = Module::new();
    let hash = m.set_fn("f", FnNamespace::Internal, FnAccess::Public, None, &strings(&[]), native("f"));
    m.build_index();
    assert!(m.is_indexed());
    assert!(!m.contains_indexed_global_functions());
    m.update_fn_namespace(hash, FnNamespace::Global);
    assert!(!m.is_indexed());
    assert!(m.iter_fn()[0].metadata.namespace == FnNamespace::Global);
    m.build_index();
    assert!(m.contains_indexed_global_functions());
    assert!(m.contains_qualified_fn(hash));
}

#[test]
fn script_functions() {
    let mut m = Module::new();
    let hash = m.set_script_fn(Rc::new(script_fn("add", &["a", "b"], FnAccess::Public)));
    assert!(m.contains_fn(hash));
    let d = m.get_script_fn("add", 2).expect("add should exist");
    assert_eq!(d.name, "add");
    assert!(m.get_script_fn("add", 1).is_none());
    let infos = m.iter_script_fn_info();
    assert_eq!(infos.len(), 1);
    assert_eq!(infos[0].2, "add");
    assert_eq!(infos[0].3, 2);
    assert_eq!(m.gen_fn_signatures(), vec!["add(a, b)".to_string()]);
}

#[test]
fn private_functions_have_no_signature() {
    let mut m = Module::new();
    m.set_script_fn(Rc::new(script_fn("hidden", &[], FnAccess::Private)));
    assert!(m.gen_fn_signatures().is_empty());
}

#[test]
fn build_index_flattens_sub_modules() {
    let mut sub = Module::new();
    sub.set_var("x", num(1));
    sub.set_fn("g", FnNamespace::Global, FnAccess::Public, None, &strings(&[]), native("g"));
    sub.set_iter("Range", IteratorFn { iterated: "Range".to_string() });
    let mut m = Module::new();
    m.set_var("y", num(2));
    m.set_sub_module("sub", sub);
    assert!(!m.is_indexed());
    m.build_index();
    assert!(m.is_indexed());
    assert!(m.contains_indexed_global_functions());
    assert_eq!(m.all_variables.as_ref().map(|v| v.len()), Some(2));
    assert!(m.contains_qualified_iter("Range"));
    assert!(!m.contains_iter("Range"));
    // a global function is indexed twice: under its own hash and under its qualified hash
    assert_eq!(m.all_functions.as_ref().map(|v| v.len()), Some(2));
}

#[test]
fn build_index_of_empty_tree_leaves_no_index() {
    let mut m = Module::new();
    m.set_sub_module("empty", Module::new());
    m.build_index();
    assert!(m.is_indexed());
    assert!(m.all_variables.is_none());
    assert!(m.all_functions.is_none());
    assert!(!m.contains_indexed_global_functions());
}

#[test]
fn indexed_module_is_left_alone() {
    let mut m = Module::new();
    m.build_index();
    assert!(m.all_variables.is_none());
    assert!(m.is_indexed());
}

#[test]
fn type_iterators() {
    let mut m = Module::new();
    m.set_iterable("Vec");
    assert!(m.contains_iter("Vec"));
    assert!(m.contains_qualified_iter("Vec"));
    assert_eq!(m.get_iter("Vec").map(|f| f.iterated.as_str()), Some("Vec"));
    m.set_sub_module("s", Module::new());
    m.set_iterator("Iter");
    assert!(m.contains_iter("Iter"));
    assert!(!m.contains_qualified_iter("Iter"));
}

#[test]
fn custom_types_of_a_module() {
    let mut m = Module::new();
    m.set_custom_type_raw("my::TestStruct", "MyType");
    assert_eq!(m.get_custom_type_display_by_name("my::TestStruct"), Some("MyType"));
    assert_eq!(m.get_custom_type_display("my::TestStruct"), Some("MyType"));
    assert!(m.get_custom_type_display_by_name("Other").is_none());
    m.set_custom_type_with_comments("my::TestStruct", "Renamed", &strings(&["/// doc"]));
    let info = m.get_custom_type_raw("my::TestStruct").unwrap();
    assert_eq!(info.display_name, "Renamed");
    assert_eq!(info.comments, strings(&["/// doc"]));
}

#[test]
fn combine_prefers_the_other_module() {
    let mut a = Module::new();
    a.set_var("x", num(1));
    a.set_var("y", num(2));
    a.set_doc("A");
    let mut b = Module::new();
    b.set_var("y", num(20));
    b.set_var("z", num(30));
    b.set_doc("B");
    a.combine(b);
    assert_eq!(int_of(&a.get_var("x").unwrap()), 1);
    assert_eq!(int_of(&a.get_var("y").unwrap()), 20);
    assert_eq!(int_of(&a.get_var("z").unwrap()), 30);
    assert_eq!(a.doc(), "A\nB");
    assert!(!a.is_indexed());
}

#[test]
fn fill_with_keeps_existing_items() {
    let mut a = Module::new();
    a.set_var("y", num(2));
    let mut b = Module::new();
    b.set_var("y", num(20));
    b.set_var("z", num(30));
    b.set_fn("f", FnNamespace::Internal, FnAccess::Public, None, &strings(&[]), native("f"));
    a.fill_with(&b);
    assert_eq!(int_of(&a.get_var("y").unwrap()), 2);
    assert_eq!(int_of(&a.get_var("z").unwrap()), 30);
    assert_eq!(a.count().1, 1);
    assert_eq!(a.doc(), "");
}

#[test]
fn merge_copies_sub_modules() {
    let mut sub = Module::new();
    sub.set_var("v", num(5));
    sub.set_id("sub-id");
    let mut b = Module::new();
    b.set_var("y", num(20));
    b.set_sub_module("s", sub);
    let mut a = Module::new();
    a.set_var("y", num(2));
    a.merge(&b);
    assert_eq!(int_of(&a.get_var("y").unwrap()), 20);
    let s = a.get_sub_module("s").expect("merged sub-module");
    assert_eq!(int_of(&s.get_var("v").unwrap()), 5);
    assert_eq!(s.id(), None);
}

#[test]
fn clear_empties_the_module() {
    let mut m = Module::new();
    m.set_id("keep");
    m.set_var("x", num(1));
    m.set_doc("doc");
    m.clear();
    assert!(m.is_empty());
    assert_eq!(m.id(), Some("keep"));
    assert_eq!(m.doc(), "");
    assert!(!m.is_indexed());
}

#[test]
fn qualified_variable_lookup() {
    let mut m = Module::new();
    m.set_var("x", num(3));
    let hash = m.all_variables.as_ref().unwrap()[0].0;
    assert_eq!(int_of(&m.get_qualified_var(hash).unwrap()), 3);
    assert!(m.get_qualified_var(hash ^ 1).is_none());
}

#[test]
fn combine_flatten_lets_higher_levels_override() {
    let mut deep = Module::new();
    deep.set_var("x", num(1));
    deep.set_var("only_deep", num(9));
    deep.set_doc("deep");
    let mut other = Module::new();
    other.set_var("x", num(2));
    other.set_sub_module("d", deep);
    other.set_doc("top");
    let mut m = Module::new();
    m.set_var("x", num(0));
    m.set_var("mine", num(5));
    m.combine_flatten(other);
    assert_eq!(int_of(&m.get_var("x").unwrap()), 2);
    assert_eq!(int_of(&m.get_var("only_deep").unwrap()), 9);
    assert_eq!(int_of(&m.get_var("mine").unwrap()), 5);
    assert!(!m.contains_sub_module("d"));
    assert_eq!(m.doc(), "deep\ntop");
}

#[test]
fn later_sub_modules_override_earlier_when_flattened() {
    let mut a = Module::new();
    a.set_var("v", num(1));
    let mut b = Module::new();
    b.set_var("v", num(2));
    let mut other = Module::new();
    other.set_sub_module("a", a);
    other.set_sub_module("b", b);
    let mut m = Module::new();
    m.combine_flatten(other);
    assert_eq!(int_of(&m.get_var("v").unwrap()), 2);
}
