use rhai_core::arith::{int_arith_exec, ArithOp};
use rhai_core::ast::{FnAccess, ScriptFuncDef};
use rhai_core::config::{get_ahash_seed, set_ahash_seed, set_rhai_ahash_seed, hokmalock_index, HokmaLock, SusLock};
use rhai_core::dynamic::{Dynamic, Union};
use rhai_core::engine::{add_sizes, Engine, GlobalRuntimeState, SymbolClass};
use rhai_core::error::EvalAltResult;
use rhai_core::hashing::{calc_fn_hash, calc_var_hash, combine_hashes, non_zero_hash, ALT_ZERO_HASH};
use rhai_core::hashing::{fn_hash_items, full_hash_items, params_hash_items, var_hash_items, HashItem};
use rhai_core::keyed::{contains_key, find_key, get_key, put};
use rhai_core::lang_core::{get_fn_metadata, get_fn_metadata2, get_fn_metadata_list, get_tag, set_tag};
use rhai_core::position::Position;
use rhai_core::scope::Scope;
use rhai_core::text::{chars_order, int_to_string};
use rhai_core::token::Token;
use rhai_core::types::CustomTypesCollection;
use rhai_core::var_def::VarDefInfo;

fn int_of(d: &Dynamic) -> i64 {
    match d.value {
        Union::Int(i) => i,
        _ => panic!("not an integer: {:?}", d),
    }
}

fn script_fn(name: &str, params: &[&str], access: FnAccess) -> ScriptFuncDef {
    ScriptFuncDef {
        name: name.to_string(),
        access,
        params: params.iter().map(|p| p.to_string()).collect(),
        body: Vec::new(),
        comments: Vec::new(),
    }
}

#[test]
fn tags_in_and_out_of_range() {
    let mut v = Dynamic::from_int(1);
    assert_eq!(get_tag(&v), 0);
    assert!(set_tag(&mut v, 42).is_ok());
    assert_eq!(get_tag(&v), 42);
    match *set_tag(&mut v, 3_000_000_000).unwrap_err() {
        EvalAltResult::ErrorArithmetic(msg, _) => assert_eq!(
            msg,
            "3000000000 is too large to fit into a tag (must be between -2147483648 and 2147483647)"
        ),
        e => panic!("unexpected error {:?}", e),
    }
    match *set_tag(&mut v, -3_000_000_000).unwrap_err() {
        EvalAltResult::ErrorArithmetic(msg, _) => assert_eq!(
            msg,
            "-3000000000 is too small to fit into a tag (must be between -2147483648 and 2147483647)"
        ),
        e => panic!("unexpected error {:?}", e),
    }
    assert_eq!(get_tag(&v), 42);
}

#[test]
fn function_metadata_filters() {
    let lib = vec![
        script_fn("foo", &["x"], FnAccess::Public),
        script_fn("foo", &["x", "y"], FnAccess::Private),
        script_fn("bar", &[], FnAccess::Public),
    ];
    assert_eq!(get_fn_metadata_list(&lib).len(), 3);
    assert_eq!(get_fn_metadata(&lib, "foo").len(), 2);
    assert_eq!(get_fn_metadata2(&lib, "foo", 2).len(), 1);
    assert_eq!(get_fn_metadata2(&lib, "foo", -1).len(), 0);
    assert_eq!(get_fn_metadata(&lib, "baz").len(), 0);
}

#[test]
fn scope_push_search_and_rewind() {
    let mut s = Scope::new();
    assert!(s.is_empty());
    s.push("x", Dynamic::from_int(1));
    s.push_constant("y", Dynamic::from_int(2));
    s.push("x", Dynamic::from_int(3));
    assert_eq!(s.len(), 3);
    assert_eq!(s.search("x"), Some(2));
    assert!(s.is_constant_at(1));
    assert_eq!(int_of(&s.get_value("x").unwrap()), 3);
    s.set_value_at(0, Dynamic::from_int(10));
    assert_eq!(int_of(s.get_value_at(0)), 10);
    s.rewind(1);
    assert_eq!(s.len(), 1);
    assert_eq!(int_of(&s.get_value("x").unwrap()), 10);
    assert!(!s.contains("y"));
}

#[test]
fn engine_limits_and_symbols() {
    let mut e = Engine::new();
    assert!(!e.has_data_size_limit());
    e.set_max_array_size(10);
    assert!(e.has_data_size_limit());
    e.set_max_operations(5);
    assert_eq!(e.max_operations(), 5);
    e.disable_symbol("if");
    assert!(e.is_symbol_disabled("if"));
    assert!(!e.is_symbol_disabled("while"));
    e.set_allow_shadowing(false);
    assert!(!e.allow_shadowing());
    e.set_fast_operators(false);
    assert!(!e.fast_operators());
    e.set_max_strings_interned(0);
    assert_eq!(e.max_strings_interned(), 0);
    e.set_max_strings_interned(10);
    assert_eq!(e.max_strings_interned(), 10);
    assert_eq!(add_sizes(usize::MAX, 1), usize::MAX);
    assert_eq!(add_sizes(2, 3), 5);
}

#[test]
fn operations_are_counted_up_to_the_limit() {
    let mut e = Engine::new();
    e.set_max_operations(2);
    let mut g = GlobalRuntimeState::new(&e);
    assert!(e.track_operation(&mut g, Position::none()).is_ok());
    assert!(e.track_operation(&mut g, Position::none()).is_ok());
    assert!(matches!(
        *e.track_operation(&mut g, Position::none()).unwrap_err(),
        EvalAltResult::ErrorTooManyOperations(_)
    ));
    assert_eq!(g.num_operations, 3);
}

#[test]
fn data_size_limit_errors() {
    let mut e = Engine::new();
    e.set_max_string_size(3);
    assert!(e.check_data_size(&Dynamic::from_string("abc".to_string()), Position::none()).is_ok());
    assert!(matches!(
        *e.check_data_size(&Dynamic::from_string("abcd".to_string()), Position::none()).unwrap_err(),
        EvalAltResult::ErrorDataTooLarge(..)
    ));
}

#[test]
fn custom_types_are_kept_in_key_order() {
    let mut c = CustomTypesCollection::new();
    c.add("b::B", "B");
    c.add("a::A", "A");
    c.add_with_comments("c::C", "C", &vec!["/// c".to_string()]);
    let keys: Vec<&str> = c.iter().iter().map(|(k, _)| k.as_str()).collect();
    assert_eq!(keys, vec!["a::A", "b::B", "c::C"]);
    assert_eq!(c.get("b::B").map(|t| t.display_name()), Some("B"));
    c.add("b::B", "Bee");
    assert_eq!(c.get("b::B").map(|t| t.display_name()), Some("Bee"));
    assert_eq!(c.get("c::C").unwrap().iter_comments(), vec!["/// c"]);
    assert!(c.get("d::D").is_none());
    c.clear();
    assert!(c.iter().is_empty());
}

#[test]
fn keyed_entries_behave_as_a_sorted_map() {
    let mut v: Vec<(String, i64)> = Vec::new();
    put(&mut v, "b".to_string(), 2);
    put(&mut v, "a".to_string(), 1);
    put(&mut v, "b".to_string(), 20);
    assert_eq!(v, vec![("a".to_string(), 1), ("b".to_string(), 20)]);
    assert!(contains_key(&v, "a"));
    assert_eq!(get_key(&v, "b"), Some(&20));
    assert_eq!(find_key(&v, "c"), Err(2));
    assert_eq!(find_key(&v, "a"), Ok(0));
}

#[test]
fn variable_definition_info() {
    let d = VarDefInfo::new("x", true, 0, false);
    assert_eq!(d.name(), "x");
    assert!(d.is_const());
    assert!(d.is_global_level());
    assert!(!d.will_shadow_other_variables());
    let d = VarDefInfo::new("y", false, 2, true);
    assert!(!d.is_global_level());
    assert_eq!(d.nesting_level(), 2);
}

#[test]
fn hashes_are_never_zero() {
    assert_eq!(non_zero_hash(0), ALT_ZERO_HASH);
    assert_eq!(non_zero_hash(7), 7);
    assert_eq!(combine_hashes(5, 5), ALT_ZERO_HASH);
    assert_eq!(combine_hashes(1, 2), 3);
    assert_eq!(combine_hashes(1, 2), combine_hashes(2, 1));
    let root = vec![String::new()];
    let a = calc_var_hash(&root, "x");
    assert_ne!(a, 0);
    assert_eq!(a, calc_var_hash(&root, "x"));
    assert_ne!(calc_fn_hash(&Vec::new(), "f", 1), 0);
}

#[test]
fn write_once_cells_and_locks() {
    let mut cell: SusLock<Option<[u64; 4]>> = SusLock::new();
    assert_eq!(cell.get(), None);
    assert_eq!(set_ahash_seed(&mut cell, Some([1, 2, 3, 4])), Ok(()));
    assert_eq!(set_ahash_seed(&mut cell, Some([5, 6, 7, 8])), Err(Some([1, 2, 3, 4])));
    assert_eq!(get_ahash_seed(&mut cell), Some([1, 2, 3, 4]));
    let mut empty: SusLock<Option<[u64; 4]>> = SusLock::new();
    assert_eq!(get_ahash_seed(&mut empty), None);
    assert_eq!(set_ahash_seed(&mut empty, Some([9, 9, 9, 9])), Err(None));
    let mut lock = HokmaLock::new();
    let guard = lock.write();
    assert_eq!(lock.lock, 1);
    guard.release(&mut lock);
    assert_eq!(lock.lock, 2);
    let guard = lock.write();
    guard.the_price_of_silence(&mut lock);
    assert_eq!(lock.lock, 2);
    assert_eq!(hokmalock_index(787 * 3 + 5), 5);
}

#[test]
fn integer_arithmetic_and_text() {
    assert_eq!(int_arith_exec(ArithOp::Add, 2, 3).unwrap(), 5);
    assert_eq!(int_arith_exec(ArithOp::Pow, 2, 10).unwrap(), 1024);
    assert!(int_arith_exec(ArithOp::Div, 1, 0).is_err());
    assert_eq!(int_to_string(-120), "-120");
    assert_eq!(int_to_string(i64::MIN), "-9223372036854775808");
    assert_eq!(chars_order(&vec!['a'], &vec!['b']), -1);
    assert_eq!(chars_order(&vec!['b'], &vec!['b']), 0);
    assert_eq!(Token::PlusAssign.literal_syntax(), "+=");
    assert!(matches!(Token::PlusAssign.get_base_op_from_assignment(), Some(Token::Plus)));
    assert!(Token::Plus.get_base_op_from_assignment().is_none());
}

#[test]
fn set_rhai_ahash_seed_is_set_once() {
    let mut cell = SusLock::new();
    assert_eq!(set_rhai_ahash_seed(&mut cell, None), Ok(()));
    assert_eq!(set_rhai_ahash_seed(&mut cell, Some([1, 2, 3, 4])), Err(None));
    assert_eq!(get_ahash_seed(&mut cell), None);
}

fn names(v: &[&str]) -> Vec<String> {
    v.iter().map(|s| s.to_string()).collect()
}

#[test]
fn hashes_skip_the_first_module_and_count_the_modules() {
    let t = |s: &str| HashItem::Text(s.to_string());
    assert_eq!(
        var_hash_items(&names(&["a", "b", "c"]), "x"),
        vec![t("b"), t("c"), HashItem::Count(3), t("x")]
    );
    assert_eq!(var_hash_items(&names(&[]), "x"), vec![HashItem::Count(0), t("x")]);
    assert_eq!(
        fn_hash_items(&names(&["m"]), "f", 2),
        vec![HashItem::Count(1), t("f"), HashItem::Count(2)]
    );
    assert_eq!(params_hash_items(&names(&["i64", "bool"])), vec![t("i64"), t("bool"), HashItem::Count(2)]);
    assert_eq!(
        full_hash_items(7, &names(&["char"])),
        vec![HashItem::Word(7), t("char"), HashItem::Count(1)]
    );
    assert_eq!(calc_var_hash(&names(&["a", "m"]), "x"), calc_var_hash(&names(&["z", "m"]), "x"));
    assert_eq!(calc_fn_hash(&names(&["a"]), "f", 1), calc_fn_hash(&names(&["b"]), "f", 1));
}

#[test]
fn custom_operators_are_registered_or_refused() {
    let mut e = Engine::new();
    assert!(e.register_custom_operator("#", 160, SymbolClass::NotStandard).is_ok());
    assert_eq!(e.custom_keywords.len(), 1);
    assert_eq!(e.custom_keywords[0].name, "#");
    assert_eq!(e.custom_keywords[0].precedence, 160);
    assert!(e.register_custom_operator("#", 20, SymbolClass::NotStandard).is_ok());
    assert_eq!(e.custom_keywords.len(), 1);
    assert_eq!(e.custom_keywords[0].precedence, 20);
    assert!(e.register_custom_operator("foo", 100, SymbolClass::NotStandard).is_ok());
    assert_eq!(e.custom_keywords.len(), 2);
    assert_eq!(
        e.register_custom_operator("#", 0, SymbolClass::NotStandard).unwrap_err(),
        "precedence cannot be zero"
    );
    assert_eq!(
        e.register_custom_operator("let", 10, SymbolClass::StandardKeyword).unwrap_err(),
        "'let' is a reserved keyword"
    );
    assert_eq!(
        e.register_custom_operator("+", 10, SymbolClass::StandardSymbol).unwrap_err(),
        "'+' is a reserved operator"
    );
    assert_eq!(
        e.register_custom_operator(";", 10, SymbolClass::OtherSymbol).unwrap_err(),
        "';' is a reserved symbol"
    );
    assert_eq!(e.custom_keywords.len(), 2);
    e.disable_symbol("+");
    assert!(e.register_custom_operator("+", 10, SymbolClass::StandardSymbol).is_ok());
    assert_eq!(e.custom_keywords.len(), 3);
}
