use vstd::prelude::*;
use crate::dynamic::{
    Dynamic, DynV, Union, Value, MapEntry, dyn_view, dyns_view, entries_view, lemma_dyns_view,
    lemma_entries_view,
};
use crate::text::{int_str, nat_str, push_int_str, push_nat_str, string_push};

verus! {

broadcast use vstd::std_specs::vec::group_vec_axioms;

/// What `{:?}` writes for a string slice (the text quoted, with escapes).
pub uninterp spec fn debug_text_of_str(s: Seq<char>) -> Seq<char>;

/// What `{:?}` writes for a character (the character quoted, with escapes).
pub uninterp spec fn debug_text_of_char(c: char) -> Seq<char>;

/// The `Debug` rendering of a string slice, from `core::fmt`.
/// Its text is named by [`debug_text_of_str`]; it depends on the characters alone.
#[verifier::external_body]
fn debug_str(s: &str) -> (r: String)
    ensures
        r@ == debug_text_of_str(s@),
{
    format!("{:?}", s)
}

/// The `Debug` rendering of a character, from `core::fmt`.
/// Its text is named by [`debug_text_of_char`]; it depends on the character alone.
#[verifier::external_body]
fn debug_char(c: char) -> (r: String)
    ensures
        r@ == debug_text_of_char(c),
{
    format!("{:?}", c)
}

/// JSON text of a value.
pub open spec fn json_of_value(v: DynV) -> Seq<char>
    decreases v, 1nat,
{
    match v.value {
        Value::Unit => "null"@,
        Value::Null => "null"@,
        Value::Bool(b) => if b { "true"@ } else { "false"@ },
        Value::Str(s) => debug_text_of_str(s),
        Value::Char(c) => debug_text_of_char(c),
        Value::Int(i) => int_str(i as int),
        Value::Array(items) => seq!['['] + json_of_items(items) + seq![']'],
        Value::Blob(bytes) => seq!['['] + json_of_bytes(bytes) + seq![']'],
        Value::ObjectMap(entries) => json_of_map(entries),
        Value::FnPtr(name, curry) => if curry.len() > 0 {
            seq!['['] + debug_text_of_str(name) + json_of_curry(curry) + seq![']']
        } else {
            debug_text_of_str(name)
        },
        Value::Range(a, b) => int_str(a as int) + ".."@ + int_str(b as int),
        Value::RangeInclusive(a, b) => int_str(a as int) + "..="@ + int_str(b as int),
        Value::Variant(name) => name,
    }
}

/// JSON texts of values, separated by commas.
pub open spec fn json_of_items(items: Seq<DynV>) -> Seq<char>
    decreases items, 0nat,
{
    if items.len() == 0 {
        Seq::empty()
    } else {
        let front = items.drop_last();
        json_of_items(front) + (if front.len() > 0 { seq![','] } else { Seq::empty() })
            + json_of_value(items.last())
    }
}

/// JSON texts of curried arguments, each preceded by a comma.
pub open spec fn json_of_curry(items: Seq<DynV>) -> Seq<char>
    decreases items, 0nat,
{
    if items.len() == 0 {
        Seq::empty()
    } else {
        json_of_curry(items.drop_last()) + seq![','] + json_of_value(items.last())
    }
}

/// Decimal texts of bytes, separated by commas.
pub open spec fn json_of_bytes(bytes: Seq<u8>) -> Seq<char>
    decreases bytes.len(),
{
    if bytes.len() == 0 {
        Seq::empty()
    } else {
        let front = bytes.drop_last();
        json_of_bytes(front) + (if front.len() > 0 { seq![','] } else { Seq::empty() })
            + nat_str(bytes.last() as nat)
    }
}

/// JSON texts of properties (`"key":value`), separated by commas.
pub open spec fn json_of_entries(entries: Seq<(Seq<char>, DynV)>) -> Seq<char>
    decreases entries, 0nat,
{
    if entries.len() == 0 {
        Seq::empty()
    } else {
        let front = entries.drop_last();
        json_of_entries(front) + (if front.len() > 0 { seq![','] } else { Seq::empty() })
            + debug_text_of_str(entries.last().0) + seq![':'] + json_of_value(entries.last().1)
    }
}

/// JSON text of an object map.
pub open spec fn json_of_map(entries: Seq<(Seq<char>, DynV)>) -> Seq<char>
    decreases entries, 1nat,
{
    seq!['{'] + json_of_entries(entries) + seq!['}']
}

/// Texts joined with one comma between every two neighbours.
pub open spec fn comma_join(parts: Seq<Seq<char>>) -> Seq<char>
    decreases parts.len(),
{
    if parts.len() == 0 {
        Seq::empty()
    } else if parts.len() == 1 {
        parts[0]
    } else {
        parts[0] + seq![','] + comma_join(parts.drop_first())
    }
}

/// Joining one more text adds a comma and the text at the end.
proof fn lemma_comma_join_push(parts: Seq<Seq<char>>, p: Seq<char>)
    requires
        parts.len() > 0,
    ensures
        comma_join(parts.push(p)) == comma_join(parts) + seq![','] + p,
    decreases parts.len(),
{
    if parts.len() == 1 {
        assert(parts.push(p).drop_first() =~= seq![p]);
        assert(comma_join(seq![p]) == p);
        assert(parts.push(p)[0] == parts[0]);
        assert(comma_join(parts.push(p)) =~= comma_join(parts) + seq![','] + p);
    } else {
        assert(parts.push(p).drop_first() =~= parts.drop_first().push(p));
        lemma_comma_join_push(parts.drop_first(), p);
        assert(comma_join(parts.push(p)) =~= comma_join(parts) + seq![','] + p);
    }
}

/// The JSON texts of values.
pub open spec fn item_texts(items: Seq<DynV>) -> Seq<Seq<char>> {
    Seq::new(items.len(), |i: int| json_of_value(items[i]))
}

/// The JSON texts of properties: each key quoted, a colon, and the value.
pub open spec fn entry_texts(entries: Seq<(Seq<char>, DynV)>) -> Seq<Seq<char>> {
    Seq::new(entries.len(), |i: int| debug_text_of_str(entries[i].0) + seq![':'] + json_of_value(entries[i].1))
}

/// The decimal texts of bytes.
pub open spec fn byte_texts(bytes: Seq<u8>) -> Seq<Seq<char>> {
    Seq::new(bytes.len(), |i: int| nat_str(bytes[i] as nat))
}

/// The items of an array are written one after the other with one comma between every two.
pub proof fn lemma_json_items_joined(items: Seq<DynV>)
    ensures
        json_of_items(items) == comma_join(item_texts(items)),
    decreases items.len(),
{
    if items.len() > 0 {
        let front = items.drop_last();
        lemma_json_items_joined(front);
        assert(item_texts(items) =~= item_texts(front).push(json_of_value(items.last())));
        if front.len() > 0 {
            lemma_comma_join_push(item_texts(front), json_of_value(items.last()));
        } else {
            assert(item_texts(items) =~= seq![json_of_value(items.last())]);
            assert(json_of_items(front) =~= Seq::empty());
            assert(json_of_items(items) =~= json_of_value(items.last()));
        }
    }
}

/// The properties of a map are written one after the other with one comma between every two.
pub proof fn lemma_json_entries_joined(entries: Seq<(Seq<char>, DynV)>)
    ensures
        json_of_entries(entries) == comma_join(entry_texts(entries)),
    decreases entries.len(),
{
    if entries.len() > 0 {
        let front = entries.drop_last();
        let last = entries.last();
        let t = debug_text_of_str(last.0) + seq![':'] + json_of_value(last.1);
        lemma_json_entries_joined(front);
        assert(entry_texts(entries) =~= entry_texts(front).push(t));
        if front.len() > 0 {
            lemma_comma_join_push(entry_texts(front), t);
            assert(json_of_entries(entries) =~= json_of_entries(front) + seq![','] + t);
        } else {
            assert(entry_texts(entries) =~= seq![t]);
            assert(json_of_entries(front) =~= Seq::empty());
            assert(json_of_entries(entries) =~= t);
        }
    }
}

/// The bytes of a BLOB are written one after the other with one comma between every two.
pub proof fn lemma_json_bytes_joined(bytes: Seq<u8>)
    ensures
        json_of_bytes(bytes) == comma_join(byte_texts(bytes)),
    decreases bytes.len(),
{
    if bytes.len() > 0 {
        let front = bytes.drop_last();
        lemma_json_bytes_joined(front);
        assert(byte_texts(bytes) =~= byte_texts(front).push(nat_str(bytes.last() as nat)));
        if front.len() > 0 {
            lemma_comma_join_push(byte_texts(front), nat_str(bytes.last() as nat));
        } else {
            assert(byte_texts(bytes) =~= seq![nat_str(bytes.last() as nat)]);
            assert(json_of_bytes(front) =~= Seq::empty());
            assert(json_of_bytes(bytes) =~= nat_str(bytes.last() as nat));
        }
    }
}

/// The JSON of an array is `[`, the JSON texts of its items with one comma between every two,
/// and `]`; that of a BLOB the same with the decimal texts of its bytes; that of an object
/// map is `{`, its properties (`"key":value`) with one comma between every two, and `}`.
pub proof fn lemma_json_lists(v: DynV)
    ensures
        v.value matches Value::Array(items) ==> json_of_value(v) == seq!['['] + comma_join(item_texts(items)) + seq![']'],
        v.value matches Value::Blob(bytes) ==> json_of_value(v) == seq!['['] + comma_join(byte_texts(bytes)) + seq![']'],
        v.value matches Value::ObjectMap(entries) ==> json_of_value(v) == seq!['{'] + comma_join(entry_texts(entries)) + seq!['}'],
{
    match v.value {
        Value::Array(items) => lemma_json_items_joined(items),
        Value::Blob(bytes) => lemma_json_bytes_joined(bytes),
        Value::ObjectMap(entries) => lemma_json_entries_joined(entries),
        _ => {},
    }
}

/// The JSON of a map given to `format_map_as_json` is `{`, its properties (`"key":value`) with
/// one comma between every two, and `}`.
pub proof fn lemma_json_map_joined(entries: Seq<(Seq<char>, DynV)>)
    ensures
        json_of_map(entries) == seq!['{'] + comma_join(entry_texts(entries)) + seq!['}'],
{
    lemma_json_entries_joined(entries);
}

/// Return the JSON representation of an object map.
///
/// Units are written as `null`; strings, characters and property names as their quoted
/// `Debug` forms; integers in decimal; arrays and byte arrays as JSON arrays; curried
/// function pointers as an array of the function name followed by the curried arguments.
pub fn format_map_as_json(map: &Vec<MapEntry>) -> (r: String)
    ensures
        r@ == json_of_map(entries_view(map@)),
    decreases map, 2nat,
{
    let mut result = String::new();
    string_push(&mut result, '{');
    push_json_entries(&mut result, map);
    string_push(&mut result, '}');
    proof {
        let es = json_of_entries(entries_view(map@));
        assert(result@ =~= seq!['{'] + es + seq!['}']);
    }
    result
}

/// Append the JSON texts of the properties of `map`.
fn push_json_entries(result: &mut String, map: &Vec<MapEntry>)
    ensures
        final(result)@ == old(result)@ + json_of_entries(entries_view(map@)),
    decreases map, 1nat,
{
    let ghost start = result@;
    let ghost es = entries_view(map@);
    proof {
        lemma_entries_view(map@);
        assert(es.take(0) =~= Seq::<(Seq<char>, DynV)>::empty());
    }
    let mut i: usize = 0;
    while i < map.len()
        invariant
            i <= map.len(),
            es == entries_view(map@),
            es.len() == map@.len(),
            forall|j: int| 0 <= j < map@.len() ==> #[trigger] es[j] == (map@[j].key@, dyn_view(map@[j].value)),
            result@ == start + json_of_entries(es.take(i as int)),
        decreases map.len() - i,
    {
        if i > 0 {
            string_push(result, ',');
        }
        let k = debug_str(map[i].key.as_str());
        result.append(k.as_str());
        string_push(result, ':');
        proof {
            assert(decreases_to!(*map => map[i as int]));
            assert(decreases_to!(map[i as int] => map[i as int].value));
        }
        format_dynamic_as_json(result, &map[i].value);
        proof {
            let t = es.take(i + 1);
            assert(t.drop_last() =~= es.take(i as int));
            assert(t.last() == es[i as int]);
        }
        i += 1;
    }
    proof {
        assert(es.take(map.len() as int) =~= es);
    }
}

/// Append the JSON texts of `items`, separated by commas.
fn push_json_items(result: &mut String, items: &Vec<Dynamic>)
    ensures
        final(result)@ == old(result)@ + json_of_items(dyns_view(items@)),
    decreases items, 1nat,
{
    let ghost start = result@;
    let ghost vs = dyns_view(items@);
    proof {
        lemma_dyns_view(items@);
        assert(vs.take(0) =~= Seq::<DynV>::empty());
    }
    let mut i: usize = 0;
    while i < items.len()
        invariant
            i <= items.len(),
            vs == dyns_view(items@),
            vs.len() == items@.len(),
            forall|j: int| 0 <= j < items@.len() ==> #[trigger] vs[j] == dyn_view(items@[j]),
            result@ == start + json_of_items(vs.take(i as int)),
        decreases items.len() - i,
    {
        if i > 0 {
            string_push(result, ',');
        }
        proof {
            assert(decreases_to!(*items => items[i as int]));
        }
        format_dynamic_as_json(result, &items[i]);
        proof {
            let t = vs.take(i + 1);
            assert(t.drop_last() =~= vs.take(i as int));
            assert(t.last() == vs[i as int]);
        }
        i += 1;
    }
    proof {
        assert(vs.take(items.len() as int) =~= vs);
    }
}

/// Append the JSON texts of curried arguments, each preceded by a comma.
fn push_json_curry(result: &mut String, items: &Vec<Dynamic>)
    ensures
        final(result)@ == old(result)@ + json_of_curry(dyns_view(items@)),
    decreases items, 1nat,
{
    let ghost start = result@;
    let ghost vs = dyns_view(items@);
    proof {
        lemma_dyns_view(items@);
        assert(vs.take(0) =~= Seq::<DynV>::empty());
    }
    let mut i: usize = 0;
    while i < items.len()
        invariant
            i <= items.len(),
            vs == dyns_view(items@),
            vs.len() == items@.len(),
            forall|j: int| 0 <= j < items@.len() ==> #[trigger] vs[j] == dyn_view(items@[j]),
            result@ == start + json_of_curry(vs.take(i as int)),
        decreases items.len() - i,
    {
        string_push(result, ',');
        proof {
            assert(decreases_to!(*items => items[i as int]));
        }
        format_dynamic_as_json(result, &items[i]);
        proof {
            let t = vs.take(i + 1);
            assert(t.drop_last() =~= vs.take(i as int));
            assert(t.last() == vs[i as int]);
        }
        i += 1;
    }
    proof {
        assert(vs.take(items.len() as int) =~= vs);
    }
}

/// Append the decimal texts of `bytes`, separated by commas.
fn push_json_bytes(result: &mut String, bytes: &Vec<u8>)
    ensures
        final(result)@ == old(result)@ + json_of_bytes(bytes@),
{
    let ghost start = result@;
    proof {
        assert(bytes@.take(0) =~= Seq::<u8>::empty());
    }
    let mut i: usize = 0;
    while i < bytes.len()
        invariant
            i <= bytes.len(),
            result@ == start + json_of_bytes(bytes@.take(i as int)),
        decreases bytes.len() - i,
    {
        if i > 0 {
            string_push(result, ',');
        }
        push_nat_str(result, bytes[i] as u64);
        proof {
            let t = bytes@.take(i + 1);
            assert(t.drop_last() =~= bytes@.take(i as int));
            assert(t.last() == bytes@[i as int]);
        }
        i += 1;
    }
    proof {
        assert(bytes@.take(bytes.len() as int) =~= bytes@);
    }
}

/// Append the JSON text of a value.
fn format_dynamic_as_json(result: &mut String, value: &Dynamic)
    ensures
        final(result)@ == old(result)@ + json_of_value(value@),
    decreases value, 0nat,
{
    match &value.value {
        Union::Unit | Union::Null => result.append("null"),
        Union::Bool(b) => if *b {
            result.append("true")
        } else {
            result.append("false")
        },
        Union::Str(s) => {
            let t = debug_str(s.as_str());
            result.append(t.as_str());
        },
        Union::Char(c) => {
            let t = debug_char(*c);
            result.append(t.as_str());
        },
        Union::Int(i) => push_int_str(result, *i),
        Union::Array(a) => {
            proof {
                assert(decreases_to!(*value => value.value));
                assert(decreases_to!(value.value => value.value->Array_0));
            }
            string_push(result, '[');
            push_json_items(result, a);
            string_push(result, ']');
        },
        Union::Blob(b) => {
            string_push(result, '[');
            push_json_bytes(result, b);
            string_push(result, ']');
        },
        Union::ObjectMap(m) => {
            proof {
                assert(decreases_to!(*value => value.value));
                assert(decreases_to!(value.value => value.value->ObjectMap_0));
            }
            let t = format_map_as_json(m);
            result.append(t.as_str());
        },
        Union::FnPtr(f) => {
            let t = debug_str(f.fn_name());
            if f.is_curried() {
                proof {
                    assert(decreases_to!(*value => value.value));
                    assert(decreases_to!(value.value => value.value->FnPtr_0));
                    assert(decreases_to!(value.value->FnPtr_0 => (*value.value->FnPtr_0).curry));
                }
                string_push(result, '[');
                result.append(t.as_str());
                push_json_curry(result, &f.curry);
                string_push(result, ']');
            } else {
                result.append(t.as_str());
            }
        },
        Union::Range(a, b) => {
            push_int_str(result, *a);
            result.append("..");
            push_int_str(result, *b);
        },
        Union::RangeInclusive(a, b) => {
            push_int_str(result, *a);
            result.append("..=");
            push_int_str(result, *b);
        },
        Union::Variant(name) => result.append(name.as_str()),
    }
}

} // verus!
