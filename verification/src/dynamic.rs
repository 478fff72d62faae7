use vstd::prelude::*;
use crate::text::string_of;

verus! {

broadcast use vstd::std_specs::vec::group_vec_axioms;

/// A function pointer: the name of a function plus curried arguments.
#[derive(Debug)]
pub struct FnPtr {
    /// Name of the function.
    pub name: String,
    /// Curried arguments.
    pub curry: Vec<Dynamic>,
}

/// One property of an object map.
#[derive(Debug)]
pub struct MapEntry {
    /// Property name.
    pub key: String,
    /// Property value.
    pub value: Dynamic,
}

/// The payload of a [`Dynamic`] value.
#[derive(Debug)]
pub enum Union {
    /// The unit value `()`.
    Unit,
    /// The null value, standing for "no value" (e.g. an unbound `this` pointer).
    Null,
    /// A boolean.
    Bool(bool),
    /// A string.
    Str(String),
    /// A character.
    Char(char),
    /// An integer.
    Int(i64),
    /// An array of values.
    Array(Vec<Dynamic>),
    /// A byte array.
    Blob(Vec<u8>),
    /// An object map, with its properties in key order.
    ObjectMap(Vec<MapEntry>),
    /// A function pointer.
    FnPtr(Box<FnPtr>),
    /// An exclusive integer range `start..end`.
    Range(i64, i64),
    /// An inclusive integer range `start..=end`.
    RangeInclusive(i64, i64),
    /// A value of a custom (host-registered) type, known by its type name.
    Variant(String),
}

/// A dynamically-typed value, with a user-settable integer tag.
#[derive(Debug)]
pub struct Dynamic {
    /// The payload.
    pub value: Union,
    /// The tag.
    pub tag: i32,
}

/// Abstract value of a [`Union`].
pub enum Value {
    Unit,
    Null,
    Bool(bool),
    Str(Seq<char>),
    Char(char),
    Int(i64),
    Array(Seq<DynV>),
    Blob(Seq<u8>),
    ObjectMap(Seq<(Seq<char>, DynV)>),
    FnPtr(Seq<char>, Seq<DynV>),
    Range(i64, i64),
    RangeInclusive(i64, i64),
    Variant(Seq<char>),
}

/// Abstract value of a [`Dynamic`].
pub struct DynV {
    pub value: Value,
    pub tag: i32,
}

/// The abstract value of a [`Dynamic`].
pub open spec fn dyn_view(d: Dynamic) -> DynV
    decreases d,
{
    DynV {
        value: match d.value {
            Union::Unit => Value::Unit,
            Union::Null => Value::Null,
            Union::Bool(b) => Value::Bool(b),
            Union::Str(s) => Value::Str(s@),
            Union::Char(c) => Value::Char(c),
            Union::Int(i) => Value::Int(i),
            Union::Array(a) => Value::Array(dyns_view(a@)),
            Union::Blob(b) => Value::Blob(b@),
            Union::ObjectMap(m) => Value::ObjectMap(entries_view(m@)),
            Union::FnPtr(f) => Value::FnPtr(f.name@, dyns_view(f.curry@)),
            Union::Range(a, b) => Value::Range(a, b),
            Union::RangeInclusive(a, b) => Value::RangeInclusive(a, b),
            Union::Variant(n) => Value::Variant(n@),
        },
        tag: d.tag,
    }
}

/// The abstract values of a sequence of [`Dynamic`]s.
pub open spec fn dyns_view(s: Seq<Dynamic>) -> Seq<DynV>
    decreases s,
{
    if s.len() == 0 {
        Seq::empty()
    } else {
        dyns_view(s.drop_last()).push(dyn_view(s.last()))
    }
}

/// The abstract properties of an object map.
pub open spec fn entries_view(s: Seq<MapEntry>) -> Seq<(Seq<char>, DynV)>
    decreases s,
{
    if s.len() == 0 {
        Seq::empty()
    } else {
        entries_view(s.drop_last()).push((s.last().key@, dyn_view(s.last().value)))
    }
}

impl View for Dynamic {
    type V = DynV;

    open spec fn view(&self) -> DynV {
        dyn_view(*self)
    }
}

/// Element-wise characterization of [`dyns_view`].
pub proof fn lemma_dyns_view(s: Seq<Dynamic>)
    ensures
        dyns_view(s).len() == s.len(),
        forall|i: int| 0 <= i < s.len() ==> #[trigger] dyns_view(s)[i] == dyn_view(s[i]),
    decreases s.len(),
{
    if s.len() > 0 {
        lemma_dyns_view(s.drop_last());
        assert forall|i: int| 0 <= i < s.len() implies #[trigger] dyns_view(s)[i] == dyn_view(
            s[i],
        ) by {
            if i < s.len() - 1 {
                assert(s.drop_last()[i] == s[i]);
            }
        }
    }
}

/// Element-wise characterization of [`entries_view`].
pub proof fn lemma_entries_view(s: Seq<MapEntry>)
    ensures
        entries_view(s).len() == s.len(),
        forall|i: int|
            0 <= i < s.len() ==> #[trigger] entries_view(s)[i] == (s[i].key@, dyn_view(s[i].value)),
    decreases s.len(),
{
    if s.len() > 0 {
        lemma_entries_view(s.drop_last());
        assert forall|i: int| 0 <= i < s.len() implies #[trigger] entries_view(s)[i] == (
        s[i].key@,
        dyn_view(s[i].value),
        ) by {
            if i < s.len() - 1 {
                assert(s.drop_last()[i] == s[i]);
            }
        }
    }
}

/// Sequences with element-wise equal abstract values have equal abstract values.
pub proof fn lemma_dyns_view_ext(s1: Seq<Dynamic>, s2: Seq<Dynamic>)
    requires
        s1.len() == s2.len(),
        forall|i: int| 0 <= i < s1.len() ==> dyn_view(#[trigger] s1[i]) == dyn_view(s2[i]),
    ensures
        dyns_view(s1) == dyns_view(s2),
{
    lemma_dyns_view(s1);
    lemma_dyns_view(s2);
    assert(dyns_view(s1) =~= dyns_view(s2));
}

/// Pushing onto a sequence pushes the abstract value.
pub proof fn lemma_dyns_view_push(s: Seq<Dynamic>, d: Dynamic)
    ensures
        dyns_view(s.push(d)) == dyns_view(s).push(dyn_view(d)),
{
    assert(s.push(d).drop_last() =~= s);
}

/// The abstract values of a concatenation are the concatenation of the abstract values.
pub proof fn lemma_dyns_view_concat(a: Seq<Dynamic>, b: Seq<Dynamic>)
    ensures
        dyns_view(a + b) == dyns_view(a) + dyns_view(b),
{
    lemma_dyns_view(a);
    lemma_dyns_view(b);
    lemma_dyns_view(a + b);
    assert(dyns_view(a + b) =~= dyns_view(a) + dyns_view(b));
}

/// Are two abstract values of the same type?
pub open spec fn same_type(a: Value, b: Value) -> bool {
    match (a, b) {
        (Value::Variant(x), Value::Variant(y)) => x == y,
        _ => type_index(a) == type_index(b),
    }
}

/// A number identifying the built-in type of an abstract value.
pub open spec fn type_index(v: Value) -> nat {
    match v {
        Value::Unit => 0,
        Value::Null => 1,
        Value::Bool(_) => 2,
        Value::Str(_) => 3,
        Value::Char(_) => 4,
        Value::Int(_) => 5,
        Value::Array(_) => 6,
        Value::Blob(_) => 7,
        Value::ObjectMap(_) => 8,
        Value::FnPtr(_, _) => 9,
        Value::Range(_, _) => 10,
        Value::RangeInclusive(_, _) => 11,
        Value::Variant(_) => 12,
    }
}

/// The name of the type of an abstract value.
pub open spec fn type_name_of(v: Value) -> Seq<char> {
    match v {
        Value::Unit => "()"@,
        Value::Null => "null"@,
        Value::Bool(_) => "bool"@,
        Value::Str(_) => "string"@,
        Value::Char(_) => "char"@,
        Value::Int(_) => "i64"@,
        Value::Array(_) => "array"@,
        Value::Blob(_) => "blob"@,
        Value::ObjectMap(_) => "map"@,
        Value::FnPtr(_, _) => "Fn"@,
        Value::Range(_, _) => "range"@,
        Value::RangeInclusive(_, _) => "range="@,
        Value::Variant(n) => n,
    }
}

/// Is the value a custom-type value (ranges are custom types too)?
pub open spec fn is_variant_value(v: Value) -> bool {
    match v {
        Value::Variant(_) | Value::Range(_, _) | Value::RangeInclusive(_, _) => true,
        _ => false,
    }
}

/// An abstract value with the default tag.
pub open spec fn plain(v: Value) -> DynV {
    DynV { value: v, tag: 0 }
}

impl Dynamic {
    /// A value with the default tag (zero).
    pub fn from_union(value: Union) -> (r: Dynamic)
        ensures
            r.value == value,
            r.tag == 0,
    {
        Dynamic { value, tag: 0 }
    }

    /// The unit value `()`.
    pub fn unit() -> (r: Dynamic)
        ensures
            r@ == plain(Value::Unit),
    {
        Self::from_union(Union::Unit)
    }

    /// The null value.
    pub fn null() -> (r: Dynamic)
        ensures
            r@ == plain(Value::Null),
    {
        Self::from_union(Union::Null)
    }

    /// A boolean value.
    pub fn from_bool(b: bool) -> (r: Dynamic)
        ensures
            r@ == plain(Value::Bool(b)),
    {
        Self::from_union(Union::Bool(b))
    }

    /// An integer value.
    pub fn from_int(i: i64) -> (r: Dynamic)
        ensures
            r@ == plain(Value::Int(i)),
    {
        Self::from_union(Union::Int(i))
    }

    /// A character value.
    pub fn from_char(c: char) -> (r: Dynamic)
        ensures
            r@ == plain(Value::Char(c)),
    {
        Self::from_union(Union::Char(c))
    }

    /// A string value.
    pub fn from_string(s: String) -> (r: Dynamic)
        ensures
            r@ == plain(Value::Str(s@)),
    {
        Self::from_union(Union::Str(s))
    }

    /// A byte-array value.
    pub fn from_blob(b: Vec<u8>) -> (r: Dynamic)
        ensures
            r@ == plain(Value::Blob(b@)),
    {
        Self::from_union(Union::Blob(b))
    }

    /// An array value.
    pub fn from_array(a: Vec<Dynamic>) -> (r: Dynamic)
        ensures
            r@ == plain(Value::Array(dyns_view(a@))),
    {
        Self::from_union(Union::Array(a))
    }

    /// The tag of the value.
    pub fn tag(&self) -> (r: i32)
        ensures
            r == self@.tag,
    {
        self.tag
    }

    /// Set the tag of the value.
    pub fn set_tag(&mut self, tag: i32)
        ensures
            final(self)@ == (DynV { tag, ..old(self)@ }),
    {
        self.tag = tag;
    }

    /// Is the value `()`?
    pub fn is_unit(&self) -> (r: bool)
        ensures
            r == (self@.value is Unit),
    {
        match self.value {
            Union::Unit => true,
            _ => false,
        }
    }

    /// Is the value null?
    pub fn is_null(&self) -> (r: bool)
        ensures
            r == (self@.value is Null),
    {
        match self.value {
            Union::Null => true,
            _ => false,
        }
    }

    /// Is the value a string?
    pub fn is_string(&self) -> (r: bool)
        ensures
            r == (self@.value is Str),
    {
        match self.value {
            Union::Str(_) => true,
            _ => false,
        }
    }

    /// Is the value a custom-type value (ranges included)?
    pub fn is_variant(&self) -> (r: bool)
        ensures
            r == is_variant_value(self@.value),
    {
        match self.value {
            Union::Variant(_) | Union::Range(_, _) | Union::RangeInclusive(_, _) => true,
            _ => false,
        }
    }

    /// The boolean held, if the value is a boolean.
    pub fn as_bool(&self) -> (r: Option<bool>)
        ensures
            match self@.value {
                Value::Bool(b) => r == Some(b),
                _ => r is None,
            },
    {
        match self.value {
            Union::Bool(b) => Some(b),
            _ => None,
        }
    }

    /// The integer held, if the value is an integer.
    pub fn as_int(&self) -> (r: Option<i64>)
        ensures
            match self@.value {
                Value::Int(i) => r == Some(i),
                _ => r is None,
            },
    {
        match self.value {
            Union::Int(i) => Some(i),
            _ => None,
        }
    }

    /// The character held, if the value is a character.
    pub fn as_char(&self) -> (r: Option<char>)
        ensures
            match self@.value {
                Value::Char(c) => r == Some(c),
                _ => r is None,
            },
    {
        match self.value {
            Union::Char(c) => Some(c),
            _ => None,
        }
    }

    /// The name of the type of the value.
    pub fn type_name_string(&self) -> (r: String)
        ensures
            r@ == type_name_of(self@.value),
    {
        match &self.value {
            Union::Unit => string_of("()"),
            Union::Null => string_of("null"),
            Union::Bool(_) => string_of("bool"),
            Union::Str(_) => string_of("string"),
            Union::Char(_) => string_of("char"),
            Union::Int(_) => string_of("i64"),
            Union::Array(_) => string_of("array"),
            Union::Blob(_) => string_of("blob"),
            Union::ObjectMap(_) => string_of("map"),
            Union::FnPtr(_) => string_of("Fn"),
            Union::Range(_, _) => string_of("range"),
            Union::RangeInclusive(_, _) => string_of("range="),
            Union::Variant(n) => n.clone(),
        }
    }

    /// Convert the value into a string; where it holds no string, give the name of its
    /// actual type.
    pub fn as_string(self) -> (r: Result<String, String>)
        ensures
            match self@.value {
                Value::Str(s) => r matches Ok(t) && t@ == s,
                v => r matches Err(n) && n@ == type_name_of(v),
            },
    {
        let name = self.type_name_string();
        match self.value {
            Union::Str(s) => Ok(s),
            _ => Err(name),
        }
    }

    /// Convert the value into an immutable string; where it holds no string, give the name
    /// of its actual type.
    pub fn as_immutable_string(self) -> (r: Result<String, String>)
        ensures
            match self@.value {
                Value::Str(s) => r matches Ok(t) && t@ == s,
                v => r matches Err(n) && n@ == type_name_of(v),
            },
    {
        self.as_string()
    }

    /// A copy of the value.
    pub fn deep_clone(&self) -> (r: Dynamic)
        ensures
            r@ == self@,
        decreases self,
    {
        let value = match &self.value {
            Union::Unit => Union::Unit,
            Union::Null => Union::Null,
            Union::Bool(b) => Union::Bool(*b),
            Union::Str(s) => Union::Str(s.clone()),
            Union::Char(c) => Union::Char(*c),
            Union::Int(i) => Union::Int(*i),
            Union::Array(a) => {
                proof {
                    assert(decreases_to!(*self => self.value));
                    assert(decreases_to!(self.value => self.value->Array_0));
                }
                Union::Array(clone_dyns(a))
            },
            Union::Blob(b) => Union::Blob(b.clone()),
            Union::ObjectMap(m) => {
                proof {
                    assert(decreases_to!(*self => self.value));
                    assert(decreases_to!(self.value => self.value->ObjectMap_0));
                }
                Union::ObjectMap(clone_entries(m))
            },
            Union::FnPtr(f) => {
                proof {
                    assert(decreases_to!(*self => self.value));
                    assert(decreases_to!(self.value => self.value->FnPtr_0));
                    assert(decreases_to!(self.value->FnPtr_0 => (*self.value->FnPtr_0).curry));
                }
                let curry = clone_dyns(&f.curry);
                Union::FnPtr(Box::new(FnPtr { name: f.name.clone(), curry }))
            },
            Union::Range(a, b) => Union::Range(*a, *b),
            Union::RangeInclusive(a, b) => Union::RangeInclusive(*a, *b),
            Union::Variant(n) => Union::Variant(n.clone()),
        };
        let r = Dynamic { value, tag: self.tag };
        proof {
            if self.value is Blob {
                assert(r.value->Blob_0@ =~= self.value->Blob_0@);
            }
        }
        r
    }
}

/// Copies of a vector of values.
pub fn clone_dyns(a: &Vec<Dynamic>) -> (r: Vec<Dynamic>)
    ensures
        dyns_view(r@) == dyns_view(a@),
        r@.len() == a@.len(),
    decreases a, 0nat,
{
    let mut out: Vec<Dynamic> = Vec::new();
    let mut i: usize = 0;
    while i < a.len()
        invariant
            i <= a.len(),
            out@.len() == i,
            forall|j: int| 0 <= j < i ==> dyn_view(#[trigger] out@[j]) == dyn_view(a@[j]),
        decreases a.len() - i,
    {
        proof {
            assert(decreases_to!(*a => a[i as int]));
        }
        let c = a[i].deep_clone();
        out.push(c);
        i += 1;
    }
    proof {
        lemma_dyns_view_ext(out@, a@);
    }
    out
}

/// Copies of the properties of an object map.
pub fn clone_entries(m: &Vec<MapEntry>) -> (r: Vec<MapEntry>)
    ensures
        entries_view(r@) == entries_view(m@),
    decreases m, 0nat,
{
    let mut out: Vec<MapEntry> = Vec::new();
    let mut i: usize = 0;
    while i < m.len()
        invariant
            i <= m.len(),
            out@.len() == i,
            forall|j: int|
                0 <= j < i ==> (#[trigger] out@[j]).key@ == m@[j].key@ && dyn_view(out@[j].value)
                    == dyn_view(m@[j].value),
        decreases m.len() - i,
    {
        proof {
            assert(decreases_to!(*m => m[i as int]));
            assert(decreases_to!(m[i as int] => m[i as int].value));
        }
        let v = m[i].value.deep_clone();
        out.push(MapEntry { key: m[i].key.clone(), value: v });
        i += 1;
    }
    proof {
        lemma_entries_view(out@);
        lemma_entries_view(m@);
        assert(entries_view(out@) =~= entries_view(m@));
    }
    out
}

impl FnPtr {
    /// The name of the function.
    pub fn fn_name(&self) -> (r: &str)
        ensures
            r@ == self.name@,
    {
        self.name.as_str()
    }

    /// Is the function pointer curried?
    pub fn is_curried(&self) -> (r: bool)
        ensures
            r == (self.curry@.len() > 0),
    {
        self.curry.len() > 0
    }

    /// Number of curried arguments (same as the length of the curried arguments list).
    pub fn num_curried(&self) -> (r: usize)
        ensures
            r == self.curry@.len(),
    {
        self.curry.len()
    }
}

} // verus!
