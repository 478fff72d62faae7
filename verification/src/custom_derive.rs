use vstd::prelude::*;
use crate::text::str_eq;

verus! {

broadcast use vstd::std_specs::vec::group_vec_axioms;

/// One item of the arguments of a `rhai_type(...)` attribute, in order. An attribute whose
/// arguments do not parse as a comma-separated list stands as one `Unparsable` item.
#[derive(Debug)]
pub enum AttrItem {
    /// The arguments of an attribute that do not parse.
    Unparsable,
    /// A path: its identifier when it is a single one (`skip`, `readonly`, ...), else none.
    Flag(Option<String>),
    /// `key = value`: the key (an identifier), the text of the value, and whether the value
    /// parses as a path.
    Assign(String, String, bool),
    /// Any other expression.
    Other,
}

/// A field of a struct: its name, or none for a field of a tuple struct.
#[derive(Debug)]
pub struct FieldModel {
    /// The field's name, if it has one.
    pub ident: Option<String>,
    /// The items of its `rhai_type` attributes.
    pub attrs: Vec<AttrItem>,
}

/// The shape of the type a custom type is derived for.
#[derive(Debug)]
pub enum DataModel {
    /// A struct without fields.
    Unit,
    /// A struct with fields, in order.
    Fields(Vec<FieldModel>),
    /// An enum.
    Enum,
    /// A union.
    Union,
}

/// The input of deriving a custom type: the type's name, the items of its `rhai_type`
/// attributes, and its shape.
#[derive(Debug)]
pub struct DeriveModel {
    pub ident: String,
    pub attrs: Vec<AttrItem>,
    pub data: DataModel,
}

/// A field, as accessed by generated code: by name, or by position in a tuple struct.
#[derive(Debug, PartialEq, Eq)]
pub enum FieldRef {
    Named(String),
    Index(usize),
}

/// The name given to a type or a property.
#[derive(Debug, PartialEq, Eq)]
pub enum PropName {
    /// The text of a `name = ...` value.
    Given(String),
    /// The text of an identifier (the type's or the field's).
    Ident(String),
    /// `field<i>`, for the field at position `i` of a tuple struct.
    Numbered(usize),
}

/// How a property is read.
#[derive(Debug, PartialEq, Eq)]
pub enum Getter {
    /// The `get_mut = ...` function, called on the object.
    GetMut(String),
    /// The `get = ...` function, called on a shared reference to the object.
    ByRef(String),
    /// A clone of the field.
    CloneField(FieldRef),
}

/// How a property is written.
#[derive(Debug, PartialEq, Eq)]
pub enum Setter {
    /// The `set = ...` function.
    Custom(String),
    /// An assignment to the field.
    AssignField(FieldRef),
}

/// A call made on the type builder by the derived `build` function.
#[derive(Debug, PartialEq, Eq)]
pub enum BuilderCall {
    /// `with_name(name)`.
    WithName(PropName),
    /// `with_get(name, getter)`: a read-only property.
    WithGet(PropName, Getter),
    /// `with_get_set(name, getter, setter)`.
    WithGetSet(PropName, Getter, Setter),
    /// `extra(&mut builder)`: an `extra = ...` function.
    Extra(String),
}

/// An error in the attributes of a derived custom type.
#[derive(Debug, PartialEq, Eq)]
pub enum AttrError {
    /// The arguments of an attribute do not parse.
    Unparsable,
    /// `invalid option: '<key>'`.
    InvalidOption(String),
    /// `expecting identifier`.
    ExpectingIdentifier,
    /// A function value that is not a path.
    NotAPath,
    /// `cannot use 'skip' with other attributes`.
    SkipWithOthers,
    /// `cannot use 'readonly' with 'set'`.
    ReadonlyWithSet,
    /// `'<key>' cannot have value`.
    CannotHaveValue(String),
    /// `cannot use '<key>' with 'skip'`.
    CannotUseWithSkip(String),
    /// `enums are not yet implemented`.
    EnumsNotImplemented,
    /// `unions are not yet supported`.
    UnionsNotSupported,
}

/// The options gathered from the attributes of a field.
pub struct FieldOpts {
    pub name: Option<String>,
    pub get: Option<String>,
    pub get_mut: Option<String>,
    pub set: Option<String>,
    pub readonly: bool,
    pub skip: bool,
}

/// A field without options.
pub open spec fn no_opts() -> FieldOpts {
    FieldOpts { name: None, get: None, get_mut: None, set: None, readonly: false, skip: false }
}

/// The error of an option given to a skipped field, if it is skipped.
pub open spec fn with_skip_err(o: FieldOpts, key: String) -> Seq<AttrError> {
    if o.skip {
        seq![AttrError::CannotUseWithSkip(key)]
    } else {
        Seq::empty()
    }
}

/// A field's options after one attribute item, and the errors it raises.
pub open spec fn field_step(o: FieldOpts, item: AttrItem) -> (FieldOpts, Seq<AttrError>) {
    match item {
        AttrItem::Unparsable => (o, seq![AttrError::Unparsable]),
        AttrItem::Flag(Some(k)) => if k@ == "skip"@ {
            (
                FieldOpts { skip: true, ..o },
                if o.get is Some || o.get_mut is Some || o.set is Some || o.name is Some || o.readonly {
                    seq![AttrError::SkipWithOthers]
                } else {
                    Seq::empty()
                },
            )
        } else if k@ == "readonly"@ {
            (
                FieldOpts { readonly: true, ..o },
                (if o.set is Some {
                    seq![AttrError::ReadonlyWithSet]
                } else {
                    Seq::empty()
                }) + with_skip_err(o, k),
            )
        } else {
            (o, seq![AttrError::InvalidOption(k)])
        },
        AttrItem::Assign(k, v, is_path) => if k@ == "name"@ {
            (FieldOpts { name: Some(v), ..o }, with_skip_err(o, k))
        } else if k@ == "get"@ {
            if is_path {
                (FieldOpts { get: Some(v), ..o }, with_skip_err(o, k))
            } else {
                (o, seq![AttrError::NotAPath] + with_skip_err(o, k))
            }
        } else if k@ == "get_mut"@ {
            if is_path {
                (FieldOpts { get_mut: Some(v), ..o }, with_skip_err(o, k))
            } else {
                (o, seq![AttrError::NotAPath] + with_skip_err(o, k))
            }
        } else if k@ == "set"@ {
            if is_path {
                (FieldOpts { set: Some(v), ..o }, with_skip_err(o, k))
            } else {
                (o, seq![AttrError::NotAPath] + with_skip_err(o, k))
            }
        } else if k@ == "skip"@ || k@ == "readonly"@ {
            (o, seq![AttrError::CannotHaveValue(k)])
        } else {
            (o, seq![AttrError::InvalidOption(k)])
        },
        _ => (o, seq![AttrError::ExpectingIdentifier]),
    }
}

/// A field's options after its attribute items, and the errors they raise, in order.
pub open spec fn field_fold(items: Seq<AttrItem>) -> (FieldOpts, Seq<AttrError>)
    decreases items.len(),
{
    if items.len() == 0 {
        (no_opts(), Seq::empty())
    } else {
        let (o, e) = field_fold(items.drop_last());
        let (o2, e2) = field_step(o, items.last());
        (o2, e + e2)
    }
}

/// How the field at position `i` is accessed.
pub open spec fn field_ref(f: FieldModel, i: int) -> FieldRef {
    match f.ident {
        Some(n) => FieldRef::Named(n),
        None => FieldRef::Index(i as usize),
    }
}

/// The builder call for the field at position `i` with options `o`, none if it is skipped.
pub open spec fn field_call(f: FieldModel, i: int, o: FieldOpts) -> Seq<BuilderCall> {
    if o.skip {
        Seq::empty()
    } else {
        let name = match o.name {
            Some(v) => PropName::Given(v),
            None => match f.ident {
                Some(n) => PropName::Ident(n),
                None => PropName::Numbered(i as usize),
            },
        };
        let get = match o.get_mut {
            Some(p) => Getter::GetMut(p),
            None => match o.get {
                Some(p) => Getter::ByRef(p),
                None => Getter::CloneField(field_ref(f, i)),
            },
        };
        let set = match o.set {
            Some(p) => Setter::Custom(p),
            None => Setter::AssignField(field_ref(f, i)),
        };
        if o.readonly {
            seq![BuilderCall::WithGet(name, get)]
        } else {
            seq![BuilderCall::WithGetSet(name, get, set)]
        }
    }
}

/// The builder calls for the fields, and the errors of their attributes, in order.
pub open spec fn fields_fold(fs: Seq<FieldModel>) -> (Seq<BuilderCall>, Seq<AttrError>)
    decreases fs.len(),
{
    if fs.len() == 0 {
        (Seq::empty(), Seq::empty())
    } else {
        let (c, e) = fields_fold(fs.drop_last());
        let (o, e2) = field_fold(fs.last().attrs@);
        (c + field_call(fs.last(), fs.len() - 1, o), e + e2)
    }
}

/// The type's name and extra functions after one attribute item, and the errors it raises.
pub open spec fn type_step(name: PropName, extras: Seq<String>, item: AttrItem) -> (PropName, Seq<String>, Seq<AttrError>) {
    match item {
        AttrItem::Unparsable => (name, extras, seq![AttrError::Unparsable]),
        AttrItem::Assign(k, v, is_path) => if k@ == "name"@ {
            (PropName::Given(v), extras, Seq::empty())
        } else if k@ == "extra"@ {
            if is_path {
                (name, extras.push(v), Seq::empty())
            } else {
                (name, extras, seq![AttrError::NotAPath])
            }
        } else {
            (name, extras, seq![AttrError::InvalidOption(k)])
        },
        AttrItem::Flag(Some(k)) => if k@ == "skip"@ {
            (name, extras, Seq::empty())
        } else {
            (name, extras, seq![AttrError::InvalidOption(k)])
        },
        _ => (name, extras, seq![AttrError::ExpectingIdentifier]),
    }
}

/// The type's name and extra functions after its attribute items, and their errors.
pub open spec fn type_fold(ident: String, items: Seq<AttrItem>) -> (PropName, Seq<String>, Seq<AttrError>)
    decreases items.len(),
{
    if items.len() == 0 {
        (PropName::Ident(ident), Seq::empty(), Seq::empty())
    } else {
        let (n, x, e) = type_fold(ident, items.drop_last());
        let (n2, x2, e2) = type_step(n, x, items.last());
        (n2, x2, e + e2)
    }
}

/// What deriving a custom type gives: the builder calls of its `build` function (its name,
/// then its fields' properties, then its extra functions), or the errors of its attributes
/// (or the single error of an enum or a union).
pub open spec fn derive_calls(m: DeriveModel) -> Result<Seq<BuilderCall>, Seq<AttrError>> {
    match m.data {
        DataModel::Enum => Err(seq![AttrError::EnumsNotImplemented]),
        DataModel::Union => Err(seq![AttrError::UnionsNotSupported]),
        _ => {
            let (name, extras, terrs) = type_fold(m.ident, m.attrs@);
            let (calls, ferrs) = match m.data {
                DataModel::Fields(fs) => fields_fold(fs@),
                _ => (Seq::empty(), Seq::empty()),
            };
            let errs = terrs + ferrs;
            if errs.len() > 0 {
                Err(errs)
            } else {
                Ok(seq![BuilderCall::WithName(name)] + calls + extras.map_values(|x: String| BuilderCall::Extra(x)))
            }
        },
    }
}

/// A copy of an optional string.
fn clone_opt(s: &Option<String>) -> (r: Option<String>)
    ensures
        r == *s,
{
    match s {
        Some(x) => Some(x.clone()),
        None => None,
    }
}

/// The errors of an option given to a skipped field.
fn with_skip_err_exec(skip: bool, key: &String, errs: &mut Vec<AttrError>)
    ensures
        final(errs)@ == old(errs)@ + (if skip {
            seq![AttrError::CannotUseWithSkip(*key)]
        } else {
            Seq::empty()
        }),
{
    if skip {
        errs.push(AttrError::CannotUseWithSkip(key.clone()));
        assert(errs@ =~= old(errs)@ + seq![AttrError::CannotUseWithSkip(*key)]);
    } else {
        assert(errs@ =~= old(errs)@ + Seq::<AttrError>::empty());
    }
}

/// Apply one attribute item to a field's options, adding its errors.
fn field_step_exec(o: &mut FieldOpts, item: &AttrItem, errs: &mut Vec<AttrError>)
    ensures
        ({
            let (o2, e2) = field_step(*old(o), *item);
            &&& *final(o) == o2
            &&& final(errs)@ == old(errs)@ + e2
        }),
{
    match item {
        AttrItem::Unparsable => {
            errs.push(AttrError::Unparsable);
            assert(errs@ =~= old(errs)@ + seq![AttrError::Unparsable]);
        },
        AttrItem::Flag(Some(k)) => {
            if str_eq(k.as_str(), "skip") {
                let clash = o.get.is_some() || o.get_mut.is_some() || o.set.is_some() || o.name.is_some() || o.readonly;
                o.skip = true;
                if clash {
                    errs.push(AttrError::SkipWithOthers);
                    assert(errs@ =~= old(errs)@ + seq![AttrError::SkipWithOthers]);
                } else {
                    assert(errs@ =~= old(errs)@ + Seq::<AttrError>::empty());
                }
            } else if str_eq(k.as_str(), "readonly") {
                let ghost e0 = errs@;
                if o.set.is_some() {
                    errs.push(AttrError::ReadonlyWithSet);
                    assert(errs@ =~= e0 + seq![AttrError::ReadonlyWithSet]);
                } else {
                    assert(errs@ =~= e0 + Seq::<AttrError>::empty());
                }
                let ghost e1 = errs@;
                with_skip_err_exec(o.skip, k, errs);
                o.readonly = true;
                assert(errs@ =~= e0 + ((if old(o).set is Some {
                    seq![AttrError::ReadonlyWithSet]
                } else {
                    Seq::<AttrError>::empty()
                }) + with_skip_err(*old(o), *k)));
            } else {
                errs.push(AttrError::InvalidOption(k.clone()));
                assert(errs@ =~= old(errs)@ + seq![AttrError::InvalidOption(*k)]);
            }
        },
        AttrItem::Assign(k, v, is_path) => {
            if str_eq(k.as_str(), "name") {
                with_skip_err_exec(o.skip, k, errs);
                o.name = Some(v.clone());
            } else if str_eq(k.as_str(), "get") {
                if *is_path {
                    with_skip_err_exec(o.skip, k, errs);
                    o.get = Some(v.clone());
                } else {
                    errs.push(AttrError::NotAPath);
                    let ghost e1 = errs@;
                    with_skip_err_exec(o.skip, k, errs);
                    assert(errs@ =~= old(errs)@ + (seq![AttrError::NotAPath] + with_skip_err(*old(o), *k)));
                }
            } else if str_eq(k.as_str(), "get_mut") {
                if *is_path {
                    with_skip_err_exec(o.skip, k, errs);
                    o.get_mut = Some(v.clone());
                } else {
                    errs.push(AttrError::NotAPath);
                    let ghost e1 = errs@;
                    with_skip_err_exec(o.skip, k, errs);
                    assert(errs@ =~= old(errs)@ + (seq![AttrError::NotAPath] + with_skip_err(*old(o), *k)));
                }
            } else if str_eq(k.as_str(), "set") {
                if *is_path {
                    with_skip_err_exec(o.skip, k, errs);
                    o.set = Some(v.clone());
                } else {
                    errs.push(AttrError::NotAPath);
                    let ghost e1 = errs@;
                    with_skip_err_exec(o.skip, k, errs);
                    assert(errs@ =~= old(errs)@ + (seq![AttrError::NotAPath] + with_skip_err(*old(o), *k)));
                }
            } else if str_eq(k.as_str(), "skip") || str_eq(k.as_str(), "readonly") {
                errs.push(AttrError::CannotHaveValue(k.clone()));
                assert(errs@ =~= old(errs)@ + seq![AttrError::CannotHaveValue(*k)]);
            } else {
                errs.push(AttrError::InvalidOption(k.clone()));
                assert(errs@ =~= old(errs)@ + seq![AttrError::InvalidOption(*k)]);
            }
        },
        _ => {
            errs.push(AttrError::ExpectingIdentifier);
            assert(errs@ =~= old(errs)@ + seq![AttrError::ExpectingIdentifier]);
        },
    }
}

/// Apply one attribute item to a type's name and extra functions, adding its errors.
fn type_step_exec(name: &mut PropName, extras: &mut Vec<String>, item: &AttrItem, errs: &mut Vec<AttrError>)
    ensures
        ({
            let (n2, x2, e2) = type_step(*old(name), old(extras)@, *item);
            &&& *final(name) == n2
            &&& final(extras)@ == x2
            &&& final(errs)@ == old(errs)@ + e2
        }),
{
    match item {
        AttrItem::Unparsable => {
            errs.push(AttrError::Unparsable);
            assert(errs@ =~= old(errs)@ + seq![AttrError::Unparsable]);
        },
        AttrItem::Assign(k, v, is_path) => {
            if str_eq(k.as_str(), "name") {
                *name = PropName::Given(v.clone());
                assert(errs@ =~= old(errs)@ + Seq::<AttrError>::empty());
            } else if str_eq(k.as_str(), "extra") {
                if *is_path {
                    extras.push(v.clone());
                    assert(errs@ =~= old(errs)@ + Seq::<AttrError>::empty());
                } else {
                    errs.push(AttrError::NotAPath);
                    assert(errs@ =~= old(errs)@ + seq![AttrError::NotAPath]);
                }
            } else {
                errs.push(AttrError::InvalidOption(k.clone()));
                assert(errs@ =~= old(errs)@ + seq![AttrError::InvalidOption(*k)]);
            }
        },
        AttrItem::Flag(Some(k)) => {
            if str_eq(k.as_str(), "skip") {
                assert(errs@ =~= old(errs)@ + Seq::<AttrError>::empty());
            } else {
                errs.push(AttrError::InvalidOption(k.clone()));
                assert(errs@ =~= old(errs)@ + seq![AttrError::InvalidOption(*k)]);
            }
        },
        _ => {
            errs.push(AttrError::ExpectingIdentifier);
            assert(errs@ =~= old(errs)@ + seq![AttrError::ExpectingIdentifier]);
        },
    }
}

/// The builder call for a field with its options (none for a skipped field).
fn field_call_exec(f: &FieldModel, i: usize, o: FieldOpts, calls: &mut Vec<BuilderCall>)
    ensures
        final(calls)@ == old(calls)@ + field_call(*f, i as int, o),
{
    if o.skip {
        assert(calls@ =~= old(calls)@ + Seq::<BuilderCall>::empty());
        return;
    }
    let fref = match &f.ident {
        Some(n) => FieldRef::Named(n.clone()),
        None => FieldRef::Index(i),
    };
    let fref2 = match &f.ident {
        Some(n) => FieldRef::Named(n.clone()),
        None => FieldRef::Index(i),
    };
    let name = match o.name {
        Some(v) => PropName::Given(v),
        None => match &f.ident {
            Some(n) => PropName::Ident(n.clone()),
            None => PropName::Numbered(i),
        },
    };
    let get = match o.get_mut {
        Some(p) => Getter::GetMut(p),
        None => match o.get {
            Some(p) => Getter::ByRef(p),
            None => Getter::CloneField(fref),
        },
    };
    if o.readonly {
        calls.push(BuilderCall::WithGet(name, get));
    } else {
        let set = match o.set {
            Some(p) => Setter::Custom(p),
            None => Setter::AssignField(fref2),
        };
        calls.push(BuilderCall::WithGetSet(name, get, set));
    }
    assert(calls@ =~= old(calls)@ + field_call(*f, i as int, o));
}

/// The builder calls of the derived `build` function of a custom type (its name, its
/// fields' properties, its extra functions), or the errors of its attributes.
pub fn custom_type_calls(ty: &DeriveModel) -> (r: Result<Vec<BuilderCall>, Vec<AttrError>>)
    ensures
        match derive_calls(*ty) {
            Ok(c) => r matches Ok(v) && v@ == c,
            Err(e) => r matches Err(v) && v@ == e,
        },
{
    match &ty.data {
        DataModel::Enum => {
            let v = vec![AttrError::EnumsNotImplemented];
            assert(v@ =~= seq![AttrError::EnumsNotImplemented]);
            return Err(v);
        },
        DataModel::Union => {
            let v = vec![AttrError::UnionsNotSupported];
            assert(v@ =~= seq![AttrError::UnionsNotSupported]);
            return Err(v);
        },
        _ => {},
    }
    let mut errs: Vec<AttrError> = Vec::new();
    let mut name = PropName::Ident(ty.ident.clone());
    let mut extras: Vec<String> = Vec::new();
    let mut k: usize = 0;
    assert(ty.attrs@.take(0) =~= Seq::<AttrItem>::empty());
    while k < ty.attrs.len()
        invariant
            k <= ty.attrs@.len(),
            type_fold(ty.ident, ty.attrs@.take(k as int)) == (name, extras@, errs@),
        decreases ty.attrs@.len() - k,
    {
        proof {
            let t = ty.attrs@.take(k + 1);
            assert(t.drop_last() =~= ty.attrs@.take(k as int));
            assert(t.last() == ty.attrs@[k as int]);
        }
        type_step_exec(&mut name, &mut extras, &ty.attrs[k], &mut errs);
        k += 1;
    }
    assert(ty.attrs@.take(ty.attrs@.len() as int) =~= ty.attrs@);
    let ghost terrs = errs@;
    let mut calls: Vec<BuilderCall> = Vec::new();
    match &ty.data {
        DataModel::Fields(fs) => {
            let mut i: usize = 0;
            assert(fs@.take(0) =~= Seq::<FieldModel>::empty());
            assert(errs@ =~= terrs + Seq::<AttrError>::empty());
            while i < fs.len()
                invariant
                    i <= fs@.len(),
                    fields_fold(fs@.take(i as int)) == (calls@, errs@.skip(terrs.len() as int)),
                    errs@.len() >= terrs.len(),
                    errs@.take(terrs.len() as int) == terrs,
                decreases fs@.len() - i,
            {
                let f = &fs[i];
                let mut o = FieldOpts { name: None, get: None, get_mut: None, set: None, readonly: false, skip: false };
                let ghost e_start = errs@;
                let mut j: usize = 0;
                assert(f.attrs@.take(0) =~= Seq::<AttrItem>::empty());
                assert(e_start =~= e_start + Seq::<AttrError>::empty());
                while j < f.attrs.len()
                    invariant
                        j <= f.attrs@.len(),
                        field_fold(f.attrs@.take(j as int)).0 == o,
                        errs@ == e_start + field_fold(f.attrs@.take(j as int)).1,
                    decreases f.attrs@.len() - j,
                {
                    proof {
                        let t = f.attrs@.take(j + 1);
                        assert(t.drop_last() =~= f.attrs@.take(j as int));
                        assert(t.last() == f.attrs@[j as int]);
                    }
                    let ghost e_before = errs@;
                    field_step_exec(&mut o, &f.attrs[j], &mut errs);
                    proof {
                        let (o0, e0) = field_fold(f.attrs@.take(j as int));
                        let (o2, e2) = field_step(o0, f.attrs@[j as int]);
                        assert(errs@ =~= e_start + (e0 + e2));
                    }
                    j += 1;
                }
                assert(f.attrs@.take(f.attrs@.len() as int) =~= f.attrs@);
                let ghost c_before = calls@;
                let ghost fo = o;
                field_call_exec(f, i, o, &mut calls);
                proof {
                    let t = fs@.take(i + 1);
                    assert(t.drop_last() =~= fs@.take(i as int));
                    assert(t.last() == fs@[i as int]);
                    assert(e_start.skip(terrs.len() as int) + field_fold(f.attrs@).1 =~= errs@.skip(terrs.len() as int));
                    assert(errs@.take(terrs.len() as int) =~= terrs);
                }
                i += 1;
            }
            assert(fs@.take(fs@.len() as int) =~= fs@);
        },
        _ => {
            assert(errs@.skip(terrs.len() as int) =~= Seq::<AttrError>::empty());
        },
    }
    proof {
        assert(errs@ =~= terrs + errs@.skip(terrs.len() as int));
    }
    if errs.len() > 0 {
        return Err(errs);
    }
    let mut out: Vec<BuilderCall> = Vec::new();
    out.push(BuilderCall::WithName(name));
    out.append(&mut calls);
    let ghost before_x = out@;
    let mut m: usize = 0;
    while m < extras.len()
        invariant
            m <= extras@.len(),
            out@ == before_x + extras@.take(m as int).map_values(|x: String| BuilderCall::Extra(x)),
        decreases extras@.len() - m,
    {
        out.push(BuilderCall::Extra(extras[m].clone()));
        assert(extras@.take(m + 1).map_values(|x: String| BuilderCall::Extra(x)) =~= extras@.take(m as int).map_values(|x: String| BuilderCall::Extra(x)).push(BuilderCall::Extra(extras@[m as int])));
        m += 1;
    }
    assert(extras@.take(extras@.len() as int) =~= extras@);
    Ok(out)
}

} // verus!
