use vstd::prelude::*;
use crate::dynamic::{Dynamic, DynV, dyn_view};
use crate::text::{string_of, str_eq};
use crate::types::clone_strings;

verus! {

broadcast use vstd::std_specs::vec::group_vec_axioms;

/// A variable of a scope.
#[derive(Debug)]
pub struct ScopeEntry {
    /// Name of the variable.
    pub name: String,
    /// Its value.
    pub value: Dynamic,
    /// Is it a constant?
    pub is_constant: bool,
    /// The names under which the variable is exported from a module made of the script.
    pub aliases: Vec<String>,
}

/// Abstract value of a variable.
pub struct VarV {
    pub name: Seq<char>,
    pub value: DynV,
    pub constant: bool,
    pub aliases: Seq<Seq<char>>,
}

/// The texts of a sequence of strings.
pub open spec fn strs_view(v: Seq<String>) -> Seq<Seq<char>> {
    v.map_values(|c: String| c@)
}

/// The variables of a script, in order of definition; later ones shadow earlier ones.
#[derive(Debug)]
pub struct Scope {
    /// The variables.
    pub entries: Vec<ScopeEntry>,
}

/// The abstract value of a variable.
pub open spec fn var_view(e: ScopeEntry) -> VarV {
    VarV { name: e.name@, value: dyn_view(e.value), constant: e.is_constant, aliases: strs_view(e.aliases@) }
}

/// The abstract values of the variables of a scope.
pub open spec fn scope_view(s: Seq<ScopeEntry>) -> Seq<VarV> {
    s.map_values(|e: ScopeEntry| var_view(e))
}

impl View for Scope {
    type V = Seq<VarV>;

    open spec fn view(&self) -> Seq<VarV> {
        scope_view(self.entries@)
    }
}

/// The index of the last variable of a given name, if any.
pub open spec fn scope_search(s: Seq<VarV>, name: Seq<char>) -> Option<int>
    decreases s.len(),
{
    if s.len() == 0 {
        None
    } else if s.last().name == name {
        Some(s.len() - 1)
    } else {
        scope_search(s.drop_last(), name)
    }
}

/// A found index is that of a variable of that name, after which none has that name.
pub proof fn lemma_scope_search(s: Seq<VarV>, name: Seq<char>)
    ensures
        scope_search(s, name) matches Some(i) ==> 0 <= i < s.len() && s[i].name == name && forall|
            j: int,
        |
            i < j < s.len() ==> s[j].name != name,
        scope_search(s, name) is None ==> forall|j: int| 0 <= j < s.len() ==> s[j].name != name,
    decreases s.len(),
{
    if s.len() > 0 {
        lemma_scope_search(s.drop_last(), name);
        assert forall|j: int| 0 <= j < s.len() - 1 implies s.drop_last()[j] == s[j] by {}
    }
}

impl Scope {
    /// An empty scope.
    pub fn new() -> (r: Scope)
        ensures
            r@ == Seq::<VarV>::empty(),
    {
        let r = Scope { entries: Vec::new() };
        assert(r@ =~= Seq::<VarV>::empty());
        r
    }

    /// Number of variables.
    pub fn len(&self) -> (r: usize)
        ensures
            r == self@.len(),
    {
        self.entries.len()
    }

    /// Is the scope empty?
    pub fn is_empty(&self) -> (r: bool)
        ensures
            r == (self@.len() == 0),
    {
        self.entries.len() == 0
    }

    /// Add a variable (constant or not) at the end, with no export aliases.
    pub fn push_entry(&mut self, name: String, is_constant: bool, value: Dynamic)
        ensures
            final(self)@ == old(self)@.push(
                VarV { name: name@, value: value@, constant: is_constant, aliases: Seq::empty() },
            ),
    {
        let aliases: Vec<String> = Vec::new();
        assert(strs_view(aliases@) =~= Seq::<Seq<char>>::empty());
        self.entries.push(ScopeEntry { name, value, is_constant, aliases });
        assert(self@ =~= old(self)@.push(
            VarV { name: name@, value: value@, constant: is_constant, aliases: Seq::empty() },
        ));
    }

    /// Add a variable at the end.
    pub fn push(&mut self, name: &str, value: Dynamic)
        ensures
            final(self)@ == old(self)@.push(
                VarV { name: name@, value: value@, constant: false, aliases: Seq::empty() },
            ),
    {
        self.push_entry(string_of(name), false, value);
    }

    /// Add a constant at the end.
    pub fn push_constant(&mut self, name: &str, value: Dynamic)
        ensures
            final(self)@ == old(self)@.push(
                VarV { name: name@, value: value@, constant: true, aliases: Seq::empty() },
            ),
    {
        self.push_entry(string_of(name), true, value);
    }

    /// Remove the variables beyond the first `len`.
    pub fn rewind(&mut self, len: usize)
        ensures
            final(self)@ == (if len < old(self)@.len() {
                old(self)@.take(len as int)
            } else {
                old(self)@
            }),
    {
        self.entries.truncate(len);
        proof {
            if len < old(self)@.len() {
                assert(self@ =~= old(self)@.take(len as int));
            } else {
                assert(self@ =~= old(self)@);
            }
        }
    }

    /// The index of the last variable of a given name, if any.
    pub fn search(&self, name: &str) -> (r: Option<usize>)
        ensures
            r matches Some(i) ==> scope_search(self@, name@) == Some(i as int) && i < self@.len()
                && self@[i as int].name == name@,
            r is None ==> scope_search(self@, name@) is None,
    {
        proof {
            lemma_scope_search(self@, name@);
        }
        let mut i: usize = self.entries.len();
        assert(self@.take(i as int) =~= self@);
        while i > 0
            invariant
                i <= self@.len(),
                self@.len() == self.entries@.len(),
                scope_search(self@, name@) == scope_search(self@.take(i as int), name@),
            decreases i,
        {
            let ghost t = self@.take(i as int);
            proof {
                assert(t.drop_last() =~= self@.take(i - 1));
                assert(t.last() == var_view(self.entries@[i - 1]));
            }
            if crate::text::str_eq(self.entries[i - 1].name.as_str(), name) {
                return Some(i - 1);
            }
            i -= 1;
        }
        None
    }

    /// Is there a variable of the given name?
    pub fn contains(&self, name: &str) -> (r: bool)
        ensures
            r == (scope_search(self@, name@) is Some),
    {
        self.search(name).is_some()
    }

    /// The value of the variable at an index.
    pub fn get_value_at(&self, index: usize) -> (r: &Dynamic)
        requires
            index < self@.len(),
        ensures
            r@ == self@[index as int].value,
    {
        proof {
            assert(self@[index as int] == var_view(self.entries@[index as int]));
        }
        &self.entries[index].value
    }

    /// Is the variable at an index a constant?
    pub fn is_constant_at(&self, index: usize) -> (r: bool)
        requires
            index < self@.len(),
        ensures
            r == self@[index as int].constant,
    {
        proof {
            assert(self@[index as int] == var_view(self.entries@[index as int]));
        }
        self.entries[index].is_constant
    }

    /// Replace the value of the variable at an index.
    pub fn set_value_at(&mut self, index: usize, value: Dynamic)
        requires
            index < old(self)@.len(),
        ensures
            final(self)@ == old(self)@.update(
                index as int,
                VarV { value: value@, ..old(self)@[index as int] },
            ),
    {
        let name = self.entries[index].name.clone();
        let is_constant = self.entries[index].is_constant;
        let aliases = clone_strings(&self.entries[index].aliases);
        self.entries.set(index, ScopeEntry { name, value, is_constant, aliases });
        assert(self@ =~= old(self)@.update(
            index as int,
            VarV { value: value@, ..old(self)@[index as int] },
        ));
    }

    /// The value of the last variable of a given name, if any.
    pub fn get_value(&self, name: &str) -> (r: Option<Dynamic>)
        ensures
            scope_search(self@, name@) is None ==> r is None,
            scope_search(self@, name@) matches Some(i) ==> r is Some && 0 <= i < self@.len() && dyn_view(
                r->0,
            ) == self@[i].value,
    {
        match self.search(name) {
            Some(i) => {
                proof {
                    assert(self@[i as int] == var_view(self.entries@[i as int]));
                    assert(scope_search(self@, name@) == Some(i as int));
                }
                let v = self.entries[i].value.deep_clone();
                assert(dyn_view(v) == self@[i as int].value);
                Some(v)
            },
            None => None,
        }
    }
}

/// Aliases with one more added at the end, unless it is there already.
pub open spec fn add_alias(a: Seq<Seq<char>>, x: Seq<char>) -> Seq<Seq<char>> {
    if a.contains(x) {
        a
    } else {
        a.push(x)
    }
}

/// Is a text among the strings?
fn strs_contain(v: &Vec<String>, x: &str) -> (r: bool)
    ensures
        r == strs_view(v@).contains(x@),
{
    let mut i: usize = 0;
    while i < v.len()
        invariant
            i <= v@.len(),
            forall|j: int| 0 <= j < i ==> v@[j]@ != x@,
        decreases v@.len() - i,
    {
        if str_eq(v[i].as_str(), x) {
            assert(strs_view(v@)[i as int] == x@);
            return true;
        }
        i += 1;
    }
    proof {
        if strs_view(v@).contains(x@) {
            let j = choose|j: int| 0 <= j < strs_view(v@).len() && strs_view(v@)[j] == x@;
            assert(v@[j]@ == x@);
        }
    }
    false
}

impl Scope {
    /// Export the variable at an index under an alias too, for a module made of the script,
    /// unless it has the alias already.
    pub fn add_alias_by_index(&mut self, index: usize, alias: &str)
        requires
            index < old(self)@.len(),
        ensures
            final(self)@ == old(self)@.update(
                index as int,
                VarV { aliases: add_alias(old(self)@[index as int].aliases, alias@), ..old(self)@[index as int] },
            ),
    {
        proof {
            assert(self@[index as int] == var_view(self.entries@[index as int]));
        }
        let mut aliases = clone_strings(&self.entries[index].aliases);
        if !strs_contain(&aliases, alias) {
            let ghost a0 = aliases@;
            aliases.push(string_of(alias));
            assert(strs_view(aliases@) =~= strs_view(a0).push(alias@));
        }
        let name = self.entries[index].name.clone();
        let value = self.entries[index].value.deep_clone();
        let is_constant = self.entries[index].is_constant;
        self.entries.set(index, ScopeEntry { name, value, is_constant, aliases });
        assert(self@ =~= old(self)@.update(
            index as int,
            VarV { aliases: add_alias(old(self)@[index as int].aliases, alias@), ..old(self)@[index as int] },
        ));
    }

    /// Export the last variable of a given name under an alias too, for a module made of the
    /// script; nothing changes when there is no such variable or it has the alias already.
    pub fn set_alias(&mut self, name: &str, alias: &str)
        ensures
            match scope_search(old(self)@, name@) {
                Some(i) => final(self)@ == old(self)@.update(
                    i,
                    VarV { aliases: add_alias(old(self)@[i].aliases, alias@), ..old(self)@[i] },
                ),
                None => final(self)@ == old(self)@,
            },
    {
        match self.search(name) {
            Some(i) => self.add_alias_by_index(i, alias),
            None => {},
        }
    }
}

} // verus!
