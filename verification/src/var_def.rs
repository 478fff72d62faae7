use vstd::prelude::*;
use crate::text::string_of;

verus! {

/// Information on a variable about to be defined.
pub struct VarDefInfo {
    /// Name of the variable.
    pub name: String,
    /// Is it a constant (`const`, not `let`)?
    pub is_const: bool,
    /// The nesting level of blocks, zero at global level.
    pub nesting_level: usize,
    /// Will it shadow a variable of the same name?
    pub will_shadow: bool,
}

impl VarDefInfo {
    /// Information on a variable definition.
    pub fn new(name: &str, is_const: bool, nesting_level: usize, will_shadow: bool) -> (r: VarDefInfo)
        ensures
            r.name@ == name@,
            r.is_const == is_const,
            r.nesting_level == nesting_level,
            r.will_shadow == will_shadow,
    {
        VarDefInfo { name: string_of(name), is_const, nesting_level, will_shadow }
    }

    /// Name of the variable.
    pub fn name(&self) -> (r: &str)
        ensures
            r@ == self.name@,
    {
        self.name.as_str()
    }

    /// Is it a constant?
    pub fn is_const(&self) -> (r: bool)
        ensures
            r == self.is_const,
    {
        self.is_const
    }

    /// The nesting level, zero at global level.
    pub fn nesting_level(&self) -> (r: usize)
        ensures
            r == self.nesting_level,
    {
        self.nesting_level
    }

    /// Is the variable defined at global level?
    pub fn is_global_level(&self) -> (r: bool)
        ensures
            r == (self.nesting_level == 0),
    {
        self.nesting_level == 0
    }

    /// Will it shadow a variable of the same name?
    pub fn will_shadow_other_variables(&self) -> (r: bool)
        ensures
            r == self.will_shadow,
    {
        self.will_shadow
    }
}

} // verus!
