use vstd::prelude::*;
use crate::ast::{FnAccess, ScriptFuncDef};
use std::rc::Rc;

verus! {

/// A new pointer to the same shared value (`Rc::clone`).
#[verifier::external_body]
pub(crate) fn share<T>(r: &Rc<T>) -> (s: Rc<T>)
    ensures
        s == *r,
{
    Rc::clone(r)
}

/// A function of the host, known by its name.
pub struct NativeFn {
    /// The name it was registered under.
    pub name: String,
}

/// An iterator function of the host, known by the name of the type it iterates.
pub struct IteratorFn {
    /// Name of the iterated type.
    pub iterated: String,
}

/// A plugin function, known by its name.
pub struct PluginFn {
    /// The name it was registered under.
    pub name: String,
    /// Is it called as a method (its first argument passed by reference)?
    pub method_call: bool,
}

/// A function that can be called by a script.
pub enum CallableFunction {
    /// A pure native function (with whether it takes a call context).
    Pure(NativeFn, bool),
    /// A native method (with whether it takes a call context).
    Method(NativeFn, bool),
    /// An iterator function.
    Iterator(IteratorFn),
    /// A plugin function.
    Plugin(PluginFn),
    /// A script-defined function.
    Script(Rc<ScriptFuncDef>),
}

impl CallableFunction {
    /// Is this a pure native function (a plugin function not called as a method counts)?
    pub fn is_pure(&self) -> (r: bool)
        ensures
            r == match *self {
                CallableFunction::Pure(..) => true,
                CallableFunction::Plugin(p) => !p.method_call,
                _ => false,
            },
    {
        match self {
            CallableFunction::Pure(..) => true,
            CallableFunction::Method(..) | CallableFunction::Iterator(..) => false,
            CallableFunction::Plugin(p) => !p.method_call,
            CallableFunction::Script(..) => false,
        }
    }

    /// Is this a native method (a plugin function called as a method counts)?
    pub fn is_method(&self) -> (r: bool)
        ensures
            r == match *self {
                CallableFunction::Method(..) => true,
                CallableFunction::Plugin(p) => p.method_call,
                _ => false,
            },
    {
        match self {
            CallableFunction::Method(..) => true,
            CallableFunction::Pure(..) | CallableFunction::Iterator(..) => false,
            CallableFunction::Plugin(p) => p.method_call,
            CallableFunction::Script(..) => false,
        }
    }

    /// Is this an iterator function?
    pub fn is_iter(&self) -> (r: bool)
        ensures
            r == (*self is Iterator),
    {
        match self {
            CallableFunction::Iterator(..) => true,
            _ => false,
        }
    }

    /// Is this a script-defined function?
    pub fn is_script(&self) -> (r: bool)
        ensures
            r == (*self is Script),
    {
        match self {
            CallableFunction::Script(..) => true,
            _ => false,
        }
    }

    /// Is this a plugin function?
    pub fn is_plugin_fn(&self) -> (r: bool)
        ensures
            r == (*self is Plugin),
    {
        match self {
            CallableFunction::Plugin(..) => true,
            _ => false,
        }
    }

    /// Is this a native function (not script-defined)?
    pub fn is_native(&self) -> (r: bool)
        ensures
            r == !(*self is Script),
    {
        match self {
            CallableFunction::Script(..) => false,
            _ => true,
        }
    }

    /// Does this native function take a call context?
    pub fn has_context(&self) -> (r: bool)
        ensures
            r == match *self {
                CallableFunction::Pure(_, c) => c,
                CallableFunction::Method(_, c) => c,
                _ => false,
            },
    {
        match self {
            CallableFunction::Pure(_, c) | CallableFunction::Method(_, c) => *c,
            _ => false,
        }
    }

    /// The access mode: that of a script-defined function, else public.
    pub fn access(&self) -> (r: FnAccess)
        ensures
            r == match *self {
                CallableFunction::Script(f) => f.access,
                _ => FnAccess::Public,
            },
    {
        match self {
            CallableFunction::Script(f) => f.access,
            _ => FnAccess::Public,
        }
    }

    /// The native function, if this is a pure native function or a native method.
    pub fn get_native_fn(&self) -> (r: Option<&NativeFn>)
        ensures
            match *self {
                CallableFunction::Pure(f, _) => r == Some(&f),
                CallableFunction::Method(f, _) => r == Some(&f),
                _ => r is None,
            },
    {
        match self {
            CallableFunction::Pure(f, _) | CallableFunction::Method(f, _) => Some(f),
            _ => None,
        }
    }

    /// The definition, if this is a script-defined function.
    pub fn get_script_fn_def(&self) -> (r: Option<&ScriptFuncDef>)
        ensures
            match *self {
                CallableFunction::Script(f) => r == Some(&*f),
                _ => r is None,
            },
    {
        match self {
            CallableFunction::Script(f) => Some(&**f),
            _ => None,
        }
    }

    /// The iterator function, if this is one.
    pub fn get_iter_fn(&self) -> (r: Option<&IteratorFn>)
        ensures
            match *self {
                CallableFunction::Iterator(f) => r == Some(&f),
                _ => r is None,
            },
    {
        match self {
            CallableFunction::Iterator(f) => Some(f),
            _ => None,
        }
    }

    /// A copy of the function; a script-defined function is shared, not copied.
    pub fn clone_fn(&self) -> (r: CallableFunction)
        ensures
            r == *self,
    {
        match self {
            CallableFunction::Pure(f, c) => CallableFunction::Pure(NativeFn { name: f.name.clone() }, *c),
            CallableFunction::Method(f, c) => CallableFunction::Method(NativeFn { name: f.name.clone() }, *c),
            CallableFunction::Iterator(f) => CallableFunction::Iterator(IteratorFn { iterated: f.iterated.clone() }),
            CallableFunction::Plugin(f) => CallableFunction::Plugin(PluginFn { name: f.name.clone(), method_call: f.method_call }),
            CallableFunction::Script(f) => CallableFunction::Script(share(f)),
        }
    }

    /// The plugin function, if this is one.
    pub fn get_plugin_fn(&self) -> (r: Option<&PluginFn>)
        ensures
            match *self {
                CallableFunction::Plugin(f) => r == Some(&f),
                _ => r is None,
            },
    {
        match self {
            CallableFunction::Plugin(f) => Some(f),
            _ => None,
        }
    }
}

} // verus!
