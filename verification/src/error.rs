use vstd::prelude::*;
use crate::dynamic::{Dynamic, DynV, dyn_view};
use crate::position::Position;

verus! {

/// Evaluation result: a value of type `T`, or an evaluation error.
pub type RhaiResultOf<T> = Result<T, Box<EvalAltResult>>;

/// Result of evaluating a script: a value, or an evaluation error.
pub type RhaiResult = RhaiResultOf<Dynamic>;

/// Evaluation errors, together with the pseudo-errors that carry control flow
/// (`break`, `continue`, `return`) out of nested evaluation.
#[derive(Debug)]
pub enum EvalAltResult {
    /// An arithmetic error (overflow, division by zero, ...).
    ErrorArithmetic(String, Position),
    /// Data (string, array, map) grew over its size limit.
    ErrorDataTooLarge(String, Position),
    /// The number of operations exceeded the limit.
    ErrorTooManyOperations(Position),
    /// A variable was not found.
    ErrorVariableNotFound(String, Position),
    /// `this` was used when no value is bound to it.
    ErrorUnboundThis(Position),
    /// Assignment to a constant.
    ErrorAssignmentToConstant(String, Position),
    /// A value has the wrong type: (expected type, actual type).
    ErrorMismatchDataType(String, String, Position),
    /// The result of the script has the wrong type: (expected type, actual type).
    ErrorMismatchOutputType(String, String, Position),
    /// A function was not found.
    ErrorFunctionNotFound(String, Position),
    /// A variable cannot be defined because shadowing is not allowed.
    ErrorVariableExists(String, Position),
    /// A text could not be parsed.
    ErrorParsing(String, Position),
    /// A value thrown by the script.
    ErrorRuntime(Dynamic, Position),
    /// Pseudo-error: `break` (`true`, with a value) or `continue` (`false`).
    LoopBreak(bool, Dynamic, Position),
    /// Pseudo-error: `return` with a value.
    Return(Dynamic, Position),
    /// A `for` loop over a value that cannot be iterated.
    ErrorFor(Position),
    /// An error inside a script-defined function: the function's name, the source of the
    /// run, the error, and the position of the call.
    ErrorInFunctionCall(String, String, Box<EvalAltResult>, Position),
}

/// Abstract value of an [`EvalAltResult`].
pub enum ErrV {
    Arithmetic(Seq<char>, Position),
    DataTooLarge(Seq<char>, Position),
    TooManyOperations(Position),
    VariableNotFound(Seq<char>, Position),
    UnboundThis(Position),
    AssignmentToConstant(Seq<char>, Position),
    MismatchDataType(Seq<char>, Seq<char>, Position),
    MismatchOutputType(Seq<char>, Seq<char>, Position),
    FunctionNotFound(Seq<char>, Position),
    VariableExists(Seq<char>, Position),
    Parsing(Seq<char>, Position),
    Runtime(DynV, Position),
    LoopBreak(bool, DynV, Position),
    Return(DynV, Position),
    InFunctionCall(Seq<char>, Seq<char>, Box<ErrV>, Position),
    For(Position),
}

/// The abstract value of an error.
pub open spec fn err_view(e: EvalAltResult) -> ErrV
    decreases e,
{
    match e {
        EvalAltResult::ErrorArithmetic(s, p) => ErrV::Arithmetic(s@, p),
        EvalAltResult::ErrorDataTooLarge(s, p) => ErrV::DataTooLarge(s@, p),
        EvalAltResult::ErrorTooManyOperations(p) => ErrV::TooManyOperations(p),
        EvalAltResult::ErrorVariableNotFound(s, p) => ErrV::VariableNotFound(s@, p),
        EvalAltResult::ErrorUnboundThis(p) => ErrV::UnboundThis(p),
        EvalAltResult::ErrorAssignmentToConstant(s, p) => ErrV::AssignmentToConstant(s@, p),
        EvalAltResult::ErrorMismatchDataType(a, b, p) => ErrV::MismatchDataType(a@, b@, p),
        EvalAltResult::ErrorMismatchOutputType(a, b, p) => ErrV::MismatchOutputType(a@, b@, p),
        EvalAltResult::ErrorFunctionNotFound(s, p) => ErrV::FunctionNotFound(s@, p),
        EvalAltResult::ErrorVariableExists(s, p) => ErrV::VariableExists(s@, p),
        EvalAltResult::ErrorParsing(s, p) => ErrV::Parsing(s@, p),
        EvalAltResult::ErrorRuntime(d, p) => ErrV::Runtime(dyn_view(d), p),
        EvalAltResult::LoopBreak(b, d, p) => ErrV::LoopBreak(b, dyn_view(d), p),
        EvalAltResult::Return(d, p) => ErrV::Return(dyn_view(d), p),
        EvalAltResult::ErrorInFunctionCall(n, src, inner, p) => ErrV::InFunctionCall(n@, src@, Box::new(err_view(*inner)), p),
        EvalAltResult::ErrorFor(p) => ErrV::For(p),
    }
}

impl View for EvalAltResult {
    type V = ErrV;

    open spec fn view(&self) -> ErrV {
        err_view(*self)
    }
}

/// The abstract value of a result.
pub open spec fn result_view(r: RhaiResult) -> Result<DynV, ErrV> {
    match r {
        Ok(d) => Ok(dyn_view(d)),
        Err(e) => Err(err_view(*e)),
    }
}

/// The abstract value of a result without a value.
pub open spec fn unit_result_view(r: RhaiResultOf<()>) -> Result<(), ErrV> {
    match r {
        Ok(_) => Ok(()),
        Err(e) => Err(err_view(*e)),
    }
}

/// The position of an error.
pub open spec fn err_position(e: ErrV) -> Position {
    match e {
        ErrV::Arithmetic(_, p) => p,
        ErrV::DataTooLarge(_, p) => p,
        ErrV::TooManyOperations(p) => p,
        ErrV::VariableNotFound(_, p) => p,
        ErrV::UnboundThis(p) => p,
        ErrV::AssignmentToConstant(_, p) => p,
        ErrV::MismatchDataType(_, _, p) => p,
        ErrV::MismatchOutputType(_, _, p) => p,
        ErrV::FunctionNotFound(_, p) => p,
        ErrV::VariableExists(_, p) => p,
        ErrV::Parsing(_, p) => p,
        ErrV::Runtime(_, p) => p,
        ErrV::LoopBreak(_, _, p) => p,
        ErrV::Return(_, p) => p,
        ErrV::InFunctionCall(_, _, _, p) => p,
        ErrV::For(p) => p,
    }
}

/// The error with its position replaced.
pub open spec fn err_with_position(e: ErrV, pos: Position) -> ErrV {
    match e {
        ErrV::Arithmetic(s, _) => ErrV::Arithmetic(s, pos),
        ErrV::DataTooLarge(s, _) => ErrV::DataTooLarge(s, pos),
        ErrV::TooManyOperations(_) => ErrV::TooManyOperations(pos),
        ErrV::VariableNotFound(s, _) => ErrV::VariableNotFound(s, pos),
        ErrV::UnboundThis(_) => ErrV::UnboundThis(pos),
        ErrV::AssignmentToConstant(s, _) => ErrV::AssignmentToConstant(s, pos),
        ErrV::MismatchDataType(a, b, _) => ErrV::MismatchDataType(a, b, pos),
        ErrV::MismatchOutputType(a, b, _) => ErrV::MismatchOutputType(a, b, pos),
        ErrV::FunctionNotFound(s, _) => ErrV::FunctionNotFound(s, pos),
        ErrV::VariableExists(s, _) => ErrV::VariableExists(s, pos),
        ErrV::Parsing(s, _) => ErrV::Parsing(s, pos),
        ErrV::Runtime(d, _) => ErrV::Runtime(d, pos),
        ErrV::LoopBreak(b, d, _) => ErrV::LoopBreak(b, d, pos),
        ErrV::Return(d, _) => ErrV::Return(d, pos),
        ErrV::InFunctionCall(n, src, inner, _) => ErrV::InFunctionCall(n, src, inner, pos),
        ErrV::For(_) => ErrV::For(pos),
    }
}

/// The error with its position filled in, if it has none yet.
pub open spec fn err_fill_position(e: ErrV, pos: Position) -> ErrV {
    if err_position(e).line == 0 {
        err_with_position(e, pos)
    } else {
        e
    }
}

impl EvalAltResult {
    /// The position of the error.
    pub fn position(&self) -> (r: Position)
        ensures
            r == err_position(self@),
    {
        match self {
            EvalAltResult::ErrorArithmetic(_, p) => *p,
            EvalAltResult::ErrorDataTooLarge(_, p) => *p,
            EvalAltResult::ErrorTooManyOperations(p) => *p,
            EvalAltResult::ErrorVariableNotFound(_, p) => *p,
            EvalAltResult::ErrorUnboundThis(p) => *p,
            EvalAltResult::ErrorAssignmentToConstant(_, p) => *p,
            EvalAltResult::ErrorMismatchDataType(_, _, p) => *p,
            EvalAltResult::ErrorMismatchOutputType(_, _, p) => *p,
            EvalAltResult::ErrorFunctionNotFound(_, p) => *p,
            EvalAltResult::ErrorVariableExists(_, p) => *p,
            EvalAltResult::ErrorParsing(_, p) => *p,
            EvalAltResult::ErrorRuntime(_, p) => *p,
            EvalAltResult::LoopBreak(_, _, p) => *p,
            EvalAltResult::Return(_, p) => *p,
            EvalAltResult::ErrorInFunctionCall(_, _, _, p) => *p,
            EvalAltResult::ErrorFor(p) => *p,
        }
    }

    /// Replace the position of the error.
    pub fn set_position(&mut self, pos: Position)
        ensures
            final(self)@ == err_with_position(old(self)@, pos),
    {
        match self {
            EvalAltResult::ErrorArithmetic(_, p) => *p = pos,
            EvalAltResult::ErrorDataTooLarge(_, p) => *p = pos,
            EvalAltResult::ErrorTooManyOperations(p) => *p = pos,
            EvalAltResult::ErrorVariableNotFound(_, p) => *p = pos,
            EvalAltResult::ErrorUnboundThis(p) => *p = pos,
            EvalAltResult::ErrorAssignmentToConstant(_, p) => *p = pos,
            EvalAltResult::ErrorMismatchDataType(_, _, p) => *p = pos,
            EvalAltResult::ErrorMismatchOutputType(_, _, p) => *p = pos,
            EvalAltResult::ErrorFunctionNotFound(_, p) => *p = pos,
            EvalAltResult::ErrorVariableExists(_, p) => *p = pos,
            EvalAltResult::ErrorParsing(_, p) => *p = pos,
            EvalAltResult::ErrorRuntime(_, p) => *p = pos,
            EvalAltResult::LoopBreak(_, _, p) => *p = pos,
            EvalAltResult::Return(_, p) => *p = pos,
            EvalAltResult::ErrorInFunctionCall(_, _, _, p) => *p = pos,
            EvalAltResult::ErrorFor(p) => *p = pos,
        }
    }

    /// Fill in the position of the error if it has none yet.
    pub fn fill_position(mut self: Box<Self>, pos: Position) -> (r: Box<EvalAltResult>)
        ensures
            r@ == err_fill_position(self@, pos),
    {
        if self.position().is_none() {
            self.set_position(pos);
        }
        self
    }
}

} // verus!
