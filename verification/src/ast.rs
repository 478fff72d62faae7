use vstd::prelude::*;
use crate::dynamic::Dynamic;
use crate::position::Position;
use crate::token::Token;
use std::rc::Rc;

verus! {

/// An identifier: a name and its position.
#[derive(Debug)]
pub struct Ident {
    /// Identifier name.
    pub name: String,
    /// Position.
    pub pos: Position,
}

impl Ident {
    /// The name of the identifier.
    pub fn as_str(&self) -> (r: &str)
        ensures
            r@ == self.name@,
    {
        self.name.as_str()
    }

    /// Is the identifier empty?
    pub fn is_empty(&self) -> (r: bool)
        ensures
            r == (self.name@.len() == 0),
    {
        self.name.as_str().is_empty()
    }
}

/// A namespace path (`a::b::c`), with an optional index into the stack of imported modules
/// (zero: none).
#[derive(Debug)]
pub struct Namespace {
    /// The path.
    pub path: Vec<Ident>,
    /// Offset of the root module from the top of the imports stack (zero: unknown).
    pub index: usize,
}

impl Namespace {
    /// Is the path empty?
    pub fn is_empty(&self) -> (r: bool)
        ensures
            r == (self.path@.len() == 0),
    {
        self.path.len() == 0
    }

    /// The position of the root of the path.
    pub fn position(&self) -> (r: Position)
        requires
            self.path@.len() > 0,
        ensures
            r == self.path@[0].pos,
    {
        self.path[0].pos
    }

    /// The name of the root of the path.
    pub fn root(&self) -> (r: &str)
        requires
            self.path@.len() > 0,
        ensures
            r@ == self.path@[0].name@,
    {
        self.path[0].name.as_str()
    }
}

/// A reference to a variable.
#[derive(Debug)]
pub struct VariableRef {
    /// Offset of the variable from the end of the scope, counted from one (zero: unknown,
    /// search by name).
    pub index: usize,
    /// Name of the variable.
    pub name: String,
}

/// The operands of a binary expression.
#[derive(Debug)]
pub struct BinaryExpr {
    /// Left operand.
    pub lhs: Expr,
    /// Right operand.
    pub rhs: Expr,
}

/// A function call.
#[derive(Debug)]
pub struct FnCallExpr {
    /// Name of the function.
    pub name: String,
    /// Arguments.
    pub args: Vec<Expr>,
    /// The operator token, if the call is an operator.
    pub op_token: Option<Token>,
}

/// One property of an object-map literal.
#[derive(Debug)]
pub struct MapItem {
    /// Property name.
    pub key: Ident,
    /// Value expression.
    pub value: Expr,
}

/// An expression.
#[derive(Debug)]
pub enum Expr {
    /// A constant value.
    DynamicConstant(Box<Dynamic>, Position),
    /// A boolean constant.
    BoolConstant(bool, Position),
    /// An integer constant.
    IntegerConstant(i64, Position),
    /// A character constant.
    CharConstant(char, Position),
    /// A string constant.
    StringConstant(String, Position),
    /// An interpolated string: its parts, concatenated.
    InterpolatedString(Vec<Expr>, Position),
    /// An array literal.
    Array(Vec<Expr>, Position),
    /// An object-map literal: its properties in source order, and the names of all its
    /// properties in key order.
    ObjectMap(Vec<MapItem>, Vec<String>, Position),
    /// `()`
    Unit(Position),
    /// A variable.
    Variable(Box<VariableRef>, Position),
    /// A statements block used as an expression.
    Stmt(Vec<Stmt>, Position),
    /// A function call.
    FnCall(Box<FnCallExpr>, Position),
    /// `lhs && rhs`
    And(Box<BinaryExpr>, Position),
    /// `lhs || rhs`
    Or(Box<BinaryExpr>, Position),
    /// `lhs ?? rhs`
    Coalesce(Box<BinaryExpr>, Position),
}

/// The operator of an assignment: none for `=`, else the operator-assignment token and its
/// binary operator (`+=` and `+`).
#[derive(Debug)]
pub struct OpAssignment {
    /// The operators.
    pub op: Option<(Token, Token)>,
    /// Position of the operator.
    pub pos: Position,
}

/// A statement.
#[derive(Debug)]
pub enum Stmt {
    /// No-op.
    Noop(Position),
    /// `if expr { block } else { block }`
    If(Box<(Expr, Vec<Stmt>, Vec<Stmt>)>, Position),
    /// `while expr { block }` (`loop` when the condition is `()` or `true`).
    While(Box<(Expr, Vec<Stmt>)>, Position),
    /// `do { block } while expr`, or `do { block } until expr` when negated.
    Do(Box<(Expr, Vec<Stmt>)>, bool, Position),
    /// `let name = expr`, or `const name = expr` when constant.
    Var(Box<(Ident, Expr)>, bool, Position),
    /// `variable op= expr`: the operator, the variable and its position, and the value.
    Assignment(Box<(OpAssignment, VariableRef, Position, Expr)>, Position),
    /// A function call.
    FnCall(Box<FnCallExpr>, Position),
    /// `{ block }`
    Block(Vec<Stmt>, Position),
    /// An expression as a statement.
    Expr(Box<Expr>),
    /// `break` (when the flag is set, with an optional value) or `continue`.
    BreakLoop(Option<Box<Expr>>, bool, Position),
    /// `return` or, when the flag is set, `throw`, with an optional value.
    Return(Option<Box<Expr>>, bool, Position),
    /// `export name as alias` (the name itself when the alias is empty).
    Export(Box<(Ident, Ident)>, Position),
    /// `for var, counter in expr { block }` (no counter when its name is empty).
    For(Box<(Ident, Ident, Expr, Vec<Stmt>)>, Position),
    /// `try { block } catch (var) { block }` (no variable when its name is empty).
    TryCatch(Box<(Vec<Stmt>, Ident, Vec<Stmt>)>, Position),
}

/// The position of an expression.
pub open spec fn expr_pos(e: Expr) -> Position {
    match e {
        Expr::DynamicConstant(_, p) => p,
        Expr::BoolConstant(_, p) => p,
        Expr::IntegerConstant(_, p) => p,
        Expr::CharConstant(_, p) => p,
        Expr::StringConstant(_, p) => p,
        Expr::InterpolatedString(_, p) => p,
        Expr::Array(_, p) => p,
        Expr::ObjectMap(_, _, p) => p,
        Expr::Unit(p) => p,
        Expr::Variable(_, p) => p,
        Expr::Stmt(_, p) => p,
        Expr::FnCall(_, p) => p,
        Expr::And(_, p) => p,
        Expr::Or(_, p) => p,
        Expr::Coalesce(_, p) => p,
    }
}

/// The position of a statement.
pub open spec fn stmt_pos(s: Stmt) -> Position {
    match s {
        Stmt::Noop(p) => p,
        Stmt::If(_, p) => p,
        Stmt::While(_, p) => p,
        Stmt::Do(_, _, p) => p,
        Stmt::Var(_, _, p) => p,
        Stmt::Assignment(_, p) => p,
        Stmt::FnCall(_, p) => p,
        Stmt::Block(_, p) => p,
        Stmt::Expr(e) => expr_pos(*e),
        Stmt::BreakLoop(_, _, p) => p,
        Stmt::Return(_, _, p) => p,
        Stmt::Export(_, p) => p,
        Stmt::For(_, p) => p,
        Stmt::TryCatch(_, p) => p,
    }
}

impl Expr {
    /// The position of the expression.
    pub fn position(&self) -> (r: Position)
        ensures
            r == expr_pos(*self),
    {
        match self {
            Expr::DynamicConstant(_, p) => *p,
            Expr::BoolConstant(_, p) => *p,
            Expr::IntegerConstant(_, p) => *p,
            Expr::CharConstant(_, p) => *p,
            Expr::StringConstant(_, p) => *p,
            Expr::InterpolatedString(_, p) => *p,
            Expr::Array(_, p) => *p,
            Expr::ObjectMap(_, _, p) => *p,
            Expr::Unit(p) => *p,
            Expr::Variable(_, p) => *p,
            Expr::Stmt(_, p) => *p,
            Expr::FnCall(_, p) => *p,
            Expr::And(_, p) => *p,
            Expr::Or(_, p) => *p,
            Expr::Coalesce(_, p) => *p,
        }
    }

    /// The name of the variable, if the expression is a variable.
    pub fn get_variable_name(&self) -> (r: Option<&str>)
        ensures
            match *self {
                Expr::Variable(v, _) => r matches Some(n) && n@ == v.name@,
                _ => r is None,
            },
    {
        match self {
            Expr::Variable(v, _) => Some(v.name.as_str()),
            _ => None,
        }
    }
}

impl Stmt {
    /// The position of the statement.
    pub fn position(&self) -> (r: Position)
        ensures
            r == stmt_pos(*self),
    {
        match self {
            Stmt::Noop(p) => *p,
            Stmt::If(_, p) => *p,
            Stmt::While(_, p) => *p,
            Stmt::Do(_, _, p) => *p,
            Stmt::Var(_, _, p) => *p,
            Stmt::Assignment(_, p) => *p,
            Stmt::FnCall(_, p) => *p,
            Stmt::Block(_, p) => *p,
            Stmt::Expr(e) => e.position(),
            Stmt::BreakLoop(_, _, p) => *p,
            Stmt::Return(_, _, p) => *p,
            Stmt::Export(_, p) => *p,
            Stmt::For(_, p) => *p,
            Stmt::TryCatch(_, p) => *p,
        }
    }
}

/// Access of a script-defined function.
#[derive(PartialEq, Eq, Structural, Clone, Copy, Debug)]
pub enum FnAccess {
    /// Callable from outside its module.
    Public,
    /// Callable only within its module.
    Private,
}

/// A script-defined function.
#[derive(Debug)]
pub struct ScriptFuncDef {
    /// Function name.
    pub name: String,
    /// Function access mode.
    pub access: FnAccess,
    /// Names of the parameters.
    pub params: Vec<String>,
    /// Function body.
    pub body: Vec<Stmt>,
    /// Documentation comments.
    pub comments: Vec<String>,
}

/// A compiled script: its statements, the functions it defines and the source it came from.
#[derive(Debug)]
pub struct AST {
    /// Source of the script, if any.
    pub source: Option<String>,
    /// The statements.
    pub body: Vec<Stmt>,
    /// The functions defined by the script.
    pub lib: Vec<Rc<ScriptFuncDef>>,
}

impl AST {
    /// A script of the given statements and functions, without source.
    pub fn new(statements: Vec<Stmt>, functions: Vec<Rc<ScriptFuncDef>>) -> (r: AST)
        ensures
            r.source is None,
            r.body == statements,
            r.lib == functions,
    {
        AST { source: None, body: statements, lib: functions }
    }

    /// The statements of the script.
    pub fn statements(&self) -> (r: &Vec<Stmt>)
        ensures
            r == self.body,
    {
        &self.body
    }
}

} // verus!
