use vstd::prelude::*;

verus! {

/// Operator tokens of the language.
#[derive(PartialEq, Eq, Structural, Clone, Copy, Debug)]
pub enum Token {
    /// `+`
    Plus,
    /// `-`
    Minus,
    /// `*`
    Multiply,
    /// `/`
    Divide,
    /// `%`
    Modulo,
    /// `**`
    PowerOf,
    /// `<<`
    LeftShift,
    /// `>>`
    RightShift,
    /// `==`
    EqualsTo,
    /// `!=`
    NotEqualsTo,
    /// `>`
    GreaterThan,
    /// `>=`
    GreaterThanEqualsTo,
    /// `<`
    LessThan,
    /// `<=`
    LessThanEqualsTo,
    /// `&`
    Ampersand,
    /// `|`
    Pipe,
    /// `^`
    XOr,
    /// `..`
    ExclusiveRange,
    /// `..=`
    InclusiveRange,
    /// `=`
    Equals,
    /// `+=`
    PlusAssign,
    /// `-=`
    MinusAssign,
    /// `*=`
    MultiplyAssign,
    /// `/=`
    DivideAssign,
    /// `%=`
    ModuloAssign,
    /// `**=`
    PowerOfAssign,
    /// `<<=`
    LeftShiftAssign,
    /// `>>=`
    RightShiftAssign,
    /// `&=`
    AndAssign,
    /// `|=`
    OrAssign,
    /// `^=`
    XOrAssign,
}

/// The text of a token.
pub open spec fn token_syntax(t: Token) -> Seq<char> {
    match t {
        Token::Plus => "+"@,
        Token::Minus => "-"@,
        Token::Multiply => "*"@,
        Token::Divide => "/"@,
        Token::Modulo => "%"@,
        Token::PowerOf => "**"@,
        Token::LeftShift => "<<"@,
        Token::RightShift => ">>"@,
        Token::EqualsTo => "=="@,
        Token::NotEqualsTo => "!="@,
        Token::GreaterThan => ">"@,
        Token::GreaterThanEqualsTo => ">="@,
        Token::LessThan => "<"@,
        Token::LessThanEqualsTo => "<="@,
        Token::Ampersand => "&"@,
        Token::Pipe => "|"@,
        Token::XOr => "^"@,
        Token::ExclusiveRange => ".."@,
        Token::InclusiveRange => "..="@,
        Token::Equals => "="@,
        Token::PlusAssign => "+="@,
        Token::MinusAssign => "-="@,
        Token::MultiplyAssign => "*="@,
        Token::DivideAssign => "/="@,
        Token::ModuloAssign => "%="@,
        Token::PowerOfAssign => "**="@,
        Token::LeftShiftAssign => "<<="@,
        Token::RightShiftAssign => ">>="@,
        Token::AndAssign => "&="@,
        Token::OrAssign => "|="@,
        Token::XOrAssign => "^="@,
    }
}

impl Token {
    /// The text of the token.
    pub fn literal_syntax(&self) -> (r: &'static str)
        ensures
            r@ == token_syntax(*self),
    {
        match self {
            Token::Plus => "+",
            Token::Minus => "-",
            Token::Multiply => "*",
            Token::Divide => "/",
            Token::Modulo => "%",
            Token::PowerOf => "**",
            Token::LeftShift => "<<",
            Token::RightShift => ">>",
            Token::EqualsTo => "==",
            Token::NotEqualsTo => "!=",
            Token::GreaterThan => ">",
            Token::GreaterThanEqualsTo => ">=",
            Token::LessThan => "<",
            Token::LessThanEqualsTo => "<=",
            Token::Ampersand => "&",
            Token::Pipe => "|",
            Token::XOr => "^",
            Token::ExclusiveRange => "..",
            Token::InclusiveRange => "..=",
            Token::Equals => "=",
            Token::PlusAssign => "+=",
            Token::MinusAssign => "-=",
            Token::MultiplyAssign => "*=",
            Token::DivideAssign => "/=",
            Token::ModuloAssign => "%=",
            Token::PowerOfAssign => "**=",
            Token::LeftShiftAssign => "<<=",
            Token::RightShiftAssign => ">>=",
            Token::AndAssign => "&=",
            Token::OrAssign => "|=",
            Token::XOrAssign => "^=",
        }
    }

    /// The binary operator of an operator-assignment token (`+=` gives `+`).
    pub fn get_base_op_from_assignment(&self) -> (r: Option<Token>)
        ensures
            r == base_op(*self),
    {
        match self {
            Token::PlusAssign => Some(Token::Plus),
            Token::MinusAssign => Some(Token::Minus),
            Token::MultiplyAssign => Some(Token::Multiply),
            Token::DivideAssign => Some(Token::Divide),
            Token::ModuloAssign => Some(Token::Modulo),
            Token::PowerOfAssign => Some(Token::PowerOf),
            Token::LeftShiftAssign => Some(Token::LeftShift),
            Token::RightShiftAssign => Some(Token::RightShift),
            Token::AndAssign => Some(Token::Ampersand),
            Token::OrAssign => Some(Token::Pipe),
            Token::XOrAssign => Some(Token::XOr),
            _ => None,
        }
    }
}

/// The binary operator of an operator-assignment token.
pub open spec fn base_op(t: Token) -> Option<Token> {
    match t {
        Token::PlusAssign => Some(Token::Plus),
        Token::MinusAssign => Some(Token::Minus),
        Token::MultiplyAssign => Some(Token::Multiply),
        Token::DivideAssign => Some(Token::Divide),
        Token::ModuloAssign => Some(Token::Modulo),
        Token::PowerOfAssign => Some(Token::PowerOf),
        Token::LeftShiftAssign => Some(Token::LeftShift),
        Token::RightShiftAssign => Some(Token::RightShift),
        Token::AndAssign => Some(Token::Ampersand),
        Token::OrAssign => Some(Token::Pipe),
        Token::XOrAssign => Some(Token::XOr),
        _ => None,
    }
}

} // verus!
