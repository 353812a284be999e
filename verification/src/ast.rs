use vstd::prelude::*;

verus! {

/// Binary operators of the language.
#[derive(Debug, Clone, Copy, PartialEq, Eq, Structural)]
pub enum BOP {
    Or,
    NOr,
    XOr,
    And,
    NAnd,
    Is,
    Isnt,
    Less,
    LessOrEqual,
    Greater,
    GreaterOrEqual,
    Plus,
    Minus,
    Times,
    ElemTimes,
    Divide,
    ElemDivide,
    Modulus,
    Power,
    ElemPower,
}

/// Unary operators of the language; `Factorial` is written after its operand.
#[derive(Debug, Clone, Copy, PartialEq, Eq, Structural)]
pub enum UOP {
    Negate,
    Not,
    Factorial,
}

/// The tokens that the lexer hands to the parser.
#[derive(Debug, Clone, PartialEq)]
pub enum Lexeme {
    NewLine,
    Semicolon,
    Comma,
    /// A name.
    Handle(String),
    /// A numeric literal, as written.
    Number(String),
    StringLiteral(String),
    /// `=`
    Assign,
    /// An operator followed by `=`, such as `+=`.
    AssignOp(BOP),
    /// `:=`, which binds a constant.
    Let,
    /// `->`
    RightArrow,
    For,
    As,
    At,
    If,
    While,
    BinaryOp(BOP),
    UnaryOp(UOP),
    /// `(`, which opens an argument list or a parenthesised expression.
    OArgList,
    OScope,
    OMatrix,
    /// `[` of an inclusive range.
    ORangeIn,
    /// `(` of an exclusive range.
    ORangeEx,
    OUnit,
    OList,
    ONorm,
    ODeterminant,
    CParen,
    CBraket,
    CBrace,
    CNorm,
    CDeterminant,
}

/// An arithmetic expression.
#[allow(inconsistent_fields)]
#[derive(Debug, PartialEq)]
pub enum Arith {
    Binary { op: BOP, e1: Box<Arith>, e2: Box<Arith> },
    Unary { op: UOP, e1: Box<Arith> },
    Handle(String),
    Number(String),
    StringLiteral(String),
}

/// The left-hand side of a `for ... as` or `for ... at` clause.
#[derive(Debug, PartialEq)]
pub enum Decomposition {
    Name(String),
    List(Vec<Decomposition>),
}

/// A statement.
#[derive(Debug, PartialEq)]
pub enum Control {
    AssignVariable { name: String, e1: Box<Arith> },
    AssignVariableBOP { name: String, op: BOP, e1: Box<Arith> },
    AssignConstant { name: String, e1: Box<Arith> },
    AssignFunction { name: String, args: Vec<String>, body: Box<Arith> },
    StateValue { e1: Box<Arith> },
    For { range: Box<Arith>, body: Box<Arith> },
    ForAs { range: Box<Arith>, target: Box<Decomposition>, body: Box<Arith> },
    ForAt { range: Box<Arith>, index: Box<Decomposition>, body: Box<Arith> },
    ForAsAt {
        range: Box<Arith>,
        target: Box<Decomposition>,
        index: Box<Decomposition>,
        body: Box<Arith>,
    },
    Empty,
}

/// A sequence of statements.
#[derive(Debug, PartialEq)]
pub struct Scope {
    pub statements: Vec<Box<Control>>,
}

} // verus!
