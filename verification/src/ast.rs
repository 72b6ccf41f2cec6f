use vstd::prelude::*;

use crate::semantics::TypeName;
use crate::span::Span;

verus! {

/// The syntactic forms an expression can take.
pub enum Expr {
    Integer(i64),
    Neg(Box<Expression>),
    Add(Box<Expression>, Box<Expression>),
    Sub(Box<Expression>, Box<Expression>),
    Mult(Box<Expression>, Box<Expression>),
    Div(Box<Expression>, Box<Expression>),
    Mod(Box<Expression>, Box<Expression>),
    LessThan(Box<Expression>, Box<Expression>),
    LessOrEqual(Box<Expression>, Box<Expression>),
    GreaterThan(Box<Expression>, Box<Expression>),
    GreaterOrEqual(Box<Expression>, Box<Expression>),
    Equal(Box<Expression>, Box<Expression>),
    NotEqual(Box<Expression>, Box<Expression>),
    FuncCall(Box<Expression>, Vec<Expression>),
    Var(String),
    Assign(Box<Expression>, Box<Expression>),
    AddAssign(Box<Expression>, Box<Expression>),
    SubAssign(Box<Expression>, Box<Expression>),
    MulAssign(Box<Expression>, Box<Expression>),
    DivAssign(Box<Expression>, Box<Expression>),
    ModAssign(Box<Expression>, Box<Expression>),
}

/// An expression node together with the byte range it covers.
pub struct Expression {
    pub node: Expr,
    pub span: Span,
}

/// The statement forms the checker walks.
pub enum Statement {
    Let {
        name: String,
        data_type: Option<TypeName>,
        mutable: bool,
        value: Option<Expression>,
        span: Span,
    },
    Expr {
        expr: Expression,
    },
    If {
        cond: Expression,
        then_body: Vec<Statement>,
        else_body: Option<Vec<Statement>>,
        span: Span,
    },
    While {
        cond: Expression,
        body: Vec<Statement>,
        span: Span,
    },
    Return {
        value: Option<Expression>,
        span: Span,
    },
    Break {
        span: Span,
    },
    Continue {
        span: Span,
    },
}

/// One declared parameter of a function definition.
pub struct Param {
    pub name: String,
    pub data_type: TypeName,
    pub mutable: bool,
    pub span: Span,
}

/// A top-level function definition.
pub struct Function {
    pub name: String,
    pub params: Vec<Param>,
    pub return_type: TypeName,
    pub body: Vec<Statement>,
    pub span: Span,
}

/// A whole parsed source file: its top-level function definitions.
pub struct Program {
    pub functions: Vec<Function>,
}

} // verus!
