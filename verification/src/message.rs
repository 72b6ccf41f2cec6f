use vstd::prelude::*;

use crate::semantics::{FuncSig, FuncSigV, TypeName};
use crate::span::Span;

verus! {

/// How serious a recorded message is.  Only `Error` blocks compilation.
#[derive(Clone, Copy, PartialEq, Eq, Structural, Debug)]
pub enum Severity {
    Error,
    Warning,
    Hint,
    Info,
}

/// What a diagnostic says, as data rather than prose: the user-facing text
/// is derived from it by [`Code::text`].
pub enum Code {
    /// An integer literal above the largest signed 2-byte value.
    TooLargeInt,
    /// A negated integer literal below the smallest signed 2-byte value.
    TooSmallInt,
    /// Unary arithmetic on a non-`int` operand of the given type.
    UnaryArithmetic(TypeName),
    /// Binary arithmetic or comparison on the given operand types.
    BinaryArithmetic(TypeName, TypeName),
    /// Division or remainder by a literal zero.
    DivisionByZero,
    /// A call names a function no scope declares.
    UndeclaredFunction(String),
    /// A call passes the wrong number of arguments: name, expected, got.
    ArityMismatch(String, usize, usize),
    /// The full signature of the function a bad call refers to.
    SignatureHint(String, FuncSig),
    /// The callee of a call is not a simple identifier.
    CompositeFunctionName,
    /// A reference names a variable no scope declares.
    UndeclaredVariable(String),
    /// A read of an immutable binding, reported in language-server mode.
    ConstantUse(String),
    /// An assignment to an immutable binding.
    ImmutableAssign(String),
    /// The assigned value's type does not match the variable's: found, expected.
    AssignTypeMismatch(TypeName, TypeName),
    /// The target of an assignment is not a simple identifier.
    InvalidAssignTarget,
    /// A variable declared with a type that cannot hold a value.
    InvalidVariableType(TypeName),
    /// `break` outside any loop.
    BreakOutsideLoop,
    /// `continue` outside any loop.
    ContinueOutsideLoop,
    /// `return` outside any function body.
    ReturnOutsideFunction,
    /// A `return` whose value does not match the declared type: found, expected.
    ReturnTypeMismatch(TypeName, TypeName),
}

/// Mathematical model of a [`Code`].
pub enum CodeV {
    TooLargeInt,
    TooSmallInt,
    UnaryArithmetic(TypeName),
    BinaryArithmetic(TypeName, TypeName),
    DivisionByZero,
    UndeclaredFunction(Seq<char>),
    ArityMismatch(Seq<char>, int, int),
    SignatureHint(Seq<char>, FuncSigV),
    CompositeFunctionName,
    UndeclaredVariable(Seq<char>),
    ConstantUse(Seq<char>),
    ImmutableAssign(Seq<char>),
    AssignTypeMismatch(TypeName, TypeName),
    InvalidAssignTarget,
    InvalidVariableType(TypeName),
    BreakOutsideLoop,
    ContinueOutsideLoop,
    ReturnOutsideFunction,
    ReturnTypeMismatch(TypeName, TypeName),
}

impl View for Code {
    type V = CodeV;

    open spec fn view(&self) -> CodeV {
        match self {
            Code::TooLargeInt => CodeV::TooLargeInt,
            Code::TooSmallInt => CodeV::TooSmallInt,
            Code::UnaryArithmetic(t) => CodeV::UnaryArithmetic(*t),
            Code::BinaryArithmetic(t1, t2) => CodeV::BinaryArithmetic(*t1, *t2),
            Code::DivisionByZero => CodeV::DivisionByZero,
            Code::UndeclaredFunction(n) => CodeV::UndeclaredFunction(n@),
            Code::ArityMismatch(n, e, g) => CodeV::ArityMismatch(n@, *e as int, *g as int),
            Code::SignatureHint(n, f) => CodeV::SignatureHint(n@, f@),
            Code::CompositeFunctionName => CodeV::CompositeFunctionName,
            Code::UndeclaredVariable(n) => CodeV::UndeclaredVariable(n@),
            Code::ConstantUse(n) => CodeV::ConstantUse(n@),
            Code::ImmutableAssign(n) => CodeV::ImmutableAssign(n@),
            Code::AssignTypeMismatch(t1, t2) => CodeV::AssignTypeMismatch(*t1, *t2),
            Code::InvalidAssignTarget => CodeV::InvalidAssignTarget,
            Code::InvalidVariableType(t) => CodeV::InvalidVariableType(*t),
            Code::BreakOutsideLoop => CodeV::BreakOutsideLoop,
            Code::ContinueOutsideLoop => CodeV::ContinueOutsideLoop,
            Code::ReturnOutsideFunction => CodeV::ReturnOutsideFunction,
            Code::ReturnTypeMismatch(t1, t2) => CodeV::ReturnTypeMismatch(*t1, *t2),
        }
    }
}

/// The written name of a type, as it appears in messages.
pub open spec fn type_text(t: TypeName) -> Seq<char> {
    match t {
        TypeName::Int => "int"@,
        TypeName::Void => "void"@,
    }
}

pub open spec fn digit_char(d: int) -> char {
    if d == 0 {
        '0'
    } else if d == 1 {
        '1'
    } else if d == 2 {
        '2'
    } else if d == 3 {
        '3'
    } else if d == 4 {
        '4'
    } else if d == 5 {
        '5'
    } else if d == 6 {
        '6'
    } else if d == 7 {
        '7'
    } else if d == 8 {
        '8'
    } else {
        '9'
    }
}

/// The decimal digits of a non-negative number, most significant first.
pub open spec fn dec_digits(n: int) -> Seq<char>
    recommends
        n >= 0,
    decreases n,
{
    if n < 10 {
        seq![digit_char(n)]
    } else {
        dec_digits(n / 10).push(digit_char(n % 10))
    }
}

/// A comma-separated list of parameter type names.
pub open spec fn params_text(ps: Seq<TypeName>) -> Seq<char>
    decreases ps.len(),
{
    if ps.len() == 0 {
        Seq::empty()
    } else if ps.len() == 1 {
        type_text(ps[0])
    } else {
        params_text(ps.drop_last()) + ", "@ + type_text(ps.last())
    }
}

/// The exact user-facing text of each diagnostic.
pub open spec fn code_text(c: CodeV) -> Seq<char> {
    match c {
        CodeV::TooLargeInt => "Value exceeds the maximum for a signed 2-byte integer (max 32767)"@,
        CodeV::TooSmallInt => "Value exceeds the minimum for a signed 2-byte integer (min -32768)"@,
        CodeV::UnaryArithmetic(t) => "Cannot perform arithmetic on type `"@ + type_text(t) + "`"@,
        CodeV::BinaryArithmetic(t1, t2) => "Cannot perform arithmetic on types `"@ + type_text(t1)
            + "` and `"@ + type_text(t2) + "`"@,
        CodeV::DivisionByZero => "Division by zero"@,
        CodeV::UndeclaredFunction(n) => "Use of undeclared function `"@ + n + "`"@,
        CodeV::ArityMismatch(n, e, g) => "Expected "@ + dec_digits(e) + (
        if e == 1 {
            " argument to function `"@
        } else {
            " arguments to function `"@
        }) + n + "`, got "@ + dec_digits(g),
        CodeV::SignatureHint(n, f) => "Function signature is `"@ + n + "("@ + params_text(
            f.param_types,
        ) + ") -> "@ + type_text(f.return_type) + "`"@,
        CodeV::CompositeFunctionName => "Composite function names are not supported yet"@,
        CodeV::UndeclaredVariable(n) => "Use of undeclared variable `"@ + n + "`"@,
        CodeV::ConstantUse(n) => "Use of the constant `"@ + n + "`"@,
        CodeV::ImmutableAssign(n) => "Cannot assign to immutable variable `"@ + n + "`"@,
        CodeV::AssignTypeMismatch(t1, t2) => "Cannot assign a value of type `"@ + type_text(t1)
            + "` to a variable of type `"@ + type_text(t2) + "`"@,
        CodeV::InvalidAssignTarget => "Invalid assignment target"@,
        CodeV::InvalidVariableType(t) => "Cannot declare a variable of type `"@ + type_text(t)
            + "`"@,
        CodeV::BreakOutsideLoop => "`break` outside of a loop"@,
        CodeV::ContinueOutsideLoop => "`continue` outside of a loop"@,
        CodeV::ReturnOutsideFunction => "`return` outside of a function"@,
        CodeV::ReturnTypeMismatch(t1, t2) => "Cannot return a value of type `"@ + type_text(t1)
            + "` from a function returning `"@ + type_text(t2) + "`"@,
    }
}

/// The written name of a type.
pub fn type_str(t: TypeName) -> (s: &'static str)
    ensures
        s@ == type_text(t),
{
    match t {
        TypeName::Int => "int",
        TypeName::Void => "void",
    }
}

fn digit_str(d: u64) -> (s: &'static str)
    requires
        d < 10,
    ensures
        s@ == seq![digit_char(d as int)],
{
    match d {
        0 => {
            proof {
                reveal_strlit("0");
                assert("0"@ =~= seq![digit_char(0)]);
            }
            "0"
        },
        1 => {
            proof {
                reveal_strlit("1");
                assert("1"@ =~= seq![digit_char(1)]);
            }
            "1"
        },
        2 => {
            proof {
                reveal_strlit("2");
                assert("2"@ =~= seq![digit_char(2)]);
            }
            "2"
        },
        3 => {
            proof {
                reveal_strlit("3");
                assert("3"@ =~= seq![digit_char(3)]);
            }
            "3"
        },
        4 => {
            proof {
                reveal_strlit("4");
                assert("4"@ =~= seq![digit_char(4)]);
            }
            "4"
        },
        5 => {
            proof {
                reveal_strlit("5");
                assert("5"@ =~= seq![digit_char(5)]);
            }
            "5"
        },
        6 => {
            proof {
                reveal_strlit("6");
                assert("6"@ =~= seq![digit_char(6)]);
            }
            "6"
        },
        7 => {
            proof {
                reveal_strlit("7");
                assert("7"@ =~= seq![digit_char(7)]);
            }
            "7"
        },
        8 => {
            proof {
                reveal_strlit("8");
                assert("8"@ =~= seq![digit_char(8)]);
            }
            "8"
        },
        _ => {
            proof {
                reveal_strlit("9");
                assert("9"@ =~= seq![digit_char(9)]);
            }
            "9"
        },
    }
}

/// The decimal rendering of a number.
pub fn dec_string(n: u64) -> (s: String)
    ensures
        s@ == dec_digits(n as int),
    decreases n,
{
    if n < 10 {
        String::from_str(digit_str(n))
    } else {
        let mut s = dec_string(n / 10);
        s.append(digit_str(n % 10));
        proof {
            assert(s@ =~= dec_digits(n as int));
        }
        s
    }
}

fn params_string(ps: &Vec<TypeName>) -> (s: String)
    ensures
        s@ == params_text(ps@),
{
    let mut s = String::new();
    let mut i: usize = 0;
    while i < ps.len()
        invariant
            i <= ps.len(),
            s@ == params_text(ps@.subrange(0, i as int)),
        decreases ps.len() - i,
    {
        if i > 0 {
            s.append(", ");
        }
        s.append(type_str(ps[i]));
        i = i + 1;
        proof {
            let pre = ps@.subrange(0, i as int);
            assert(pre.drop_last() =~= ps@.subrange(0, i - 1 as int));
            assert(pre.last() == ps@[i - 1 as int]);
            if i == 1 {
                assert(s@ =~= params_text(pre));
            } else {
                assert(s@ =~= params_text(pre));
            }
        }
    }
    proof {
        assert(ps@.subrange(0, ps@.len() as int) =~= ps@);
    }
    s
}

impl Code {
    /// Render the message exactly as it is shown to the user.
    pub fn text(&self) -> (s: String)
        ensures
            s@ == code_text(self@),
    {
        match self {
            Code::TooLargeInt => String::from_str(
                "Value exceeds the maximum for a signed 2-byte integer (max 32767)",
            ),
            Code::TooSmallInt => String::from_str(
                "Value exceeds the minimum for a signed 2-byte integer (min -32768)",
            ),
            Code::UnaryArithmetic(t) => {
                let mut s = String::from_str("Cannot perform arithmetic on type `");
                s.append(type_str(*t));
                s.append("`");
                proof {
                    assert(s@ =~= code_text(self@));
                }
                s
            },
            Code::BinaryArithmetic(t1, t2) => {
                let mut s = String::from_str("Cannot perform arithmetic on types `");
                s.append(type_str(*t1));
                s.append("` and `");
                s.append(type_str(*t2));
                s.append("`");
                proof {
                    assert(s@ =~= code_text(self@));
                }
                s
            },
            Code::DivisionByZero => String::from_str("Division by zero"),
            Code::UndeclaredFunction(n) => {
                let mut s = String::from_str("Use of undeclared function `");
                s.append(n.as_str());
                s.append("`");
                proof {
                    assert(s@ =~= code_text(self@));
                }
                s
            },
            Code::ArityMismatch(n, e, g) => {
                let mut s = String::from_str("Expected ");
                let num = dec_string(*e as u64);
                s.append(num.as_str());
                if *e == 1 {
                    s.append(" argument to function `");
                } else {
                    s.append(" arguments to function `");
                }
                s.append(n.as_str());
                s.append("`, got ");
                let num2 = dec_string(*g as u64);
                s.append(num2.as_str());
                proof {
                    assert(s@ =~= code_text(self@));
                }
                s
            },
            Code::SignatureHint(n, f) => {
                let mut s = String::from_str("Function signature is `");
                s.append(n.as_str());
                s.append("(");
                let ps = params_string(&f.param_types);
                s.append(ps.as_str());
                s.append(") -> ");
                s.append(type_str(f.return_type));
                s.append("`");
                proof {
                    assert(s@ =~= code_text(self@));
                }
                s
            },
            Code::CompositeFunctionName => String::from_str(
                "Composite function names are not supported yet",
            ),
            Code::UndeclaredVariable(n) => {
                let mut s = String::from_str("Use of undeclared variable `");
                s.append(n.as_str());
                s.append("`");
                proof {
                    assert(s@ =~= code_text(self@));
                }
                s
            },
            Code::ConstantUse(n) => {
                let mut s = String::from_str("Use of the constant `");
                s.append(n.as_str());
                s.append("`");
                proof {
                    assert(s@ =~= code_text(self@));
                }
                s
            },
            Code::ImmutableAssign(n) => {
                let mut s = String::from_str("Cannot assign to immutable variable `");
                s.append(n.as_str());
                s.append("`");
                proof {
                    assert(s@ =~= code_text(self@));
                }
                s
            },
            Code::AssignTypeMismatch(t1, t2) => {
                let mut s = String::from_str("Cannot assign a value of type `");
                s.append(type_str(*t1));
                s.append("` to a variable of type `");
                s.append(type_str(*t2));
                s.append("`");
                proof {
                    assert(s@ =~= code_text(self@));
                }
                s
            },
            Code::InvalidAssignTarget => String::from_str("Invalid assignment target"),
            Code::InvalidVariableType(t) => {
                let mut s = String::from_str("Cannot declare a variable of type `");
                s.append(type_str(*t));
                s.append("`");
                proof {
                    assert(s@ =~= code_text(self@));
                }
                s
            },
            Code::BreakOutsideLoop => String::from_str("`break` outside of a loop"),
            Code::ContinueOutsideLoop => String::from_str("`continue` outside of a loop"),
            Code::ReturnOutsideFunction => String::from_str("`return` outside of a function"),
            Code::ReturnTypeMismatch(t1, t2) => {
                let mut s = String::from_str("Cannot return a value of type `");
                s.append(type_str(*t1));
                s.append("` from a function returning `");
                s.append(type_str(*t2));
                s.append("`");
                proof {
                    assert(s@ =~= code_text(self@));
                }
                s
            },
        }
    }
}

/// One recorded message: severity, content, and an optional anchor into the
/// source text.  A missing span marks an end-of-file condition.
pub struct Diagnostic {
    pub kind: Severity,
    pub code: Code,
    pub span: Option<Span>,
}

/// Mathematical model of a diagnostic.
pub struct DiagV {
    pub kind: Severity,
    pub code: CodeV,
    pub span: Option<Span>,
}

impl View for Diagnostic {
    type V = DiagV;

    open spec fn view(&self) -> DiagV {
        DiagV { kind: self.kind, code: self.code@, span: self.span }
    }
}

pub open spec fn err_diag(code: CodeV, span: Option<Span>) -> DiagV {
    DiagV { kind: Severity::Error, code, span }
}

pub open spec fn warn_diag(code: CodeV, span: Option<Span>) -> DiagV {
    DiagV { kind: Severity::Warning, code, span }
}

pub open spec fn hint_diag(code: CodeV, span: Option<Span>) -> DiagV {
    DiagV { kind: Severity::Hint, code, span }
}

/// Some recorded message is an error.
pub open spec fn contains_error(ds: Seq<DiagV>) -> bool {
    exists|i: int| 0 <= i < ds.len() && ds[i].kind == Severity::Error
}

/// Order-preserving collector of diagnostics for one analysis run, with a
/// sticky has-an-error-occurred flag.
pub struct Sink {
    diags: Vec<Diagnostic>,
    did_error: bool,
}

impl View for Sink {
    type V = Seq<DiagV>;

    closed spec fn view(&self) -> Seq<DiagV> {
        self.diags@.map_values(|d: Diagnostic| d@)
    }
}

impl Sink {
    /// The flag agrees with the recorded messages.
    pub closed spec fn wf(&self) -> bool {
        self.did_error == contains_error(self@)
    }

    pub fn new() -> (s: Sink)
        ensures
            s@ == Seq::<DiagV>::empty(),
            s.wf(),
    {
        let s = Sink { diags: Vec::new(), did_error: false };
        proof {
            assert(s@ =~= Seq::<DiagV>::empty());
        }
        s
    }

    /// Append one message; an `Error` sets the sticky flag for good.
    pub fn record(&mut self, kind: Severity, code: Code, span: Option<Span>)
        requires
            old(self).wf(),
        ensures
            final(self).wf(),
            final(self)@ == old(self)@.push(DiagV { kind, code: code@, span }),
    {
        let ghost d0 = self@;
        let ghost d = DiagV { kind, code: code@, span };
        let is_err = kind == Severity::Error;
        self.diags.push(Diagnostic { kind, code, span });
        if is_err {
            self.did_error = true;
        }
        proof {
            assert(self@ =~= d0.push(d));
            if kind == Severity::Error {
                assert(self@[d0.len() as int].kind == Severity::Error);
                assert(contains_error(self@));
            } else if contains_error(d0) {
                let i = choose|i: int| 0 <= i < d0.len() && d0[i].kind == Severity::Error;
                assert(self@[i].kind == Severity::Error);
                assert(contains_error(self@));
            } else {
                assert forall|i: int| 0 <= i < self@.len() implies self@[i].kind
                    != Severity::Error by {
                    if i < d0.len() {
                        assert(d0[i] == self@[i]);
                    }
                }
            }
        }
    }

    /// Record an error and set the global errored flag.
    pub fn error(&mut self, code: Code, span: Option<Span>)
        requires
            old(self).wf(),
        ensures
            final(self).wf(),
            final(self)@ == old(self)@.push(err_diag(code@, span)),
    {
        self.record(Severity::Error, code, span);
    }

    /// Record a non-blocking warning.
    pub fn warning(&mut self, code: Code, span: Option<Span>)
        requires
            old(self).wf(),
        ensures
            final(self).wf(),
            final(self)@ == old(self)@.push(warn_diag(code@, span)),
    {
        self.record(Severity::Warning, code, span);
    }

    /// Record supplementary detail for the message recorded just before it.
    pub fn hint(&mut self, code: Code, span: Option<Span>)
        requires
            old(self).wf(),
        ensures
            final(self).wf(),
            final(self)@ == old(self)@.push(hint_diag(code@, span)),
    {
        self.record(Severity::Hint, code, span);
    }

    /// Whether any error has been recorded since the collector was created.
    pub fn errored(&self) -> (r: bool)
        requires
            self.wf(),
        ensures
            r == contains_error(self@),
    {
        self.did_error
    }

    pub fn len(&self) -> (n: usize)
        ensures
            n == self@.len(),
    {
        self.diags.len()
    }

    pub fn get(&self, i: usize) -> (d: &Diagnostic)
        requires
            i < self@.len(),
        ensures
            d@ == self@[i as int],
    {
        &self.diags[i]
    }
}

} // verus!
