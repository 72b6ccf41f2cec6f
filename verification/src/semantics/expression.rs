use vstd::prelude::*;

use crate::ast::{Expr, Expression};
use crate::message::{contains_error, err_diag, hint_diag, warn_diag, Code, CodeV, DiagV, Severity, Sink};
use crate::semantics::{lookup_fn, lookup_var, st_mark, Analyzer, StV, TypeName};
use crate::span::Span;

verus! {

/// What analyzing one expression yields: the inferred type, the symbol
/// state after the walk, and the diagnostics emitted, in order.
pub struct ERes {
    pub ty: TypeName,
    pub st: StV,
    pub diags: Seq<DiagV>,
}

/// What analyzing a list of expressions yields.
pub struct FRes {
    pub st: StV,
    pub diags: Seq<DiagV>,
}

/// The one arithmetic-type error a binary rule emits when an operand is not
/// `int`, naming both observed types.
pub open spec fn arith_diag(span: Span, t1: TypeName, t2: TypeName) -> Seq<DiagV> {
    if t1 != TypeName::Int || t2 != TypeName::Int {
        seq![err_diag(CodeV::BinaryArithmetic(t1, t2), Some(span))]
    } else {
        Seq::empty()
    }
}

/// The one division-by-zero error, anchored to the right operand, when that
/// operand is syntactically the literal zero.
pub open spec fn div_zero_diag(b: Expression) -> Seq<DiagV> {
    match b.node {
        Expr::Integer(v) => if v == 0 {
            seq![err_diag(CodeV::DivisionByZero, Some(b.span))]
        } else {
            Seq::empty()
        },
        _ => Seq::empty(),
    }
}

/// Combine the two operand results of a binary form: the form itself is
/// always `int`, and the diagnostics follow the operands' own.
pub open spec fn bin_res(span: Span, ra: ERes, rb: ERes, div_like: bool, b: Expression) -> ERes {
    ERes {
        ty: TypeName::Int,
        st: rb.st,
        diags: ra.diags + rb.diags + arith_diag(span, ra.ty, rb.ty) + if div_like {
            div_zero_diag(b)
        } else {
            Seq::empty()
        },
    }
}

/// What the shared assignment rule does once the assigned value's type is
/// known: resolve the target, check mutability and type, count the write.
pub open spec fn assign_post(espan: Span, target: Expression, vty: TypeName, st: StV) -> ERes {
    match target.node {
        Expr::Var(name) => match lookup_var(st.scopes, name@) {
            None => ERes {
                ty: TypeName::Void,
                st,
                diags: seq![err_diag(CodeV::UndeclaredVariable(name@), Some(target.span))],
            },
            Some(v) => ERes {
                ty: TypeName::Void,
                st: st_mark(st, name@, false),
                diags: (if !v.mutable {
                    seq![err_diag(CodeV::ImmutableAssign(name@), Some(target.span))]
                } else {
                    Seq::empty()
                }) + (if vty != v.data_type {
                    seq![err_diag(CodeV::AssignTypeMismatch(vty, v.data_type), Some(espan))]
                } else {
                    Seq::empty()
                }),
            },
        },
        _ => ERes {
            ty: TypeName::Void,
            st,
            diags: seq![err_diag(CodeV::InvalidAssignTarget, Some(target.span))],
        },
    }
}

/// An assignment form: the value's result, then the shared assignment rule.
pub open spec fn asn_res(espan: Span, target: Expression, rv: ERes) -> ERes {
    let ar = assign_post(espan, target, rv.ty, rv.st);
    ERes { ty: ar.ty, st: ar.st, diags: rv.diags + ar.diags }
}

/// The meaning of analyzing one expression: a pure, recursive restatement of
/// every per-node rule.  The executable walk is proved equal to it.
pub open spec fn spec_analyze(e: Expression, st: StV) -> ERes
    decreases e,
{
    match e.node {
        Expr::Integer(v) => ERes {
            ty: TypeName::Int,
            st,
            diags: if v > 32767 {
                seq![err_diag(CodeV::TooLargeInt, Some(e.span))]
            } else {
                Seq::empty()
            },
        },
        Expr::Neg(inner) => match inner.node {
            Expr::Integer(v) => ERes {
                ty: TypeName::Int,
                st,
                diags: if v > 32768 {
                    seq![err_diag(CodeV::TooSmallInt, Some(e.span))]
                } else {
                    Seq::empty()
                },
            },
            _ => {
                let r = spec_analyze(*inner, st);
                ERes {
                    ty: TypeName::Int,
                    st: r.st,
                    diags: r.diags + if r.ty != TypeName::Int {
                        seq![err_diag(CodeV::UnaryArithmetic(r.ty), Some(e.span))]
                    } else {
                        Seq::empty()
                    },
                }
            },
        },
        Expr::Add(a, b) => {
            let ra = spec_analyze(*a, st);
            bin_res(e.span, ra, spec_analyze(*b, ra.st), false, *b)
        },
        Expr::Sub(a, b) => {
            let ra = spec_analyze(*a, st);
            bin_res(e.span, ra, spec_analyze(*b, ra.st), false, *b)
        },
        Expr::Mult(a, b) => {
            let ra = spec_analyze(*a, st);
            bin_res(e.span, ra, spec_analyze(*b, ra.st), false, *b)
        },
        Expr::Div(a, b) => {
            let ra = spec_analyze(*a, st);
            bin_res(e.span, ra, spec_analyze(*b, ra.st), true, *b)
        },
        Expr::Mod(a, b) => {
            let ra = spec_analyze(*a, st);
            bin_res(e.span, ra, spec_analyze(*b, ra.st), true, *b)
        },
        Expr::LessThan(a, b) => {
            let ra = spec_analyze(*a, st);
            bin_res(e.span, ra, spec_analyze(*b, ra.st), false, *b)
        },
        Expr::LessOrEqual(a, b) => {
            let ra = spec_analyze(*a, st);
            bin_res(e.span, ra, spec_analyze(*b, ra.st), false, *b)
        },
        Expr::GreaterThan(a, b) => {
            let ra = spec_analyze(*a, st);
            bin_res(e.span, ra, spec_analyze(*b, ra.st), false, *b)
        },
        Expr::GreaterOrEqual(a, b) => {
            let ra = spec_analyze(*a, st);
            bin_res(e.span, ra, spec_analyze(*b, ra.st), false, *b)
        },
        Expr::Equal(a, b) => {
            let ra = spec_analyze(*a, st);
            bin_res(e.span, ra, spec_analyze(*b, ra.st), false, *b)
        },
        Expr::NotEqual(a, b) => {
            let ra = spec_analyze(*a, st);
            bin_res(e.span, ra, spec_analyze(*b, ra.st), false, *b)
        },
        Expr::FuncCall(callee, args) => match callee.node {
            Expr::Var(id) => {
                let ra = spec_args(args@, st);
                match lookup_fn(ra.st.scopes, id@) {
                    None => ERes {
                        ty: TypeName::Void,
                        st: ra.st,
                        diags: ra.diags + seq![
                            err_diag(CodeV::UndeclaredFunction(id@), Some(callee.span)),
                        ],
                    },
                    Some(f) => ERes {
                        ty: f.return_type,
                        st: ra.st,
                        diags: ra.diags + if args@.len() != f.param_types.len() {
                            seq![
                                err_diag(
                                    CodeV::ArityMismatch(
                                        id@,
                                        f.param_types.len() as int,
                                        args@.len() as int,
                                    ),
                                    Some(e.span),
                                ),
                                hint_diag(CodeV::SignatureHint(id@, f), Some(e.span)),
                            ]
                        } else {
                            Seq::empty()
                        },
                    },
                }
            },
            _ => ERes {
                ty: TypeName::Void,
                st,
                diags: seq![err_diag(CodeV::CompositeFunctionName, Some(callee.span))],
            },
        },
        Expr::Var(name) => match lookup_var(st.scopes, name@) {
            None => ERes {
                ty: TypeName::Int,
                st,
                diags: seq![err_diag(CodeV::UndeclaredVariable(name@), Some(e.span))],
            },
            Some(v) => ERes {
                ty: v.data_type,
                st: st_mark(st, name@, true),
                diags: if !v.mutable && st.language_server {
                    seq![warn_diag(CodeV::ConstantUse(name@), Some(e.span))]
                } else {
                    Seq::empty()
                },
            },
        },
        Expr::Assign(t, v) => asn_res(e.span, *t, spec_analyze(*v, st)),
        Expr::AddAssign(t, v) => asn_res(e.span, *t, spec_analyze(*v, st)),
        Expr::SubAssign(t, v) => asn_res(e.span, *t, spec_analyze(*v, st)),
        Expr::MulAssign(t, v) => asn_res(e.span, *t, spec_analyze(*v, st)),
        Expr::DivAssign(t, v) => asn_res(e.span, *t, spec_analyze(*v, st)),
        Expr::ModAssign(t, v) => asn_res(e.span, *t, spec_analyze(*v, st)),
    }
}

/// Analyzing a call's arguments left to right, for their side effects.
pub open spec fn spec_args(args: Seq<Expression>, st: StV) -> FRes
    decreases args,
{
    if args.len() == 0 {
        FRes { st, diags: Seq::empty() }
    } else {
        let r0 = spec_analyze(args.first(), st);
        let rest = spec_args(args.drop_first(), r0.st);
        FRes { st: rest.st, diags: r0.diags + rest.diags }
    }
}

/// Peeling an element off the back of an argument list.
pub proof fn lemma_spec_args_snoc(args: Seq<Expression>, x: Expression, st: StV)
    ensures
        spec_args(args.push(x), st).st == spec_analyze(x, spec_args(args, st).st).st,
        spec_args(args.push(x), st).diags == spec_args(args, st).diags + spec_analyze(
            x,
            spec_args(args, st).st,
        ).diags,
    decreases args.len(),
{
    let s1 = args.push(x);
    if args.len() == 0 {
        assert(s1.first() == x);
        assert(s1.drop_first() =~= Seq::<Expression>::empty());
        let r0 = spec_analyze(x, st);
        assert(spec_args(Seq::<Expression>::empty(), r0.st).diags =~= Seq::<DiagV>::empty());
        assert(spec_args(s1, st).st == r0.st);
        assert(spec_args(s1, st).diags =~= spec_args(args, st).diags + r0.diags);
    } else {
        assert(s1.first() == args.first());
        assert(s1.drop_first() =~= args.drop_first().push(x));
        let r0 = spec_analyze(args.first(), st);
        lemma_spec_args_snoc(args.drop_first(), x, r0.st);
        assert(spec_args(s1, st).diags =~= spec_args(args, st).diags + spec_analyze(
            x,
            spec_args(args, st).st,
        ).diags);
    }
}


/// Two symbol states that agree on everything an expression walk cannot
/// change: the scope count, the function stack, the loop counter and the
/// analysis flag.
pub open spec fn same_frame(a: StV, b: StV) -> bool {
    a.scopes.len() == b.scopes.len() && a.func_stack == b.func_stack && a.loops == b.loops
        && a.language_server == b.language_server
}

/// Analyzing an expression only ever touches variable counters: the shape
/// of the symbol state is kept.
#[verifier::rlimit(100)]
#[verifier::spinoff_prover]
pub proof fn lemma_analyze_frame(e: Expression, st: StV)
    ensures
        same_frame(spec_analyze(e, st).st, st),
    decreases e, 1int,
{
    match e.node {
        Expr::Integer(_v) => {},
        Expr::Neg(inner) => {
            match inner.node {
                Expr::Integer(_v) => {},
                _ => {
                    lemma_analyze_frame(*inner, st);
                },
            }
        },
        Expr::Add(a, b) => {
            lemma_analyze_frame(*a, st);
            lemma_analyze_frame(*b, spec_analyze(*a, st).st);
        },
        Expr::Sub(a, b) => {
            lemma_analyze_frame(*a, st);
            lemma_analyze_frame(*b, spec_analyze(*a, st).st);
        },
        Expr::Mult(a, b) => {
            lemma_analyze_frame(*a, st);
            lemma_analyze_frame(*b, spec_analyze(*a, st).st);
        },
        Expr::Div(a, b) => {
            lemma_analyze_frame(*a, st);
            lemma_analyze_frame(*b, spec_analyze(*a, st).st);
        },
        Expr::Mod(a, b) => {
            lemma_analyze_frame(*a, st);
            lemma_analyze_frame(*b, spec_analyze(*a, st).st);
        },
        Expr::LessThan(a, b) => {
            lemma_analyze_frame(*a, st);
            lemma_analyze_frame(*b, spec_analyze(*a, st).st);
        },
        Expr::LessOrEqual(a, b) => {
            lemma_analyze_frame(*a, st);
            lemma_analyze_frame(*b, spec_analyze(*a, st).st);
        },
        Expr::GreaterThan(a, b) => {
            lemma_analyze_frame(*a, st);
            lemma_analyze_frame(*b, spec_analyze(*a, st).st);
        },
        Expr::GreaterOrEqual(a, b) => {
            lemma_analyze_frame(*a, st);
            lemma_analyze_frame(*b, spec_analyze(*a, st).st);
        },
        Expr::Equal(a, b) => {
            lemma_analyze_frame(*a, st);
            lemma_analyze_frame(*b, spec_analyze(*a, st).st);
        },
        Expr::NotEqual(a, b) => {
            lemma_analyze_frame(*a, st);
            lemma_analyze_frame(*b, spec_analyze(*a, st).st);
        },
        Expr::FuncCall(callee, args) => {
            match callee.node {
                Expr::Var(_id) => {
                    lemma_args_frame(args@, st);
                },
                _ => {},
            }
        },
        Expr::Var(name) => {
            crate::semantics::lemma_mark_scopes_len(st.scopes, name@, true);
        },
        Expr::Assign(t, v) => {
            lemma_analyze_frame(*v, st);
            lemma_assign_post_frame(e.span, *t, spec_analyze(*v, st));
        },
        Expr::AddAssign(t, v) => {
            lemma_analyze_frame(*v, st);
            lemma_assign_post_frame(e.span, *t, spec_analyze(*v, st));
        },
        Expr::SubAssign(t, v) => {
            lemma_analyze_frame(*v, st);
            lemma_assign_post_frame(e.span, *t, spec_analyze(*v, st));
        },
        Expr::MulAssign(t, v) => {
            lemma_analyze_frame(*v, st);
            lemma_assign_post_frame(e.span, *t, spec_analyze(*v, st));
        },
        Expr::DivAssign(t, v) => {
            lemma_analyze_frame(*v, st);
            lemma_assign_post_frame(e.span, *t, spec_analyze(*v, st));
        },
        Expr::ModAssign(t, v) => {
            lemma_analyze_frame(*v, st);
            lemma_assign_post_frame(e.span, *t, spec_analyze(*v, st));
        },
    }
}

/// The assignment tail keeps the state's shape too.
pub proof fn lemma_assign_post_frame(espan: Span, target: Expression, rv: ERes)
    ensures
        same_frame(asn_res(espan, target, rv).st, rv.st),
{
    match target.node {
        Expr::Var(name) => {
            crate::semantics::lemma_mark_scopes_len(rv.st.scopes, name@, false);
        },
        _ => {},
    }
}

/// The argument-list form of the frame lemma.
pub proof fn lemma_args_frame(args: Seq<Expression>, st: StV)
    ensures
        same_frame(spec_args(args, st).st, st),
    decreases args, 0int,
{
    if args.len() > 0 {
        lemma_analyze_frame(args.first(), st);
        lemma_args_frame(args.drop_first(), spec_analyze(args.first(), st).st);
    }
}


/// The two operands of a binary arithmetic or comparison form, if `e` is one.
pub open spec fn binary_operands(e: Expression) -> Option<(Expression, Expression)> {
    match e.node {
        Expr::Add(a, b) => Some((*a, *b)),
        Expr::Sub(a, b) => Some((*a, *b)),
        Expr::Mult(a, b) => Some((*a, *b)),
        Expr::Div(a, b) => Some((*a, *b)),
        Expr::Mod(a, b) => Some((*a, *b)),
        Expr::LessThan(a, b) => Some((*a, *b)),
        Expr::LessOrEqual(a, b) => Some((*a, *b)),
        Expr::GreaterThan(a, b) => Some((*a, *b)),
        Expr::GreaterOrEqual(a, b) => Some((*a, *b)),
        Expr::Equal(a, b) => Some((*a, *b)),
        Expr::NotEqual(a, b) => Some((*a, *b)),
        _ => None,
    }
}

/// Whether `e` is a division or remainder form.
pub open spec fn is_div_like(e: Expression) -> bool {
    e.node is Div || e.node is Mod
}

pub open spec fn var_name_of(e: Expression) -> Seq<char> {
    match e.node {
        Expr::Var(n) => n@,
        _ => Seq::empty(),
    }
}

pub open spec fn callee_name_of(e: Expression) -> Seq<char> {
    match e.node {
        Expr::FuncCall(c, _args) => match c.node {
            Expr::Var(n) => n@,
            _ => Seq::empty(),
        },
        _ => Seq::empty(),
    }
}

pub open spec fn call_args_of(e: Expression) -> Seq<Expression> {
    match e.node {
        Expr::FuncCall(_c, args) => args@,
        _ => Seq::empty(),
    }
}

/// Whether `e` is a call whose callee is a simple identifier.
pub open spec fn is_simple_call(e: Expression) -> bool {
    match e.node {
        Expr::FuncCall(c, _args) => c.node is Var,
        _ => false,
    }
}

/// An integer literal errs exactly when it exceeds the largest signed
/// 2-byte value; nothing else is reported and the state is untouched.
pub proof fn lemma_integer_literal_range(v: i64, span: Span, st: StV)
    ensures
        ({
            let r = spec_analyze(Expression { node: Expr::Integer(v), span }, st);
            r.ty == TypeName::Int && r.st == st && contains_error(r.diags) == (v > 32767) && (v
                > 32767 ==> r.diags =~= seq![err_diag(CodeV::TooLargeInt, Some(span))]) && (v
                <= 32767 ==> r.diags =~= Seq::<DiagV>::empty())
        }),
{
    let r = spec_analyze(Expression { node: Expr::Integer(v), span }, st);
    if v > 32767 {
        assert(r.diags[0].kind == Severity::Error);
        assert(contains_error(r.diags));
    }
}

/// A negated integer literal errs exactly when it exceeds the smallest
/// signed 2-byte value: one more than the positive bound, because negation
/// makes that value representable.
pub proof fn lemma_negated_literal_range(e: Expression, v: i64, st: StV)
    requires
        e.node matches Expr::Neg(inner) && inner.node == Expr::Integer(v),
    ensures
        ({
            let r = spec_analyze(e, st);
            r.ty == TypeName::Int && r.st == st && contains_error(r.diags) == (v > 32768) && (v
                > 32768 ==> r.diags =~= seq![err_diag(CodeV::TooSmallInt, Some(e.span))]) && (v
                <= 32768 ==> r.diags =~= Seq::<DiagV>::empty())
        }),
{
    let r = spec_analyze(e, st);
    if v > 32768 {
        assert(r.diags[0].kind == Severity::Error);
        assert(contains_error(r.diags));
    }
}

/// Every binary arithmetic or comparison form analyzes both operands and
/// then reports exactly one arithmetic-type error naming both observed
/// types when either is not `int`, and none otherwise.
pub proof fn lemma_binary_type_error(e: Expression, st: StV)
    requires
        binary_operands(e) is Some,
    ensures
        ({
            let p = binary_operands(e)->Some_0;
            let ra = spec_analyze(p.0, st);
            let rb = spec_analyze(p.1, ra.st);
            spec_analyze(e, st).diags == ra.diags + rb.diags + arith_diag(e.span, ra.ty, rb.ty) + (
            if is_div_like(e) {
                div_zero_diag(p.1)
            } else {
                Seq::<DiagV>::empty()
            }) && ((ra.ty != TypeName::Int || rb.ty != TypeName::Int) ==> arith_diag(
                e.span,
                ra.ty,
                rb.ty,
            ) == seq![err_diag(CodeV::BinaryArithmetic(ra.ty, rb.ty), Some(e.span))]) && ((ra.ty
                == TypeName::Int && rb.ty == TypeName::Int) ==> arith_diag(e.span, ra.ty, rb.ty)
                == Seq::<DiagV>::empty())
        }),
{
}

/// Dividing or taking the remainder by the syntactic literal zero reports
/// exactly one division-by-zero error, anchored to the right operand's
/// span, whatever the left operand's validity.
pub proof fn lemma_division_by_zero(e: Expression, st: StV)
    requires
        is_div_like(e),
        binary_operands(e) matches Some(p) && p.1.node == Expr::Integer(0 as i64),
    ensures
        ({
            let p = binary_operands(e)->Some_0;
            let ra = spec_analyze(p.0, st);
            spec_analyze(e, st).diags == ra.diags + Seq::<DiagV>::empty() + arith_diag(
                e.span,
                ra.ty,
                TypeName::Int,
            ) + seq![err_diag(CodeV::DivisionByZero, Some(p.1.span))]
        }),
{
    let p = binary_operands(e)->Some_0;
    let ra = spec_analyze(p.0, st);
    let rb = spec_analyze(p.1, ra.st);
    assert(rb.diags =~= Seq::<DiagV>::empty());
    assert(rb.ty == TypeName::Int);
    assert(div_zero_diag(p.1) =~= seq![err_diag(CodeV::DivisionByZero, Some(p.1.span))]);
}

/// A reference to an undeclared variable yields exactly one error and
/// recovers with the fallback type `int`, leaving the state untouched, so
/// the enclosing expression can still be checked.
pub proof fn lemma_undeclared_variable_recovery(e: Expression, st: StV)
    requires
        e.node is Var,
        lookup_var(st.scopes, var_name_of(e)) is None,
    ensures
        spec_analyze(e, st).ty == TypeName::Int,
        spec_analyze(e, st).st == st,
        spec_analyze(e, st).diags == seq![
            err_diag(CodeV::UndeclaredVariable(var_name_of(e)), Some(e.span)),
        ],
{
}

/// A call with the wrong number of arguments reports exactly one arity
/// error naming the expected and observed counts, followed by exactly one
/// hint carrying the full declared signature; a call with the right number
/// adds nothing beyond its arguments' own diagnostics.
pub proof fn lemma_call_arity(e: Expression, st: StV)
    requires
        is_simple_call(e),
        lookup_fn(spec_args(call_args_of(e), st).st.scopes, callee_name_of(e)) is Some,
    ensures
        ({
            let ra = spec_args(call_args_of(e), st);
            let f = lookup_fn(ra.st.scopes, callee_name_of(e))->Some_0;
            spec_analyze(e, st).ty == f.return_type && spec_analyze(e, st).st == ra.st && (
            call_args_of(e).len() != f.param_types.len() ==> spec_analyze(e, st).diags == ra.diags
                + seq![
                err_diag(
                    CodeV::ArityMismatch(
                        callee_name_of(e),
                        f.param_types.len() as int,
                        call_args_of(e).len() as int,
                    ),
                    Some(e.span),
                ),
                hint_diag(CodeV::SignatureHint(callee_name_of(e), f), Some(e.span)),
            ]) && (call_args_of(e).len() == f.param_types.len() ==> spec_analyze(e, st).diags
                == ra.diags + Seq::<DiagV>::empty())
        }),
{
}

impl Expression {
    /// Emit the one arithmetic-type error when either operand type is not
    /// `int`, naming both observed types.
    pub fn check_binary_arithmetic(&self, type1: TypeName, type2: TypeName, sink: &mut Sink)
        requires
            old(sink).wf(),
        ensures
            final(sink).wf(),
            final(sink)@ == old(sink)@ + arith_diag(self.span, type1, type2),
    {
        if type1 != TypeName::Int || type2 != TypeName::Int {
            sink.error(Code::BinaryArithmetic(type1, type2), Some(self.span));
            proof {
                assert(sink@ =~= old(sink)@ + arith_diag(self.span, type1, type2));
            }
        } else {
            proof {
                assert(sink@ =~= old(sink)@ + arith_diag(self.span, type1, type2));
            }
        }
    }

    /// The walk shared by every binary arithmetic and comparison form:
    /// both operands are always analyzed, then the type rule, then the
    /// division-by-literal-zero rule where it applies.
    fn analyze_binary(&self, a: &Expression, b: &Expression, div_like: bool, analyzer: &mut Analyzer, sink: &mut Sink) -> (t: TypeName)
        requires
            old(analyzer).wf(),
            old(sink).wf(),
            decreases_to!(*self => *a),
            decreases_to!(*self => *b),
        ensures
            final(analyzer).wf(),
            final(sink).wf(),
            t == TypeName::Int,
            ({
                let ra = spec_analyze(*a, old(analyzer)@);
                let rb = spec_analyze(*b, ra.st);
                final(analyzer)@ == rb.st && final(sink)@ == old(sink)@ + ra.diags + rb.diags
                    + arith_diag(self.span, ra.ty, rb.ty) + (if div_like {
                    div_zero_diag(*b)
                } else {
                    Seq::<DiagV>::empty()
                })
            }),
        decreases *self, 0int,
    {
        let type1 = a.analyze(analyzer, sink);
        let type2 = b.analyze(analyzer, sink);
        self.check_binary_arithmetic(type1, type2, sink);
        if div_like {
            match &b.node {
                Expr::Integer(value) => {
                    if *value == 0 {
                        sink.error(Code::DivisionByZero, Some(b.span));
                    }
                },
                _ => {},
            }
        }
        proof {
            let ra = spec_analyze(*a, old(analyzer)@);
            let rb = spec_analyze(*b, ra.st);
            assert(sink@ =~= old(sink)@ + ra.diags + rb.diags + arith_diag(
                self.span,
                ra.ty,
                rb.ty,
            ) + (if div_like {
                div_zero_diag(*b)
            } else {
                Seq::<DiagV>::empty()
            }));
        }
        TypeName::Int
    }

    /// The walk of a call whose callee is the simple identifier `id`: every
    /// argument is analyzed regardless of arity, then the callee is looked
    /// up and the argument count checked.
    #[verifier::loop_isolation(false)]
    fn analyze_call(&self, callee_span: Span, id: &String, args: &Vec<Expression>, analyzer: &mut Analyzer, sink: &mut Sink) -> (t: TypeName)
        requires
            old(analyzer).wf(),
            old(sink).wf(),
            decreases_to!(*self => args@),
        ensures
            final(analyzer).wf(),
            final(sink).wf(),
            ({
                let ra = spec_args(args@, old(analyzer)@);
                final(analyzer)@ == ra.st && match lookup_fn(ra.st.scopes, id@) {
                    None => t == TypeName::Void && final(sink)@ == old(sink)@ + ra.diags + seq![
                        err_diag(CodeV::UndeclaredFunction(id@), Some(callee_span)),
                    ],
                    Some(f) => t == f.return_type && final(sink)@ == old(sink)@ + ra.diags + (
                    if args@.len() != f.param_types.len() {
                        seq![
                            err_diag(
                                CodeV::ArityMismatch(
                                    id@,
                                    f.param_types.len() as int,
                                    args@.len() as int,
                                ),
                                Some(self.span),
                            ),
                            hint_diag(CodeV::SignatureHint(id@, f), Some(self.span)),
                        ]
                    } else {
                        Seq::<DiagV>::empty()
                    }),
                }
            }),
        decreases *self, 0int,
    {
        let ghost st0 = analyzer@;
        let ghost sk0 = sink@;
        let mut i: usize = 0;
        proof {
            assert(args@.subrange(0, 0) =~= Seq::<Expression>::empty());
            assert(sink@ =~= sk0 + spec_args(args@.subrange(0, 0), st0).diags);
        }
        while i < args.len()
            invariant
                i <= args.len(),
                analyzer.wf(),
                sink.wf(),
                analyzer@ == spec_args(args@.subrange(0, i as int), st0).st,
                sink@ == sk0 + spec_args(args@.subrange(0, i as int), st0).diags,
            decreases args.len() - i,
        {
            proof {
                assert(decreases_to!(args@ => args@[i as int]));
            }
            args[i].analyze(analyzer, sink);
            i = i + 1;
            proof {
                assert(args@.subrange(0, i as int) =~= args@.subrange(0, i - 1 as int).push(
                    args@[i - 1 as int],
                ));
                lemma_spec_args_snoc(args@.subrange(0, i - 1 as int), args@[i - 1 as int], st0);
            }
        }
        proof {
            assert(args@.subrange(0, args@.len() as int) =~= args@);
        }
        let fopt = analyzer.get_function(id);
        match fopt {
            None => {
                sink.error(Code::UndeclaredFunction(id.clone()), Some(callee_span));
                proof {
                    assert(sink@ =~= sk0 + spec_args(args@, st0).diags + seq![
                        err_diag(CodeV::UndeclaredFunction(id@), Some(callee_span)),
                    ]);
                }
                TypeName::Void
            },
            Some(func) => {
                let ct = func.param_types.len();
                let rt = func.return_type;
                if args.len() != ct {
                    sink.error(Code::ArityMismatch(id.clone(), ct, args.len()), Some(self.span));
                    sink.hint(Code::SignatureHint(id.clone(), func), Some(self.span));
                }
                proof {
                    let ra = spec_args(args@, st0);
                    let f = lookup_fn(ra.st.scopes, id@)->Some_0;
                    assert(sink@ =~= sk0 + ra.diags + (if args@.len() != f.param_types.len() {
                        seq![
                            err_diag(
                                CodeV::ArityMismatch(
                                    id@,
                                    f.param_types.len() as int,
                                    args@.len() as int,
                                ),
                                Some(self.span),
                            ),
                            hint_diag(CodeV::SignatureHint(id@, f), Some(self.span)),
                        ]
                    } else {
                        Seq::<DiagV>::empty()
                    }));
                }
                rt
            },
        }
    }

    /// The shared assignment rule, applied after the assigned value has been
    /// analyzed and its type inferred.
    fn check_assign(&self, target: &Expression, vty: TypeName, analyzer: &mut Analyzer, sink: &mut Sink) -> (t: TypeName)
        requires
            old(analyzer).wf(),
            old(sink).wf(),
        ensures
            final(analyzer).wf(),
            final(sink).wf(),
            t == assign_post(self.span, *target, vty, old(analyzer)@).ty,
            final(analyzer)@ == assign_post(self.span, *target, vty, old(analyzer)@).st,
            final(sink)@ == old(sink)@ + assign_post(self.span, *target, vty, old(analyzer)@).diags,
    {
        match &target.node {
            Expr::Var(name) => {
                let vopt = analyzer.get_variable(name, true);
                match vopt {
                    None => {
                        sink.error(Code::UndeclaredVariable(name.clone()), Some(target.span));
                        proof {
                            assert(sink@ =~= old(sink)@ + assign_post(
                                self.span,
                                *target,
                                vty,
                                old(analyzer)@,
                            ).diags);
                        }
                        TypeName::Void
                    },
                    Some(var) => {
                        if !var.mutable {
                            sink.error(Code::ImmutableAssign(name.clone()), Some(target.span));
                        }
                        if vty != var.data_type {
                            sink.error(
                                Code::AssignTypeMismatch(vty, var.data_type),
                                Some(self.span),
                            );
                        }
                        analyzer.change_variable(name);
                        proof {
                            assert(sink@ =~= old(sink)@ + assign_post(
                                self.span,
                                *target,
                                vty,
                                old(analyzer)@,
                            ).diags);
                        }
                        TypeName::Void
                    },
                }
            },
            _ => {
                sink.error(Code::InvalidAssignTarget, Some(target.span));
                proof {
                    assert(sink@ =~= old(sink)@ + assign_post(
                        self.span,
                        *target,
                        vty,
                        old(analyzer)@,
                    ).diags);
                }
                TypeName::Void
            },
        }
    }

    /// An assignment or compound-assignment form: the value first, then the
    /// shared assignment rule on the target.
    fn analyze_assign_form(&self, target: &Expression, value: &Expression, analyzer: &mut Analyzer, sink: &mut Sink) -> (t: TypeName)
        requires
            old(analyzer).wf(),
            old(sink).wf(),
            decreases_to!(*self => *value),
        ensures
            final(analyzer).wf(),
            final(sink).wf(),
            t == asn_res(self.span, *target, spec_analyze(*value, old(analyzer)@)).ty,
            final(analyzer)@ == asn_res(self.span, *target, spec_analyze(*value, old(analyzer)@)).st,
            final(sink)@ == old(sink)@ + asn_res(
                self.span,
                *target,
                spec_analyze(*value, old(analyzer)@),
            ).diags,
        decreases *self, 0int,
    {
        let vty = value.analyze(analyzer, sink);
        let t = self.check_assign(target, vty, analyzer, sink);
        proof {
            assert(sink@ =~= old(sink)@ + asn_res(
                self.span,
                *target,
                spec_analyze(*value, old(analyzer)@),
            ).diags);
        }
        t
    }

    /// Walk one expression: infer its type, update the symbol state, and
    /// record every diagnostic the rules call for, in detection order.
    #[verifier::rlimit(100)]
    #[verifier::spinoff_prover]
    pub fn analyze(&self, analyzer: &mut Analyzer, sink: &mut Sink) -> (t: TypeName)
        requires
            old(analyzer).wf(),
            old(sink).wf(),
        ensures
            final(analyzer).wf(),
            final(sink).wf(),
            t == spec_analyze(*self, old(analyzer)@).ty,
            final(analyzer)@ == spec_analyze(*self, old(analyzer)@).st,
            final(sink)@ == old(sink)@ + spec_analyze(*self, old(analyzer)@).diags,
        decreases *self, 1int,
    {
        let ghost st0 = analyzer@;
        let ghost sk0 = sink@;
        match &self.node {
            Expr::Integer(value) => {
                if *value > 32767 {
                    sink.error(Code::TooLargeInt, Some(self.span));
                }
                proof {
                    assert(sink@ =~= sk0 + spec_analyze(*self, st0).diags);
                }
                TypeName::Int
            },
            Expr::Neg(inner) => {
                match &inner.node {
                    Expr::Integer(value) => {
                        if *value > 32768 {
                            sink.error(Code::TooSmallInt, Some(self.span));
                        }
                        proof {
                            assert(sink@ =~= sk0 + spec_analyze(*self, st0).diags);
                        }
                        TypeName::Int
                    },
                    _ => {
                        let tp = inner.analyze(analyzer, sink);
                        if tp != TypeName::Int {
                            sink.error(Code::UnaryArithmetic(tp), Some(self.span));
                        }
                        proof {
                            assert(sink@ =~= sk0 + spec_analyze(*self, st0).diags);
                        }
                        TypeName::Int
                    },
                }
            },
            Expr::Add(a, b) => {
                let t = self.analyze_binary(a, b, false, analyzer, sink);
                proof {
                    assert(sink@ =~= sk0 + spec_analyze(*self, st0).diags);
                }
                t
            },
            Expr::Sub(a, b) => {
                let t = self.analyze_binary(a, b, false, analyzer, sink);
                proof {
                    assert(sink@ =~= sk0 + spec_analyze(*self, st0).diags);
                }
                t
            },
            Expr::Mult(a, b) => {
                let t = self.analyze_binary(a, b, false, analyzer, sink);
                proof {
                    assert(sink@ =~= sk0 + spec_analyze(*self, st0).diags);
                }
                t
            },
            Expr::Div(a, b) => {
                let t = self.analyze_binary(a, b, true, analyzer, sink);
                proof {
                    assert(sink@ =~= sk0 + spec_analyze(*self, st0).diags);
                }
                t
            },
            Expr::Mod(a, b) => {
                let t = self.analyze_binary(a, b, true, analyzer, sink);
                proof {
                    assert(sink@ =~= sk0 + spec_analyze(*self, st0).diags);
                }
                t
            },
            Expr::LessThan(a, b) => {
                let t = self.analyze_binary(a, b, false, analyzer, sink);
                proof {
                    assert(sink@ =~= sk0 + spec_analyze(*self, st0).diags);
                }
                t
            },
            Expr::LessOrEqual(a, b) => {
                let t = self.analyze_binary(a, b, false, analyzer, sink);
                proof {
                    assert(sink@ =~= sk0 + spec_analyze(*self, st0).diags);
                }
                t
            },
            Expr::GreaterThan(a, b) => {
                let t = self.analyze_binary(a, b, false, analyzer, sink);
                proof {
                    assert(sink@ =~= sk0 + spec_analyze(*self, st0).diags);
                }
                t
            },
            Expr::GreaterOrEqual(a, b) => {
                let t = self.analyze_binary(a, b, false, analyzer, sink);
                proof {
                    assert(sink@ =~= sk0 + spec_analyze(*self, st0).diags);
                }
                t
            },
            Expr::Equal(a, b) => {
                let t = self.analyze_binary(a, b, false, analyzer, sink);
                proof {
                    assert(sink@ =~= sk0 + spec_analyze(*self, st0).diags);
                }
                t
            },
            Expr::NotEqual(a, b) => {
                let t = self.analyze_binary(a, b, false, analyzer, sink);
                proof {
                    assert(sink@ =~= sk0 + spec_analyze(*self, st0).diags);
                }
                t
            },
            Expr::FuncCall(callee, args) => {
                match &callee.node {
                    Expr::Var(id) => {
                        let t = self.analyze_call(callee.span, id, args, analyzer, sink);
                        proof {
                            assert(sink@ =~= sk0 + spec_analyze(*self, st0).diags);
                        }
                        t
                    },
                    _ => {
                        sink.error(Code::CompositeFunctionName, Some(callee.span));
                        proof {
                            assert(sink@ =~= sk0 + spec_analyze(*self, st0).diags);
                        }
                        TypeName::Void
                    },
                }
            },
            Expr::Var(name) => {
                let vopt = analyzer.get_variable(name, true);
                match vopt {
                    None => {
                        sink.error(Code::UndeclaredVariable(name.clone()), Some(self.span));
                        proof {
                            assert(sink@ =~= sk0 + spec_analyze(*self, st0).diags);
                        }
                        TypeName::Int
                    },
                    Some(var) => {
                        if !var.mutable && analyzer.language_server {
                            sink.warning(Code::ConstantUse(name.clone()), Some(self.span));
                        }
                        let ret = var.data_type;
                        analyzer.use_variable(name);
                        proof {
                            assert(sink@ =~= sk0 + spec_analyze(*self, st0).diags);
                        }
                        ret
                    },
                }
            },
            Expr::Assign(variable, expr) => {
                let t = self.analyze_assign_form(variable, expr, analyzer, sink);
                proof {
                    assert(sink@ =~= sk0 + spec_analyze(*self, st0).diags);
                }
                t
            },
            Expr::AddAssign(variable, expr) => {
                let t = self.analyze_assign_form(variable, expr, analyzer, sink);
                proof {
                    assert(sink@ =~= sk0 + spec_analyze(*self, st0).diags);
                }
                t
            },
            Expr::SubAssign(variable, expr) => {
                let t = self.analyze_assign_form(variable, expr, analyzer, sink);
                proof {
                    assert(sink@ =~= sk0 + spec_analyze(*self, st0).diags);
                }
                t
            },
            Expr::MulAssign(variable, expr) => {
                let t = self.analyze_assign_form(variable, expr, analyzer, sink);
                proof {
                    assert(sink@ =~= sk0 + spec_analyze(*self, st0).diags);
                }
                t
            },
            Expr::DivAssign(variable, expr) => {
                let t = self.analyze_assign_form(variable, expr, analyzer, sink);
                proof {
                    assert(sink@ =~= sk0 + spec_analyze(*self, st0).diags);
                }
                t
            },
            Expr::ModAssign(variable, expr) => {
                let t = self.analyze_assign_form(variable, expr, analyzer, sink);
                proof {
                    assert(sink@ =~= sk0 + spec_analyze(*self, st0).diags);
                }
                t
            },
        }
    }
}

} // verus!
