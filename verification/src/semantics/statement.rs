use vstd::prelude::*;

use crate::ast::{Expr, Expression, Statement};
use crate::message::{err_diag, Code, CodeV, DiagV, Sink};
use crate::semantics::{
    st_cur_fn, st_dec_loops, st_inc_loops, st_mark, st_pop_scope, st_push_scope, st_set_var,
    Analyzer, StV, TypeName,
};
use crate::semantics::expression::{lemma_analyze_frame, spec_analyze, ERes, FRes};

verus! {

/// The meaning of checking one statement: diagnostics emitted and the
/// symbol state afterwards.
pub open spec fn spec_stmt(s: Statement, st: StV) -> FRes
    decreases s, 1int,
{
    match s {
        Statement::Let { name, data_type, mutable, value, span } => {
            let rv = match value {
                Some(v) => spec_analyze(v, st),
                None => ERes { ty: TypeName::Int, st, diags: Seq::empty() },
            };
            let tdiags = match data_type {
                Some(t) => if t != TypeName::Int {
                    seq![err_diag(CodeV::InvalidVariableType(t), Some(span))]
                } else {
                    Seq::<DiagV>::empty()
                },
                None => Seq::<DiagV>::empty(),
            };
            let mdiags = match data_type {
                Some(t) => match value {
                    Some(_v) => if rv.ty != t {
                        seq![err_diag(CodeV::AssignTypeMismatch(rv.ty, t), Some(span))]
                    } else {
                        Seq::<DiagV>::empty()
                    },
                    None => Seq::<DiagV>::empty(),
                },
                None => Seq::<DiagV>::empty(),
            };
            let declared = match data_type {
                Some(t) => t,
                None => rv.ty,
            };
            let st1 = st_set_var(rv.st, name@, declared, mutable, span);
            let st2 = if value is Some {
                st_mark(st1, name@, false)
            } else {
                st1
            };
            FRes { st: st2, diags: rv.diags + tdiags + mdiags }
        },
        Statement::Expr { expr } => {
            let r = spec_analyze(expr, st);
            FRes { st: r.st, diags: r.diags }
        },
        Statement::If { cond, then_body, else_body, span: _span } => {
            let rc = spec_analyze(cond, st);
            let rt = spec_stmts(then_body@, st_push_scope(rc.st));
            let st2 = st_pop_scope(rt.st);
            match else_body {
                Some(es) => {
                    let re = spec_stmts(es@, st_push_scope(st2));
                    FRes { st: st_pop_scope(re.st), diags: rc.diags + rt.diags + re.diags }
                },
                None => FRes { st: st2, diags: rc.diags + rt.diags },
            }
        },
        Statement::While { cond, body, span: _span } => {
            let rc = spec_analyze(cond, st);
            let rb = spec_stmts(body@, st_push_scope(st_inc_loops(rc.st)));
            FRes { st: st_dec_loops(st_pop_scope(rb.st)), diags: rc.diags + rb.diags }
        },
        Statement::Return { value, span } => {
            let rv = match value {
                Some(v) => spec_analyze(v, st),
                None => ERes { ty: TypeName::Void, st, diags: Seq::empty() },
            };
            match st_cur_fn(rv.st) {
                None => FRes {
                    st: rv.st,
                    diags: rv.diags + seq![err_diag(CodeV::ReturnOutsideFunction, Some(span))],
                },
                Some(p) => FRes {
                    st: rv.st,
                    diags: rv.diags + if rv.ty != p.0.return_type {
                        seq![
                            err_diag(
                                CodeV::ReturnTypeMismatch(rv.ty, p.0.return_type),
                                Some(span),
                            ),
                        ]
                    } else {
                        Seq::<DiagV>::empty()
                    },
                },
            }
        },
        Statement::Break { span } => FRes {
            st,
            diags: if st.loops == 0 {
                seq![err_diag(CodeV::BreakOutsideLoop, Some(span))]
            } else {
                Seq::<DiagV>::empty()
            },
        },
        Statement::Continue { span } => FRes {
            st,
            diags: if st.loops == 0 {
                seq![err_diag(CodeV::ContinueOutsideLoop, Some(span))]
            } else {
                Seq::<DiagV>::empty()
            },
        },
    }
}

/// Checking a block of statements in order.
pub open spec fn spec_stmts(ss: Seq<Statement>, st: StV) -> FRes
    decreases ss, 0int,
{
    if ss.len() == 0 {
        FRes { st, diags: Seq::empty() }
    } else {
        let r = spec_stmts(ss.drop_last(), st);
        let rl = spec_stmt(ss.last(), r.st);
        FRes { st: rl.st, diags: r.diags + rl.diags }
    }
}

impl Statement {
    /// Check one statement: record its diagnostics and apply its scope and
    /// symbol effects.
    #[verifier::rlimit(100)]
    #[verifier::spinoff_prover]
    pub fn analyze(&self, analyzer: &mut Analyzer, sink: &mut Sink)
        requires
            old(analyzer).wf(),
            old(sink).wf(),
        ensures
            final(analyzer).wf(),
            final(sink).wf(),
            final(analyzer)@ == spec_stmt(*self, old(analyzer)@).st,
            final(sink)@ == old(sink)@ + spec_stmt(*self, old(analyzer)@).diags,
        decreases *self, 1int,
    {
        let ghost st0 = analyzer@;
        let ghost sk0 = sink@;
        match self {
            Statement::Let { name, data_type, mutable, value, span } => {
                let vty: Option<TypeName> = match value {
                    Some(v) => Some(v.analyze(analyzer, sink)),
                    None => None,
                };
                let declared: TypeName = match data_type {
                    Some(t) => {
                        if !analyzer.valid_data_type(*t) {
                            sink.error(Code::InvalidVariableType(*t), Some(*span));
                        }
                        match vty {
                            Some(vt) => {
                                if vt != *t {
                                    sink.error(Code::AssignTypeMismatch(vt, *t), Some(*span));
                                }
                            },
                            None => {},
                        }
                        *t
                    },
                    None => {
                        match vty {
                            Some(vt) => vt,
                            None => TypeName::Int,
                        }
                    },
                };
                analyzer.set_variable(name, declared, *mutable, *span);
                if value.is_some() {
                    analyzer.change_variable(name);
                }
                proof {
                    assert(sink@ =~= sk0 + spec_stmt(*self, st0).diags);
                }
            },
            Statement::Expr { expr } => {
                expr.analyze(analyzer, sink);
                proof {
                    assert(sink@ =~= sk0 + spec_stmt(*self, st0).diags);
                }
            },
            Statement::If { cond, then_body, else_body, span: _span } => {
                cond.analyze(analyzer, sink);
                analyzer.push_scope();
                analyze_stmts(then_body, analyzer, sink);
                proof {
                    lemma_stmts_frame(then_body@, st_push_scope(spec_analyze(*cond, st0).st));
                }
                analyzer.pop_scope();
                match else_body {
                    Some(es) => {
                        analyzer.push_scope();
                        let ghost before = analyzer@;
                        analyze_stmts(es, analyzer, sink);
                        proof {
                            lemma_stmts_frame(es@, before);
                        }
                        analyzer.pop_scope();
                    },
                    None => {},
                }
                proof {
                    assert(sink@ =~= sk0 + spec_stmt(*self, st0).diags);
                }
            },
            Statement::While { cond, body, span: _span } => {
                cond.analyze(analyzer, sink);
                if analyzer.loops < i64::MAX {
                    analyzer.loops = analyzer.loops + 1;
                }
                proof {
                    assert(analyzer@ == st_inc_loops(spec_analyze(*cond, st0).st));
                }
                analyzer.push_scope();
                let ghost before = analyzer@;
                analyze_stmts(body, analyzer, sink);
                proof {
                    lemma_stmts_frame(body@, before);
                }
                analyzer.pop_scope();
                if analyzer.loops > 0 {
                    analyzer.loops = analyzer.loops - 1;
                }
                proof {
                    assert(analyzer@ == spec_stmt(*self, st0).st);
                    assert(sink@ =~= sk0 + spec_stmt(*self, st0).diags);
                }
            },
            Statement::Return { value, span } => {
                let vty: Option<TypeName> = match value {
                    Some(v) => Some(v.analyze(analyzer, sink)),
                    None => None,
                };
                match analyzer.get_current_function() {
                    None => {
                        sink.error(Code::ReturnOutsideFunction, Some(*span));
                    },
                    Some((f, _n)) => {
                        let found = match vty {
                            Some(t) => t,
                            None => TypeName::Void,
                        };
                        if found != f.return_type {
                            sink.error(
                                Code::ReturnTypeMismatch(found, f.return_type),
                                Some(*span),
                            );
                        }
                    },
                }
                proof {
                    assert(sink@ =~= sk0 + spec_stmt(*self, st0).diags);
                }
            },
            Statement::Break { span } => {
                if analyzer.loops == 0 {
                    sink.error(Code::BreakOutsideLoop, Some(*span));
                }
                proof {
                    assert(sink@ =~= sk0 + spec_stmt(*self, st0).diags);
                }
            },
            Statement::Continue { span } => {
                if analyzer.loops == 0 {
                    sink.error(Code::ContinueOutsideLoop, Some(*span));
                }
                proof {
                    assert(sink@ =~= sk0 + spec_stmt(*self, st0).diags);
                }
            },
        }
    }
}

/// Check a block of statements in order.
#[verifier::loop_isolation(false)]
pub fn analyze_stmts(stmts: &Vec<Statement>, analyzer: &mut Analyzer, sink: &mut Sink)
    requires
        old(analyzer).wf(),
        old(sink).wf(),
    ensures
        final(analyzer).wf(),
        final(sink).wf(),
        final(analyzer)@ == spec_stmts(stmts@, old(analyzer)@).st,
        final(sink)@ == old(sink)@ + spec_stmts(stmts@, old(analyzer)@).diags,
    decreases stmts@, 0int,
{
    let ghost st0 = analyzer@;
    let ghost sk0 = sink@;
    let mut i: usize = 0;
    proof {
        assert(stmts@.subrange(0, 0) =~= Seq::<Statement>::empty());
        assert(sink@ =~= sk0 + spec_stmts(stmts@.subrange(0, 0), st0).diags);
    }
    while i < stmts.len()
        invariant
            i <= stmts.len(),
            analyzer.wf(),
            sink.wf(),
            analyzer@ == spec_stmts(stmts@.subrange(0, i as int), st0).st,
            sink@ == sk0 + spec_stmts(stmts@.subrange(0, i as int), st0).diags,
        decreases stmts.len() - i,
    {
        proof {
            assert(decreases_to!(stmts@ => stmts@[i as int]));
        }
        stmts[i].analyze(analyzer, sink);
        i = i + 1;
        proof {
            assert(stmts@.subrange(0, i as int).drop_last() =~= stmts@.subrange(0, i - 1 as int));
            assert(stmts@.subrange(0, i as int).last() == stmts@[i - 1 as int]);
            assert(sink@ =~= sk0 + spec_stmts(stmts@.subrange(0, i as int), st0).diags);
        }
    }
    proof {
        assert(stmts@.subrange(0, stmts@.len() as int) =~= stmts@);
    }
}

/// Checking a statement never unbalances the scope stack, never touches the
/// enclosing-function stack, and keeps the loop counter non-negative.
pub proof fn lemma_stmt_frame(s: Statement, st: StV)
    ensures
        spec_stmt(s, st).st.scopes.len() == st.scopes.len(),
        spec_stmt(s, st).st.func_stack == st.func_stack,
        spec_stmt(s, st).st.language_server == st.language_server,
        st.loops >= 0 ==> spec_stmt(s, st).st.loops >= 0,
    decreases s, 1int,
{
    match s {
        Statement::Let { name, data_type, mutable, value, span } => {
            let rv = match value {
                Some(v) => spec_analyze(v, st),
                None => ERes { ty: TypeName::Int, st, diags: Seq::empty() },
            };
            match value {
                Some(v) => {
                    lemma_analyze_frame(v, st);
                },
                None => {},
            }
            let declared = match data_type {
                Some(t) => t,
                None => rv.ty,
            };
            crate::semantics::lemma_mark_scopes_len(
                st_set_var(rv.st, name@, declared, mutable, span).scopes,
                name@,
                false,
            );
        },
        Statement::Expr { expr } => {
            lemma_analyze_frame(expr, st);
        },
        Statement::If { cond, then_body, else_body, span } => {
            let rc = spec_analyze(cond, st);
            lemma_analyze_frame(cond, st);
            lemma_stmts_frame(then_body@, st_push_scope(rc.st));
            let rt = spec_stmts(then_body@, st_push_scope(rc.st));
            match else_body {
                Some(es) => {
                    lemma_stmts_frame(es@, st_push_scope(st_pop_scope(rt.st)));
                },
                None => {},
            }
        },
        Statement::While { cond, body, span } => {
            let rc = spec_analyze(cond, st);
            lemma_analyze_frame(cond, st);
            lemma_stmts_frame(body@, st_push_scope(st_inc_loops(rc.st)));
        },
        Statement::Return { value, span } => {
            match value {
                Some(v) => {
                    lemma_analyze_frame(v, st);
                },
                None => {},
            }
        },
        Statement::Break { span } => {
        },
        Statement::Continue { span } => {
        },
    }
}

/// The block form of the statement frame lemma.
pub proof fn lemma_stmts_frame(ss: Seq<Statement>, st: StV)
    ensures
        spec_stmts(ss, st).st.scopes.len() == st.scopes.len(),
        spec_stmts(ss, st).st.func_stack == st.func_stack,
        spec_stmts(ss, st).st.language_server == st.language_server,
        st.loops >= 0 ==> spec_stmts(ss, st).st.loops >= 0,
    decreases ss, 0int,
{
    if ss.len() > 0 {
        lemma_stmts_frame(ss.drop_last(), st);
        lemma_stmt_frame(ss.last(), spec_stmts(ss.drop_last(), st).st);
    }
}

} // verus!
