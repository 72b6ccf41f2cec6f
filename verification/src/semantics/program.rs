use vstd::prelude::*;

use crate::ast::{Function, Param, Program};
use crate::message::Sink;
use crate::semantics::expression::FRes;
use crate::semantics::statement::{analyze_stmts, lemma_stmts_frame, spec_stmts};
use crate::semantics::{
    st_initial, st_pop_scope, st_push_scope, st_set_fn, st_set_var, Analyzer, FuncSigV, StV,
    TypeName,
};

verus! {

/// The declared signature of a function definition.
pub open spec fn sig_of(f: Function) -> FuncSigV {
    FuncSigV {
        return_type: f.return_type,
        param_types: f.params@.map_values(|p: Param| p.data_type),
    }
}

/// The first pass: register every top-level signature, in order, so bodies
/// may call forward and each other.
pub open spec fn spec_declare_fns(fs: Seq<Function>, st: StV) -> StV
    decreases fs.len(),
{
    if fs.len() == 0 {
        st
    } else {
        st_set_fn(spec_declare_fns(fs.drop_last(), st), fs.last().name@, sig_of(fs.last()))
    }
}

/// Declaring a function's parameters in its fresh scope, in order.
pub open spec fn spec_declare_params(ps: Seq<Param>, st: StV) -> StV
    decreases ps.len(),
{
    if ps.len() == 0 {
        st
    } else {
        st_set_var(
            spec_declare_params(ps.drop_last(), st),
            ps.last().name@,
            ps.last().data_type,
            ps.last().mutable,
            ps.last().span,
        )
    }
}

/// Checking one function definition: its name joins the call stack, its
/// parameters are declared in a fresh scope, its body is walked, and both
/// are unwound again.
pub open spec fn spec_fn_body(f: Function, st: StV) -> FRes {
    let st1 = StV {
        scopes: st.scopes,
        func_stack: st.func_stack.push(f.name@),
        loops: st.loops,
        language_server: st.language_server,
    };
    let st3 = spec_declare_params(f.params@, st_push_scope(st1));
    let rb = spec_stmts(f.body@, st3);
    let st4 = st_pop_scope(rb.st);
    let st5 = StV {
        scopes: st4.scopes,
        func_stack: st4.func_stack.drop_last(),
        loops: st4.loops,
        language_server: st4.language_server,
    };
    FRes { st: st5, diags: rb.diags }
}

/// The second pass: check every body, in order.
pub open spec fn spec_check_fns(fs: Seq<Function>, st: StV) -> FRes
    decreases fs.len(),
{
    if fs.len() == 0 {
        FRes { st, diags: Seq::empty() }
    } else {
        let r = spec_check_fns(fs.drop_last(), st);
        let rl = spec_fn_body(fs.last(), r.st);
        FRes { st: rl.st, diags: r.diags + rl.diags }
    }
}

/// The meaning of analyzing a whole program: signatures first, then bodies.
pub open spec fn spec_program(p: Program, st: StV) -> FRes {
    spec_check_fns(p.functions@, spec_declare_fns(p.functions@, st))
}

/// Declaring parameters never changes the shape of the symbol state.
pub proof fn lemma_declare_params_frame(ps: Seq<Param>, st: StV)
    ensures
        spec_declare_params(ps, st).scopes.len() == st.scopes.len(),
        spec_declare_params(ps, st).func_stack == st.func_stack,
        spec_declare_params(ps, st).loops == st.loops,
        spec_declare_params(ps, st).language_server == st.language_server,
    decreases ps.len(),
{
    if ps.len() > 0 {
        lemma_declare_params_frame(ps.drop_last(), st);
    }
}

/// The declared parameter types of a function definition.
fn param_types_of(f: &Function) -> (v: Vec<TypeName>)
    ensures
        v@ == f.params@.map_values(|p: Param| p.data_type),
{
    let mut v: Vec<TypeName> = Vec::new();
    let mut i: usize = 0;
    while i < f.params.len()
        invariant
            i <= f.params.len(),
            v@.len() == i,
            forall|k: int| 0 <= k < i ==> v@[k] == f.params@[k].data_type,
        decreases f.params.len() - i,
    {
        v.push(f.params[i].data_type);
        i = i + 1;
    }
    proof {
        assert(v@ =~= f.params@.map_values(|p: Param| p.data_type));
    }
    v
}

impl Function {
    /// Check one function definition's body in its own scope.
    pub fn analyze(&self, analyzer: &mut Analyzer, sink: &mut Sink)
        requires
            old(analyzer).wf(),
            old(sink).wf(),
        ensures
            final(analyzer).wf(),
            final(sink).wf(),
            final(analyzer)@ == spec_fn_body(*self, old(analyzer)@).st,
            final(sink)@ == old(sink)@ + spec_fn_body(*self, old(analyzer)@).diags,
    {
        let ghost st0 = analyzer@;
        analyzer.func_stack.push(self.name.clone());
        let ghost st1 = StV {
            scopes: st0.scopes,
            func_stack: st0.func_stack.push(self.name@),
            loops: st0.loops,
            language_server: st0.language_server,
        };
        proof {
            assert(analyzer@.func_stack =~= st1.func_stack);
            assert(analyzer@ == st1);
        }
        analyzer.push_scope();
        let ghost st2 = st_push_scope(st1);
        let mut i: usize = 0;
        proof {
            assert(self.params@.subrange(0, 0) =~= Seq::<Param>::empty());
        }
        while i < self.params.len()
            invariant
                i <= self.params.len(),
                analyzer.wf(),
                analyzer@ == spec_declare_params(self.params@.subrange(0, i as int), st2),
            decreases self.params.len() - i,
        {
            analyzer.set_variable(
                &self.params[i].name,
                self.params[i].data_type,
                self.params[i].mutable,
                self.params[i].span,
            );
            i = i + 1;
            proof {
                assert(self.params@.subrange(0, i as int).drop_last() =~= self.params@.subrange(
                    0,
                    i - 1 as int,
                ));
                assert(self.params@.subrange(0, i as int).last() == self.params@[i - 1 as int]);
            }
        }
        proof {
            assert(self.params@.subrange(0, self.params@.len() as int) =~= self.params@);
        }
        let ghost st3 = spec_declare_params(self.params@, st2);
        analyze_stmts(&self.body, analyzer, sink);
        proof {
            lemma_declare_params_frame(self.params@, st2);
            lemma_stmts_frame(self.body@, st3);
        }
        analyzer.pop_scope();
        analyzer.func_stack.pop();
        proof {
            assert(analyzer@.func_stack =~= spec_fn_body(*self, st0).st.func_stack);
            assert(analyzer@ == spec_fn_body(*self, st0).st);
        }
    }
}

impl Program {
    /// Walk a whole program: register every top-level signature first, then
    /// check each function body.
    pub fn analyze(&self, analyzer: &mut Analyzer, sink: &mut Sink)
        requires
            old(analyzer).wf(),
            old(sink).wf(),
        ensures
            final(analyzer).wf(),
            final(sink).wf(),
            final(analyzer)@ == spec_program(*self, old(analyzer)@).st,
            final(sink)@ == old(sink)@ + spec_program(*self, old(analyzer)@).diags,
    {
        let ghost st0 = analyzer@;
        let ghost sk0 = sink@;
        let mut i: usize = 0;
        proof {
            assert(self.functions@.subrange(0, 0) =~= Seq::<Function>::empty());
        }
        while i < self.functions.len()
            invariant
                i <= self.functions.len(),
                analyzer.wf(),
                analyzer@ == spec_declare_fns(self.functions@.subrange(0, i as int), st0),
            decreases self.functions.len() - i,
        {
            let params = param_types_of(&self.functions[i]);
            analyzer.set_function(&self.functions[i].name, params, self.functions[i].return_type);
            i = i + 1;
            proof {
                assert(self.functions@.subrange(0, i as int).drop_last()
                    =~= self.functions@.subrange(0, i - 1 as int));
                assert(self.functions@.subrange(0, i as int).last() == self.functions@[i
                    - 1 as int]);
            }
        }
        proof {
            assert(self.functions@.subrange(0, self.functions@.len() as int) =~= self.functions@);
        }
        let ghost st1 = spec_declare_fns(self.functions@, st0);
        let mut j: usize = 0;
        proof {
            assert(self.functions@.subrange(0, 0) =~= Seq::<Function>::empty());
            assert(sink@ =~= sk0 + spec_check_fns(self.functions@.subrange(0, 0), st1).diags);
        }
        while j < self.functions.len()
            invariant
                j <= self.functions.len(),
                analyzer.wf(),
                sink.wf(),
                analyzer@ == spec_check_fns(self.functions@.subrange(0, j as int), st1).st,
                sink@ == sk0 + spec_check_fns(self.functions@.subrange(0, j as int), st1).diags,
            decreases self.functions.len() - j,
        {
            self.functions[j].analyze(analyzer, sink);
            j = j + 1;
            proof {
                assert(self.functions@.subrange(0, j as int).drop_last()
                    =~= self.functions@.subrange(0, j - 1 as int));
                assert(self.functions@.subrange(0, j as int).last() == self.functions@[j
                    - 1 as int]);
                assert(sink@ =~= sk0 + spec_check_fns(
                    self.functions@.subrange(0, j as int),
                    st1,
                ).diags);
            }
        }
        proof {
            assert(self.functions@.subrange(0, self.functions@.len() as int) =~= self.functions@);
        }
    }
}

impl Analyzer {
    /// One whole analysis pass over one program: a fresh analyzer with the
    /// built-ins seeded walks the tree, recording every diagnostic into the
    /// given collector, and is returned for inspection.
    pub fn run(ast: &Program, language_server: bool, sink: &mut Sink) -> (a: Analyzer)
        requires
            old(sink).wf(),
        ensures
            final(sink).wf(),
            a.wf(),
            a@ == spec_program(*ast, st_initial(language_server)).st,
            final(sink)@ == old(sink)@ + spec_program(*ast, st_initial(language_server)).diags,
    {
        let mut analyzer = Analyzer::new(language_server);
        ast.analyze(&mut analyzer, sink);
        analyzer
    }
}

} // verus!
