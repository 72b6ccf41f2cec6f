use vstd::prelude::*;

use crate::span::Span;

pub mod expression;
pub mod program;
pub mod statement;

verus! {

/// The closed set of types the language knows.
#[derive(Clone, Copy, PartialEq, Eq, Structural, Debug)]
pub enum TypeName {
    Int,
    Void,
}

/// Signature of a declared function: never mutated after creation.
pub struct FuncSig {
    pub return_type: TypeName,
    pub param_types: Vec<TypeName>,
}

/// Mathematical model of a function signature.
pub struct FuncSigV {
    pub return_type: TypeName,
    pub param_types: Seq<TypeName>,
}

impl View for FuncSig {
    type V = FuncSigV;

    open spec fn view(&self) -> FuncSigV {
        FuncSigV { return_type: self.return_type, param_types: self.param_types@ }
    }
}

impl FuncSig {
    /// A field-for-field copy of the signature.
    pub fn dup(&self) -> (r: FuncSig)
        ensures
            r@ == self@,
    {
        let mut params: Vec<TypeName> = Vec::new();
        let mut i: usize = 0;
        while i < self.param_types.len()
            invariant
                i <= self.param_types.len(),
                params@ =~= self.param_types@.subrange(0, i as int),
            decreases self.param_types.len() - i,
        {
            params.push(self.param_types[i]);
            i = i + 1;
        }
        proof {
            assert(params@ =~= self.param_types@);
        }
        FuncSig { return_type: self.return_type, param_types: params }
    }
}

/// Signature of a declared variable, with its declaration site and the
/// counts of reads and writes seen so far in the pass.
#[derive(Clone, Copy, PartialEq, Eq, Structural, Debug)]
pub struct VarSig {
    pub data_type: TypeName,
    pub mutable: bool,
    pub span: Span,
    pub used: i64,
    pub changed: i64,
}

/// One lexical block's symbol tables.  Bindings are kept in declaration
/// order; the latest binding of a name is the live one.
pub struct Scope {
    pub functions: Vec<(String, FuncSig)>,
    pub variables: Vec<(String, VarSig)>,
}

/// Mathematical model of one scope.
pub struct ScopeV {
    pub functions: Seq<(Seq<char>, FuncSigV)>,
    pub variables: Seq<(Seq<char>, VarSig)>,
}

pub open spec fn fns_view(v: Seq<(String, FuncSig)>) -> Seq<(Seq<char>, FuncSigV)> {
    v.map_values(|p: (String, FuncSig)| (p.0@, p.1@))
}

pub open spec fn vars_view(v: Seq<(String, VarSig)>) -> Seq<(Seq<char>, VarSig)> {
    v.map_values(|p: (String, VarSig)| (p.0@, p.1))
}

impl View for Scope {
    type V = ScopeV;

    open spec fn view(&self) -> ScopeV {
        ScopeV { functions: fns_view(self.functions@), variables: vars_view(self.variables@) }
    }
}

impl Scope {
    pub open spec fn empty_spec() -> ScopeV {
        ScopeV { functions: Seq::empty(), variables: Seq::empty() }
    }

    pub fn new() -> (s: Scope)
        ensures
            s@ == Scope::empty_spec(),
    {
        let s = Scope { functions: Vec::new(), variables: Vec::new() };
        proof {
            assert(s@.functions =~= Scope::empty_spec().functions);
            assert(s@.variables =~= Scope::empty_spec().variables);
        }
        s
    }
}

/// Search one scope's function bindings, latest declaration first.
pub open spec fn lookup_fn_in(fns: Seq<(Seq<char>, FuncSigV)>, name: Seq<char>) -> Option<
    FuncSigV,
>
    decreases fns.len(),
{
    if fns.len() == 0 {
        None
    } else if fns.last().0 == name {
        Some(fns.last().1)
    } else {
        lookup_fn_in(fns.drop_last(), name)
    }
}

/// Search one scope's variable bindings, latest declaration first.
pub open spec fn lookup_var_in(vars: Seq<(Seq<char>, VarSig)>, name: Seq<char>) -> Option<VarSig>
    decreases vars.len(),
{
    if vars.len() == 0 {
        None
    } else if vars.last().0 == name {
        Some(vars.last().1)
    } else {
        lookup_var_in(vars.drop_last(), name)
    }
}

/// Search the scope stack innermost-to-outermost; the first match wins,
/// so inner declarations shadow outer ones of the same name.
pub open spec fn lookup_fn(scopes: Seq<ScopeV>, name: Seq<char>) -> Option<FuncSigV>
    decreases scopes.len(),
{
    if scopes.len() == 0 {
        None
    } else {
        match lookup_fn_in(scopes.last().functions, name) {
            Some(f) => Some(f),
            None => lookup_fn(scopes.drop_last(), name),
        }
    }
}

/// Search the scope stack innermost-to-outermost for a variable.
pub open spec fn lookup_var(scopes: Seq<ScopeV>, name: Seq<char>) -> Option<VarSig>
    decreases scopes.len(),
{
    if scopes.len() == 0 {
        None
    } else {
        match lookup_var_in(scopes.last().variables, name) {
            Some(v) => Some(v),
            None => lookup_var(scopes.drop_last(), name),
        }
    }
}

/// Increment one of a variable's counters, saturating at the type's maximum
/// so that counting can never fail.
pub open spec fn bump(v: VarSig, use_it: bool) -> VarSig {
    if use_it {
        if v.used < i64::MAX {
            VarSig {
                data_type: v.data_type,
                mutable: v.mutable,
                span: v.span,
                used: (v.used + 1) as i64,
                changed: v.changed,
            }
        } else {
            v
        }
    } else {
        if v.changed < i64::MAX {
            VarSig {
                data_type: v.data_type,
                mutable: v.mutable,
                span: v.span,
                used: v.used,
                changed: (v.changed + 1) as i64,
            }
        } else {
            v
        }
    }
}

/// Bump the counter on the latest binding of `name` within one scope.
pub open spec fn mark_vars(vars: Seq<(Seq<char>, VarSig)>, name: Seq<char>, use_it: bool) -> Seq<
    (Seq<char>, VarSig),
>
    decreases vars.len(),
{
    if vars.len() == 0 {
        vars
    } else if vars.last().0 == name {
        vars.drop_last().push((vars.last().0, bump(vars.last().1, use_it)))
    } else {
        mark_vars(vars.drop_last(), name, use_it).push(vars.last())
    }
}

/// Bump the counter on the binding `name` resolves to: only the innermost
/// scope that declares the name is touched.
pub open spec fn mark_scopes(scopes: Seq<ScopeV>, name: Seq<char>, use_it: bool) -> Seq<ScopeV>
    decreases scopes.len(),
{
    if scopes.len() == 0 {
        scopes
    } else if lookup_var_in(scopes.last().variables, name) is Some {
        scopes.drop_last().push(
            ScopeV {
                functions: scopes.last().functions,
                variables: mark_vars(scopes.last().variables, name, use_it),
            },
        )
    } else {
        mark_scopes(scopes.drop_last(), name, use_it).push(scopes.last())
    }
}

/// The analyzer's whole symbol state: scope stack (innermost last), stack of
/// enclosing function names, loop-nesting counter, and the one analysis flag.
pub struct StV {
    pub scopes: Seq<ScopeV>,
    pub func_stack: Seq<Seq<char>>,
    pub loops: int,
    pub language_server: bool,
}

/// There is always a root scope and the loop counter never goes negative.
pub open spec fn st_wf(st: StV) -> bool {
    st.scopes.len() >= 1 && st.loops >= 0
}

pub open spec fn st_push_scope(st: StV) -> StV {
    StV {
        scopes: st.scopes.push(Scope::empty_spec()),
        func_stack: st.func_stack,
        loops: st.loops,
        language_server: st.language_server,
    }
}

pub open spec fn st_pop_scope(st: StV) -> StV {
    StV {
        scopes: st.scopes.drop_last(),
        func_stack: st.func_stack,
        loops: st.loops,
        language_server: st.language_server,
    }
}

pub open spec fn scope_with_fn(s: ScopeV, name: Seq<char>, f: FuncSigV) -> ScopeV {
    ScopeV { functions: s.functions.push((name, f)), variables: s.variables }
}

pub open spec fn fresh_var(ty: TypeName, mutable: bool, span: Span) -> VarSig {
    VarSig { data_type: ty, mutable, span, used: 0, changed: 0 }
}

pub open spec fn scope_with_var(s: ScopeV, name: Seq<char>, v: VarSig) -> ScopeV {
    ScopeV { functions: s.functions, variables: s.variables.push((name, v)) }
}

/// Declare a function in the innermost scope; a re-declaration shadows the
/// earlier binding, which lookup then never returns.
pub open spec fn st_set_fn(st: StV, name: Seq<char>, f: FuncSigV) -> StV {
    if st.scopes.len() == 0 {
        st
    } else {
        StV {
            scopes: st.scopes.drop_last().push(scope_with_fn(st.scopes.last(), name, f)),
            func_stack: st.func_stack,
            loops: st.loops,
            language_server: st.language_server,
        }
    }
}

/// Declare a variable in the innermost scope with fresh counters.
pub open spec fn st_set_var(st: StV, name: Seq<char>, ty: TypeName, mutable: bool, span: Span) -> StV {
    if st.scopes.len() == 0 {
        st
    } else {
        StV {
            scopes: st.scopes.drop_last().push(
                scope_with_var(st.scopes.last(), name, fresh_var(ty, mutable, span)),
            ),
            func_stack: st.func_stack,
            loops: st.loops,
            language_server: st.language_server,
        }
    }
}

/// Entering a loop body: the nesting counter grows, saturating so that
/// counting can never fail.
pub open spec fn st_inc_loops(st: StV) -> StV {
    if st.loops < i64::MAX {
        StV {
            scopes: st.scopes,
            func_stack: st.func_stack,
            loops: st.loops + 1,
            language_server: st.language_server,
        }
    } else {
        st
    }
}

/// Leaving a loop body: the nesting counter shrinks, never below zero.
pub open spec fn st_dec_loops(st: StV) -> StV {
    if st.loops > 0 {
        StV {
            scopes: st.scopes,
            func_stack: st.func_stack,
            loops: st.loops - 1,
            language_server: st.language_server,
        }
    } else {
        st
    }
}

pub open spec fn st_mark(st: StV, name: Seq<char>, use_it: bool) -> StV {
    StV {
        scopes: mark_scopes(st.scopes, name, use_it),
        func_stack: st.func_stack,
        loops: st.loops,
        language_server: st.language_server,
    }
}

/// The function whose body is being analyzed, if any.
pub open spec fn st_cur_fn(st: StV) -> Option<(FuncSigV, Seq<char>)> {
    if st.func_stack.len() == 0 {
        None
    } else {
        match lookup_fn(st.scopes, st.func_stack.last()) {
            Some(f) => Some((f, st.func_stack.last())),
            None => None,
        }
    }
}

pub open spec fn opt_sig_view(r: Option<FuncSig>) -> Option<FuncSigV> {
    match r {
        Some(f) => Some(f@),
        None => None,
    }
}

pub open spec fn cur_fn_view(r: Option<(FuncSig, String)>) -> Option<(FuncSigV, Seq<char>)> {
    match r {
        Some(p) => Some((p.0@, p.1@)),
        None => None,
    }
}

pub open spec fn scopes_view(v: Seq<Scope>) -> Seq<ScopeV> {
    v.map_values(|s: Scope| s@)
}

pub open spec fn names_view(v: Seq<String>) -> Seq<Seq<char>> {
    v.map_values(|s: String| s@)
}

/// The state a fresh analyzer starts from: one root scope holding the one
/// built-in signature, `print: (int) -> void`.
pub open spec fn st_initial(language_server: bool) -> StV {
    StV {
        scopes: seq![
            ScopeV {
                functions: seq![
                    (
                        "print"@,
                        FuncSigV { return_type: TypeName::Void, param_types: seq![TypeName::Int] },
                    ),
                ],
                variables: Seq::empty(),
            },
        ],
        func_stack: Seq::empty(),
        loops: 0,
        language_server,
    }
}

/// Owns the scope stack, the enclosing-function stack and the loop counter
/// for exactly one analysis pass over one program.
pub struct Analyzer {
    pub scopes: Vec<Scope>,
    pub func_stack: Vec<String>,
    pub loops: i64,
    pub language_server: bool,
}

impl View for Analyzer {
    type V = StV;

    open spec fn view(&self) -> StV {
        StV {
            scopes: scopes_view(self.scopes@),
            func_stack: names_view(self.func_stack@),
            loops: self.loops as int,
            language_server: self.language_server,
        }
    }
}

/// Find the latest binding of `name` in one scope's variable list.
fn scope_get_variable(scope: &Scope, name: &String) -> (r: Option<VarSig>)
    ensures
        r == lookup_var_in(scope@.variables, name@),
{
    let mut j: usize = scope.variables.len();
    proof {
        assert(scope@.variables.subrange(0, j as int) =~= scope@.variables);
    }
    while j > 0
        invariant
            j <= scope.variables.len(),
            lookup_var_in(scope@.variables, name@) == lookup_var_in(
                scope@.variables.subrange(0, j as int),
                name@,
            ),
        decreases j,
    {
        j = j - 1;
        proof {
            assert(scope@.variables.subrange(0, j as int + 1).drop_last() =~= scope@
                .variables.subrange(0, j as int));
            assert(scope@.variables.subrange(0, j as int + 1).last() == (
                scope.variables@[j as int].0@,
                scope.variables@[j as int].1,
            ));
        }
        if name.eq(&scope.variables[j].0) {
            return Some(scope.variables[j].1);
        }
    }
    None
}

/// Find the latest binding of `name` in one scope's function list.
fn scope_get_function(scope: &Scope, name: &String) -> (r: Option<FuncSig>)
    ensures
        opt_sig_view(r) == lookup_fn_in(scope@.functions, name@),
{
    let mut j: usize = scope.functions.len();
    proof {
        assert(scope@.functions.subrange(0, j as int) =~= scope@.functions);
    }
    while j > 0
        invariant
            j <= scope.functions.len(),
            lookup_fn_in(scope@.functions, name@) == lookup_fn_in(
                scope@.functions.subrange(0, j as int),
                name@,
            ),
        decreases j,
    {
        j = j - 1;
        proof {
            assert(scope@.functions.subrange(0, j as int + 1).drop_last() =~= scope@
                .functions.subrange(0, j as int));
            assert(scope@.functions.subrange(0, j as int + 1).last() == (
                scope.functions@[j as int].0@,
                scope.functions@[j as int].1@,
            ));
        }
        if name.eq(&scope.functions[j].0) {
            return Some(scope.functions[j].1.dup());
        }
    }
    None
}

/// Bump a counter on the latest binding of `name` in one variable list.
fn mark_vars_exec(vars: &mut Vec<(String, VarSig)>, name: &String, use_it: bool)
    ensures
        vars_view(final(vars)@) == mark_vars(vars_view(old(vars)@), name@, use_it),
    decreases old(vars)@.len(),
{
    let ghost v0 = vars_view(old(vars)@);
    if let Some(last) = vars.pop() {
        proof {
            assert(v0 =~= vars_view(vars@).push((last.0@, last.1)));
            assert(v0.drop_last() =~= vars_view(vars@));
        }
        if name.eq(&last.0) {
            let bumped = bump_exec(last.1, use_it);
            vars.push((last.0, bumped));
            proof {
                assert(vars_view(vars@) =~= v0.drop_last().push((v0.last().0, bump(
                    v0.last().1,
                    use_it,
                ))));
            }
        } else {
            mark_vars_exec(vars, name, use_it);
            vars.push(last);
            proof {
                assert(vars_view(vars@) =~= mark_vars(v0.drop_last(), name@, use_it).push(
                    v0.last(),
                ));
            }
        }
    } else {
        proof {
            assert(v0 =~= vars_view(vars@));
        }
    }
}

fn bump_exec(v: VarSig, use_it: bool) -> (r: VarSig)
    ensures
        r == bump(v, use_it),
{
    if use_it {
        if v.used < i64::MAX {
            VarSig { used: v.used + 1, ..v }
        } else {
            v
        }
    } else {
        if v.changed < i64::MAX {
            VarSig { changed: v.changed + 1, ..v }
        } else {
            v
        }
    }
}

/// Bump a counter on whatever binding `name` resolves to, innermost first.
fn mark_scopes_exec(scopes: &mut Vec<Scope>, name: &String, use_it: bool)
    ensures
        scopes_view(final(scopes)@) == mark_scopes(scopes_view(old(scopes)@), name@, use_it),
    decreases old(scopes)@.len(),
{
    let ghost s0 = scopes_view(old(scopes)@);
    if let Some(mut top) = scopes.pop() {
        proof {
            assert(s0 =~= scopes_view(scopes@).push(top@));
            assert(s0.drop_last() =~= scopes_view(scopes@));
        }
        let found = scope_get_variable(&top, name);
        if found.is_some() {
            mark_vars_exec(&mut top.variables, name, use_it);
            let ghost topv = top@;
            scopes.push(top);
            proof {
                assert(scopes_view(scopes@) =~= s0.drop_last().push(
                    ScopeV {
                        functions: s0.last().functions,
                        variables: mark_vars(s0.last().variables, name@, use_it),
                    },
                ));
            }
        } else {
            mark_scopes_exec(scopes, name, use_it);
            scopes.push(top);
            proof {
                assert(scopes_view(scopes@) =~= mark_scopes(s0.drop_last(), name@, use_it).push(
                    s0.last(),
                ));
            }
        }
    } else {
        proof {
            assert(s0 =~= scopes_view(scopes@));
        }
    }
}

impl Analyzer {
    pub open spec fn wf(&self) -> bool {
        st_wf(self@)
    }

    /// A fresh analyzer over an empty root scope, with the built-in
    /// `print: (int) -> void` already declared.
    pub fn new(language_server: bool) -> (a: Analyzer)
        ensures
            a@ == st_initial(language_server),
            a.wf(),
    {
        let mut scopes: Vec<Scope> = Vec::new();
        scopes.push(Scope::new());
        let mut a = Analyzer { scopes, func_stack: Vec::new(), loops: 0, language_server };
        proof {
            assert(a@.scopes =~= seq![Scope::empty_spec()]);
            assert(a@.func_stack =~= Seq::<Seq<char>>::empty());
        }
        let mut params: Vec<TypeName> = Vec::new();
        params.push(TypeName::Int);
        let print_name = String::from_str("print");
        a.set_function(&print_name, params, TypeName::Void);
        proof {
            assert(params@ =~= seq![TypeName::Int]);
            assert(a@.scopes =~= st_initial(language_server).scopes);
            assert(a@.func_stack =~= st_initial(language_server).func_stack);
        }
        a
    }

    pub fn push_scope(&mut self)
        ensures
            final(self)@ == st_push_scope(old(self)@),
            old(self).wf() ==> final(self).wf(),
    {
        let ghost s0 = scopes_view(old(self).scopes@);
        self.scopes.push(Scope::new());
        proof {
            assert(scopes_view(self.scopes@) =~= s0.push(Scope::empty_spec()));
        }
    }

    /// Pops and returns the innermost scope.  The root scope is never popped:
    /// every checker balances its pushes with its pops.
    pub fn pop_scope(&mut self) -> (s: Scope)
        requires
            old(self)@.scopes.len() >= 2,
        ensures
            final(self)@ == st_pop_scope(old(self)@),
            s@ == old(self)@.scopes.last(),
            old(self).wf() ==> final(self).wf(),
    {
        let ghost s0 = scopes_view(old(self).scopes@);
        let s = match self.scopes.pop() {
            Some(s) => s,
            None => Scope::new(),
        };
        proof {
            assert(s0.drop_last() =~= scopes_view(self.scopes@));
        }
        s
    }

    /// Resolve a function name, innermost scope first.
    pub fn get_function(&self, name: &String) -> (r: Option<FuncSig>)
        ensures
            opt_sig_view(r) == lookup_fn(self@.scopes, name@),
    {
        let mut i: usize = self.scopes.len();
        proof {
            assert(self@.scopes.subrange(0, i as int) =~= self@.scopes);
        }
        while i > 0
            invariant
                i <= self.scopes.len(),
                lookup_fn(self@.scopes, name@) == lookup_fn(
                    self@.scopes.subrange(0, i as int),
                    name@,
                ),
            decreases i,
        {
            i = i - 1;
            proof {
                assert(self@.scopes.subrange(0, i + 1 as int).drop_last() =~= self@.scopes.subrange(
                    0,
                    i as int,
                ));
                assert(self@.scopes.subrange(0, i + 1 as int).last() == self@.scopes[i as int]);
            }
            let r = scope_get_function(&self.scopes[i], name);
            if r.is_some() {
                return r;
            }
        }
        None
    }

    /// The function the walk is currently inside, with its name.
    pub fn get_current_function(&self) -> (r: Option<(FuncSig, String)>)
        ensures
            cur_fn_view(r) == st_cur_fn(self@),
    {
        if self.func_stack.len() == 0 {
            None
        } else {
            let name = &self.func_stack[self.func_stack.len() - 1];
            proof {
                assert(name@ == self@.func_stack.last());
            }
            match self.get_function(name) {
                Some(f) => Some((f, name.clone())),
                None => None,
            }
        }
    }

    /// Declare (or shadow) a function in the innermost scope.
    pub fn set_function(&mut self, name: &String, params: Vec<TypeName>, return_type: TypeName)
        requires
            old(self)@.scopes.len() >= 1,
        ensures
            final(self)@ == st_set_fn(
                old(self)@,
                name@,
                FuncSigV { return_type, param_types: params@ },
            ),
            old(self).wf() ==> final(self).wf(),
    {
        let ghost s0 = scopes_view(old(self).scopes@);
        if let Some(mut scope) = self.scopes.pop() {
            proof {
                assert(s0.drop_last() =~= scopes_view(self.scopes@));
                assert(s0.last() == scope@);
            }
            let ghost fv0 = scope@.functions;
            scope.functions.push((name.clone(), FuncSig { return_type, param_types: params }));
            proof {
                assert(scope@.functions =~= fv0.push(
                    (name@, FuncSigV { return_type, param_types: params@ }),
                ));
            }
            self.scopes.push(scope);
            proof {
                assert(scopes_view(self.scopes@) =~= s0.drop_last().push(
                    scope_with_fn(
                        s0.last(),
                        name@,
                        FuncSigV { return_type, param_types: params@ },
                    ),
                ));
            }
        }
    }

    /// Every name is an acceptable return type.
    pub fn valid_return_type(&self, return_type: TypeName) -> (r: bool)
        ensures
            r == (return_type == TypeName::Int || return_type == TypeName::Void),
    {
        match return_type {
            TypeName::Int => true,
            TypeName::Void => true,
        }
    }

    /// Only `int` values can be stored in a variable.
    pub fn valid_data_type(&self, data_type: TypeName) -> (r: bool)
        ensures
            r == (data_type == TypeName::Int),
    {
        match data_type {
            TypeName::Int => true,
            TypeName::Void => false,
        }
    }

    /// Resolve a variable: through the whole scope chain, or in the
    /// innermost scope alone when `all_scopes` is false.
    pub fn get_variable(&self, name: &String, all_scopes: bool) -> (r: Option<VarSig>)
        requires
            self@.scopes.len() >= 1,
        ensures
            all_scopes ==> r == lookup_var(self@.scopes, name@),
            !all_scopes ==> r == lookup_var_in(self@.scopes.last().variables, name@),
    {
        if all_scopes {
            let mut i: usize = self.scopes.len();
            proof {
                assert(self@.scopes.subrange(0, i as int) =~= self@.scopes);
            }
            while i > 0
                invariant
                    all_scopes,
                    i <= self.scopes.len(),
                    lookup_var(self@.scopes, name@) == lookup_var(
                        self@.scopes.subrange(0, i as int),
                        name@,
                    ),
                decreases i,
            {
                i = i - 1;
                proof {
                    assert(self@.scopes.subrange(0, i + 1 as int).drop_last()
                        =~= self@.scopes.subrange(0, i as int));
                    assert(self@.scopes.subrange(0, i + 1 as int).last()
                        == self@.scopes[i as int]);
                }
                let r = scope_get_variable(&self.scopes[i], name);
                if r.is_some() {
                    return r;
                }
            }
            None
        } else {
            proof {
                assert(self@.scopes.last() == self.scopes@[self.scopes@.len() - 1]@);
            }
            scope_get_variable(&self.scopes[self.scopes.len() - 1], name)
        }
    }

    /// Declare (or shadow) a variable in the innermost scope, counters fresh.
    pub fn set_variable(&mut self, name: &String, data_type: TypeName, mutable: bool, span: Span)
        requires
            old(self)@.scopes.len() >= 1,
        ensures
            final(self)@ == st_set_var(old(self)@, name@, data_type, mutable, span),
            old(self).wf() ==> final(self).wf(),
    {
        let ghost s0 = scopes_view(old(self).scopes@);
        if let Some(mut scope) = self.scopes.pop() {
            proof {
                assert(s0.drop_last() =~= scopes_view(self.scopes@));
                assert(s0.last() == scope@);
            }
            let ghost vv0 = scope@.variables;
            scope.variables.push(
                (name.clone(), VarSig { data_type, mutable, span, used: 0, changed: 0 }),
            );
            proof {
                assert(scope@.variables =~= vv0.push((name@, fresh_var(data_type, mutable, span))));
            }
            self.scopes.push(scope);
            proof {
                assert(scopes_view(self.scopes@) =~= s0.drop_last().push(
                    scope_with_var(s0.last(), name@, fresh_var(data_type, mutable, span)),
                ));
            }
        }
    }

    /// Count one write on the binding the name resolves to.
    pub fn change_variable(&mut self, name: &String)
        ensures
            final(self)@ == st_mark(old(self)@, name@, false),
            old(self).wf() ==> final(self).wf(),
    {
        mark_scopes_exec(&mut self.scopes, name, false);
        proof {
            lemma_mark_scopes_len(scopes_view(old(self).scopes@), name@, false);
        }
    }

    /// Count one read on the binding the name resolves to.
    pub fn use_variable(&mut self, name: &String)
        ensures
            final(self)@ == st_mark(old(self)@, name@, true),
            old(self).wf() ==> final(self).wf(),
    {
        mark_scopes_exec(&mut self.scopes, name, true);
        proof {
            lemma_mark_scopes_len(scopes_view(old(self).scopes@), name@, true);
        }
    }
}

pub proof fn lemma_mark_scopes_len(scopes: Seq<ScopeV>, name: Seq<char>, use_it: bool)
    ensures
        mark_scopes(scopes, name, use_it).len() == scopes.len(),
    decreases scopes.len(),
{
    if scopes.len() > 0 {
        if lookup_var_in(scopes.last().variables, name) is Some {
        } else {
            lemma_mark_scopes_len(scopes.drop_last(), name, use_it);
        }
    }
}

/// Shadowing: declaring `name` in a freshly pushed scope makes lookup return
/// the new binding, and popping that scope restores whatever lookup returned
/// before.
pub proof fn lemma_shadowing(st: StV, name: Seq<char>, ty: TypeName, mutable: bool, span: Span)
    requires
        st_wf(st),
    ensures
        ({
            let st2 = st_set_var(st_push_scope(st), name, ty, mutable, span);
            lookup_var(st2.scopes, name) == Some(fresh_var(ty, mutable, span))
                && lookup_var(st_pop_scope(st2).scopes, name) == lookup_var(st.scopes, name)
        }),
{
    let st1 = st_push_scope(st);
    let st2 = st_set_var(st1, name, ty, mutable, span);
    let inner = st2.scopes.last();
    assert(inner.variables =~= Seq::empty().push((name, fresh_var(ty, mutable, span))));
    assert(lookup_var_in(inner.variables, name) == Some(fresh_var(ty, mutable, span)));
    assert(st_pop_scope(st2).scopes =~= st.scopes);
}

} // verus!
