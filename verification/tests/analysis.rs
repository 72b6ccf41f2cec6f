use sema::ast::{Expr, Expression, Function, Program, Statement};
use sema::message::{Code, Severity, Sink};
use sema::semantics::{Analyzer, TypeName};
use sema::span::Span;

fn e(node: Expr, lo: usize, hi: usize) -> Expression {
    Expression { node, span: Span::new(lo, hi) }
}

fn main_program(body: Vec<Statement>) -> Program {
    Program {
        functions: vec![Function {
            name: String::from("main"),
            params: vec![],
            return_type: TypeName::Void,
            body,
            span: Span::new(0, 28),
        }],
    }
}

#[test]
fn print_overflowing_literal_reports_exactly_one_error() {
    // source: "fn main() { print(40000); }"
    let call = e(
        Expr::FuncCall(
            Box::new(e(Expr::Var(String::from("print")), 12, 17)),
            vec![e(Expr::Integer(40000), 18, 23)],
        ),
        12,
        24,
    );
    let ast = main_program(vec![Statement::Expr { expr: call }]);
    let mut sink = Sink::new();
    Analyzer::run(&ast, false, &mut sink);
    assert!(sink.errored());
    assert_eq!(sink.len(), 1);
    let d = sink.get(0);
    assert_eq!(d.kind, Severity::Error);
    assert!(matches!(d.code, Code::TooLargeInt));
    assert_eq!(d.span, Some(Span::new(18, 23)));
    assert_eq!(
        d.code.text(),
        "Value exceeds the maximum for a signed 2-byte integer (max 32767)"
    );
}

#[test]
fn literal_within_range_is_clean() {
    let call = e(
        Expr::FuncCall(
            Box::new(e(Expr::Var(String::from("print")), 12, 17)),
            vec![e(Expr::Integer(32767), 18, 23)],
        ),
        12,
        24,
    );
    let ast = main_program(vec![Statement::Expr { expr: call }]);
    let mut sink = Sink::new();
    Analyzer::run(&ast, false, &mut sink);
    assert!(!sink.errored());
    assert_eq!(sink.len(), 0);
}

#[test]
fn negated_literal_has_asymmetric_bound() {
    let mut sink = Sink::new();
    let mut analyzer = Analyzer::new(false);
    let ok = e(Expr::Neg(Box::new(e(Expr::Integer(32768), 1, 6))), 0, 6);
    assert_eq!(ok.analyze(&mut analyzer, &mut sink), TypeName::Int);
    assert_eq!(sink.len(), 0);
    let bad = e(Expr::Neg(Box::new(e(Expr::Integer(32769), 1, 6))), 0, 6);
    assert_eq!(bad.analyze(&mut analyzer, &mut sink), TypeName::Int);
    assert_eq!(sink.len(), 1);
    assert_eq!(
        sink.get(0).code.text(),
        "Value exceeds the minimum for a signed 2-byte integer (min -32768)"
    );
}

#[test]
fn division_by_literal_zero_reports_exactly_one_error() {
    // source: "fn main() { let x = 1 / 0; }"
    let div = e(
        Expr::Div(
            Box::new(e(Expr::Integer(1), 20, 21)),
            Box::new(e(Expr::Integer(0), 24, 25)),
        ),
        20,
        25,
    );
    let ast = main_program(vec![Statement::Let {
        name: String::from("x"),
        data_type: None,
        mutable: false,
        value: Some(div),
        span: Span::new(12, 26),
    }]);
    let mut sink = Sink::new();
    Analyzer::run(&ast, false, &mut sink);
    assert!(sink.errored());
    assert_eq!(sink.len(), 1);
    let d = sink.get(0);
    assert!(matches!(d.code, Code::DivisionByZero));
    assert_eq!(d.code.text(), "Division by zero");
    assert_eq!(d.span, Some(Span::new(24, 25)));
}

#[test]
fn modulo_by_zero_also_reports() {
    let m = e(
        Expr::Mod(
            Box::new(e(Expr::Integer(7), 0, 1)),
            Box::new(e(Expr::Integer(0), 4, 5)),
        ),
        0,
        5,
    );
    let mut sink = Sink::new();
    let mut analyzer = Analyzer::new(false);
    m.analyze(&mut analyzer, &mut sink);
    assert_eq!(sink.len(), 1);
    assert!(matches!(sink.get(0).code, Code::DivisionByZero));
    assert_eq!(sink.get(0).span, Some(Span::new(4, 5)));
}

#[test]
fn binary_arithmetic_names_both_types() {
    // print(1) has type void; void + int is one arithmetic error.
    let call = e(
        Expr::FuncCall(
            Box::new(e(Expr::Var(String::from("print")), 0, 5)),
            vec![e(Expr::Integer(1), 6, 7)],
        ),
        0,
        8,
    );
    let add = e(Expr::Add(Box::new(call), Box::new(e(Expr::Integer(2), 11, 12))), 0, 12);
    let mut sink = Sink::new();
    let mut analyzer = Analyzer::new(false);
    assert_eq!(add.analyze(&mut analyzer, &mut sink), TypeName::Int);
    assert_eq!(sink.len(), 1);
    assert_eq!(
        sink.get(0).code.text(),
        "Cannot perform arithmetic on types `void` and `int`"
    );
}

#[test]
fn variable_shadowing_resolves_innermost_then_outer_again() {
    let mut analyzer = Analyzer::new(false);
    let name = String::from("x");
    analyzer.set_variable(&name, TypeName::Int, false, Span::new(1, 2));
    analyzer.push_scope();
    analyzer.set_variable(&name, TypeName::Int, true, Span::new(10, 11));
    let inner = analyzer.get_variable(&name, true).unwrap();
    assert_eq!(inner.span, Span::new(10, 11));
    assert!(inner.mutable);
    analyzer.pop_scope();
    let outer = analyzer.get_variable(&name, true).unwrap();
    assert_eq!(outer.span, Span::new(1, 2));
    assert!(!outer.mutable);
}

#[test]
fn undeclared_variable_recovers_as_int() {
    let v = e(Expr::Var(String::from("nope")), 3, 7);
    let add = e(Expr::Add(Box::new(v), Box::new(e(Expr::Integer(1), 10, 11))), 3, 11);
    let mut sink = Sink::new();
    let mut analyzer = Analyzer::new(false);
    // recovery: the enclosing addition still checks cleanly as int + int
    assert_eq!(add.analyze(&mut analyzer, &mut sink), TypeName::Int);
    assert_eq!(sink.len(), 1);
    assert_eq!(sink.get(0).code.text(), "Use of undeclared variable `nope`");
}

#[test]
fn zero_parameter_arity_mismatch_reports_error_and_hint() {
    let mut analyzer = Analyzer::new(false);
    let fname = String::from("beep");
    analyzer.set_function(&fname, vec![], TypeName::Int);
    let call = e(
        Expr::FuncCall(
            Box::new(e(Expr::Var(String::from("beep")), 0, 4)),
            vec![e(Expr::Integer(1), 5, 6)],
        ),
        0,
        7,
    );
    let mut sink = Sink::new();
    assert_eq!(call.analyze(&mut analyzer, &mut sink), TypeName::Int);
    assert_eq!(sink.len(), 2);
    assert_eq!(sink.get(0).kind, Severity::Error);
    assert_eq!(
        sink.get(0).code.text(),
        "Expected 0 arguments to function `beep`, got 1"
    );
    assert_eq!(sink.get(1).kind, Severity::Hint);
    assert_eq!(sink.get(1).code.text(), "Function signature is `beep() -> int`");
}

#[test]
fn one_parameter_arity_message_is_singular() {
    let call = e(
        Expr::FuncCall(Box::new(e(Expr::Var(String::from("print")), 0, 5)), vec![]),
        0,
        7,
    );
    let mut sink = Sink::new();
    let mut analyzer = Analyzer::new(false);
    assert_eq!(call.analyze(&mut analyzer, &mut sink), TypeName::Void);
    assert_eq!(sink.len(), 2);
    assert_eq!(
        sink.get(0).code.text(),
        "Expected 1 argument to function `print`, got 0"
    );
    assert_eq!(
        sink.get(1).code.text(),
        "Function signature is `print(int) -> void`"
    );
}

#[test]
fn undeclared_function_reports_and_returns_void() {
    let call = e(
        Expr::FuncCall(Box::new(e(Expr::Var(String::from("ghost_fn")), 0, 8)), vec![]),
        0,
        10,
    );
    let mut sink = Sink::new();
    let mut analyzer = Analyzer::new(false);
    assert_eq!(call.analyze(&mut analyzer, &mut sink), TypeName::Void);
    assert_eq!(sink.len(), 1);
    assert_eq!(sink.get(0).code.text(), "Use of undeclared function `ghost_fn`");
}

#[test]
fn composite_callee_is_rejected() {
    let call = e(
        Expr::FuncCall(
            Box::new(e(
                Expr::Add(
                    Box::new(e(Expr::Integer(1), 0, 1)),
                    Box::new(e(Expr::Integer(2), 2, 3)),
                ),
                0,
                3,
            )),
            vec![],
        ),
        0,
        5,
    );
    let mut sink = Sink::new();
    let mut analyzer = Analyzer::new(false);
    assert_eq!(call.analyze(&mut analyzer, &mut sink), TypeName::Void);
    assert_eq!(sink.len(), 1);
    assert_eq!(
        sink.get(0).code.text(),
        "Composite function names are not supported yet"
    );
}

#[test]
fn assignment_to_immutable_and_type_mismatch() {
    let mut analyzer = Analyzer::new(false);
    let name = String::from("k");
    analyzer.set_variable(&name, TypeName::Int, false, Span::new(0, 1));
    let asg = e(
        Expr::Assign(
            Box::new(e(Expr::Var(String::from("k")), 4, 5)),
            Box::new(e(Expr::Integer(3), 8, 9)),
        ),
        4,
        9,
    );
    let mut sink = Sink::new();
    assert_eq!(asg.analyze(&mut analyzer, &mut sink), TypeName::Void);
    assert_eq!(sink.len(), 1);
    assert_eq!(sink.get(0).code.text(), "Cannot assign to immutable variable `k`");
}

#[test]
fn use_and_change_counters_track_accesses() {
    let mut analyzer = Analyzer::new(false);
    let name = String::from("n");
    analyzer.set_variable(&name, TypeName::Int, true, Span::new(0, 1));
    analyzer.use_variable(&name);
    analyzer.use_variable(&name);
    analyzer.change_variable(&name);
    let sig = analyzer.get_variable(&name, true).unwrap();
    assert_eq!(sig.used, 2);
    assert_eq!(sig.changed, 1);
}

#[test]
fn break_and_continue_need_a_loop() {
    let ast = main_program(vec![
        Statement::Break { span: Span::new(12, 17) },
        Statement::While {
            cond: e(Expr::Integer(1), 25, 26),
            body: vec![Statement::Continue { span: Span::new(30, 38) }],
            span: Span::new(19, 40),
        },
    ]);
    let mut sink = Sink::new();
    Analyzer::run(&ast, false, &mut sink);
    assert_eq!(sink.len(), 1);
    assert_eq!(sink.get(0).code.text(), "`break` outside of a loop");
}

#[test]
fn return_type_must_match_declaration() {
    let ast = Program {
        functions: vec![Function {
            name: String::from("f"),
            params: vec![],
            return_type: TypeName::Void,
            body: vec![Statement::Return {
                value: Some(e(Expr::Integer(3), 10, 11)),
                span: Span::new(3, 12),
            }],
            span: Span::new(0, 14),
        }],
    };
    let mut sink = Sink::new();
    Analyzer::run(&ast, false, &mut sink);
    assert_eq!(sink.len(), 1);
    assert_eq!(
        sink.get(0).code.text(),
        "Cannot return a value of type `int` from a function returning `void`"
    );
}

#[test]
fn errored_flag_is_sticky_and_order_preserved() {
    let mut sink = Sink::new();
    assert!(!sink.errored());
    sink.warning(Code::DivisionByZero, None);
    assert!(!sink.errored());
    sink.error(Code::TooLargeInt, Some(Span::new(0, 1)));
    assert!(sink.errored());
    sink.hint(Code::DivisionByZero, None);
    assert!(sink.errored());
    assert_eq!(sink.len(), 3);
    assert_eq!(sink.get(0).kind, Severity::Warning);
    assert_eq!(sink.get(1).kind, Severity::Error);
    assert_eq!(sink.get(2).kind, Severity::Hint);
}
