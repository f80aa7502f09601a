use std::rc::Rc;

use pana_lang::ast::{BinOp, Expr, ExprKind, FnDef, PrefixOp, Stmt};
use pana_lang::draw::DrawCommand;
use pana_lang::eval::Evaluator;
use pana_lang::heap::Heap;
use pana_lang::value::{Cell, ErrorKind, Flow, Value};

fn at(kind: ExprKind, line: usize, col: usize) -> Expr {
    Expr { kind, line, col }
}

fn ex(kind: ExprKind) -> Expr {
    at(kind, 1, 1)
}

fn num(n: i64) -> Expr {
    ex(ExprKind::Int(n))
}

fn boolean(b: bool) -> Expr {
    ex(ExprKind::Bool(b))
}

fn null() -> Expr {
    ex(ExprKind::Null)
}

fn string(s: &str) -> Expr {
    ex(ExprKind::Str(s.to_string()))
}

fn ident(s: &str) -> Expr {
    ex(ExprKind::Ident(s.to_string()))
}

fn infix(op: BinOp, l: Expr, r: Expr) -> Expr {
    ex(ExprKind::Infix { op, left: Box::new(l), right: Box::new(r) })
}

fn prefix(op: PrefixOp, r: Expr) -> Expr {
    ex(ExprKind::Prefix { op, right: Box::new(r) })
}

fn list(items: Vec<Expr>) -> Expr {
    ex(ExprKind::List(items))
}

fn dict(pairs: Vec<(Expr, Expr)>) -> Expr {
    ex(ExprKind::Dict(pairs))
}

fn index(base: Expr, i: Expr) -> Expr {
    ex(ExprKind::Index { base: Box::new(base), index: Box::new(i) })
}

fn assign(target: Expr, value: Expr) -> Stmt {
    Stmt::Expr(ex(ExprKind::Assign { target: Box::new(target), value: Box::new(value) }))
}

fn call(name: &str, args: Vec<Expr>) -> Expr {
    ex(ExprKind::Call { function: Box::new(ident(name)), arguments: args })
}

fn if_else(c: Expr, then: Vec<Stmt>, alt: Vec<Stmt>) -> Stmt {
    Stmt::Expr(ex(ExprKind::If { condition: Box::new(c), consequence: then, alternative: alt }))
}

fn while_loop(c: Expr, body: Vec<Stmt>) -> Stmt {
    Stmt::Expr(ex(ExprKind::While { condition: Box::new(c), body }))
}

fn for_range(var: &str, args: Vec<Expr>, body: Vec<Stmt>) -> Stmt {
    Stmt::Expr(ex(ExprKind::ForRange { var: var.to_string(), arguments: args, body }))
}

fn var(name: &str, e: Expr) -> Stmt {
    Stmt::Var { name: name.to_string(), value: e }
}

fn expr(e: Expr) -> Stmt {
    Stmt::Expr(e)
}

fn ret(e: Expr) -> Stmt {
    Stmt::Return { value: e, line: 1, col: 1 }
}

fn brk() -> Stmt {
    Stmt::Break { line: 1, col: 1 }
}

fn cont() -> Stmt {
    Stmt::Continue { line: 1, col: 1 }
}

fn func(name: &str, params: &[&str], body: Vec<Stmt>) -> Stmt {
    Stmt::Fn {
        name: name.to_string(),
        def: Rc::new(FnDef { params: params.iter().map(|p| p.to_string()).collect(), body }),
        line: 1,
        col: 1,
    }
}

fn incr(name: &str) -> Stmt {
    assign(ident(name), infix(BinOp::Add, ident(name), num(1)))
}

fn run(program: Vec<Stmt>) -> (Evaluator, Flow) {
    let mut ev = Evaluator::new(640, 480, 0, 7);
    let root = ev.root();
    let fl = ev.eval_program(&program, root);
    (ev, fl)
}

fn get(ev: &Evaluator, name: &str) -> Value {
    ev.lookup(ev.root(), &name.to_string()).expect("bound")
}

fn cell_of(heap: &Heap, v: Value) -> &Cell {
    match v {
        Value::Ref(i) => heap.cell(i),
        other => panic!("not a cell: {:?}", other),
    }
}

fn list_of(ev: &Evaluator, v: Value) -> Vec<Value> {
    match cell_of(ev.heap(), v) {
        Cell::List(items) => items.clone(),
        other => panic!("not a list: {:?}", other),
    }
}

fn text_of(ev: &Evaluator, v: Value) -> String {
    match cell_of(ev.heap(), v) {
        Cell::Str(s) => s.clone(),
        other => panic!("not a string: {:?}", other),
    }
}

fn error_kind(fl: &Flow) -> ErrorKind {
    match fl {
        Flow::Error(e) => e.kind,
        other => panic!("expected an error, got {:?}", other),
    }
}

fn assert_void(fl: &Flow) {
    assert!(matches!(fl, Flow::Value(Value::Void)), "got {:?}", fl);
}

#[test]
fn value_copy_is_independent() {
    let (ev, fl) = run(vec![
        var("x", num(5)),
        var("y", ident("x")),
        assign(ident("x"), num(7)),
        var("l", list(vec![num(1)])),
        var("e", index(ident("l"), num(0))),
        assign(index(ident("l"), num(0)), num(4)),
    ]);
    assert_void(&fl);
    assert_eq!(get(&ev, "y"), Value::Int(5));
    assert_eq!(get(&ev, "x"), Value::Int(7));
    assert_eq!(get(&ev, "e"), Value::Int(1));
}

#[test]
fn list_aliasing_is_shared() {
    let (ev, fl) = run(vec![
        var("a", list(vec![num(1), num(2), num(3)])),
        var("b", ident("a")),
        assign(index(ident("b"), num(0)), num(9)),
        var("first", index(ident("a"), num(0))),
    ]);
    assert_void(&fl);
    assert_eq!(get(&ev, "first"), Value::Int(9));
    assert_eq!(list_of(&ev, get(&ev, "a")), vec![Value::Int(9), Value::Int(2), Value::Int(3)]);
}

#[test]
fn redeclaration_fails_in_same_frame() {
    let (_, fl) = run(vec![var("x", num(5)), var("x", num(6))]);
    assert_eq!(error_kind(&fl), ErrorKind::RedeclaredIdentifier);
    if let Flow::Error(e) = &fl {
        assert!(e.message.starts_with("Execution error. "), "{}", e.message);
    }
}

#[test]
fn redeclaration_in_nested_block_shadows() {
    let (ev, fl) = run(vec![
        var("x", num(5)),
        var("seen", num(0)),
        if_else(boolean(true), vec![var("x", num(6)), assign(ident("seen"), ident("x"))], vec![]),
    ]);
    assert_void(&fl);
    assert_eq!(get(&ev, "x"), Value::Int(5));
    assert_eq!(get(&ev, "seen"), Value::Int(6));
}

#[test]
fn inner_break_leaves_only_inner_loop() {
    let (ev, fl) = run(vec![
        var("n", num(0)),
        var("outer", num(0)),
        for_range(
            "i",
            vec![num(3)],
            vec![
                for_range(
                    "j",
                    vec![num(5)],
                    vec![if_else(infix(BinOp::Eq, ident("j"), num(2)), vec![brk()], vec![]), incr("n")],
                ),
                incr("outer"),
            ],
        ),
    ]);
    assert_void(&fl);
    assert_eq!(get(&ev, "n"), Value::Int(6));
    assert_eq!(get(&ev, "outer"), Value::Int(3));
}

#[test]
fn return_unwinds_nested_blocks() {
    let (ev, fl) = run(vec![
        func(
            "f",
            &[],
            vec![
                var("i", num(0)),
                while_loop(
                    boolean(true),
                    vec![
                        if_else(
                            infix(BinOp::Eq, ident("i"), num(3)),
                            vec![ret(infix(BinOp::Mul, ident("i"), num(10)))],
                            vec![],
                        ),
                        incr("i"),
                    ],
                ),
                ret(num(0)),
            ],
        ),
        var("r", call("f", vec![])),
    ]);
    assert_void(&fl);
    assert_eq!(get(&ev, "r"), Value::Int(30));
}

#[test]
fn list_out_of_range_and_missing_key() {
    let (ev, fl) = run(vec![
        var("a", list(vec![num(1), num(2)])),
        assign(index(ident("a"), num(5)), num(9)),
        var("r", index(ident("a"), num(5))),
        var("n", call("longitud", vec![ident("a")])),
        var("d", dict(vec![])),
        assign(index(ident("d"), string("x")), num(9)),
        var("v", index(ident("d"), string("x"))),
    ]);
    assert_void(&fl);
    assert_eq!(get(&ev, "r"), Value::Null);
    assert_eq!(get(&ev, "n"), Value::Int(2));
    assert_eq!(list_of(&ev, get(&ev, "a")), vec![Value::Int(1), Value::Int(2)]);
    assert_eq!(get(&ev, "v"), Value::Int(9));
    let (_, fl) = run(vec![var("d", dict(vec![])), expr(index(ident("d"), string("x")))]);
    assert_eq!(error_kind(&fl), ErrorKind::InvalidKey);
}

#[test]
fn falsy_loop_never_runs() {
    let (ev, fl) = run(vec![
        var("n", num(0)),
        while_loop(num(0), vec![incr("n"), brk()]),
    ]);
    assert_void(&fl);
    assert_eq!(get(&ev, "n"), Value::Int(0));
}

#[test]
fn one_argument_range_counts_up() {
    let (ev, fl) = run(vec![
        var("l", list(vec![])),
        for_range("i", vec![num(5)], vec![assign(ident("l"), infix(BinOp::Add, ident("l"), list(vec![ident("i")])))]),
    ]);
    assert_void(&fl);
    let expected: Vec<Value> = (0..5).map(Value::Int).collect();
    assert_eq!(list_of(&ev, get(&ev, "l")), expected);
}

#[test]
fn two_and_three_argument_ranges() {
    let (ev, fl) = run(vec![
        var("a", list(vec![])),
        for_range("i", vec![num(2), num(6), num(2)], vec![assign(ident("a"), infix(BinOp::Add, ident("a"), list(vec![ident("i")])))]),
        var("b", list(vec![])),
        for_range("i", vec![num(3), num(0)], vec![assign(ident("b"), infix(BinOp::Add, ident("b"), list(vec![ident("i")])))]),
    ]);
    assert_void(&fl);
    assert_eq!(list_of(&ev, get(&ev, "a")), vec![Value::Int(0), Value::Int(2), Value::Int(4)]);
    assert_eq!(list_of(&ev, get(&ev, "b")), vec![Value::Int(0), Value::Int(1), Value::Int(2)]);
}

#[test]
fn range_errors() {
    let (_, fl) = run(vec![for_range("i", vec![num(1), num(4), num(0)], vec![])]);
    assert_eq!(error_kind(&fl), ErrorKind::InvalidRange);
    let (_, fl) = run(vec![for_range("i", vec![num(-1)], vec![])]);
    assert_eq!(error_kind(&fl), ErrorKind::InvalidRange);
    let (_, fl) = run(vec![for_range("i", vec![], vec![])]);
    assert_eq!(error_kind(&fl), ErrorKind::ArityMismatch);
    let (_, fl) = run(vec![var("i", num(0)), for_range("i", vec![num(2)], vec![])]);
    assert_eq!(error_kind(&fl), ErrorKind::RedeclaredIdentifier);
}

#[test]
fn continue_ends_the_current_block() {
    // A continue directly in the loop body ends that iteration's block: the increment after it
    // never runs, and the loop goes on.
    let (ev, fl) = run(vec![
        var("n", num(0)),
        var("seen", num(0)),
        for_range("i", vec![num(5)], vec![incr("seen"), cont(), incr("n")]),
    ]);
    assert_void(&fl);
    assert_eq!(get(&ev, "n"), Value::Int(0));
    assert_eq!(get(&ev, "seen"), Value::Int(5));
    // A continue inside a conditional ends the conditional's block only: the statements after
    // the conditional in the loop body still run.
    let (ev, fl) = run(vec![
        var("n", num(0)),
        var("a", num(0)),
        while_loop(
            infix(BinOp::Lt, ident("n"), num(3)),
            vec![if_else(boolean(true), vec![incr("a"), cont(), incr("a")], vec![]), incr("n")],
        ),
    ]);
    assert_void(&fl);
    assert_eq!(get(&ev, "n"), Value::Int(3));
    assert_eq!(get(&ev, "a"), Value::Int(3));
}

#[test]
fn error_messages_carry_position_and_text() {
    let redeclared = vec![var("x", num(5)), Stmt::Var { name: "x".into(), value: at(ExprKind::Int(6), 2, 9) }];
    let (_, fl) = run(redeclared);
    match fl {
        Flow::Error(e) => assert_eq!(e.message, "Execution error. the identifier `x` was declared already. Line 2, column 9."),
        other => panic!("{:?}", other),
    }
    let (_, fl) = run(vec![Stmt::Break { line: 4, col: 2 }]);
    match fl {
        Flow::Error(e) => assert_eq!(e.message, "Execution error. break is allowed only inside loops. Line 4, column 2."),
        other => panic!("{:?}", other),
    }
    let (_, fl) = run(vec![expr(ex(ExprKind::ForRange { var: "i".into(), arguments: vec![], body: vec![] }))]);
    match fl {
        Flow::Error(e) => assert_eq!(e.message, "Execution error. found 0 arguments, expected 1 to 3. Line 1, column 1."),
        other => panic!("{:?}", other),
    }
    // An operand's error passes through the operator unchanged, not wrapped a second time.
    let (_, fl) = run(vec![expr(infix(BinOp::Add, at(ExprKind::Ident("nope".into()), 3, 5), num(1)))]);
    match fl {
        Flow::Error(e) => assert_eq!(e.message, "Execution error. the identifier `nope` does not exist. Line 3, column 5."),
        other => panic!("{:?}", other),
    }
}

#[test]
fn signals_outside_their_construct_are_errors() {
    let (_, fl) = run(vec![ret(num(1))]);
    assert_eq!(error_kind(&fl), ErrorKind::IllegalControlFlow);
    let (_, fl) = run(vec![brk()]);
    assert_eq!(error_kind(&fl), ErrorKind::IllegalControlFlow);
    let (_, fl) = run(vec![for_range("i", vec![num(2)], vec![func("g", &[], vec![brk()]), expr(call("g", vec![]))])]);
    assert_eq!(error_kind(&fl), ErrorKind::IllegalControlFlow);
}

#[test]
fn closures_update_captured_frames() {
    let (ev, fl) = run(vec![
        var("c", num(0)),
        func("inc", &[], vec![incr("c")]),
        expr(call("inc", vec![])),
        expr(call("inc", vec![])),
    ]);
    assert_void(&fl);
    assert_eq!(get(&ev, "c"), Value::Int(2));
}

#[test]
fn arguments_are_evaluated_in_the_callers_frame() {
    let (ev, fl) = run(vec![
        func("f", &["a"], vec![ret(ident("a"))]),
        func("g", &[], vec![var("z", num(4)), ret(call("f", vec![ident("z")]))]),
        var("r", call("g", vec![])),
    ]);
    assert_void(&fl);
    assert_eq!(get(&ev, "r"), Value::Int(4));
}

#[test]
fn call_errors() {
    let (_, fl) = run(vec![func("f", &["a"], vec![]), expr(call("f", vec![]))]);
    assert_eq!(error_kind(&fl), ErrorKind::ArityMismatch);
    let (_, fl) = run(vec![expr(call("nope", vec![]))]);
    assert_eq!(error_kind(&fl), ErrorKind::UndeclaredIdentifier);
    let (_, fl) = run(vec![var("x", num(1)), expr(call("x", vec![]))]);
    assert_eq!(error_kind(&fl), ErrorKind::TypeMismatch);
    let (_, fl) = run(vec![assign(ident("y"), num(1))]);
    assert_eq!(error_kind(&fl), ErrorKind::UndeclaredIdentifier);
    let (_, fl) = run(vec![func("v", &[], vec![]), var("x", call("v", vec![]))]);
    assert_eq!(error_kind(&fl), ErrorKind::TypeMismatch);
}

#[test]
fn operator_matrix() {
    let (ev, fl) = run(vec![
        var("a", infix(BinOp::Add, num(1), boolean(true))),
        var("b", infix(BinOp::Add, string("ab"), string("cd"))),
        var("c", infix(BinOp::Mul, string("ab"), num(3))),
        var("d", infix(BinOp::Mul, list(vec![num(1), num(2)]), num(2))),
        var("e", infix(BinOp::Eq, list(vec![num(1), list(vec![num(2)])]), list(vec![num(1), list(vec![num(2)])]))),
        var("f", infix(BinOp::Eq, null(), null())),
        var("g", infix(BinOp::NotEq, null(), num(0))),
        var("h", infix(BinOp::Lt, list(vec![num(1)]), list(vec![num(1), num(2)]))),
        var("i", infix(BinOp::Add, string("n"), num(-12))),
        var("j", infix(BinOp::Div, num(-7), num(2))),
        var("k", infix(BinOp::Rem, num(-7), num(2))),
        var("m", prefix(PrefixOp::Minus, boolean(true))),
        var("n", prefix(PrefixOp::Not, num(0))),
        var("o", infix(BinOp::Add, list(vec![num(1)]), list(vec![num(2)]))),
    ]);
    assert_void(&fl);
    assert_eq!(get(&ev, "a"), Value::Int(2));
    assert_eq!(text_of(&ev, get(&ev, "b")), "abcd");
    assert_eq!(text_of(&ev, get(&ev, "c")), "ababab");
    assert_eq!(list_of(&ev, get(&ev, "d")), vec![Value::Int(1), Value::Int(2), Value::Int(1), Value::Int(2)]);
    assert_eq!(get(&ev, "e"), Value::Bool(true));
    assert_eq!(get(&ev, "f"), Value::Bool(true));
    assert_eq!(get(&ev, "g"), Value::Bool(true));
    assert_eq!(get(&ev, "h"), Value::Bool(true));
    assert_eq!(text_of(&ev, get(&ev, "i")), "n-12");
    assert_eq!(get(&ev, "j"), Value::Int(-3));
    assert_eq!(get(&ev, "k"), Value::Int(-1));
    assert_eq!(get(&ev, "m"), Value::Int(-1));
    assert_eq!(get(&ev, "n"), Value::Bool(true));
    assert_eq!(list_of(&ev, get(&ev, "o")), vec![Value::Int(1), Value::Int(2)]);
}

#[test]
fn operator_errors() {
    let (_, fl) = run(vec![expr(infix(BinOp::Sub, string("a"), boolean(true)))]);
    assert_eq!(error_kind(&fl), ErrorKind::TypeMismatch);
    let (_, fl) = run(vec![expr(infix(BinOp::Div, num(1), num(0)))]);
    assert_eq!(error_kind(&fl), ErrorKind::Arithmetic);
    let (_, fl) = run(vec![expr(infix(BinOp::Add, num(i64::MAX), num(1)))]);
    assert_eq!(error_kind(&fl), ErrorKind::Arithmetic);
    let (_, fl) = run(vec![expr(infix(BinOp::Lt, null(), null()))]);
    assert_eq!(error_kind(&fl), ErrorKind::UnsupportedOperator);
    let (_, fl) = run(vec![expr(index(num(3), num(0)))]);
    assert_eq!(error_kind(&fl), ErrorKind::TypeMismatch);
    let (_, fl) = run(vec![expr(index(list(vec![]), string("k")))]);
    assert_eq!(error_kind(&fl), ErrorKind::TypeMismatch);
}

#[test]
fn error_message_is_located_once() {
    let program = vec![expr(at(
        ExprKind::Infix { op: BinOp::Sub, left: Box::new(at(ExprKind::Str("a".into()), 3, 4)), right: Box::new(boolean(true)) },
        3,
        4,
    ))];
    let (_, fl) = run(program);
    match fl {
        Flow::Error(e) => assert_eq!(e.message, "Execution error. unsupported operation string - boolean. Line 3, column 4."),
        other => panic!("{:?}", other),
    }
}

#[test]
fn structural_dictionary_keys() {
    let (ev, fl) = run(vec![
        var("d", dict(vec![(list(vec![num(1), num(2)]), num(5))])),
        var("v", index(ident("d"), list(vec![num(1), num(2)]))),
        assign(index(ident("d"), list(vec![num(1), num(2)])), num(6)),
        var("w", index(ident("d"), list(vec![num(1), num(2)]))),
        var("n", call("longitud", vec![ident("d")])),
    ]);
    assert_void(&fl);
    assert_eq!(get(&ev, "v"), Value::Int(5));
    assert_eq!(get(&ev, "w"), Value::Int(6));
    assert_eq!(get(&ev, "n"), Value::Int(1));
}

#[test]
fn builtins_and_shadowing() {
    let (ev, fl) = run(vec![
        var("n", call("longitud", vec![string("abc")])),
        var("t", call("tipo", vec![num(1)])),
        var("w", call("lienzo_ancho", vec![])),
        var("longitud", num(3)),
        var("s", ident("longitud")),
    ]);
    assert_void(&fl);
    assert_eq!(get(&ev, "n"), Value::Int(3));
    assert_eq!(text_of(&ev, get(&ev, "t")), "number");
    assert_eq!(get(&ev, "w"), Value::Int(640));
    assert_eq!(get(&ev, "s"), Value::Int(3));
    let (_, fl) = run(vec![expr(call("longitud", vec![]))]);
    assert_eq!(error_kind(&fl), ErrorKind::ArityMismatch);
    let (_, fl) = run(vec![expr(call("longitud", vec![num(4)]))]);
    assert_eq!(error_kind(&fl), ErrorKind::TypeMismatch);
}

#[test]
fn drawing_builtins_record_commands() {
    let (mut ev, fl) = run(vec![
        expr(call("dibujar_circulo", vec![num(1), num(2), num(3)])),
        expr(call("dibujar_linea", vec![num(0), num(0), num(5), num(5), num(0xff0000)])),
        expr(call("dibujar_texto", vec![string("hola"), num(1), num(2), num(14)])),
    ]);
    assert_void(&fl);
    let cmds = ev.take_commands();
    assert_eq!(cmds.len(), 3);
    assert!(matches!(cmds[0], DrawCommand::Circle { x: 1, y: 2, radius: 3, color: 0xFFFFFFFF }));
    assert!(matches!(cmds[1], DrawCommand::Line { x2: 5, y2: 5, color: 0xff0000ff, .. }));
    match &cmds[2] {
        DrawCommand::Text { text, size, .. } => {
            assert_eq!(text, "hola");
            assert_eq!(*size, 14);
        },
        other => panic!("{:?}", other),
    }
    assert!(ev.take_commands().is_empty());
}

#[test]
fn pressed_keys_and_random() {
    let mut ev = Evaluator::new(10, 10, 0, 3);
    ev.set_pressed_keys(vec!["abajo".to_string(), "a".to_string()]);
    let root = ev.root();
    let program = vec![
        var("k", call("tecla_presionada", vec![string("\u{23f7}")])),
        var("z", call("tecla_presionada", vec![string("z")])),
        var("upper", call("tecla_presionada", vec![string("ABAJO")])),
        var("r", call("aleatorio", vec![num(5), num(8)])),
    ];
    let fl = ev.eval_program(&program, root);
    assert_void(&fl);
    assert_eq!(get(&ev, "k"), Value::Bool(true));
    assert_eq!(get(&ev, "z"), Value::Bool(false));
    assert_eq!(get(&ev, "upper"), Value::Bool(true));
    match get(&ev, "r") {
        Value::Int(n) => assert!((5..8).contains(&n)),
        other => panic!("{:?}", other),
    }
}

#[test]
fn loop_budget_stops_endless_loops() {
    let mut ev = Evaluator::new(10, 10, 0, 3);
    ev.set_loop_budget(100);
    let root = ev.root();
    let fl = ev.eval_program(&vec![while_loop(boolean(true), vec![])], root);
    assert_eq!(error_kind(&fl), ErrorKind::LimitExceeded);
}

#[test]
fn loop_function_is_detached_and_globals_persist() {
    let mut program = vec![
        var("ticks", num(0)),
        func("helper", &[], vec![]),
        func("Bucle", &[], vec![incr("ticks")]),
    ];
    let mut ev = Evaluator::new(10, 10, 0, 3);
    let def = ev.extract_loop_fn(&mut program).expect("loop function");
    assert_eq!(program.len(), 2);
    let root = ev.root();
    assert_void(&ev.eval_program(&program, root));
    for _ in 0..3 {
        let tick = ev.open_frame(root);
        assert_void(&ev.eval_program(&def.body, tick));
    }
    assert_eq!(get(&ev, "ticks"), Value::Int(3));
    let mut without = vec![var("x", num(1))];
    assert!(ev.extract_loop_fn(&mut without).is_err());
    assert_eq!(without.len(), 1);
}

#[test]
fn scope_frames_vanish_on_exit() {
    let (ev, fl) = run(vec![
        var("n", num(0)),
        for_range("i", vec![num(50)], vec![if_else(boolean(true), vec![incr("n")], vec![])]),
        while_loop(infix(BinOp::Lt, ident("n"), num(60)), vec![incr("n")]),
    ]);
    assert_void(&fl);
    assert_eq!(get(&ev, "n"), Value::Int(60));
    assert_eq!(ev.frame_count(), 1);
    let (ev, fl) = run(vec![
        var("keep", null()),
        for_range("i", vec![num(2)], vec![assign(ident("keep"), ex(ExprKind::FnLiteral(Rc::new(FnDef { params: vec![], body: vec![ret(ident("i"))] }))))]),
        var("r", call("keep", vec![])),
    ]);
    assert_void(&fl);
    assert_eq!(get(&ev, "r"), Value::Int(1));
}

#[test]
fn tick_frames_are_released() {
    let mut ev = Evaluator::new(10, 10, 0, 3);
    let root = ev.root();
    let tick = ev.open_frame(root);
    assert_void(&ev.eval_program(&vec![var("local", num(1))], tick));
    assert!(ev.release_frames_from(tick));
    assert_eq!(ev.frame_count(), 1);
    assert!(!ev.release_frames_from(0));
}

#[test]
fn endless_recursion_is_an_error() {
    let (_, fl) = run(vec![func("f", &[], vec![ret(call("f", vec![]))]), expr(call("f", vec![]))]);
    assert_eq!(error_kind(&fl), ErrorKind::LimitExceeded);
}

#[test]
fn recursion_computes() {
    let fib = func(
        "fib",
        &["n"],
        vec![
            if_else(infix(BinOp::Lt, ident("n"), num(2)), vec![ret(ident("n"))], vec![]),
            ret(infix(
                BinOp::Add,
                call("fib", vec![infix(BinOp::Sub, ident("n"), num(1))]),
                call("fib", vec![infix(BinOp::Sub, ident("n"), num(2))]),
            )),
        ],
    );
    let (ev, fl) = run(vec![fib, var("r", call("fib", vec![num(15)]))]);
    assert_void(&fl);
    assert_eq!(get(&ev, "r"), Value::Int(610));
}

#[test]
fn tick_cells_are_released_unless_kept() {
    let mut ev = Evaluator::new(10, 10, 0, 3);
    let root = ev.root();
    assert_void(&ev.eval_program(&vec![var("kept", list(vec![]))], root));
    let before = ev.cell_count();
    let tick = ev.open_frame(root);
    assert_void(&ev.eval_program(&vec![var("s", string("temporary")), expr(list(vec![num(1)]))], tick));
    assert!(ev.cell_count() > before);
    assert!(ev.release_frames_from(tick));
    assert!(ev.release_cells_from(before));
    assert_eq!(ev.cell_count(), before);
    let tick = ev.open_frame(root);
    assert_void(&ev.eval_program(&vec![assign(index(ident("kept"), num(0)), num(1)), assign(ident("kept"), list(vec![string("x")]))], tick));
    assert!(ev.release_frames_from(tick));
    assert!(!ev.release_cells_from(before));
    assert_eq!(text_of(&ev, list_of(&ev, get(&ev, "kept"))[0]), "x");
}

#[test]
fn text_conversion() {
    let (ev, fl) = run(vec![
        var("a", call("cadena", vec![num(-42)])),
        var("b", call("cadena", vec![boolean(true)])),
        var("c", call("cadena", vec![string("hola")])),
        var("d", call("cadena", vec![list(vec![])])),
        var("e", infix(BinOp::Add, string("n="), num(7))),
    ]);
    assert_void(&fl);
    assert_eq!(text_of(&ev, get(&ev, "a")), "-42");
    assert_eq!(text_of(&ev, get(&ev, "b")), "true");
    assert_eq!(text_of(&ev, get(&ev, "c")), "hola");
    assert_eq!(text_of(&ev, get(&ev, "d")), "list");
    assert_eq!(text_of(&ev, get(&ev, "e")), "n=7");
}

#[test]
fn unsupported_string_and_list_operators_are_type_errors() {
    for program in [
        vec![expr(infix(BinOp::Lt, string("a"), string("b")))],
        vec![expr(infix(BinOp::Sub, list(vec![num(1)]), list(vec![num(2)])))],
        vec![expr(infix(BinOp::Sub, string("a"), num(3)))],
        vec![expr(infix(BinOp::Add, list(vec![num(1)]), num(2)))],
    ] {
        let (_, fl) = run(program);
        assert_eq!(error_kind(&fl), ErrorKind::TypeMismatch);
    }
    let (_, fl) = run(vec![expr(infix(BinOp::Lt, string("a"), string("b")))]);
    match fl {
        Flow::Error(e) => assert_eq!(e.message, "Execution error. unsupported operation string < string. Line 1, column 1."),
        other => panic!("{:?}", other),
    }
}

#[test]
fn release_refuses_frames_a_closure_captured() {
    let mut ev = Evaluator::new(10, 10, 0, 3);
    let root = ev.root();
    assert_void(&ev.eval_program(&vec![var("keep", null())], root));
    let tick = ev.open_frame(root);
    let program = vec![
        var("local", num(4)),
        assign(ident("keep"), ex(ExprKind::FnLiteral(Rc::new(FnDef { params: vec![], body: vec![ret(ident("local"))] })))),
    ];
    assert_void(&ev.eval_program(&program, tick));
    assert!(!ev.release_frames_from(tick));
    assert_void(&ev.eval_program(&vec![var("r", call("keep", vec![]))], root));
    assert_eq!(get(&ev, "r"), Value::Int(4));
}
