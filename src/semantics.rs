use vstd::prelude::*;
use crate::access::{read_spec, write_spec};
use crate::ast::{Expr, ExprKind, Stmt};
use crate::draw::{CanvasSize, DrawView, DEFAULT_COLOR};
use crate::env::{assign_value, declare_value, lookup_value, resolve, slot_of, FrameView};
use crate::eval::natives::{arity, canonical_key_spec, lower_of, color_spec, length_spec, shape_spec, text_spec};
use crate::eval::{in_function, loop_open, range_bound, Closure, Context};
use crate::ops::{binop_spec, kind_name_of, prefix_spec, OpOut};
use crate::rng::{bounded_draw, MAX_TRIES};
use crate::value::{truthy, Builtin, CellView, ErrorKind, Flow, Value};
use crate::text::{decimal, located_message};
use crate::access::index_message;
use crate::ops::binop_message;
use crate::eval::natives::{arity_message, first_non_int, type_arg_message};

verus! {

/// The state of an evaluator as mathematical values.
pub struct Model {
    pub heap: Seq<CellView>,
    pub frames: Seq<FrameView>,
    pub closures: Seq<Closure>,
    pub natives: Seq<(String, Builtin)>,
    pub stack: Seq<Context>,
    pub budget: u64,
    pub loop_budget: u64,
    pub canvas: CanvasSize,
    pub commands: Seq<DrawView>,
    pub pressed: Seq<String>,
    pub rng: (u64, u64),
}

/// An outcome as mathematical values: an error is known by its class.
pub enum Out {
    Val(Value),
    Ret(Value),
    Brk,
    Cont,
    Fail(ErrorKind, Seq<char>),
}

pub open spec fn out(fl: Flow) -> Out {
    match fl {
        Flow::Value(v) => Out::Val(v),
        Flow::Return(v) => Out::Ret(v),
        Flow::Break => Out::Brk,
        Flow::Continue => Out::Cont,
        Flow::Error(e) => Out::Fail(e.kind, e.message@),
    }
}

pub open spec fn fail(s: Model, k: ErrorKind, m: Seq<char>) -> (Model, Out) {
    (s, Out::Fail(k, m))
}

/// A message located at `line`, `col`.
pub open spec fn loc(t: Seq<char>, line: usize, col: usize) -> Seq<char> {
    located_message(t, line as nat, col as nat)
}

/// The nesting-depth error, located at `line`, `col`.
pub open spec fn deep(s: Model, line: usize, col: usize) -> (Model, Out) {
    fail(s, ErrorKind::LimitExceeded, loc("evaluation nests too deeply"@, line, col))
}

/// The length of a builtin's name, which places its arity errors.
pub open spec fn name_len(b: Builtin) -> usize {
    match b {
        Builtin::Length => 8,
        Builtin::TypeName => 4,
        Builtin::ToText => 6,
        Builtin::DrawText => 13,
        Builtin::DrawLine => 13,
        Builtin::DrawRect => 18,
        Builtin::DrawCircle => 15,
        Builtin::CanvasWidth => 12,
        Builtin::CanvasHeight => 13,
        Builtin::KeyPressed => 16,
        Builtin::Random => 9,
    }
}

/// Stores a new cell; the outcome is its handle.
pub open spec fn store(s: Model, c: CellView) -> (Model, Out) {
    (Model { heap: s.heap.push(c), ..s }, Out::Val(Value::Ref(s.heap.len() as usize)))
}

/// Opens an empty frame under `parent`.
pub open spec fn open_frame(s: Model, parent: usize) -> Model {
    Model { frames: s.frames.push(FrameView { bindings: Seq::empty(), parent: Some(parent) }), ..s }
}

/// Leaves a scope entered with `mark` frames and `cmark` closures: the frames opened since
/// vanish unless a closure was made since.
pub open spec fn close_to(s: Model, mark: int, cmark: int) -> Model {
    if s.closures.len() == cmark {
        Model { frames: s.frames.subrange(0, mark), ..s }
    } else {
        s
    }
}

pub open spec fn push_mark(s: Model, c: Context) -> Model {
    Model { stack: s.stack.push(c), ..s }
}

pub open spec fn pop_mark(s: Model) -> Model {
    Model { stack: s.stack.drop_last(), ..s }
}

/// Makes a closure of `def` capturing frame `f`; the outcome is its handle.
pub open spec fn make_closure(s: Model, def: std::rc::Rc<crate::ast::FnDef>, f: usize) -> (Model, Value) {
    (Model { closures: s.closures.push(Closure { def, env: f }), ..s }, Value::Func(s.closures.len() as usize))
}

/// The builtin registered first under `name`, from place `k` on.
pub open spec fn native_from(natives: Seq<(String, Builtin)>, name: Seq<char>, k: int) -> Option<Builtin>
    decreases natives.len() - k,
{
    if k < 0 || k >= natives.len() {
        None
    } else if natives[k].0@ == name {
        Some(natives[k].1)
    } else {
        native_from(natives, name, k + 1)
    }
}

/// An identifier: its binding in the scope chain, else the builtin of that name.
pub open spec fn sp_ident(s: Model, name: Seq<char>, f: usize, line: usize, col: usize) -> (Model, Out) {
    match lookup_value(s.frames, f as int, name) {
        Some(v) => (s, Out::Val(v)),
        None => match native_from(s.natives, name, 0) {
            Some(b) => (s, Out::Val(Value::Native(b))),
            None => fail(s, ErrorKind::UndeclaredIdentifier, loc("the identifier `"@ + name + "` does not exist"@, line, col)),
        },
    }
}

/// An infix operator on evaluated operands.
pub open spec fn binop_step(s: Model, op: crate::ast::BinOp, a: Value, b: Value, line: usize, col: usize) -> (Model, Out) {
    match binop_spec(s.heap, op, a, b) {
        OpOut::Val(v) => (s, Out::Val(v)),
        OpOut::NewStr(t) => store(s, CellView::Str(t)),
        OpOut::NewList(l) => store(s, CellView::List(l)),
        OpOut::Fail(k) => fail(s, k, binop_message(s.heap, op, a, b, k, line, col)),
    }
}

/// The heap after the entries from `j` on are written into the dictionary in cell `idx`.
pub open spec fn dict_fill(h: Seq<CellView>, idx: usize, entries: Seq<(Value, Value)>, j: int) -> Seq<CellView>
    decreases entries.len() - j,
{
    if j < 0 || j >= entries.len() {
        h
    } else {
        dict_fill(write_spec(h, Value::Ref(idx), entries[j].0, entries[j].1).1, idx, entries, j + 1)
    }
}

/// The frames after parameters from `j` on are declared in `frame`, and whether every
/// declaration took (a repeated parameter name stops there).
pub open spec fn bind_from(fr: Seq<FrameView>, frame: int, params: Seq<String>, values: Seq<Value>, j: int) -> (Seq<FrameView>, bool)
    decreases params.len() - j,
{
    if j < 0 || j >= params.len() {
        (fr, true)
    } else if slot_of(fr[frame].bindings, params[j]@) is Some {
        (fr, false)
    } else {
        bind_from(declare_value(fr, frame, params[j]@, values[j]), frame, params, values, j + 1)
    }
}

/// Whether the values from `from` on are all integers.
pub open spec fn all_ints(vals: Seq<Value>, from: int) -> bool {
    forall|k: int| from <= k < vals.len() ==> (#[trigger] vals[k]) is Int
}

/// The integers among the values from `from` on.
pub open spec fn ints_from(vals: Seq<Value>, from: int) -> Seq<i64> {
    Seq::new((vals.len() - from) as nat, |k: int| vals[from + k]->Int_0)
}

/// A builtin applied to its evaluated arguments.
pub open spec fn sp_native(s: Model, b: Builtin, vals: Seq<Value>, line: usize, col: usize) -> (Model, Out) {
    let not_string = fail(s, ErrorKind::TypeMismatch, type_arg_message("string"@, kind_name_of(s.heap, vals[0]), line, col));
    match b {
        Builtin::Length => match length_spec(s.heap, vals[0]) {
            Some(n) => (s, Out::Val(Value::Int(n as i64))),
            None => fail(s, ErrorKind::TypeMismatch, type_arg_message("string, list or dictionary"@, kind_name_of(s.heap, vals[0]), line, col)),
        },
        Builtin::TypeName => store(s, CellView::Str(kind_name_of(s.heap, vals[0]))),
        Builtin::ToText => store(s, CellView::Str(text_spec(s.heap, vals[0]))),
        Builtin::KeyPressed => match vals[0] {
            Value::Ref(i) => if i < s.heap.len() && s.heap[i as int] is Str {
                (s, Out::Val(Value::Bool(exists|k: int| 0 <= k < s.pressed.len()
                    && (#[trigger] s.pressed[k])@ == canonical_key_spec(lower_of(s.heap[i as int]->Str_0)))))
            } else {
                not_string
            },
            _ => not_string,
        },
        Builtin::Random => if !all_ints(vals, 0) {
            fail(s, ErrorKind::TypeMismatch, type_arg_message("number"@, kind_name_of(s.heap, vals[first_non_int(vals, 0)]), line, col))
        } else {
            let a = vals[0]->Int_0;
            let z = vals[1]->Int_0;
            if a < z && z - a <= i64::MAX {
                let (n, st) = bounded_draw(s.rng, (z - a) as u64, MAX_TRIES as nat);
                (Model { rng: st, ..s }, Out::Val(Value::Int((a + n) as i64)))
            } else {
                fail(s, ErrorKind::InvalidRange, loc("a random range needs a lower bound below its upper bound"@, line, col))
            }
        },
        Builtin::DrawText => match vals[0] {
            Value::Ref(i) => if i < s.heap.len() && s.heap[i as int] is Str {
                if !all_ints(vals, 1) {
                    fail(s, ErrorKind::TypeMismatch, type_arg_message("number"@, kind_name_of(s.heap, vals[first_non_int(vals, 1)]), line, col))
                } else {
                    let nums = ints_from(vals, 1);
                    let color = color_spec(if nums.len() == 4 { nums[3] } else { DEFAULT_COLOR });
                    (
                        Model {
                            commands: s.commands.push(DrawView::Text {
                                text: s.heap[i as int]->Str_0,
                                x: nums[0],
                                y: nums[1],
                                size: nums[2],
                                color,
                            }),
                            ..s
                        },
                        Out::Val(Value::Void),
                    )
                }
            } else {
                not_string
            },
            _ => not_string,
        },
        Builtin::DrawLine | Builtin::DrawRect | Builtin::DrawCircle => if !all_ints(vals, 0) {
            fail(s, ErrorKind::TypeMismatch, type_arg_message("number"@, kind_name_of(s.heap, vals[first_non_int(vals, 0)]), line, col))
        } else {
            (Model { commands: s.commands.push(shape_spec(b, ints_from(vals, 0))@), ..s }, Out::Val(Value::Void))
        },
        Builtin::CanvasWidth => (s, Out::Val(Value::Int(s.canvas.width))),
        Builtin::CanvasHeight => (s, Out::Val(Value::Int(s.canvas.height))),
    }
}

/// A builtin on its argument expressions: the canvas queries take none; the others check the
/// count, evaluate the arguments in order and apply the builtin.
pub open spec fn sp_builtin(s: Model, b: Builtin, args: Seq<Expr>, f: usize, line: usize, col: usize, d: nat) -> (Model, Out)
    decreases d, 4nat, 0nat,
{
    if b == Builtin::CanvasWidth || b == Builtin::CanvasHeight {
        if args.len() != 0 {
            fail(s, ErrorKind::ArityMismatch, arity_message(0, args.len() as usize, name_len(b), line, col))
        } else {
            sp_native(s, b, Seq::empty(), line, col)
        }
    } else if args.len() < arity(b).0 || args.len() > arity(b).1 {
        fail(s, ErrorKind::ArityMismatch, arity_message(arity(b).0, args.len() as usize, name_len(b), line, col))
    } else {
        let (s1, r) = sp_args_from(s, args, 0, Seq::empty(), f, line, col, d);
        match r {
            Ok(vals) => sp_native(s1, b, vals, line, col),
            Err(o) => (s1, o),
        }
    }
}

/// Evaluates builtin arguments from place `k` on, after the values `acc`.
pub open spec fn sp_args_from(s: Model, args: Seq<Expr>, k: int, acc: Seq<Value>, f: usize, line: usize, col: usize, d: nat) -> (Model, Result<Seq<Value>, Out>)
    decreases d, 2nat, args.len() - k,
{
    if k < 0 || k >= args.len() {
        (s, Ok(acc))
    } else {
        let (s1, o) = sp_expr(s, args[k], f, d);
        match o {
            Out::Val(v) => sp_args_from(s1, args, k + 1, acc.push(v), f, line, col, d),
            Out::Fail(e, m) => (s1, Err(Out::Fail(e, m))),
            _ => (s1, Err(Out::Fail(ErrorKind::IllegalControlFlow, loc("a signal cannot leave an argument"@, line, col)))),
        }
    }
}

/// Evaluation of an expression in frame `f` with nesting depth `d`.
pub open spec fn sp_expr(s: Model, e: Expr, f: usize, d: nat) -> (Model, Out)
    decreases d, 0nat, 0nat,
{
    if d == 0 {
        deep(s, e.line, e.col)
    } else {
        let d1 = (d - 1) as nat;
        match e.kind {
            ExprKind::Int(n) => (s, Out::Val(Value::Int(n))),
            ExprKind::Bool(b) => (s, Out::Val(Value::Bool(b))),
            ExprKind::Null => (s, Out::Val(Value::Null)),
            ExprKind::Str(t) => store(s, CellView::Str(t@)),
            ExprKind::Ident(name) => sp_ident(s, name@, f, e.line, e.col),
            ExprKind::Prefix { op, right } => {
                let (s1, o) = sp_expr(s, *right, f, d1);
                match o {
                    Out::Val(v) => match prefix_spec(op, v) {
                        Ok(w) => (s1, Out::Val(w)),
                        Err(k) => fail(s1, k, loc("integer overflow"@, e.line, e.col)),
                    },
                    _ => (s1, o),
                }
            },
            ExprKind::Infix { op, left, right } => {
                let (s1, o1) = sp_expr(s, *left, f, d1);
                match o1 {
                    Out::Val(a) => {
                        let (s2, o2) = sp_expr(s1, *right, f, d1);
                        match o2 {
                            Out::Val(b) => binop_step(s2, op, a, b, left.line, left.col),
                            _ => (s2, o2),
                        }
                    },
                    _ => (s1, o1),
                }
            },
            ExprKind::If { condition, consequence, alternative } => sp_if(s, *condition, consequence@, alternative@, f, d1),
            ExprKind::FnLiteral(def) => {
                let (s1, v) = make_closure(s, def, f);
                (s1, Out::Val(v))
            },
            ExprKind::Call { function, arguments } => sp_call(s, *function, arguments@, f, d1),
            ExprKind::Assign { target, value } => sp_assign(s, *target, *value, f, d1),
            ExprKind::List(elements) => sp_list(s, elements@, f, d1),
            ExprKind::Dict(pairs) => sp_dict(s, pairs@, f, d1),
            ExprKind::Index { base, index } => {
                let (s1, o1) = sp_expr(s, *base, f, d1);
                match o1 {
                    Out::Val(c) => {
                        let (s2, o2) = sp_expr(s1, *index, f, d1);
                        match o2 {
                            Out::Val(k) => match read_spec(s2.heap, c, k) {
                                Ok(v) => (s2, Out::Val(v)),
                                Err(x) => fail(s2, x, index_message(s2.heap, c, k, base.line, base.col, index.line, index.col)),
                            },
                            _ => (s2, o2),
                        }
                    },
                    _ => (s1, o1),
                }
            },
            ExprKind::While { condition, body } => sp_while(s, *condition, body@, f, d1),
            ExprKind::ForRange { var, arguments, body } => sp_for(s, var@, arguments@, body@, f, e.line, e.col, d1),
        }
    }
}

/// A block: its statements in order in frame `f`. A `continue` ends the block, which is then
/// void; any other outcome that is not a value (a return, a break, an error) ends it and is
/// handed on. A block that runs to its end is void.
pub open spec fn sp_block(s: Model, stmts: Seq<Stmt>, f: usize, d: nat) -> (Model, Out)
    decreases d, 5nat, 0nat,
{
    if d == 0 {
        deep(s, 0, 0)
    } else {
        sp_block_from(s, stmts, 0, f, d)
    }
}

pub open spec fn sp_block_from(s: Model, stmts: Seq<Stmt>, k: int, f: usize, d: nat) -> (Model, Out)
    decreases d, 1nat, stmts.len() - k,
{
    if d == 0 {
        deep(s, 0, 0)
    } else if k < 0 || k >= stmts.len() {
        (s, Out::Val(Value::Void))
    } else {
        let (s1, o) = sp_stmt(s, stmts[k], f, (d - 1) as nat);
        match o {
            Out::Val(_) => sp_block_from(s1, stmts, k + 1, f, d),
            Out::Cont => (s1, Out::Val(Value::Void)),
            _ => (s1, o),
        }
    }
}

/// A statement in frame `f`.
pub open spec fn sp_stmt(s: Model, st: Stmt, f: usize, d: nat) -> (Model, Out)
    decreases d, 5nat, 0nat,
{
    if d == 0 {
        deep(s, 0, 0)
    } else {
        let d1 = (d - 1) as nat;
        match st {
            Stmt::Var { name, value } => if slot_of(s.frames[f as int].bindings, name@) is Some {
                fail(s, ErrorKind::RedeclaredIdentifier, loc("the identifier `"@ + name@ + "` was declared already"@, value.line, value.col))
            } else {
                let (s1, o) = sp_expr(s, value, f, d1);
                match o {
                    Out::Val(Value::Void) => fail(s1, ErrorKind::TypeMismatch, loc("a variable cannot hold void"@, value.line, value.col)),
                    Out::Val(v) => if slot_of(s1.frames[f as int].bindings, name@) is None {
                        (Model { frames: declare_value(s1.frames, f as int, name@, v), ..s1 }, Out::Val(v))
                    } else {
                        fail(s1, ErrorKind::RedeclaredIdentifier, loc("the identifier `"@ + name@ + "` was declared already"@, value.line, value.col))
                    },
                    _ => (s1, o),
                }
            },
            Stmt::Return { value, line, col } => if !in_function(s.stack) {
                fail(s, ErrorKind::IllegalControlFlow, loc("return is allowed only inside functions"@, line, col))
            } else {
                let (s1, o) = sp_expr(s, value, f, d1);
                match o {
                    Out::Val(v) => (s1, Out::Ret(v)),
                    _ => (s1, o),
                }
            },
            Stmt::Break { line, col } => if loop_open(s.stack) {
                (s, Out::Brk)
            } else {
                fail(s, ErrorKind::IllegalControlFlow, loc("break is allowed only inside loops"@, line, col))
            },
            Stmt::Continue { line, col } => if loop_open(s.stack) {
                (s, Out::Cont)
            } else {
                fail(s, ErrorKind::IllegalControlFlow, loc("continue is allowed only inside loops"@, line, col))
            },
            Stmt::Expr(e) => sp_expr(s, e, f, d1),
            Stmt::Fn { name, def, line, col } => if slot_of(s.frames[f as int].bindings, name@) is Some {
                fail(s, ErrorKind::RedeclaredIdentifier, loc("the identifier `"@ + name@ + "` was declared already"@, line, col))
            } else {
                let (s1, v) = make_closure(s, def, f);
                if slot_of(s1.frames[f as int].bindings, name@) is None {
                    (Model { frames: declare_value(s1.frames, f as int, name@, v), ..s1 }, Out::Val(v))
                } else {
                    fail(s1, ErrorKind::RedeclaredIdentifier, loc("the identifier `"@ + name@ + "` was declared already"@, line, col))
                }
            },
        }
    }
}

/// A conditional: the condition in frame `f`, then the chosen branch in a fresh frame under
/// `f` inside an `If` marker.
pub open spec fn sp_if(s: Model, cond: Expr, cons: Seq<Stmt>, alt: Seq<Stmt>, f: usize, d: nat) -> (Model, Out)
    decreases d, 5nat, 0nat,
{
    if d == 0 {
        deep(s, cond.line, cond.col)
    } else {
        let (s1, o) = sp_expr(s, cond, f, (d - 1) as nat);
        match o {
            Out::Val(c) => {
                let mark = s1.frames.len() as int;
                let cmark = s1.closures.len() as int;
                let s2 = push_mark(open_frame(s1, f), Context::If);
                let (s3, o3) = sp_block(s2, if truthy(c) { cons } else { alt }, mark as usize, (d - 1) as nat);
                (close_to(pop_mark(s3), mark, cmark), o3)
            },
            _ => (s1, o),
        }
    }
}

/// An assignment: a variable takes the value in the frame that binds it; an indexed element is
/// written as `write_spec` says.
pub open spec fn sp_assign(s: Model, target: Expr, value: Expr, f: usize, d: nat) -> (Model, Out)
    decreases d, 5nat, 0nat,
{
    if d == 0 {
        deep(s, target.line, target.col)
    } else {
        let d1 = (d - 1) as nat;
        match target.kind {
            ExprKind::Ident(name) => if lookup_value(s.frames, f as int, name@) is None {
                fail(s, ErrorKind::UndeclaredIdentifier, loc("there is no variable `"@ + name@ + "` to assign"@, target.line, target.col))
            } else {
                let (s1, o) = sp_expr(s, value, f, d1);
                match o {
                    Out::Val(v) => if resolve(s1.frames, f as int, name@) is Some {
                        (Model { frames: assign_value(s1.frames, f as int, name@, v), ..s1 }, Out::Val(v))
                    } else {
                        fail(s1, ErrorKind::UndeclaredIdentifier, loc("there is no variable `"@ + name@ + "` to assign"@, target.line, target.col))
                    },
                    _ => (s1, o),
                }
            },
            ExprKind::Index { base, index } => {
                let (s1, o1) = sp_expr(s, value, f, d1);
                match o1 {
                    Out::Val(v) => {
                        let (s2, o2) = sp_expr(s1, *base, f, d1);
                        match o2 {
                            Out::Val(c) => {
                                let (s3, o3) = sp_expr(s2, *index, f, d1);
                                match o3 {
                                    Out::Val(k) => {
                                        let (r, h) = write_spec(s3.heap, c, k, v);
                                        match r {
                                            Ok(w) => (Model { heap: h, ..s3 }, Out::Val(w)),
                                            Err(x) => (Model { heap: h, ..s3 }, Out::Fail(x, index_message(s3.heap, c, k, base.line, base.col, index.line, index.col))),
                                        }
                                    },
                                    _ => (s3, o3),
                                }
                            },
                            _ => (s2, o2),
                        }
                    },
                    _ => (s1, o1),
                }
            },
            _ => fail(s, ErrorKind::TypeMismatch, loc("only a variable or an indexed element can be assigned"@, target.line, target.col)),
        }
    }
}

/// A list literal: the elements in order, then a new list cell.
pub open spec fn sp_list(s: Model, elems: Seq<Expr>, f: usize, d: nat) -> (Model, Out)
    decreases d, 5nat, 0nat,
{
    if d == 0 {
        deep(s, 0, 0)
    } else {
        sp_list_from(s, elems, 0, Seq::empty(), f, d)
    }
}

pub open spec fn sp_list_from(s: Model, elems: Seq<Expr>, k: int, acc: Seq<Value>, f: usize, d: nat) -> (Model, Out)
    decreases d, 1nat, elems.len() - k,
{
    if d == 0 {
        deep(s, 0, 0)
    } else if k < 0 || k >= elems.len() {
        store(s, CellView::List(acc))
    } else {
        let (s1, o) = sp_expr(s, elems[k], f, (d - 1) as nat);
        match o {
            Out::Val(v) => sp_list_from(s1, elems, k + 1, acc.push(v), f, d),
            _ => (s1, o),
        }
    }
}

/// A dictionary literal: each key and value in order, then a new dictionary cell that takes the
/// entries in order (a later equal key overwrites).
pub open spec fn sp_dict(s: Model, pairs: Seq<(Expr, Expr)>, f: usize, d: nat) -> (Model, Out)
    decreases d, 5nat, 0nat,
{
    if d == 0 {
        deep(s, 0, 0)
    } else {
        sp_dict_from(s, pairs, 0, Seq::empty(), f, d)
    }
}

pub open spec fn sp_dict_from(s: Model, pairs: Seq<(Expr, Expr)>, k: int, acc: Seq<(Value, Value)>, f: usize, d: nat) -> (Model, Out)
    decreases d, 1nat, pairs.len() - k,
{
    if d == 0 {
        deep(s, 0, 0)
    } else if k < 0 || k >= pairs.len() {
        let idx = s.heap.len() as usize;
        (
            Model { heap: dict_fill(s.heap.push(CellView::Dict(Seq::empty())), idx, acc, 0), ..s },
            Out::Val(Value::Ref(idx)),
        )
    } else {
        let (s1, o1) = sp_expr(s, pairs[k].0, f, (d - 1) as nat);
        match o1 {
            Out::Val(key) => {
                let (s2, o2) = sp_expr(s1, pairs[k].1, f, (d - 1) as nat);
                match o2 {
                    Out::Val(v) => sp_dict_from(s2, pairs, k + 1, acc.push((key, v)), f, d),
                    _ => (s2, o2),
                }
            },
            _ => (s1, o1),
        }
    }
}

/// A call: the callee, then a user function or a builtin; any other callee is a type mismatch.
pub open spec fn sp_call(s: Model, function: Expr, args: Seq<Expr>, f: usize, d: nat) -> (Model, Out)
    decreases d, 5nat, 0nat,
{
    if d == 0 {
        deep(s, function.line, function.col)
    } else {
        let (s1, o) = sp_expr(s, function, f, (d - 1) as nat);
        match o {
            Out::Val(Value::Func(c)) => sp_fn_call(s1, args, c, f, function.line, function.col, (d - 1) as nat),
            Out::Val(Value::Native(b)) => sp_builtin(s1, b, args, f, function.line, function.col, (d - 1) as nat),
            Out::Val(_) => fail(s1, ErrorKind::TypeMismatch, loc("only functions can be called"@, function.line, function.col)),
            _ => (s1, o),
        }
    }
}

/// A call of closure `c`: the arguments must be as many as the parameters; they are evaluated
/// in the caller's frame `f`, bound in a fresh frame under the captured frame, and the body runs
/// there inside a function marker. A `return` gives the call's value; otherwise it is void.
pub open spec fn sp_fn_call(s: Model, args: Seq<Expr>, c: usize, f: usize, line: usize, col: usize, d: nat) -> (Model, Out)
    decreases d, 5nat, 0nat,
{
    if d == 0 {
        deep(s, line, col)
    } else if c >= s.closures.len() {
        fail(s, ErrorKind::TypeMismatch, loc("not a function"@, line, col))
    } else if args.len() != s.closures[c as int].def.params@.len() {
        fail(s, ErrorKind::ArityMismatch, loc(
            "found "@ + decimal(args.len()) + " arguments, expected "@ + decimal(s.closures[c as int].def.params@.len()),
            line,
            col,
        ))
    } else {
        sp_fn_args_from(s, args, 0, Seq::empty(), s.closures[c as int], f, line, col, d)
    }
}

pub open spec fn sp_fn_args_from(s: Model, args: Seq<Expr>, k: int, acc: Seq<Value>, clo: Closure, f: usize, line: usize, col: usize, d: nat) -> (Model, Out)
    decreases d, 1nat, args.len() - k,
{
    if d == 0 {
        deep(s, line, col)
    } else if k < 0 || k >= args.len() {
        sp_fn_body(s, acc, clo, line, col, d)
    } else {
        let (s1, o) = sp_expr(s, args[k], f, (d - 1) as nat);
        match o {
            Out::Val(v) => sp_fn_args_from(s1, args, k + 1, acc.push(v), clo, f, line, col, d),
            Out::Fail(x, m) => fail(s1, x, m),
            _ => fail(s1, ErrorKind::IllegalControlFlow, loc("a signal cannot leave an argument"@, line, col)),
        }
    }
}

pub open spec fn sp_fn_body(s: Model, values: Seq<Value>, clo: Closure, line: usize, col: usize, d: nat) -> (Model, Out)
    decreases d, 0nat, 0nat,
{
    if d == 0 {
        deep(s, line, col)
    } else {
        let mark = s.frames.len() as int;
        let cmark = s.closures.len() as int;
        let s1 = open_frame(s, clo.env);
        let (fr, ok) = bind_from(s1.frames, mark, clo.def.params@, values, 0);
        if !ok {
            fail(Model { frames: fr, ..s1 }, ErrorKind::RedeclaredIdentifier, loc("a parameter name appears twice"@, line, col))
        } else {
            let s2 = push_mark(Model { frames: fr, ..s1 }, Context::Fn);
            let (s3, o) = sp_block(s2, clo.def.body@, mark as usize, (d - 1) as nat);
            let s4 = close_to(pop_mark(s3), mark, cmark);
            match o {
                Out::Ret(v) => (s4, Out::Val(v)),
                Out::Val(_) => (s4, Out::Val(Value::Void)),
                Out::Fail(x, m) => (s4, Out::Fail(x, m)),
                _ => (s4, Out::Fail(ErrorKind::IllegalControlFlow, loc("a loop signal cannot leave a function"@, line, col))),
            }
        }
    }
}

/// A while loop: the condition in frame `f` before each iteration; while it is truthy the body
/// runs in a fresh frame under `f` inside a loop marker, spending one unit of the loop budget.
/// `break` ends the loop, void; a return or an error leaves it.
pub open spec fn sp_while(s: Model, cond: Expr, body: Seq<Stmt>, f: usize, d: nat) -> (Model, Out)
    decreases d, 5nat, 0nat,
{
    if d == 0 {
        deep(s, cond.line, cond.col)
    } else {
        sp_while_from(s, cond, body, f, d)
    }
}

pub open spec fn sp_while_from(s: Model, cond: Expr, body: Seq<Stmt>, f: usize, d: nat) -> (Model, Out)
    decreases d, 1nat, s.budget,
{
    if d == 0 {
        deep(s, cond.line, cond.col)
    } else {
        let (s1, o) = sp_expr(s, cond, f, (d - 1) as nat);
        match o {
            Out::Val(c) => if !truthy(c) {
                (s1, Out::Val(Value::Void))
            } else if s1.budget == 0 {
                fail(s1, ErrorKind::LimitExceeded, loc("the loop budget is exhausted"@, cond.line, cond.col))
            } else {
                let mark = s1.frames.len() as int;
                let cmark = s1.closures.len() as int;
                let s2 = push_mark(open_frame(Model { budget: (s1.budget - 1) as u64, ..s1 }, f), Context::Loop);
                let (s3, o3) = sp_block(s2, body, mark as usize, (d - 1) as nat);
                let s4 = close_to(pop_mark(s3), mark, cmark);
                match o3 {
                    Out::Brk => (s4, Out::Val(Value::Void)),
                    Out::Ret(v) => (s4, Out::Ret(v)),
                    Out::Fail(x, m) => (s4, Out::Fail(x, m)),
                    _ => if s4.budget < s.budget {
                        sp_while_from(s4, cond, body, f, d)
                    } else {
                        fail(s4, ErrorKind::LimitExceeded, loc("the loop budget is exhausted"@, cond.line, cond.col))
                    },
                }
            },
            _ => (s1, o),
        }
    }
}

/// An expression that must give an integer.
pub open spec fn sp_extract(s: Model, e: Expr, f: usize, d: nat) -> (Model, Result<i64, Out>)
    decreases d, 5nat, 0nat,
{
    if d == 0 {
        (s, Err(Out::Fail(ErrorKind::LimitExceeded, loc("evaluation nests too deeply"@, e.line, e.col))))
    } else {
        let (s1, o) = sp_expr(s, e, f, (d - 1) as nat);
        match o {
            Out::Val(Value::Int(n)) => (s1, Ok(n)),
            Out::Val(v) => (s1, Err(Out::Fail(ErrorKind::TypeMismatch, loc("a range needs integers, not "@ + kind_name_of(s1.heap, v), e.line, e.col)))),
            _ => (s1, Err(o)),
        }
    }
}

/// A ranged loop `para (var, a[, end[, step]])`: the variable must not be visible; one to three
/// arguments; the bound and step as `range_bound` gives them; then the body once for each of
/// `0, step, 2 step, ...` below the bound.
pub open spec fn sp_for(s: Model, var: Seq<char>, args: Seq<Expr>, body: Seq<Stmt>, f: usize, line: usize, col: usize, d: nat) -> (Model, Out)
    decreases d, 5nat, 0nat,
{
    if d == 0 {
        deep(s, line, col)
    } else if lookup_value(s.frames, f as int, var) is Some {
        fail(s, ErrorKind::RedeclaredIdentifier, loc("the variable `"@ + var + "` exists already"@, line, col))
    } else if args.len() < 1 || args.len() > 3 {
        fail(s, ErrorKind::ArityMismatch, loc("found "@ + decimal(args.len()) + " arguments, expected 1 to 3"@, line, col))
    } else {
        let d1 = (d - 1) as nat;
        let (s1, o1) = sp_expr(s, args[0], f, d1);
        match o1 {
            Out::Val(bv) => {
                let (s2, r2) = if args.len() >= 2 { sp_extract(s1, args[1], f, d1) } else { (s1, Ok(0i64)) };
                match r2 {
                    Err(o) => (s2, o),
                    Ok(end) => {
                        let (s3, r3) = if args.len() == 3 { sp_extract(s2, args[2], f, d1) } else { (s2, Ok(1i64)) };
                        match r3 {
                            Err(o) => (s3, o),
                            Ok(step) => match range_bound(bv, end, step) {
                                Err(x) => fail(s3, x, if x == ErrorKind::TypeMismatch {
                                    loc("a range needs integers, not "@ + kind_name_of(s3.heap, bv), args[0].line, args[0].col)
                                } else {
                                    loc("a range needs a non-negative bound and a positive step"@, args[0].line, args[0].col)
                                }),
                                Ok(bound) => sp_for_from(s3, var, body, f, d, bound as int, step as int, 0),
                            },
                        }
                    },
                }
            },
            _ => (s1, o1),
        }
    }
}

/// The iterations of a ranged loop from `i` on.
pub open spec fn sp_for_from(s: Model, var: Seq<char>, body: Seq<Stmt>, f: usize, d: nat, bound: int, step: int, i: int) -> (Model, Out)
    decreases d, 1nat, bound - i,
{
    if d == 0 {
        deep(s, 0, 0)
    } else if i >= bound || step <= 0 {
        (s, Out::Val(Value::Void))
    } else {
        let mark = s.frames.len() as int;
        let cmark = s.closures.len() as int;
        let s1 = open_frame(s, f);
        let s2 = push_mark(Model { frames: declare_value(s1.frames, mark, var, Value::Int(i as i64)), ..s1 }, Context::Loop);
        let (s3, o) = sp_block(s2, body, mark as usize, (d - 1) as nat);
        let s4 = close_to(pop_mark(s3), mark, cmark);
        match o {
            Out::Brk => (s4, Out::Val(Value::Void)),
            Out::Ret(v) => (s4, Out::Ret(v)),
            Out::Fail(x, m) => (s4, Out::Fail(x, m)),
            _ => if bound - i <= step {
                (s4, Out::Val(Value::Void))
            } else {
                sp_for_from(s4, var, body, f, d, bound, step, i + step)
            },
        }
    }
}

/// A whole program in frame `f`: the markers reset to the global one and the loop budget
/// refilled; the outcome is void, or the first error.
pub open spec fn sp_program(s: Model, stmts: Seq<Stmt>, f: usize) -> (Model, Out) {
    let s1 = Model { stack: seq![Context::Global], budget: s.loop_budget, ..s };
    let (s2, o) = sp_block(s1, stmts, f, crate::eval::MAX_DEPTH as nat);
    match o {
        Out::Fail(x, m) => (s2, Out::Fail(x, m)),
        _ => (s2, Out::Val(Value::Void)),
    }
}

} // verus!
