use vstd::prelude::*;
use vstd::string::StringExecFns;
use crate::ast::{BinOp, PrefixOp};
use crate::heap::{cell_below, handle_below, heap_closed, lemma_push_closed, same_value, Heap};
use crate::text::{render_i64, signed_decimal};
use crate::value::{error_at, Cell, CellView, ErrorKind, RunError, Value};

verus! {

/// What an operator produces: a value, a new string or list (stored in a new cell), or an error
/// of the given class.
pub enum OpOut {
    Val(Value),
    NewStr(Seq<char>),
    NewList(Seq<Value>),
    Fail(ErrorKind),
}

/// `s` repeated `n` times.
pub open spec fn repeat<A>(s: Seq<A>, n: nat) -> Seq<A>
    decreases n,
{
    if n == 0 {
        Seq::empty()
    } else {
        repeat(s, (n - 1) as nat) + s
    }
}

/// A number as the arithmetic operators read it: booleans count as 0 and 1.
pub open spec fn as_number(v: Value) -> Option<i64> {
    match v {
        Value::Int(n) => Some(n),
        Value::Bool(b) => Some(if b { 1i64 } else { 0i64 }),
        _ => None,
    }
}

pub open spec fn checked_int(o: Option<i64>) -> OpOut {
    match o {
        Some(n) => OpOut::Val(Value::Int(n)),
        None => OpOut::Fail(ErrorKind::Arithmetic),
    }
}

/// Integer arithmetic and comparison. Division and remainder truncate toward zero; overflow
/// and division by zero are errors.
pub open spec fn int_op(op: BinOp, a: i64, b: i64) -> OpOut {
    match op {
        BinOp::Add => checked_int(a.checked_add(b)),
        BinOp::Sub => checked_int(a.checked_sub(b)),
        BinOp::Mul => checked_int(a.checked_mul(b)),
        BinOp::Div => checked_int(a.checked_div(b)),
        BinOp::Rem => checked_int(a.checked_rem(b)),
        BinOp::Eq => OpOut::Val(Value::Bool(a == b)),
        BinOp::NotEq => OpOut::Val(Value::Bool(a != b)),
        BinOp::Lt => OpOut::Val(Value::Bool(a < b)),
        BinOp::Gt => OpOut::Val(Value::Bool(a > b)),
        BinOp::LtEq => OpOut::Val(Value::Bool(a <= b)),
        BinOp::GtEq => OpOut::Val(Value::Bool(a >= b)),
    }
}

/// Two strings: `+` concatenates, `==` and `!=` compare the text; any other operator is a type
/// mismatch.
pub open spec fn str_op(op: BinOp, s: Seq<char>, t: Seq<char>) -> OpOut {
    match op {
        BinOp::Add => OpOut::NewStr(s + t),
        BinOp::Eq => OpOut::Val(Value::Bool(s == t)),
        BinOp::NotEq => OpOut::Val(Value::Bool(s != t)),
        _ => OpOut::Fail(ErrorKind::TypeMismatch),
    }
}

/// Two lists: `+` concatenates, `==` and `!=` compare element by element, the orderings compare
/// the lengths; any other operator is a type mismatch.
pub open spec fn list_op(h: Seq<CellView>, op: BinOp, a: Value, b: Value, p: Seq<Value>, q: Seq<Value>) -> OpOut {
    match op {
        BinOp::Add => OpOut::NewList(p + q),
        BinOp::Eq => OpOut::Val(Value::Bool(same_value(h, a, b))),
        BinOp::NotEq => OpOut::Val(Value::Bool(!same_value(h, a, b))),
        BinOp::Lt => OpOut::Val(Value::Bool(p.len() < q.len())),
        BinOp::Gt => OpOut::Val(Value::Bool(p.len() > q.len())),
        BinOp::LtEq => OpOut::Val(Value::Bool(p.len() <= q.len())),
        BinOp::GtEq => OpOut::Val(Value::Bool(p.len() >= q.len())),
        _ => OpOut::Fail(ErrorKind::TypeMismatch),
    }
}

/// A string or list in cell `i` with the integer `n`, on either side: a string `+` appends the
/// decimal text of `n`; `*` repeats the string or list `n` times (a negative count is an
/// error); any other operator is a type mismatch.
pub open spec fn cell_int_op(h: Seq<CellView>, op: BinOp, i: usize, n: i64) -> OpOut {
    if i >= h.len() {
        OpOut::Fail(ErrorKind::TypeMismatch)
    } else {
        match h[i as int] {
            CellView::Str(s) => match op {
                BinOp::Add => OpOut::NewStr(s + signed_decimal(n as int)),
                BinOp::Mul => if n < 0 {
                    OpOut::Fail(ErrorKind::InvalidRange)
                } else {
                    OpOut::NewStr(repeat(s, n as nat))
                },
                _ => OpOut::Fail(ErrorKind::TypeMismatch),
            },
            CellView::List(p) => match op {
                BinOp::Mul => if n < 0 {
                    OpOut::Fail(ErrorKind::InvalidRange)
                } else {
                    OpOut::NewList(repeat(p, n as nat))
                },
                _ => OpOut::Fail(ErrorKind::TypeMismatch),
            },
            CellView::Dict(_) => OpOut::Fail(ErrorKind::TypeMismatch),
        }
    }
}

/// Null against null (`both`) or against another value: only `==` and `!=` are defined.
pub open spec fn null_op(op: BinOp, both: bool) -> OpOut {
    match op {
        BinOp::Eq => OpOut::Val(Value::Bool(both)),
        BinOp::NotEq => OpOut::Val(Value::Bool(!both)),
        _ => OpOut::Fail(ErrorKind::UnsupportedOperator),
    }
}

/// The operator matrix: what `a op b` produces over the heap `h`. Numbers and booleans mix as
/// integers; strings and lists meet each other and integers as above; null compares for
/// equality only; every other pair is a type mismatch.
pub open spec fn binop_spec(h: Seq<CellView>, op: BinOp, a: Value, b: Value) -> OpOut {
    if as_number(a) is Some && as_number(b) is Some {
        int_op(op, as_number(a)->0, as_number(b)->0)
    } else {
        match (a, b) {
            (Value::Ref(i), Value::Ref(j)) => if i < h.len() && j < h.len() {
                match (h[i as int], h[j as int]) {
                    (CellView::Str(s), CellView::Str(t)) => str_op(op, s, t),
                    (CellView::List(p), CellView::List(q)) => list_op(h, op, a, b, p, q),
                    _ => OpOut::Fail(ErrorKind::TypeMismatch),
                }
            } else {
                OpOut::Fail(ErrorKind::TypeMismatch)
            },
            (Value::Int(n), Value::Ref(j)) => cell_int_op(h, op, j, n),
            (Value::Ref(i), Value::Int(n)) => cell_int_op(h, op, i, n),
            (Value::Null, Value::Null) => null_op(op, true),
            (Value::Null, _) => null_op(op, false),
            (_, Value::Null) => null_op(op, false),
            _ => OpOut::Fail(ErrorKind::TypeMismatch),
        }
    }
}

/// The heap after an operator's result is stored, and the value handed back.
pub open spec fn binop_post(old_h: Seq<CellView>, out: OpOut, new_h: Seq<CellView>, r: Result<Value, RunError>) -> bool {
    match out {
        OpOut::Val(v) => r == Ok::<Value, RunError>(v) && new_h == old_h,
        OpOut::NewStr(s) => r == Ok::<Value, RunError>(Value::Ref(old_h.len() as usize)) && new_h == old_h.push(CellView::Str(s)),
        OpOut::NewList(l) => r == Ok::<Value, RunError>(Value::Ref(old_h.len() as usize)) && new_h == old_h.push(CellView::List(l)),
        OpOut::Fail(k) => r is Err && r->Err_0.kind == k && new_h == old_h,
    }
}

/// What a prefix operator produces: `+` hands the value on, `-` negates a number (a boolean
/// counts as 0 or 1), `!` negates truthiness; on any other operand `-` and `!` give null.
pub open spec fn prefix_spec(op: PrefixOp, v: Value) -> Result<Value, ErrorKind> {
    match op {
        PrefixOp::Plus => Ok(v),
        PrefixOp::Minus => match v {
            Value::Int(n) => match 0i64.checked_sub(n) {
                Some(m) => Ok(Value::Int(m)),
                None => Err(ErrorKind::Arithmetic),
            },
            Value::Bool(b) => Ok(Value::Int(if b { -1i64 } else { 0i64 })),
            _ => Ok(Value::Null),
        },
        PrefixOp::Not => match v {
            Value::Int(n) => Ok(Value::Bool(n == 0)),
            Value::Bool(b) => Ok(Value::Bool(!b)),
            Value::Null => Ok(Value::Bool(true)),
            _ => Ok(Value::Null),
        },
    }
}

/// The name of a value's type, as `tipo` reports it and error messages use it.
pub open spec fn kind_name_of(h: Seq<CellView>, v: Value) -> Seq<char> {
    match v {
        Value::Int(_) => "number"@,
        Value::Bool(_) => "boolean"@,
        Value::Null => "null"@,
        Value::Void => "void"@,
        Value::Func(_) => "function"@,
        Value::Native(_) => "builtin"@,
        Value::Ref(i) => if i < h.len() {
            match h[i as int] {
                CellView::Str(_) => "string"@,
                CellView::List(_) => "list"@,
                CellView::Dict(_) => "dictionary"@,
            }
        } else {
            "reference"@
        },
    }
}

pub fn kind_name(heap: &Heap, v: Value) -> (r: &'static str)
    ensures
        r@ == kind_name_of(heap@, v),
{
    match v {
        Value::Int(_) => "number",
        Value::Bool(_) => "boolean",
        Value::Null => "null",
        Value::Void => "void",
        Value::Func(_) => "function",
        Value::Native(_) => "builtin",
        Value::Ref(i) => {
            if i < heap.len() {
                match heap.cell(i) {
                    Cell::Str(_) => "string",
                    Cell::List(_) => "list",
                    Cell::Dict(_) => "dictionary",
                }
            } else {
                "reference"
            }
        },
    }
}

/// The symbol of an infix operator.
pub open spec fn op_text(op: BinOp) -> Seq<char> {
    match op {
        BinOp::Add => "+"@,
        BinOp::Sub => "-"@,
        BinOp::Mul => "*"@,
        BinOp::Div => "/"@,
        BinOp::Rem => "%"@,
        BinOp::Eq => "=="@,
        BinOp::NotEq => "!="@,
        BinOp::Lt => "<"@,
        BinOp::Gt => ">"@,
        BinOp::LtEq => "<="@,
        BinOp::GtEq => ">="@,
    }
}

/// The text of the type mismatch of `a op b`, naming both types and the operator.
pub open spec fn mismatch_message(h: Seq<CellView>, op: BinOp, a: Value, b: Value, line: usize, col: usize) -> Seq<char> {
    crate::text::located_message(
        "unsupported operation "@ + kind_name_of(h, a) + " "@ + op_text(op) + " "@ + kind_name_of(h, b),
        line as nat,
        col as nat,
    )
}

/// The text of an error of class `k` that `a op b` gives, located at `line`, `col`.
pub open spec fn binop_message(h: Seq<CellView>, op: BinOp, a: Value, b: Value, k: ErrorKind, line: usize, col: usize) -> Seq<char> {
    match k {
        ErrorKind::TypeMismatch => mismatch_message(h, op, a, b, line, col),
        ErrorKind::Arithmetic => crate::text::located_message("integer overflow or division by zero"@, line as nat, col as nat),
        ErrorKind::InvalidRange => crate::text::located_message("cannot repeat a negative number of times"@, line as nat, col as nat),
        _ => crate::text::located_message("null supports only == and !="@, line as nat, col as nat),
    }
}

fn op_symbol(op: BinOp) -> (r: &'static str)
    ensures
        r@ == op_text(op),
{
    match op {
        BinOp::Add => "+",
        BinOp::Sub => "-",
        BinOp::Mul => "*",
        BinOp::Div => "/",
        BinOp::Rem => "%",
        BinOp::Eq => "==",
        BinOp::NotEq => "!=",
        BinOp::Lt => "<",
        BinOp::Gt => ">",
        BinOp::LtEq => "<=",
        BinOp::GtEq => ">=",
    }
}

fn number_of(v: Value) -> (r: Option<i64>)
    ensures
        r == as_number(v),
{
    match v {
        Value::Int(n) => Some(n),
        Value::Bool(b) => Some(if b { 1i64 } else { 0i64 }),
        _ => None,
    }
}

fn checked_result(o: Option<i64>, line: usize, col: usize) -> (r: Result<Value, RunError>)
    ensures
        binop_post(Seq::empty(), checked_int(o), Seq::empty(), r),
        r matches Err(e) ==> e.message@ == crate::text::located_message("integer overflow or division by zero"@, line as nat, col as nat),
{
    match o {
        Some(n) => Ok(Value::Int(n)),
        None => Err(error_at(ErrorKind::Arithmetic, String::from_str("integer overflow or division by zero"), line, col)),
    }
}

fn int_binop(op: BinOp, a: i64, b: i64, line: usize, col: usize) -> (r: Result<Value, RunError>)
    ensures
        binop_post(Seq::empty(), int_op(op, a, b), Seq::empty(), r),
        r matches Err(e) ==> e.message@ == crate::text::located_message("integer overflow or division by zero"@, line as nat, col as nat),
{
    match op {
        BinOp::Add => checked_result(a.checked_add(b), line, col),
        BinOp::Sub => checked_result(a.checked_sub(b), line, col),
        BinOp::Mul => checked_result(a.checked_mul(b), line, col),
        BinOp::Div => checked_result(a.checked_div(b), line, col),
        BinOp::Rem => checked_result(a.checked_rem(b), line, col),
        BinOp::Eq => Ok(Value::Bool(a == b)),
        BinOp::NotEq => Ok(Value::Bool(a != b)),
        BinOp::Lt => Ok(Value::Bool(a < b)),
        BinOp::Gt => Ok(Value::Bool(a > b)),
        BinOp::LtEq => Ok(Value::Bool(a <= b)),
        BinOp::GtEq => Ok(Value::Bool(a >= b)),
    }
}

fn repeat_text(s: &String, n: i64) -> (r: String)
    requires
        n >= 0,
    ensures
        r@ == repeat(s@, n as nat),
{
    let mut r = String::new();
    let mut k: i64 = 0;
    while k < n
        invariant
            0 <= k <= n,
            r@ == repeat(s@, k as nat),
        decreases n - k,
    {
        r.append(s.as_str());
        k = k + 1;
    }
    r
}

fn push_all(r: &mut Vec<Value>, p: &Vec<Value>)
    ensures
        final(r)@ == old(r)@ + p@,
{
    let mut k: usize = 0;
    while k < p.len()
        invariant
            k <= p@.len(),
            r@ == old(r)@ + p@.subrange(0, k as int),
        decreases p@.len() - k,
    {
        r.push(p[k]);
        k = k + 1;
        assert(p@.subrange(0, k as int) =~= p@.subrange(0, k - 1 as int).push(p@[k - 1]));
    }
    assert(p@.subrange(0, p@.len() as int) =~= p@);
}

fn repeat_list(p: &Vec<Value>, n: i64) -> (r: Vec<Value>)
    requires
        n >= 0,
    ensures
        r@ == repeat(p@, n as nat),
{
    let mut r: Vec<Value> = Vec::new();
    let mut k: i64 = 0;
    assert(r@ =~= repeat(p@, 0));
    while k < n
        invariant
            0 <= k <= n,
            r@ == repeat(p@, k as nat),
        decreases n - k,
    {
        push_all(&mut r, p);
        k = k + 1;
    }
    r
}

fn mismatch(heap: &Heap, op: BinOp, a: Value, b: Value, line: usize, col: usize) -> (r: RunError)
    ensures
        r.kind == ErrorKind::TypeMismatch,
        r.message@ == mismatch_message(heap@, op, a, b, line, col),
{
    let mut msg = String::from_str("unsupported operation ");
    msg.append(kind_name(heap, a));
    msg.append(" ");
    msg.append(op_symbol(op));
    msg.append(" ");
    msg.append(kind_name(heap, b));
    error_at(ErrorKind::TypeMismatch, msg, line, col)
}

fn cell_int_binop(heap: &mut Heap, op: BinOp, i: usize, n: i64, a: Value, b: Value, line: usize, col: usize) -> (r: Result<Value, RunError>)
    ensures
        binop_post(old(heap)@, cell_int_op(old(heap)@, op, i, n), final(heap)@, r),
        cell_int_op(old(heap)@, op, i, n) == OpOut::Fail(ErrorKind::TypeMismatch)
            ==> (r matches Err(e) && e.message@ == mismatch_message(old(heap)@, op, a, b, line, col)),
        r matches Err(e) ==> e.message@ == binop_message(old(heap)@, op, a, b, e.kind, line, col),
{
    if i >= heap.len() {
        return Err(mismatch(heap, op, a, b, line, col));
    }
    let c = heap.cell(i);
    let out: Option<Cell> = match c {
        Cell::Str(s) => match op {
            BinOp::Add => {
                let mut t = s.clone();
                let d = render_i64(n);
                t.append(d.as_str());
                Some(Cell::Str(t))
            },
            BinOp::Mul => {
                if n < 0 {
                    return Err(error_at(ErrorKind::InvalidRange, String::from_str("cannot repeat a negative number of times"), line, col));
                }
                Some(Cell::Str(repeat_text(s, n)))
            },
            _ => None,
        },
        Cell::List(p) => match op {
            BinOp::Mul => {
                if n < 0 {
                    return Err(error_at(ErrorKind::InvalidRange, String::from_str("cannot repeat a negative number of times"), line, col));
                }
                Some(Cell::List(repeat_list(p, n)))
            },
            _ => None,
        },
        Cell::Dict(_) => {
            return Err(mismatch(heap, op, a, b, line, col));
        },
    };
    match out {
        Some(cell) => Ok(Value::Ref(heap.store(cell))),
        None => Err(mismatch(heap, op, a, b, line, col)),
    }
}

/// Applies an infix operator to two evaluated operands, storing a new string or list in the heap
/// where the operator makes one. An error is located at `line`, `col`. When every handle in
/// the heap and in the operands names an existing cell, so does every handle afterwards.
pub fn binop(heap: &mut Heap, op: BinOp, a: Value, b: Value, line: usize, col: usize) -> (r: Result<Value, RunError>)
    ensures
        binop_post(old(heap)@, binop_spec(old(heap)@, op, a, b), final(heap)@, r),
        (heap_closed(old(heap)@) && handle_below(a, old(heap)@.len() as int) && handle_below(b, old(heap)@.len() as int))
            ==> heap_closed(final(heap)@) && (r matches Ok(v) ==> handle_below(v, final(heap)@.len() as int)),
        binop_spec(old(heap)@, op, a, b) == OpOut::Fail(ErrorKind::TypeMismatch)
            ==> (r matches Err(e) && e.message@ == mismatch_message(old(heap)@, op, a, b, line, col)),
        r matches Err(e) ==> e.message@ == binop_message(old(heap)@, op, a, b, e.kind, line, col),
{
    let ghost h = heap@;
    let r = binop_matrix(heap, op, a, b, line, col);
    proof {
        if heap_closed(h) && handle_below(a, h.len() as int) && handle_below(b, h.len() as int) {
            lemma_binop_closed(h, op, a, b);
            match binop_spec(h, op, a, b) {
                OpOut::NewStr(t) => lemma_push_closed(h, CellView::Str(t)),
                OpOut::NewList(l) => lemma_push_closed(h, CellView::List(l)),
                _ => {},
            }
        }
    }
    r
}

proof fn lemma_repeat_below(p: Seq<Value>, n: nat, m: int)
    requires
        forall|k: int| 0 <= k < p.len() ==> handle_below(#[trigger] p[k], m),
    ensures
        forall|k: int| 0 <= k < repeat(p, n).len() ==> handle_below(#[trigger] repeat(p, n)[k], m),
    decreases n,
{
    if n > 0 {
        lemma_repeat_below(p, (n - 1) as nat, m);
        let q = repeat(p, (n - 1) as nat);
        assert forall|k: int| 0 <= k < repeat(p, n).len() implies handle_below(#[trigger] repeat(p, n)[k], m) by {
            if k < q.len() {
                assert(repeat(p, n)[k] == q[k]);
            } else {
                assert(repeat(p, n)[k] == p[k - q.len()]);
            }
        }
    }
}

/// In a closed heap an operator's plain result holds no handle, and a new list holds only
/// handles of existing cells.
proof fn lemma_binop_closed(h: Seq<CellView>, op: BinOp, a: Value, b: Value)
    requires
        heap_closed(h),
        handle_below(a, h.len() as int),
        handle_below(b, h.len() as int),
    ensures
        match binop_spec(h, op, a, b) {
            OpOut::Val(v) => !(v is Ref),
            OpOut::NewList(l) => cell_below(CellView::List(l), h.len() as int),
            _ => true,
        },
{
    let m = h.len() as int;
    match (a, b) {
        (Value::Ref(i), Value::Ref(j)) => {
            if i < h.len() && j < h.len() && !(as_number(a) is Some && as_number(b) is Some) {
                assert(cell_below(h[i as int], m));
                assert(cell_below(h[j as int], m));
                match (h[i as int], h[j as int]) {
                    (CellView::List(p), CellView::List(q)) => {
                        assert forall|k: int| 0 <= k < (p + q).len() implies handle_below(#[trigger] (p + q)[k], m) by {
                            if k < p.len() {
                                assert((p + q)[k] == p[k]);
                            } else {
                                assert((p + q)[k] == q[k - p.len()]);
                            }
                        }
                    },
                    _ => {},
                }
            }
        },
        (Value::Int(n), Value::Ref(j)) => {
            if j < h.len() && n >= 0 {
                assert(cell_below(h[j as int], m));
                match h[j as int] {
                    CellView::List(p) => lemma_repeat_below(p, n as nat, m),
                    _ => {},
                }
            }
        },
        (Value::Ref(i), Value::Int(n)) => {
            if i < h.len() && n >= 0 {
                assert(cell_below(h[i as int], m));
                match h[i as int] {
                    CellView::List(p) => lemma_repeat_below(p, n as nat, m),
                    _ => {},
                }
            }
        },
        _ => {},
    }
}

fn binop_matrix(heap: &mut Heap, op: BinOp, a: Value, b: Value, line: usize, col: usize) -> (r: Result<Value, RunError>)
    ensures
        binop_post(old(heap)@, binop_spec(old(heap)@, op, a, b), final(heap)@, r),
        binop_spec(old(heap)@, op, a, b) == OpOut::Fail(ErrorKind::TypeMismatch)
            ==> (r matches Err(e) && e.message@ == mismatch_message(old(heap)@, op, a, b, line, col)),
        r matches Err(e) ==> e.message@ == binop_message(old(heap)@, op, a, b, e.kind, line, col),
{
    match (number_of(a), number_of(b)) {
        (Some(x), Some(y)) => {
            return int_binop(op, x, y, line, col);
        },
        _ => {},
    }
    let ghost h = heap@;
    match (a, b) {
        (Value::Ref(i), Value::Ref(j)) => {
            if i >= heap.len() || j >= heap.len() {
                return Err(mismatch(heap, op, a, b, line, col));
            }
            let ci = heap.cell(i);
            let cj = heap.cell(j);
            let out: Cell = match (ci, cj) {
                (Cell::Str(s), Cell::Str(t)) => match op {
                    BinOp::Add => {
                        let mut u = s.clone();
                        u.append(t.as_str());
                        Cell::Str(u)
                    },
                    BinOp::Eq => {
                        return Ok(Value::Bool(*s == *t));
                    },
                    BinOp::NotEq => {
                        return Ok(Value::Bool(!(*s == *t)));
                    },
                    _ => {
                        return Err(mismatch(heap, op, a, b, line, col));
                    },
                },
                (Cell::List(p), Cell::List(q)) => match op {
                    BinOp::Add => {
                        let mut u: Vec<Value> = Vec::new();
                        push_all(&mut u, p);
                        push_all(&mut u, q);
                        assert(u@ =~= p@ + q@);
                        Cell::List(u)
                    },
                    BinOp::Eq => {
                        return Ok(Value::Bool(heap.same(a, b)));
                    },
                    BinOp::NotEq => {
                        return Ok(Value::Bool(!heap.same(a, b)));
                    },
                    BinOp::Lt => {
                        return Ok(Value::Bool(p.len() < q.len()));
                    },
                    BinOp::Gt => {
                        return Ok(Value::Bool(p.len() > q.len()));
                    },
                    BinOp::LtEq => {
                        return Ok(Value::Bool(p.len() <= q.len()));
                    },
                    BinOp::GtEq => {
                        return Ok(Value::Bool(p.len() >= q.len()));
                    },
                    _ => {
                        return Err(mismatch(heap, op, a, b, line, col));
                    },
                },
                _ => {
                    return Err(mismatch(heap, op, a, b, line, col));
                },
            };
            Ok(Value::Ref(heap.store(out)))
        },
        (Value::Int(n), Value::Ref(j)) => cell_int_binop(heap, op, j, n, a, b, line, col),
        (Value::Ref(i), Value::Int(n)) => cell_int_binop(heap, op, i, n, a, b, line, col),
        (Value::Null, Value::Null) => null_binop(op, true, line, col),
        (Value::Null, _) => null_binop(op, false, line, col),
        (_, Value::Null) => null_binop(op, false, line, col),
        _ => Err(mismatch(heap, op, a, b, line, col)),
    }
}

fn null_binop(op: BinOp, both: bool, line: usize, col: usize) -> (r: Result<Value, RunError>)
    ensures
        binop_post(Seq::empty(), null_op(op, both), Seq::empty(), r),
        r matches Err(e) ==> e.message@ == crate::text::located_message("null supports only == and !="@, line as nat, col as nat),
{
    match op {
        BinOp::Eq => Ok(Value::Bool(both)),
        BinOp::NotEq => Ok(Value::Bool(!both)),
        _ => Err(error_at(ErrorKind::UnsupportedOperator, String::from_str("null supports only == and !="), line, col)),
    }
}

/// Applies a prefix operator (see `prefix_spec`). An error is located at `line`, `col`.
pub fn prefix(op: PrefixOp, v: Value, line: usize, col: usize) -> (r: Result<Value, RunError>)
    ensures
        match prefix_spec(op, v) {
            Ok(w) => r == Ok::<Value, RunError>(w),
            Err(k) => r is Err && r->Err_0.kind == k,
        },
        r matches Err(e) ==> e.message@ == crate::text::located_message("integer overflow"@, line as nat, col as nat),
{
    match op {
        PrefixOp::Plus => Ok(v),
        PrefixOp::Minus => match v {
            Value::Int(n) => match 0i64.checked_sub(n) {
                Some(m) => Ok(Value::Int(m)),
                None => Err(error_at(ErrorKind::Arithmetic, String::from_str("integer overflow"), line, col)),
            },
            Value::Bool(b) => Ok(Value::Int(if b { -1i64 } else { 0i64 })),
            _ => Ok(Value::Null),
        },
        PrefixOp::Not => match v {
            Value::Int(n) => Ok(Value::Bool(n == 0)),
            Value::Bool(b) => Ok(Value::Bool(!b)),
            Value::Null => Ok(Value::Bool(true)),
            _ => Ok(Value::Null),
        },
    }
}

} // verus!
