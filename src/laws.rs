use vstd::prelude::*;
use crate::ast::{Expr, ExprKind, Stmt};
use crate::eval::{literal_value, Closure};
use crate::semantics::{
    open_frame, sp_assign, sp_fn_args_from, sp_fn_body, sp_fn_call, sp_for, sp_for_from, sp_while, sp_while_from,
    Model, Out,
};
use crate::access::{read_spec, write_spec};
use crate::env::{
    assign_value, declare_value, frames_ordered, lemma_assign_effect, lemma_declare_effect,
    lookup_value, resolve, slot_of, FrameView,
};
use crate::heap::{cells_eq, deep_eq, dict_put, find_key, find_key_from, lemma_found_in_range, same_value};
use crate::value::{CellView, Value};

verus! {

/// Assigning a value-classified value copies it: after `y = x`, `y` holds the value `x` had;
/// no write into any container and no later assignment to `x` changes what `y` holds.
pub proof fn law_value_assignment_copies(
    fr: Seq<FrameView>,
    h: Seq<CellView>,
    f: int,
    x: Seq<char>,
    y: Seq<char>,
    c: Value,
    k: Value,
    w: Value,
    u: Value,
)
    requires
        x != y,
        lookup_value(fr, f, x) matches Some(v) && v.is_value_classified(),
        resolve(fr, f, y) is Some,
    ensures
        ({
            let v = lookup_value(fr, f, x)->0;
            let fr1 = assign_value(fr, f, y, v);
            let h1 = write_spec(h, c, k, w).1;
            let fr2 = assign_value(fr1, f, x, u);
            &&& lookup_value(fr1, f, y) == Some(v)
            &&& lookup_value(fr2, f, y) == Some(v)
            &&& same_value(h1, lookup_value(fr2, f, y)->0, v)
        }),
{
    let v = lookup_value(fr, f, x)->0;
    let fr1 = assign_value(fr, f, y, v);
    let h1 = write_spec(h, c, k, w).1;
    lemma_assign_effect(fr, f, y, v, f, x);
    lemma_assign_effect(fr1, f, x, u, f, y);
    lemma_assign_effect(fr, f, y, v, f, y);
    assert(deep_eq(h1, v, v, h1.len()));
}

/// Reference-classified values alias: after `b = a` where `a` holds a list, a write
/// `b[i] = w` inside the list's bounds is seen through `a`: `a[i]` reads `w`.
pub proof fn law_alias_write_visible(
    fr: Seq<FrameView>,
    h: Seq<CellView>,
    f: int,
    a: Seq<char>,
    b: Seq<char>,
    i: int,
    w: Value,
)
    requires
        lookup_value(fr, f, a) matches Some(Value::Ref(cell)) && cell < h.len() && h[cell as int] is List
            && 0 <= i < h[cell as int]->List_0.len() && i <= i64::MAX,
        resolve(fr, f, b) is Some,
    ensures
        ({
            let va = lookup_value(fr, f, a)->0;
            let fr1 = assign_value(fr, f, b, va);
            let h1 = write_spec(h, lookup_value(fr1, f, b)->0, Value::Int(i as i64), w).1;
            read_spec(h1, lookup_value(fr1, f, a)->0, Value::Int(i as i64)) == Ok::<Value, crate::value::ErrorKind>(w)
        }),
{
    let va = lookup_value(fr, f, a)->0;
    lemma_assign_effect(fr, f, b, va, f, a);
    lemma_assign_effect(fr, f, b, va, f, b);
}

/// Declarations: a name declared in a frame cannot be declared there again, while a nested
/// frame may declare it anew; the nested binding is what the nested frame sees and the
/// parent's binding is left as it was.
pub proof fn law_redeclaration_and_shadowing(fr: Seq<FrameView>, p: int, c: int, x: Seq<char>, v1: Value, v2: Value)
    requires
        frames_ordered(fr),
        0 <= p < c < fr.len(),
        fr[c].parent == Some(p as usize),
        slot_of(fr[p].bindings, x) is None,
        slot_of(fr[c].bindings, x) is None,
    ensures
        ({
            let fr1 = declare_value(fr, p, x, v1);
            let fr2 = declare_value(fr1, c, x, v2);
            &&& slot_of(fr1[p].bindings, x) is Some
            &&& lookup_value(fr2, c, x) == Some(v2)
            &&& lookup_value(fr2, p, x) == Some(v1)
        }),
{
    let fr1 = declare_value(fr, p, x, v1);
    lemma_declare_effect(fr, p, x, v1, 0);
    assert(frames_ordered(fr1)) by {
        assert forall|g: int| 0 <= g < fr1.len() implies match #[trigger] fr1[g].parent {
            Some(q) => q < g,
            None => true,
        } by {
            assert(fr1[g].parent == fr[g].parent);
        }
    }
    assert(fr1[c] == fr[c]);
    lemma_declare_effect(fr1, c, x, v2, p);
}

/// A list write outside the bounds changes nothing and a read there gives null; inside the
/// bounds a read after the write gives the written value.
pub proof fn law_list_bounds(h: Seq<CellView>, cell: usize, n: i64, w: Value)
    requires
        cell < h.len(),
        h[cell as int] is List,
    ensures
        ({
            let items = h[cell as int]->List_0;
            let (r, h1) = write_spec(h, Value::Ref(cell), Value::Int(n), w);
            &&& !(0 <= n < items.len()) ==> r == Ok::<Value, crate::value::ErrorKind>(Value::Null) && h1 == h
                && read_spec(h1, Value::Ref(cell), Value::Int(n)) == Ok::<Value, crate::value::ErrorKind>(Value::Null)
            &&& (0 <= n < items.len()) ==> h1[cell as int]->List_0.len() == items.len()
                && read_spec(h1, Value::Ref(cell), Value::Int(n)) == Ok::<Value, crate::value::ErrorKind>(w)
        }),
{
}

/// A dictionary key whose equality no dictionary write can change: a value-classified value or
/// a handle to a string.
pub open spec fn simple_key(h: Seq<CellView>, v: Value) -> bool {
    match v {
        Value::Ref(i) => i < h.len() && h[i as int] is Str,
        _ => true,
    }
}

proof fn lemma_simple_keys_stable(h: Seq<CellView>, d: int, e: CellView, a: Value, b: Value)
    requires
        0 <= d < h.len(),
        h[d] is Dict,
        simple_key(h, a),
        simple_key(h, b),
    ensures
        same_value(h.update(d, e), a, b) == same_value(h, a, b),
{
    let h1 = h.update(d, e);
    match (a, b) {
        (Value::Ref(i), Value::Ref(j)) => {
            assert(h1[i as int] == h[i as int]);
            assert(h1[j as int] == h[j as int]);
            if i != j {
                let fuel = (h.len() - 1) as nat;
                assert(cells_eq(h1, h1[i as int], h1[j as int], fuel) == cells_eq(h, h[i as int], h[j as int], fuel));
            }
        },
        _ => {},
    }
}

proof fn lemma_find_stable(
    h: Seq<CellView>,
    d: int,
    e: CellView,
    entries: Seq<(Value, Value)>,
    entries1: Seq<(Value, Value)>,
    key: Value,
    s: int,
)
    requires
        0 <= d < h.len(),
        h[d] is Dict,
        simple_key(h, key),
        0 <= s,
        entries.len() <= entries1.len(),
        forall|t: int| 0 <= t < entries.len() ==> #[trigger] entries1[t].0 == entries[t].0 && simple_key(h, entries[t].0),
    ensures
        find_key_from(h, entries, key, s) is Some ==> find_key_from(h.update(d, e), entries1, key, s) == find_key_from(h, entries, key, s),
        find_key_from(h, entries, key, s) is None ==> forall|t: int| s <= t < entries.len() ==> !same_value(h.update(d, e), key, #[trigger] entries1[t].0),
    decreases entries.len() - s,
{
    if s < entries.len() {
        lemma_simple_keys_stable(h, d, e, key, entries[s].0);
        lemma_find_stable(h, d, e, entries, entries1, key, s + 1);
    }
}

proof fn lemma_find_after(h1: Seq<CellView>, entries1: Seq<(Value, Value)>, key: Value, s: int, m: int)
    requires
        0 <= s <= m < entries1.len(),
        forall|t: int| s <= t < m ==> !same_value(h1, key, #[trigger] entries1[t].0),
        same_value(h1, key, entries1[m].0),
    ensures
        find_key_from(h1, entries1, key, s) == Some(m),
    decreases m - s,
{
    if s < m {
        lemma_find_after(h1, entries1, key, s + 1, m);
    }
}

/// A dictionary write always takes: after `d[k] = w`, `d[k]` reads `w`, for keys that are
/// value-classified or strings. Reading a key that an empty dictionary lacks is an error.
pub proof fn law_dictionary_write_then_read(h: Seq<CellView>, cell: usize, k: Value, w: Value)
    requires
        cell < h.len(),
        h[cell as int] is Dict,
        simple_key(h, k),
        forall|t: int| 0 <= t < h[cell as int]->Dict_0.len() ==> simple_key(h, #[trigger] h[cell as int]->Dict_0[t].0),
    ensures
        read_spec(write_spec(h, Value::Ref(cell), k, w).1, Value::Ref(cell), k) == Ok::<Value, crate::value::ErrorKind>(w),
        h[cell as int]->Dict_0.len() == 0 ==> read_spec(h, Value::Ref(cell), k) is Err,
{
    let entries = h[cell as int]->Dict_0;
    let entries1 = dict_put(h, entries, k, w);
    let e = CellView::Dict(entries1);
    let h1 = h.update(cell as int, e);
    assert(write_spec(h, Value::Ref(cell), k, w).1 == h1);
    lemma_found_in_range(h, entries, k, 0);
    assert forall|t: int| 0 <= t < entries.len() implies #[trigger] entries1[t].0 == entries[t].0 && simple_key(h, entries[t].0) by {
    }
    lemma_find_stable(h, cell as int, e, entries, entries1, k, 0);
    match find_key(h, entries, k) {
        Some(j) => {
            lemma_found_in_range(h, entries, k, 0);
        },
        None => {
            let m = entries.len() as int;
            assert(entries1[m] == (k, w));
            assert(deep_eq(h1, k, k, h1.len()));
            lemma_find_after(h1, entries1, k, 0, m);
        },
    }
}

/// A loop whose condition is a falsy literal never runs its body: it ends at once, void, and
/// leaves the state as it was.
pub proof fn law_falsy_loop_never_runs(s: Model, cond: Expr, body: Seq<Stmt>, f: usize, d: nat)
    requires
        literal_value(cond) is Some,
        !crate::value::truthy(literal_value(cond)->0),
        d >= 2,
    ensures
        sp_while(s, cond, body, f, d) == (s, Out::Val(Value::Void)),
{
}

/// A loop whose condition is a literal never hands a `break` or a `continue` on: a `break` in
/// its body ends this loop only, and a `continue` ends only the current iteration.
pub proof fn law_loop_keeps_its_signals(s: Model, cond: Expr, body: Seq<Stmt>, f: usize, d: nat)
    requires
        literal_value(cond) is Some,
    ensures
        !(sp_while(s, cond, body, f, d).1 is Brk),
        !(sp_while(s, cond, body, f, d).1 is Cont),
{
    if d > 0 {
        lemma_while_from_keeps(s, cond, body, f, d);
    }
}

proof fn lemma_while_from_keeps(s: Model, cond: Expr, body: Seq<Stmt>, f: usize, d: nat)
    requires
        literal_value(cond) is Some,
    ensures
        !(sp_while_from(s, cond, body, f, d).1 is Brk),
        !(sp_while_from(s, cond, body, f, d).1 is Cont),
    decreases s.budget,
{
    if d > 0 {
        let (s1, o) = crate::semantics::sp_expr(s, cond, f, (d - 1) as nat);
        if let Out::Val(c) = o {
            if crate::value::truthy(c) && s1.budget != 0 {
                let mark = s1.frames.len() as int;
                let cmark = s1.closures.len() as int;
                let s2 = crate::semantics::push_mark(open_frame(Model { budget: (s1.budget - 1) as u64, ..s1 }, f), crate::eval::Context::Loop);
                let (s3, o3) = crate::semantics::sp_block(s2, body, mark as usize, (d - 1) as nat);
                let s4 = crate::semantics::close_to(crate::semantics::pop_mark(s3), mark, cmark);
                if !(o3 is Brk) && !(o3 is Ret) && !(o3 is Fail) && s4.budget < s.budget {
                    lemma_while_from_keeps(s4, cond, body, f, d);
                }
            }
        }
    }
}

/// A one-argument ranged loop `para (i, n)` with a literal `n >= 0` runs its iterations over
/// `i = 0, 1, ..., n - 1`, in order (each one as `sp_for_from` says: the body in a fresh frame
/// that binds the variable to `i`).
pub proof fn law_one_argument_range(s: Model, var: Seq<char>, arg: Expr, body: Seq<Stmt>, f: usize, line: usize, col: usize, d: nat, n: i64)
    requires
        arg.kind == ExprKind::Int(n),
        n >= 0,
        crate::env::lookup_value(s.frames, f as int, var) is None,
        d >= 2,
    ensures
        sp_for(s, var, seq![arg], body, f, line, col, d) == sp_for_from(s, var, body, f, d, n as int, 1, 0),
{
    assert(seq![arg][0] == arg);
}

/// A call never hands a signal to its caller: a `return` anywhere in the body, however deeply
/// nested in conditionals and loops, becomes the call's value, and `break` or `continue` cannot
/// leave it.
pub proof fn law_call_gives_a_value_or_an_error(s: Model, args: Seq<Expr>, c: usize, f: usize, line: usize, col: usize, d: nat)
    ensures
        sp_fn_call(s, args, c, f, line, col, d).1 is Val || sp_fn_call(s, args, c, f, line, col, d).1 is Fail,
{
    if d > 0 && c < s.closures.len() && args.len() == s.closures[c as int].def.params@.len() {
        lemma_args_then_body(s, args, 0, Seq::empty(), s.closures[c as int], f, line, col, d);
    }
}

proof fn lemma_args_then_body(s: Model, args: Seq<Expr>, k: int, acc: Seq<Value>, clo: Closure, f: usize, line: usize, col: usize, d: nat)
    ensures
        sp_fn_args_from(s, args, k, acc, clo, f, line, col, d).1 is Val || sp_fn_args_from(s, args, k, acc, clo, f, line, col, d).1 is Fail,
    decreases args.len() - k,
{
    if d > 0 && 0 <= k < args.len() {
        let (s1, o) = crate::semantics::sp_expr(s, args[k], f, (d - 1) as nat);
        if o is Val {
            lemma_args_then_body(s1, args, k + 1, acc.push(o->Val_0), clo, f, line, col, d);
        }
    } else if d > 0 {
        lemma_body_gives_a_value_or_an_error(s, acc, clo, line, col, d);
    }
}

proof fn lemma_body_gives_a_value_or_an_error(s: Model, values: Seq<Value>, clo: Closure, line: usize, col: usize, d: nat)
    ensures
        sp_fn_body(s, values, clo, line, col, d).1 is Val || sp_fn_body(s, values, clo, line, col, d).1 is Fail,
{
}

/// Assignment copies a value-classified value: after `y = x` the outcome is `x`'s value, `y`
/// holds it, and a later assignment to `x` leaves `y` as it is.
pub proof fn law_assignment_copies(s: Model, target: Expr, value: Expr, f: usize, d: nat, u: Value)
    requires
        target.kind is Ident,
        value.kind is Ident,
        target.kind->Ident_0@ != value.kind->Ident_0@,
        crate::env::lookup_value(s.frames, f as int, value.kind->Ident_0@) matches Some(v) && v.is_value_classified(),
        crate::env::resolve(s.frames, f as int, target.kind->Ident_0@) is Some,
        d >= 2,
    ensures
        ({
            let x = value.kind->Ident_0@;
            let y = target.kind->Ident_0@;
            let v = crate::env::lookup_value(s.frames, f as int, x)->0;
            let (s1, o) = sp_assign(s, target, value, f, d);
            &&& o == Out::Val(v)
            &&& crate::env::lookup_value(s1.frames, f as int, y) == Some(v)
            &&& crate::env::lookup_value(assign_value(s1.frames, f as int, x, u), f as int, y) == Some(v)
        }),
{
    let x = value.kind->Ident_0@;
    let y = target.kind->Ident_0@;
    let v = crate::env::lookup_value(s.frames, f as int, x)->0;
    assert(crate::env::lookup_value(s.frames, f as int, y) is Some);
    lemma_assign_effect(s.frames, f as int, y, v, f as int, y);
    lemma_assign_effect(s.frames, f as int, y, v, f as int, x);
    lemma_assign_effect(assign_value(s.frames, f as int, y, v), f as int, x, u, f as int, y);
}

} // verus!
