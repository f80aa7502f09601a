use vstd::prelude::*;
use vstd::string::StringExecFns;
use crate::ast::Expr;
use crate::draw::{extract_u32_from_numeric, set_alpha_on_u32, DrawCommand, DEFAULT_COLOR};
use crate::eval::{fail, flow_valid, message, Evaluator};
use crate::semantics::out;
use crate::ops::{kind_name, kind_name_of};
use crate::text::{render_i64, render_u64, signed_decimal};
use crate::heap::Heap;
use crate::value::{error_at, Builtin, Cell, CellView, ErrorKind, Flow, RunError, Value};

verus! {

/// The column an arity error points at: past the name, its parentheses and the arguments.
pub open spec fn arity_col_spec(col: usize, name_len: usize, len: usize) -> usize {
    if col + name_len + 3 + len > usize::MAX {
        usize::MAX
    } else {
        (col + name_len + 3 + len) as usize
    }
}

/// The text of an arity error: `len` arguments where `max` were expected.
pub open spec fn arity_message(max: usize, len: usize, name_len: usize, line: usize, col: usize) -> Seq<char> {
    crate::text::located_message(
        "found "@ + crate::text::decimal(len as nat) + " arguments, expected "@ + crate::text::decimal(max as nat),
        line as nat,
        arity_col_spec(col, name_len, len) as nat,
    )
}

/// The text of a type error of a builtin's argument.
pub open spec fn type_arg_message(name: Seq<char>, ty: Seq<char>, line: usize, col: usize) -> Seq<char> {
    crate::text::located_message(
        "expected a value of type "@ + name + ", not "@ + ty,
        line as nat,
        (if col + name.len() <= usize::MAX { col + name.len() } else { usize::MAX as int }) as nat,
    )
}

/// The place of the first value from `k` on that is not an integer.
pub open spec fn first_non_int(vals: Seq<Value>, k: int) -> int
    decreases vals.len() - k,
{
    if k < 0 || k >= vals.len() {
        vals.len() as int
    } else if vals[k] is Int {
        first_non_int(vals, k + 1)
    } else {
        k
    }
}

fn arity_col(col: usize, name_len: usize, len: usize) -> (r: usize)
    ensures
        r == arity_col_spec(col, name_len, len),
{
    let c = col as u128 + name_len as u128 + 3 + len as u128;
    if c > usize::MAX as u128 {
        usize::MAX
    } else {
        c as usize
    }
}

/// An arity error of a builtin named with `name_len` characters: `len` arguments where `max`
/// were expected.
pub fn missmatch_args(max: usize, len: usize, name_len: usize, line: usize, col: usize) -> (r: RunError)
    ensures
        r.kind == ErrorKind::ArityMismatch,
        r.message@ == arity_message(max, len, name_len, line, col),
{
    let mut msg = message("found ");
    msg.append(render_u64(len as u64).as_str());
    msg.append(" arguments, expected ");
    msg.append(render_u64(max as u64).as_str());
    error_at(ErrorKind::ArityMismatch, msg, line, arity_col(col, name_len, len))
}

/// A type error of a builtin's argument: `name` was expected, a value of type `obj_type` came.
pub fn missmatch_type_arg(name: &str, obj_type: &str, line: usize, col: usize) -> (r: RunError)
    ensures
        r.kind == ErrorKind::TypeMismatch,
        r.message@ == type_arg_message(name@, obj_type@, line, col),
{
    let mut msg = message("expected a value of type ");
    msg.append(name);
    msg.append(", not ");
    msg.append(obj_type);
    let n = name.unicode_len();
    let c = if col <= usize::MAX - n { col + n } else { usize::MAX };
    error_at(ErrorKind::TypeMismatch, msg, line, c)
}

/// The argument counts a builtin takes: the least and the most.
pub open spec fn arity(b: Builtin) -> (usize, usize) {
    match b {
        Builtin::Length => (1, 1),
        Builtin::TypeName => (1, 1),
        Builtin::DrawText => (4, 5),
        Builtin::DrawLine => (4, 5),
        Builtin::DrawRect => (4, 5),
        Builtin::DrawCircle => (3, 4),
        Builtin::CanvasWidth => (0, 0),
        Builtin::CanvasHeight => (0, 0),
        Builtin::KeyPressed => (1, 1),
        Builtin::Random => (2, 2),
        Builtin::ToText => (1, 1),
    }
}

/// The name under which the language knows a key: the arrow symbols stand for the arrow
/// names and `+` for `=`, which share their keys.
pub open spec fn canonical_key_spec(s: Seq<char>) -> Seq<char> {
    if s == "\u{23f7}"@ {
        "abajo"@
    } else if s == "\u{23f4}"@ {
        "izquierda"@
    } else if s == "\u{23f5}"@ {
        "derecha"@
    } else if s == "\u{23f6}"@ {
        "arriba"@
    } else if s == "+"@ {
        "="@
    } else {
        s
    }
}

/// The lowercase form of a text, as `str::to_lowercase` gives it.
pub uninterp spec fn lower_of(s: Seq<char>) -> Seq<char>;

/// Relies on `str::to_lowercase`: its result depends on the characters of the text alone.
#[verifier::external_body]
fn lowercase(s: &String) -> (r: String)
    ensures
        r@ == lower_of(s@),
{
    s.to_lowercase()
}

/// See `canonical_key_spec`.
pub fn canonical_key(s: &String) -> (r: String)
    ensures
        r@ == canonical_key_spec(s@),
{
    if crate::eval::text_is(s, "\u{23f7}") {
        message("abajo")
    } else if crate::eval::text_is(s, "\u{23f4}") {
        message("izquierda")
    } else if crate::eval::text_is(s, "\u{23f5}") {
        message("derecha")
    } else if crate::eval::text_is(s, "\u{23f6}") {
        message("arriba")
    } else if crate::eval::text_is(s, "+") {
        message("=")
    } else {
        s.clone()
    }
}

impl Evaluator {
    /// Records a drawing request.
    fn push_command(&mut self, c: DrawCommand)
        requires
            old(self).inv(),
        ensures
            old(self).evolves(&*final(self)),
            final(self).model() == (crate::semantics::Model { commands: old(self).model().commands.push(c@), ..old(self).model() }),
            final(self).heap == old(self).heap,
            final(self).command_count() == old(self).command_count() + 1,
    {
        let ghost m = self.commands@;
        self.commands.push(c);
        assert(self.commands@.map_values(|x: DrawCommand| x@) =~= m.map_values(|x: DrawCommand| x@).push(c@));
    }

    /// Whether the host reported the key `key` as held down.
    fn key_held(&self, key: &String) -> (r: bool)
        ensures
            r == exists|k: int| 0 <= k < self.pressed@.len() && (#[trigger] self.pressed@[k])@ == key@,
    {
        let mut k: usize = 0;
        while k < self.pressed.len()
            invariant
                k <= self.pressed@.len(),
                forall|j: int| 0 <= j < k ==> (#[trigger] self.pressed@[j])@ != key@,
            decreases self.pressed@.len() - k,
        {
            if self.pressed[k] == *key {
                return true;
            }
            k = k + 1;
        }
        false
    }

    fn eval_arguments(&mut self, args: &Vec<Expr>, f: usize, line: usize, col: usize, depth: u64) -> (r: Result<Vec<Value>, Flow>)
        requires
            old(self).inv(),
            f < old(self).frames().len(),
        ensures
            final(self).model() == crate::semantics::sp_args_from(old(self).model(), args@, 0, Seq::empty(), f, line, col, depth as nat).0,
            match crate::semantics::sp_args_from(old(self).model(), args@, 0, Seq::empty(), f, line, col, depth as nat).1 {
            Ok(vals) => r matches Ok(v) && v@ == vals,
            Err(o) => r matches Err(fl) && out(fl) == o,
            },
            old(self).evolves(&*final(self)),
            r matches Ok(v) ==> v@.len() == args@.len(),
            r matches Err(fl) ==> fl is Error,
        decreases depth, 2nat,
    {
        let mut values: Vec<Value> = Vec::new();
        let mut k: usize = 0;
        while k < args.len()
            invariant
                old(self).evolves(&*self),
                f < old(self).frames().len(),
                values@.len() == k,
                k <= args@.len(),
                crate::semantics::sp_args_from(old(self).model(), args@, 0, Seq::empty(), f, line, col, depth as nat)
                    == crate::semantics::sp_args_from(self.model(), args@, k as int, values@, f, line, col, depth as nat),
            decreases args@.len() - k,
        {
            match self.eval_expression_at(&args[k], f, depth) {
                Flow::Value(v) => values.push(v),
                Flow::Error(er) => {
                    return Err(Flow::Error(er));
                },
                _ => {
                    return Err(fail(ErrorKind::IllegalControlFlow, "a signal cannot leave an argument", line, col));
                },
            }
            k = k + 1;
        }
        Ok(values)
    }

    /// Checks a builtin's argument count against `lo..=hi` and evaluates the arguments in
    /// frame `f`, in order.
    fn evaluate_args(&mut self, args: &Vec<Expr>, lo: usize, hi: usize, name_len: usize, f: usize, line: usize, col: usize, depth: u64) -> (r: Result<Vec<Value>, Flow>)
        requires
            old(self).inv(),
            f < old(self).frames().len(),
        ensures
            (lo <= args@.len() <= hi) ==> final(self).model() == crate::semantics::sp_args_from(old(self).model(), args@, 0, Seq::empty(), f, line, col, depth as nat).0,
            (lo <= args@.len() <= hi) ==> match crate::semantics::sp_args_from(old(self).model(), args@, 0, Seq::empty(), f, line, col, depth as nat).1 {
            Ok(vals) => r matches Ok(v) && v@ == vals,
            Err(o) => r matches Err(fl) && out(fl) == o,
            },
            !(lo <= args@.len() <= hi) ==> final(self).model() == old(self).model()
                && (r matches Err(fl) && out(fl) == crate::semantics::Out::Fail(ErrorKind::ArityMismatch, arity_message(lo, args@.len() as usize, name_len, line, col))),
            old(self).evolves(&*final(self)),
            r matches Ok(v) ==> v@.len() == args@.len() && lo <= v@.len() <= hi,
            r matches Err(fl) ==> fl is Error,
            (args@.len() < lo || args@.len() > hi) ==> (r matches Err(fl) && (fl matches Flow::Error(e) && e.kind == ErrorKind::ArityMismatch)),
        decreases depth, 3nat,
    {
        let n = args.len();
        if n < lo || n > hi {
            return Err(Flow::Error(missmatch_args(lo, n, name_len, line, col)));
        }
        self.eval_arguments(args, f, line, col, depth)
    }

    /// Runs builtin `b` on the argument expressions, which the builtin evaluates in frame `f`
    /// itself. Each builtin checks its argument count and types and gives a value or an error.
    pub fn call_builtin(&mut self, b: Builtin, args: &Vec<Expr>, f: usize, line: usize, col: usize, depth: u64) -> (r: Flow)
        requires
            old(self).inv(),
            f < old(self).frames().len(),
        ensures
            (final(self).model(), out(r)) == crate::semantics::sp_builtin(old(self).model(), b, args@, f, line, col, depth as nat),
            old(self).evolves(&*final(self)),
            r is Value || r is Error,
            flow_valid(r, final(self).heap_view().len() as int),
            (args@.len() < arity(b).0 || args@.len() > arity(b).1) ==> (r matches Flow::Error(e) && e.kind == ErrorKind::ArityMismatch),
        decreases depth, 6nat,
    {
        match b {
            Builtin::Length => longitud(self, args, f, line, col, depth),
            Builtin::TypeName => tipo(self, args, f, line, col, depth),
            Builtin::DrawText => dibujar_texto(self, args, f, line, col, depth),
            Builtin::DrawLine => dibujar_linea(self, args, f, line, col, depth),
            Builtin::DrawRect => dibujar_rectangulo(self, args, f, line, col, depth),
            Builtin::DrawCircle => dibujar_circulo(self, args, f, line, col, depth),
            Builtin::CanvasWidth => lienzo_ancho(self, args, f, line, col, depth),
            Builtin::CanvasHeight => lienzo_altura(self, args, f, line, col, depth),
            Builtin::KeyPressed => tecla_presionada(self, args, f, line, col, depth),
            Builtin::Random => aleatorio(self, args, f, line, col, depth),
            Builtin::ToText => cadena(self, args, f, line, col, depth),
        }
    }
}

/// The length that `longitud` reports: the elements of a list, the entries of a dictionary,
/// the characters of a string.
pub open spec fn length_spec(h: Seq<CellView>, v: Value) -> Option<int> {
    match v {
        Value::Ref(i) => if i < h.len() {
            match h[i as int] {
                CellView::List(p) => Some(p.len() as int),
                CellView::Dict(d) => Some(d.len() as int),
                CellView::Str(s) => Some(s.len() as int),
            }
        } else {
            None
        },
        _ => None,
    }
}

/// The length of a string, list or dictionary (see `length_spec`); any other value is a type
/// error.
pub fn length_of(heap: &Heap, v: Value, line: usize, col: usize) -> (r: Result<Value, RunError>)
    ensures
        match length_spec(heap@, v) {
            Some(n) => r == Ok::<Value, RunError>(Value::Int(n as i64)),
            None => r matches Err(e) && e.kind == ErrorKind::TypeMismatch
                && e.message@ == type_arg_message("string, list or dictionary"@, kind_name_of(heap@, v), line, col),
        },
{
    if let Value::Ref(i) = v {
        if i < heap.len() {
            match heap.cell(i) {
                Cell::List(p) => {
                    return Ok(Value::Int(p.len() as i64));
                },
                Cell::Dict(d) => {
                    return Ok(Value::Int(d.len() as i64));
                },
                Cell::Str(s) => {
                    return Ok(Value::Int(s.as_str().unicode_len() as i64));
                },
            }
        }
    }
    Err(missmatch_type_arg("string, list or dictionary", kind_name(heap, v), line, col))
}

/// The integers among `values` from `from` on; any other value is a type error.
pub fn numbers_from(heap: &Heap, values: &Vec<Value>, from: usize, line: usize, col: usize) -> (r: Result<Vec<i64>, RunError>)
    requires
        from <= values@.len(),
    ensures
        (r is Ok) == crate::semantics::all_ints(values@, from as int),
        r matches Ok(v) ==> v@ == crate::semantics::ints_from(values@, from as int),
        r matches Err(e) ==> e.message@ == type_arg_message("number"@, kind_name_of(heap@, values@[first_non_int(values@, from as int)]), line, col),
        match r {
            Ok(v) => v@.len() == values@.len() - from && forall|k: int| 0 <= k < v@.len() ==> values@[from + k] == Value::Int(#[trigger] v@[k]),
            Err(e) => e.kind == ErrorKind::TypeMismatch && exists|k: int| from <= k < values@.len() && !(#[trigger] values@[k] is Int),
        },
{
    let mut out: Vec<i64> = Vec::new();
    let mut k = from;
    while k < values.len()
        invariant
            from <= k <= values@.len(),
            out@.len() == k - from,
            forall|j: int| 0 <= j < out@.len() ==> values@[from + j] == Value::Int(#[trigger] out@[j]),
            forall|j: int| from <= j < k ==> (#[trigger] values@[j]) is Int,
            first_non_int(values@, from as int) == first_non_int(values@, k as int),
        decreases values@.len() - k,
    {
        match values[k] {
            Value::Int(n) => out.push(n),
            v => {
                assert(!(values@[k as int] is Int));
                return Err(missmatch_type_arg("number", kind_name(heap, v), line, col));
            },
        }
        k = k + 1;
    }
    assert(out@ =~= crate::semantics::ints_from(values@, from as int)) by {
        assert forall|j: int| 0 <= j < out@.len() implies out@[j] == crate::semantics::ints_from(values@, from as int)[j] by {
            assert(values@[from + j] == Value::Int(out@[j]));
        }
    }
    Ok(out)
}

/// The colour word a script's number stands for, opaque when it gives no alpha.
pub open spec fn color_spec(n: i64) -> u32 {
    let c = n as u32;
    if c > 0xFFFFFF {
        c
    } else {
        (c * 256 + 0xFF) as u32
    }
}

fn color_from(n: i64) -> (r: u32)
    ensures
        r == color_spec(n),
{
    set_alpha_on_u32(extract_u32_from_numeric(n))
}

/// `longitud(x)`: the length of a string, list or dictionary.
pub fn longitud(eval: &mut Evaluator, args: &Vec<Expr>, f: usize, line: usize, col: usize, depth: u64) -> (r: Flow)
    requires
        old(eval).inv(),
        f < old(eval).frames().len(),
    ensures
        (final(eval).model(), out(r)) == crate::semantics::sp_builtin(old(eval).model(), Builtin::Length, args@, f, line, col, depth as nat),
        old(eval).evolves(&*final(eval)),
        r is Value || r is Error,
        flow_valid(r, final(eval).heap_view().len() as int),
        args@.len() != 1 ==> (r matches Flow::Error(e) && e.kind == ErrorKind::ArityMismatch),
    decreases depth, 4nat,
{
    let values = match eval.evaluate_args(args, 1, 1, 8, f, line, col, depth) {
        Ok(v) => v,
        Err(fl) => {
            return fl;
        },
    };
    match length_of(&eval.heap, values[0], line, col) {
        Ok(v) => Flow::Value(v),
        Err(e) => Flow::Error(e),
    }
}

/// `tipo(x)`: the name of the argument's type, as a new string.
pub fn tipo(eval: &mut Evaluator, args: &Vec<Expr>, f: usize, line: usize, col: usize, depth: u64) -> (r: Flow)
    requires
        old(eval).inv(),
        f < old(eval).frames().len(),
    ensures
        (final(eval).model(), out(r)) == crate::semantics::sp_builtin(old(eval).model(), Builtin::TypeName, args@, f, line, col, depth as nat),
        old(eval).evolves(&*final(eval)),
        r is Value || r is Error,
        flow_valid(r, final(eval).heap_view().len() as int),
        args@.len() != 1 ==> (r matches Flow::Error(e) && e.kind == ErrorKind::ArityMismatch),
    decreases depth, 4nat,
{
    let values = match eval.evaluate_args(args, 1, 1, 4, f, line, col, depth) {
        Ok(v) => v,
        Err(fl) => {
            return fl;
        },
    };
    let t = message(kind_name(&eval.heap, values[0]));
    Flow::Value(eval.store_cell(Cell::Str(t)))
}

/// `lienzo_ancho()`: the width of the drawing surface.
pub fn lienzo_ancho(eval: &mut Evaluator, args: &Vec<Expr>, f: usize, line: usize, col: usize, depth: u64) -> (r: Flow)
    requires
        old(eval).inv(),
        f < old(eval).frames().len(),
    ensures
        (final(eval).model(), out(r)) == crate::semantics::sp_builtin(old(eval).model(), Builtin::CanvasWidth, args@, f, line, col, depth as nat),
        old(eval).evolves(&*final(eval)),
        args@.len() == 0 ==> r == Flow::Value(Value::Int(old(eval).canvas_size().width)),
        args@.len() != 0 ==> (r matches Flow::Error(e) && e.kind == ErrorKind::ArityMismatch),
    decreases depth, 4nat,
{
    if args.len() != 0 {
        return Flow::Error(missmatch_args(0, args.len(), 12, line, col));
    }
    Flow::Value(Value::Int(eval.canvas.width))
}

/// `lienzo_altura()`: the height of the drawing surface.
pub fn lienzo_altura(eval: &mut Evaluator, args: &Vec<Expr>, f: usize, line: usize, col: usize, depth: u64) -> (r: Flow)
    requires
        old(eval).inv(),
        f < old(eval).frames().len(),
    ensures
        (final(eval).model(), out(r)) == crate::semantics::sp_builtin(old(eval).model(), Builtin::CanvasHeight, args@, f, line, col, depth as nat),
        old(eval).evolves(&*final(eval)),
        args@.len() == 0 ==> r == Flow::Value(Value::Int(old(eval).canvas_size().height)),
        args@.len() != 0 ==> (r matches Flow::Error(e) && e.kind == ErrorKind::ArityMismatch),
    decreases depth, 4nat,
{
    if args.len() != 0 {
        return Flow::Error(missmatch_args(0, args.len(), 13, line, col));
    }
    Flow::Value(Value::Int(eval.canvas.height))
}

/// `tecla_presionada(nombre)`: whether the host reported the named key as held down. The name is
/// compared in lowercase, after its aliases are resolved (`canonical_key`).
pub fn tecla_presionada(eval: &mut Evaluator, args: &Vec<Expr>, f: usize, line: usize, col: usize, depth: u64) -> (r: Flow)
    requires
        old(eval).inv(),
        f < old(eval).frames().len(),
    ensures
        (final(eval).model(), out(r)) == crate::semantics::sp_builtin(old(eval).model(), Builtin::KeyPressed, args@, f, line, col, depth as nat),
        old(eval).evolves(&*final(eval)),
        r is Value || r is Error,
        flow_valid(r, final(eval).heap_view().len() as int),
        args@.len() != 1 ==> (r matches Flow::Error(e) && e.kind == ErrorKind::ArityMismatch),
    decreases depth, 4nat,
{
    let values = match eval.evaluate_args(args, 1, 1, 16, f, line, col, depth) {
        Ok(v) => v,
        Err(fl) => {
            return fl;
        },
    };
    let v = values[0];
    if let Value::Ref(i) = v {
        if i < eval.heap.len() {
            if let Cell::Str(s) = eval.heap.cell(i) {
                let lowered = lowercase(s);
                let key = canonical_key(&lowered);
                return Flow::Value(Value::Bool(eval.key_held(&key)));
            }
        }
    }
    Flow::Error(missmatch_type_arg("string", kind_name(&eval.heap, v), line, col))
}

/// `aleatorio(a, b)`: a pseudorandom integer in `a..b`.
pub fn aleatorio(eval: &mut Evaluator, args: &Vec<Expr>, f: usize, line: usize, col: usize, depth: u64) -> (r: Flow)
    requires
        old(eval).inv(),
        f < old(eval).frames().len(),
    ensures
        (final(eval).model(), out(r)) == crate::semantics::sp_builtin(old(eval).model(), Builtin::Random, args@, f, line, col, depth as nat),
        old(eval).evolves(&*final(eval)),
        r is Value || r is Error,
        flow_valid(r, final(eval).heap_view().len() as int),
        args@.len() != 2 ==> (r matches Flow::Error(e) && e.kind == ErrorKind::ArityMismatch),
    decreases depth, 4nat,
{
    let values = match eval.evaluate_args(args, 2, 2, 9, f, line, col, depth) {
        Ok(v) => v,
        Err(fl) => {
            return fl;
        },
    };
    let nums = match numbers_from(&eval.heap, &values, 0, line, col) {
        Ok(v) => v,
        Err(er) => {
            return Flow::Error(er);
        },
    };
    let (a, z) = (nums[0], nums[1]);
    if a < z && (z as i128) - (a as i128) <= i64::MAX as i128 {
        Flow::Value(Value::Int(eval.rng.rand_range_i64(a, z)))
    } else {
        fail(ErrorKind::InvalidRange, "a random range needs a lower bound below its upper bound", line, col)
    }
}

/// `dibujar_texto(texto, x, y, tamano[, color])`: asks the host to draw a text.
pub fn dibujar_texto(eval: &mut Evaluator, args: &Vec<Expr>, f: usize, line: usize, col: usize, depth: u64) -> (r: Flow)
    requires
        old(eval).inv(),
        f < old(eval).frames().len(),
    ensures
        (final(eval).model(), out(r)) == crate::semantics::sp_builtin(old(eval).model(), Builtin::DrawText, args@, f, line, col, depth as nat),
        old(eval).evolves(&*final(eval)),
        r is Value || r is Error,
        flow_valid(r, final(eval).heap_view().len() as int),
        (args@.len() < 4 || args@.len() > 5) ==> (r matches Flow::Error(e) && e.kind == ErrorKind::ArityMismatch),
        r is Value ==> r == Flow::Value(Value::Void) && final(eval).command_count() > old(eval).command_count(),
    decreases depth, 4nat,
{
    let values = match eval.evaluate_args(args, 4, 5, 13, f, line, col, depth) {
        Ok(v) => v,
        Err(fl) => {
            return fl;
        },
    };
    let text = match values[0] {
        Value::Ref(i) => {
            if i < eval.heap.len() {
                match eval.heap.cell(i) {
                    Cell::Str(s) => s.clone(),
                    _ => {
                        return Flow::Error(missmatch_type_arg("string", kind_name(&eval.heap, values[0]), line, col));
                    },
                }
            } else {
                return Flow::Error(missmatch_type_arg("string", kind_name(&eval.heap, values[0]), line, col));
            }
        },
        v => {
            return Flow::Error(missmatch_type_arg("string", kind_name(&eval.heap, v), line, col));
        },
    };
    let nums = match numbers_from(&eval.heap, &values, 1, line, col) {
        Ok(v) => v,
        Err(er) => {
            return Flow::Error(er);
        },
    };
    let color = color_from(if nums.len() == 4 { nums[3] } else { DEFAULT_COLOR });
    eval.push_command(DrawCommand::Text { text, x: nums[0], y: nums[1], size: nums[2], color });
    Flow::Value(Value::Void)
}

/// The shape a drawing builtin asks for, from its integer arguments: a line from two points,
/// a rectangle from a corner and a size, a circle from a centre and a radius. The colour is
/// the last argument when it is given, opaque white when not.
pub open spec fn shape_spec(b: Builtin, nums: Seq<i64>) -> DrawCommand {
    let given: int = if b == Builtin::DrawCircle { 3 } else { 4 };
    let color = color_spec(if nums.len() > given { nums[given] } else { DEFAULT_COLOR });
    match b {
        Builtin::DrawLine => DrawCommand::Line { x1: nums[0], y1: nums[1], x2: nums[2], y2: nums[3], color },
        Builtin::DrawRect => DrawCommand::Rect { x: nums[0], y: nums[1], width: nums[2], height: nums[3], color },
        _ => DrawCommand::Circle { x: nums[0], y: nums[1], radius: nums[2], color },
    }
}

/// Builds the shape of a drawing builtin (see `shape_spec`).
pub fn shape_command(b: Builtin, nums: &Vec<i64>) -> (r: DrawCommand)
    requires
        nums@.len() >= if b == Builtin::DrawCircle { 3int } else { 4int },
    ensures
        r == shape_spec(b, nums@),
{
    let given: usize = if b == Builtin::DrawCircle { 3 } else { 4 };
    let color = color_from(if nums.len() > given { nums[given] } else { DEFAULT_COLOR });
    match b {
        Builtin::DrawLine => DrawCommand::Line { x1: nums[0], y1: nums[1], x2: nums[2], y2: nums[3], color },
        Builtin::DrawRect => DrawCommand::Rect { x: nums[0], y: nums[1], width: nums[2], height: nums[3], color },
        _ => DrawCommand::Circle { x: nums[0], y: nums[1], radius: nums[2], color },
    }
}

fn draw_shape(eval: &mut Evaluator, b: Builtin, args: &Vec<Expr>, lo: usize, name_len: usize, f: usize, line: usize, col: usize, depth: u64) -> (r: Flow)
    requires
        old(eval).inv(),
        f < old(eval).frames().len(),
        lo == if b == Builtin::DrawCircle { 3usize } else { 4usize },
        b == Builtin::DrawLine || b == Builtin::DrawRect || b == Builtin::DrawCircle,
        name_len == crate::semantics::name_len(b),
    ensures
        (final(eval).model(), out(r)) == crate::semantics::sp_builtin(old(eval).model(), b, args@, f, line, col, depth as nat),
        old(eval).evolves(&*final(eval)),
        r is Value || r is Error,
        flow_valid(r, final(eval).heap_view().len() as int),
        (args@.len() < lo || args@.len() > lo + 1) ==> (r matches Flow::Error(e) && e.kind == ErrorKind::ArityMismatch),
        r is Value ==> r == Flow::Value(Value::Void) && final(eval).command_count() > old(eval).command_count(),
    decreases depth, 4nat,
{
    let values = match eval.evaluate_args(args, lo, lo + 1, name_len, f, line, col, depth) {
        Ok(v) => v,
        Err(fl) => {
            return fl;
        },
    };
    let nums = match numbers_from(&eval.heap, &values, 0, line, col) {
        Ok(v) => v,
        Err(er) => {
            return Flow::Error(er);
        },
    };
    eval.push_command(shape_command(b, &nums));
    Flow::Value(Value::Void)
}

/// `dibujar_linea(x1, y1, x2, y2[, color])`: asks the host to draw a line.
pub fn dibujar_linea(eval: &mut Evaluator, args: &Vec<Expr>, f: usize, line: usize, col: usize, depth: u64) -> (r: Flow)
    requires
        old(eval).inv(),
        f < old(eval).frames().len(),
    ensures
        (final(eval).model(), out(r)) == crate::semantics::sp_builtin(old(eval).model(), Builtin::DrawLine, args@, f, line, col, depth as nat),
        old(eval).evolves(&*final(eval)),
        r is Value || r is Error,
        flow_valid(r, final(eval).heap_view().len() as int),
        (args@.len() < 4 || args@.len() > 5) ==> (r matches Flow::Error(e) && e.kind == ErrorKind::ArityMismatch),
        r is Value ==> r == Flow::Value(Value::Void) && final(eval).command_count() > old(eval).command_count(),
    decreases depth, 5nat,
{
    draw_shape(eval, Builtin::DrawLine, args, 4, 13, f, line, col, depth)
}

/// `dibujar_rectangulo(x, y, ancho, alto[, color])`: asks the host to draw a filled rectangle.
pub fn dibujar_rectangulo(eval: &mut Evaluator, args: &Vec<Expr>, f: usize, line: usize, col: usize, depth: u64) -> (r: Flow)
    requires
        old(eval).inv(),
        f < old(eval).frames().len(),
    ensures
        (final(eval).model(), out(r)) == crate::semantics::sp_builtin(old(eval).model(), Builtin::DrawRect, args@, f, line, col, depth as nat),
        old(eval).evolves(&*final(eval)),
        r is Value || r is Error,
        flow_valid(r, final(eval).heap_view().len() as int),
        (args@.len() < 4 || args@.len() > 5) ==> (r matches Flow::Error(e) && e.kind == ErrorKind::ArityMismatch),
        r is Value ==> r == Flow::Value(Value::Void) && final(eval).command_count() > old(eval).command_count(),
    decreases depth, 5nat,
{
    draw_shape(eval, Builtin::DrawRect, args, 4, 18, f, line, col, depth)
}

/// `dibujar_circulo(x, y, radio[, color])`: asks the host to draw a filled circle.
pub fn dibujar_circulo(eval: &mut Evaluator, args: &Vec<Expr>, f: usize, line: usize, col: usize, depth: u64) -> (r: Flow)
    requires
        old(eval).inv(),
        f < old(eval).frames().len(),
    ensures
        (final(eval).model(), out(r)) == crate::semantics::sp_builtin(old(eval).model(), Builtin::DrawCircle, args@, f, line, col, depth as nat),
        old(eval).evolves(&*final(eval)),
        r is Value || r is Error,
        flow_valid(r, final(eval).heap_view().len() as int),
        (args@.len() < 3 || args@.len() > 4) ==> (r matches Flow::Error(e) && e.kind == ErrorKind::ArityMismatch),
        r is Value ==> r == Flow::Value(Value::Void) && final(eval).command_count() > old(eval).command_count(),
    decreases depth, 5nat,
{
    draw_shape(eval, Builtin::DrawCircle, args, 3, 15, f, line, col, depth)
}

/// The text `cadena` makes of a value: the decimal digits of an integer, the text of a string,
/// `true`, `false`, `null` and `void`, and the type's name for lists, dictionaries and functions.
pub open spec fn text_spec(h: Seq<CellView>, v: Value) -> Seq<char> {
    match v {
        Value::Int(n) => signed_decimal(n as int),
        Value::Bool(b) => if b { "true"@ } else { "false"@ },
        Value::Null => "null"@,
        Value::Void => "void"@,
        Value::Ref(i) => if i < h.len() && h[i as int] is Str {
            h[i as int]->Str_0
        } else {
            kind_name_of(h, v)
        },
        _ => kind_name_of(h, v),
    }
}

/// See `text_spec`.
pub fn text_of(heap: &Heap, v: Value) -> (r: String)
    ensures
        r@ == text_spec(heap@, v),
{
    match v {
        Value::Int(n) => render_i64(n),
        Value::Bool(b) => if b { message("true") } else { message("false") },
        Value::Null => message("null"),
        Value::Void => message("void"),
        Value::Ref(i) => {
            if i < heap.len() {
                if let Cell::Str(s) = heap.cell(i) {
                    return s.clone();
                }
            }
            message(kind_name(heap, v))
        },
        _ => message(kind_name(heap, v)),
    }
}

/// `cadena(x)`: the argument as text (see `text_spec`), as a new string.
pub fn cadena(eval: &mut Evaluator, args: &Vec<Expr>, f: usize, line: usize, col: usize, depth: u64) -> (r: Flow)
    requires
        old(eval).inv(),
        f < old(eval).frames().len(),
    ensures
        (final(eval).model(), out(r)) == crate::semantics::sp_builtin(old(eval).model(), Builtin::ToText, args@, f, line, col, depth as nat),
        old(eval).evolves(&*final(eval)),
        r is Value || r is Error,
        flow_valid(r, final(eval).heap_view().len() as int),
        args@.len() != 1 ==> (r matches Flow::Error(e) && e.kind == ErrorKind::ArityMismatch),
    decreases depth, 4nat,
{
    let values = match eval.evaluate_args(args, 1, 1, 6, f, line, col, depth) {
        Ok(v) => v,
        Err(fl) => {
            return fl;
        },
    };
    let t = text_of(&eval.heap, values[0]);
    Flow::Value(eval.store_cell(Cell::Str(t)))
}

} // verus!
