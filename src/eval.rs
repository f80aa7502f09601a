use std::rc::Rc;
use vstd::prelude::*;
use vstd::string::StringExecFns;
use crate::access::{index_read, index_write, write_spec};
use crate::ast::{Expr, ExprKind, FnDef, Stmt};
use crate::draw::{CanvasSize, DrawCommand};
use crate::env::Scopes;
use crate::heap::Heap;
use crate::ops::{binop, prefix};
use crate::rng::Rng;
use crate::text::render_u64;
use crate::value::{error_at, is_truthy, Builtin, Cell, ErrorKind, Flow, RunError, Value};
use crate::semantics::{Model, Out, out};
use crate::value::CellView;

pub mod natives;

verus! {

/// The kind of construct being evaluated. Markers are pushed on entering a conditional
/// branch, a function body or a loop body and popped on leaving it; they decide where
/// `return`, `break` and `continue` are allowed.
#[derive(Clone, Copy, PartialEq, Eq, Structural, Debug)]
pub enum Context {
    Global,
    If,
    Fn,
    Loop,
}

/// Whether a loop is open without a function boundary between it and the innermost marker:
/// where `break` and `continue` are allowed.
pub open spec fn loop_open(s: Seq<Context>) -> bool
    decreases s.len(),
{
    if s.len() == 0 {
        false
    } else if s.last() == Context::Loop {
        true
    } else if s.last() == Context::Fn {
        false
    } else {
        loop_open(s.drop_last())
    }
}

/// Whether a function body is being evaluated: where `return` is allowed.
pub open spec fn in_function(s: Seq<Context>) -> bool
    decreases s.len(),
{
    if s.len() == 0 {
        false
    } else {
        s.last() == Context::Fn || in_function(s.drop_last())
    }
}

/// A signal leaves a construct only toward a marker that takes it: `break` and `continue`
/// toward an open loop, `return` toward a function.
pub open spec fn flow_fits(fl: Flow, s: Seq<Context>) -> bool {
    &&& (fl is Break || fl is Continue) ==> loop_open(s)
    &&& fl is Return ==> in_function(s)
}

/// Whether the value an outcome carries names an existing cell, if it is a handle.
pub open spec fn flow_valid(fl: Flow, n: int) -> bool {
    match fl {
        Flow::Value(v) => crate::heap::handle_below(v, n),
        Flow::Return(v) => crate::heap::handle_below(v, n),
        _ => true,
    }
}

/// How deep evaluation may nest (expressions, blocks and calls together).
pub const MAX_DEPTH: u64 = 800;

/// How many loop iterations one evaluation of a program may run unless the host sets another
/// budget.
pub const DEFAULT_LOOP_BUDGET: u64 = 10_000_000;

/// The name under which a program defines the function that the host runs once per tick.
pub const LOOP_FN_NAME: &'static str = "Bucle";

/// The value of a literal expression (an integer, a boolean or null), if `e` is one.
pub open spec fn literal_value(e: Expr) -> Option<Value> {
    match e.kind {
        ExprKind::Int(n) => Some(Value::Int(n)),
        ExprKind::Bool(b) => Some(Value::Bool(b)),
        ExprKind::Null => Some(Value::Null),
        _ => None,
    }
}

/// Whether `e` is a loop whose condition is a falsy literal.
pub open spec fn falsy_literal_loop(e: Expr) -> bool {
    e.kind is While && literal_value(*e.kind->While_condition) is Some && !crate::value::truthy(literal_value(*e.kind->While_condition)->0)
}

/// The name a statement declares in its frame, if it is a declaration.
pub open spec fn declares(s: Stmt) -> Option<Seq<char>> {
    match s {
        Stmt::Var { name, .. } => Some(name@),
        Stmt::Fn { name, .. } => Some(name@),
        _ => None,
    }
}

/// Whether a statement defines the per-tick loop function.
pub open spec fn is_loop_fn(s: Stmt) -> bool {
    s matches Stmt::Fn { name, .. } && name@ == "Bucle"@
}

/// The place of the first loop-function definition among `s` from `start` on.
pub open spec fn loop_fn_from(s: Seq<Stmt>, start: int) -> Option<int>
    decreases s.len() - start,
{
    if start < 0 || start >= s.len() {
        None
    } else if is_loop_fn(s[start]) {
        Some(start)
    } else {
        loop_fn_from(s, start + 1)
    }
}

/// The builtins an evaluator starts with, by name.
pub open spec fn standard_natives() -> Seq<(Seq<char>, Builtin)> {
    seq![
        ("longitud"@, Builtin::Length),
        ("tipo"@, Builtin::TypeName),
        ("dibujar_texto"@, Builtin::DrawText),
        ("dibujar_linea"@, Builtin::DrawLine),
        ("dibujar_rectangulo"@, Builtin::DrawRect),
        ("dibujar_circulo"@, Builtin::DrawCircle),
        ("lienzo_ancho"@, Builtin::CanvasWidth),
        ("lienzo_altura"@, Builtin::CanvasHeight),
        ("tecla_presionada"@, Builtin::KeyPressed),
        ("aleatorio"@, Builtin::Random),
        ("cadena"@, Builtin::ToText),
    ]
}

/// A function value's record: its definition and the environment it captured.
pub struct Closure {
    pub def: Rc<FnDef>,
    pub env: usize,
}

/// The evaluator: the heap, the scope chain, the closures, the builtin registry and the
/// context markers of one running program.
pub struct Evaluator {
    heap: Heap,
    scopes: Scopes,
    closures: Vec<Closure>,
    natives: Vec<(String, Builtin)>,
    stack_ctx: Vec<Context>,
    canvas: CanvasSize,
    commands: Vec<DrawCommand>,
    pressed: Vec<String>,
    rng: Rng,
    budget: u64,
    loop_budget: u64,
}

/// The bound of a ranged loop, from its first argument `begin` and its `end` and `step` (0 and
/// 1 when they were not given): `end` when it is not zero, else `begin`. Negative values and a
/// zero step are range errors; a first argument that is not an integer is a type error.
pub open spec fn range_bound(begin: Value, end: i64, step: i64) -> Result<i64, ErrorKind> {
    if end < 0 || step < 0 || step == 0 {
        Err(ErrorKind::InvalidRange)
    } else {
        match begin {
            Value::Int(b) => if b < 0 {
                Err(ErrorKind::InvalidRange)
            } else if end != 0 {
                Ok(end)
            } else {
                Ok(b)
            },
            _ => Err(ErrorKind::TypeMismatch),
        }
    }
}

/// See `range_bound`.
pub fn range_plan(begin: Value, end: i64, step: i64) -> (r: Result<i64, ErrorKind>)
    ensures
        r == range_bound(begin, end, step),
{
    if end < 0 || step < 0 || step == 0 {
        return Err(ErrorKind::InvalidRange);
    }
    match begin {
        Value::Int(b) => {
            if b < 0 {
                Err(ErrorKind::InvalidRange)
            } else if end != 0 {
                Ok(end)
            } else {
                Ok(b)
            }
        },
        _ => Err(ErrorKind::TypeMismatch),
    }
}

fn message(text: &str) -> (r: String)
    ensures
        r@ == text@,
{
    String::from_str(text)
}

fn fail(kind: ErrorKind, text: &str, line: usize, col: usize) -> (r: Flow)
    ensures
        r matches Flow::Error(e) && e.kind == kind,
        out(r) == Out::Fail(kind, crate::semantics::loc(text@, line, col)),
{
    Flow::Error(error_at(kind, message(text), line, col))
}

fn fail_named(kind: ErrorKind, before: &str, name: &String, after: &str, line: usize, col: usize) -> (r: Flow)
    ensures
        r matches Flow::Error(e) && e.kind == kind,
        out(r) == Out::Fail(kind, crate::semantics::loc(before@ + name@ + after@, line, col)),
{
    let mut m = message(before);
    m.append(name.as_str());
    m.append(after);
    Flow::Error(error_at(kind, m, line, col))
}

/// Whether the text of `s` is `lit`.
pub fn text_is(s: &String, lit: &str) -> (r: bool)
    ensures
        r == (s@ == lit@),
{
    let n = s.as_str().unicode_len();
    let m = lit.unicode_len();
    if n != m {
        return false;
    }
    let mut k: usize = 0;
    while k < n
        invariant
            n == s@.len() == lit@.len(),
            k <= n,
            forall|j: int| 0 <= j < k ==> s@[j] == lit@[j],
        decreases n - k,
    {
        if s.as_str().get_char(k) != lit.get_char(k) {
            return false;
        }
        k = k + 1;
    }
    assert(s@ =~= lit@);
    true
}

impl Evaluator {
    /// The whole state as mathematical values.
    pub closed spec fn model(&self) -> Model {
        Model {
            heap: self.heap@,
            frames: self.scopes@,
            closures: self.closures@,
            natives: self.natives@,
            stack: self.stack_ctx@,
            budget: self.budget,
            loop_budget: self.loop_budget,
            canvas: self.canvas,
            commands: self.commands@.map_values(|c: DrawCommand| c@),
            pressed: self.pressed@,
            rng: self.rng.state(),
        }
    }

    /// The cells of the heap.
    pub closed spec fn heap_view(&self) -> Seq<crate::value::CellView> {
        self.heap@
    }

    /// The frames of the scope chain.
    pub closed spec fn frames(&self) -> Seq<crate::env::FrameView> {
        self.scopes@
    }

    /// The number of parameters of closure `c`.
    pub closed spec fn closure_arity(&self, c: int) -> nat {
        self.closures@[c].def.params@.len()
    }

    /// The frame that closure `c` captured.
    pub closed spec fn closure_env(&self, c: int) -> usize {
        self.closures@[c].env
    }

    /// The number of closures made so far.
    pub closed spec fn closure_count(&self) -> nat {
        self.closures@.len()
    }

    /// The drawing surface.
    pub closed spec fn canvas_size(&self) -> CanvasSize {
        self.canvas
    }

    /// The number of drawing requests not yet handed over.
    pub closed spec fn command_count(&self) -> nat {
        self.commands@.len()
    }

    /// The context markers, innermost last.
    pub closed spec fn contexts(&self) -> Seq<Context> {
        self.stack_ctx@
    }

    /// The evaluator is well formed: every frame's parent was opened before it, every handle
    /// held by a binding or a cell names an existing cell, and every closure's captured frame
    /// exists.
    pub closed spec fn inv(&self) -> bool {
        &&& self.scopes.wf()
        &&& crate::env::bindings_below(self.scopes@, self.heap@.len() as int)
        &&& crate::heap::heap_closed(self.heap@)
        &&& forall|c: int| 0 <= c < self.closures@.len() ==> (#[trigger] self.closures@[c]).env < self.scopes@.len()
    }

    /// How an evaluation step leaves the evaluator: still well formed, no frame below the
    /// starting count dropped, no bound name unbound, no closure changed, no drawing request lost, the markers as they
    /// were and the loop budget not grown.
    pub closed spec fn evolves(&self, next: &Evaluator) -> bool {
        &&& next.inv()
        &&& next.scopes@.len() >= self.scopes@.len()
        &&& crate::env::names_kept(self.scopes@, next.scopes@)
        &&& next.heap@.len() >= self.heap@.len()
        &&& next.closures@.len() >= self.closures@.len()
        &&& next.commands@.len() >= self.commands@.len()
        &&& forall|c: int| 0 <= c < self.closures@.len() ==> #[trigger] next.closures@[c] == self.closures@[c]
        &&& next.stack_ctx@ == self.stack_ctx@
        &&& next.budget <= self.budget
    }

    /// A new evaluator over a surface of the given size, with an empty global frame (index 0),
    /// the standard builtins and a generator seeded with `seed`.
    pub fn new(width: i64, height: i64, top: i64, seed: u64) -> (r: Evaluator)
        ensures
            r.inv(),
            r.frames().len() == 1,
            r.frames()[0].bindings.len() == 0,
            r.frames()[0].parent is None,
            r.contexts() == seq![Context::Global],
            r.heap_view().len() == 0,
            r.canvas_size() == (CanvasSize { top, width, height }),
            r.command_count() == 0,
            r.model().natives.map_values(|e: (String, Builtin)| (e.0@, e.1)) == standard_natives(),
            r.model().rng == (crate::rng::spread_seed(seed) ^ 0xf4dbdf2183dcefb7u64, crate::rng::spread_seed(seed) ^ 0x1ad5be0d6dd28e9bu64),
            r.model().closures.len() == 0,
            r.model().pressed.len() == 0,
            r.model().budget == DEFAULT_LOOP_BUDGET,
            r.model().loop_budget == DEFAULT_LOOP_BUDGET,
    {
        let mut scopes = Scopes::new();
        scopes.open(None);
        let mut natives: Vec<(String, Builtin)> = Vec::new();
        natives.push((message("longitud"), Builtin::Length));
        natives.push((message("tipo"), Builtin::TypeName));
        natives.push((message("dibujar_texto"), Builtin::DrawText));
        natives.push((message("dibujar_linea"), Builtin::DrawLine));
        natives.push((message("dibujar_rectangulo"), Builtin::DrawRect));
        natives.push((message("dibujar_circulo"), Builtin::DrawCircle));
        natives.push((message("lienzo_ancho"), Builtin::CanvasWidth));
        natives.push((message("lienzo_altura"), Builtin::CanvasHeight));
        natives.push((message("tecla_presionada"), Builtin::KeyPressed));
        natives.push((message("aleatorio"), Builtin::Random));
        natives.push((message("cadena"), Builtin::ToText));
        let mut stack_ctx: Vec<Context> = Vec::new();
        stack_ctx.push(Context::Global);
        assert(stack_ctx@ =~= seq![Context::Global]);
        assert(natives@.map_values(|e: (String, Builtin)| (e.0@, e.1)) =~= standard_natives());
        Evaluator {
            heap: Heap::new(),
            scopes,
            closures: Vec::new(),
            natives,
            stack_ctx,
            canvas: CanvasSize { top, width, height },
            commands: Vec::new(),
            pressed: Vec::new(),
            rng: Rng::new(seed),
            budget: DEFAULT_LOOP_BUDGET,
            loop_budget: DEFAULT_LOOP_BUDGET,
        }
    }

    /// The global frame.
    pub fn root(&self) -> (r: usize)
        ensures
            r == 0,
    {
        0
    }

    /// The number of frames opened so far.
    pub fn frame_count(&self) -> (r: usize)
        ensures
            r == self.frames().len(),
    {
        self.scopes.len()
    }

    /// Opens a fresh frame under `parent`, as the host does for each tick's locals.
    pub fn open_frame(&mut self, parent: usize) -> (r: usize)
        requires
            old(self).inv(),
            parent < old(self).frames().len(),
        ensures
            final(self).inv(),
            r == old(self).frames().len(),
            final(self).frames() == old(self).frames().push(
                crate::env::FrameView { bindings: Seq::empty(), parent: Some(parent) },
            ),
            final(self).contexts() == old(self).contexts(),
    {
        self.open_child(parent)
    }

    /// The heap, to read the values a program left.
    pub fn heap(&self) -> (r: &Heap)
        ensures
            r@ == self.heap_view(),
    {
        &self.heap
    }

    /// The value of `name` as seen from frame `f`.
    pub fn lookup(&self, f: usize, name: &String) -> (r: Option<Value>)
        requires
            self.inv(),
            f < self.frames().len(),
        ensures
            r == crate::env::lookup_value(self.frames(), f as int, name@),
    {
        self.scopes.lookup(f, name)
    }

    /// Sets the size and offset of the drawing surface.
    pub fn set_canvas(&mut self, canvas: CanvasSize)
        requires
            old(self).inv(),
        ensures
            final(self).inv(),
            final(self).model() == (Model { canvas, ..old(self).model() }),
            final(self).canvas_size() == canvas,
            final(self).frames() == old(self).frames(),
            final(self).heap_view() == old(self).heap_view(),
            final(self).contexts() == old(self).contexts(),
    {
        self.canvas = canvas;
    }

    /// Sets the keys held down, by the names that `tecla_presionada` takes.
    pub fn set_pressed_keys(&mut self, keys: Vec<String>)
        requires
            old(self).inv(),
        ensures
            final(self).inv(),
            final(self).model() == (Model { pressed: keys@, ..old(self).model() }),
            final(self).frames() == old(self).frames(),
            final(self).heap_view() == old(self).heap_view(),
            final(self).contexts() == old(self).contexts(),
    {
        self.pressed = keys;
    }

    /// Sets how many loop iterations each later evaluation of a program may run.
    pub fn set_loop_budget(&mut self, n: u64)
        requires
            old(self).inv(),
        ensures
            final(self).inv(),
            final(self).model() == (Model { loop_budget: n, ..old(self).model() }),
            final(self).frames() == old(self).frames(),
            final(self).heap_view() == old(self).heap_view(),
            final(self).contexts() == old(self).contexts(),
    {
        self.loop_budget = n;
    }

    /// Hands over the drawing requests made since the last call.
    pub fn take_commands(&mut self) -> (r: Vec<DrawCommand>)
        requires
            old(self).inv(),
        ensures
            final(self).inv(),
            r@.len() == old(self).command_count(),
            final(self).command_count() == 0,
            r@.map_values(|c: DrawCommand| c@) == old(self).model().commands,
            final(self).model() == (Model { commands: Seq::empty(), ..old(self).model() }),
            final(self).frames() == old(self).frames(),
            final(self).heap_view() == old(self).heap_view(),
            final(self).contexts() == old(self).contexts(),
    {
        let mut out: Vec<DrawCommand> = Vec::new();
        std::mem::swap(&mut out, &mut self.commands);
        assert(self.commands@.map_values(|c: DrawCommand| c@) =~= Seq::<crate::draw::DrawView>::empty());
        out
    }

    /// Whether the outcome is an error.
    pub fn is_error(&self, fl: &Flow) -> (r: bool)
        ensures
            r == fl is Error,
    {
        match fl {
            Flow::Error(_) => true,
            _ => false,
        }
    }

    fn check_loop_open(&self) -> (r: bool)
        ensures
            r == loop_open(self.stack_ctx@),
    {
        let mut k = self.stack_ctx.len();
        assert(self.stack_ctx@.subrange(0, k as int) =~= self.stack_ctx@);
        while k > 0
            invariant
                k <= self.stack_ctx@.len(),
                loop_open(self.stack_ctx@) == loop_open(self.stack_ctx@.subrange(0, k as int)),
            decreases k,
        {
            let ghost s = self.stack_ctx@.subrange(0, k as int);
            assert(s.drop_last() =~= self.stack_ctx@.subrange(0, k - 1));
            let c = self.stack_ctx[k - 1];
            if c == Context::Loop {
                return true;
            }
            if c == Context::Fn {
                return false;
            }
            k = k - 1;
        }
        false
    }

    fn check_in_function(&self) -> (r: bool)
        ensures
            r == in_function(self.stack_ctx@),
    {
        let mut k = self.stack_ctx.len();
        assert(self.stack_ctx@.subrange(0, k as int) =~= self.stack_ctx@);
        while k > 0
            invariant
                k <= self.stack_ctx@.len(),
                in_function(self.stack_ctx@) == in_function(self.stack_ctx@.subrange(0, k as int)),
            decreases k,
        {
            let ghost s = self.stack_ctx@.subrange(0, k as int);
            assert(s.drop_last() =~= self.stack_ctx@.subrange(0, k - 1));
            if self.stack_ctx[k - 1] == Context::Fn {
                return true;
            }
            k = k - 1;
        }
        false
    }

    proof fn lemma_push_transparent(s: Seq<Context>)
        ensures
            loop_open(s.push(Context::If)) == loop_open(s),
            in_function(s.push(Context::If)) == in_function(s),
            !loop_open(s.push(Context::Fn)),
            in_function(s.push(Context::Fn)),
            loop_open(s.push(Context::Loop)),
            in_function(s.push(Context::Loop)) == in_function(s),
    {
        assert(s.push(Context::If).drop_last() =~= s);
        assert(s.push(Context::Loop).drop_last() =~= s);
    }

    fn push_ctx(&mut self, c: Context)
        ensures
            final(self).stack_ctx@ == old(self).stack_ctx@.push(c),
            final(self).scopes == old(self).scopes,
            final(self).budget == old(self).budget,
            final(self).heap == old(self).heap,
            final(self).closures == old(self).closures,
            final(self).commands == old(self).commands,
            final(self).model() == crate::semantics::push_mark(old(self).model(), c),
    {
        self.stack_ctx.push(c);
    }

    fn pop_ctx(&mut self)
        requires
            old(self).stack_ctx@.len() > 0,
        ensures
            final(self).stack_ctx@ == old(self).stack_ctx@.drop_last(),
            final(self).scopes == old(self).scopes,
            final(self).budget == old(self).budget,
            final(self).heap == old(self).heap,
            final(self).closures == old(self).closures,
            final(self).commands == old(self).commands,
            final(self).model() == crate::semantics::pop_mark(old(self).model()),
    {
        self.stack_ctx.pop();
    }

    /// Opens a fresh frame under `parent`.
    fn open_child(&mut self, parent: usize) -> (r: usize)
        requires
            old(self).inv(),
            parent < old(self).scopes@.len(),
        ensures
            final(self).inv(),
            r == old(self).scopes@.len(),
            final(self).scopes@ == old(self).scopes@.push(crate::env::FrameView { bindings: Seq::empty(), parent: Some(parent) }),
            final(self).heap == old(self).heap,
            final(self).closures == old(self).closures,
            final(self).commands == old(self).commands,
            final(self).stack_ctx == old(self).stack_ctx,
            final(self).budget == old(self).budget,
            crate::env::names_kept(old(self).scopes@, final(self).scopes@),
            final(self).model() == crate::semantics::open_frame(old(self).model(), parent),
    {
        proof {
            crate::env::lemma_frames_change_below(self.scopes@, Some(parent), 0, self.heap@.len() as int);
            crate::env::lemma_names_kept(self.scopes@, 0, Seq::empty(), Value::Null, Some(parent));
        }
        self.scopes.open(Some(parent))
    }

    /// Binds `name` to `v` in frame `f` (see `Scopes::declare`).
    fn declare_in(&mut self, f: usize, name: &String, v: Value) -> (r: bool)
        requires
            old(self).inv(),
            f < old(self).scopes@.len(),
            crate::heap::handle_below(v, old(self).heap@.len() as int),
        ensures
            old(self).evolves(&*final(self)),
            final(self).scopes@.len() == old(self).scopes@.len(),
            final(self).heap == old(self).heap,
            final(self).closures == old(self).closures,
            final(self).commands == old(self).commands,
            final(self).stack_ctx == old(self).stack_ctx,
            r == crate::env::slot_of(old(self).scopes@[f as int].bindings, name@) is None,
            r ==> crate::env::binds(final(self).scopes@, f as int, name@),
            r ==> crate::env::lookup_value(final(self).scopes@, f as int, name@) == Some(v),
            r ==> final(self).model() == (Model { frames: crate::env::declare_value(old(self).scopes@, f as int, name@, v), ..old(self).model() }),
            !r ==> final(self).model() == old(self).model(),
    {
        proof {
            crate::env::lemma_store_below(self.scopes@, f as int, name@, v, self.heap@.len() as int);
            crate::env::lemma_names_kept(self.scopes@, f as int, name@, v, None);
            if crate::env::slot_of(self.scopes@[f as int].bindings, name@) is None {
                crate::env::lemma_slot_from_push(self.scopes@[f as int].bindings, name@, v, 0);
                crate::env::lemma_declare_effect(self.scopes@, f as int, name@, v, 0);
            }
        }
        self.scopes.declare(f, name, v)
    }

    /// Sets `name` to `v` where the lookup from `f` finds it (see `Scopes::assign`).
    fn assign_in(&mut self, f: usize, name: &String, v: Value) -> (r: bool)
        requires
            old(self).inv(),
            f < old(self).scopes@.len(),
            crate::heap::handle_below(v, old(self).heap@.len() as int),
        ensures
            old(self).evolves(&*final(self)),
            final(self).scopes@.len() == old(self).scopes@.len(),
            r ==> crate::env::lookup_value(final(self).scopes@, f as int, name@) == Some(v),
            r == crate::env::resolve(old(self).scopes@, f as int, name@) is Some,
            final(self).model() == (Model { frames: crate::env::assign_value(old(self).scopes@, f as int, name@, v), ..old(self).model() }),
    {
        proof {
            crate::env::lemma_store_below(self.scopes@, f as int, name@, v, self.heap@.len() as int);
            crate::env::lemma_resolve_names(self.scopes@, f as int, name@);
            if crate::env::resolve(self.scopes@, f as int, name@) is Some {
                crate::env::lemma_assign_effect(self.scopes@, f as int, name@, v, f as int, name@);
            }
            crate::env::lemma_names_kept(self.scopes@, f as int, name@, v, None);
        }
        self.scopes.assign(f, name, v)
    }

    /// Stores a new cell whose handles name existing cells.
    fn store_cell(&mut self, c: Cell) -> (r: Value)
        requires
            old(self).inv(),
            crate::heap::cell_below(c@, old(self).heap@.len() as int),
        ensures
            old(self).evolves(&*final(self)),
            final(self).scopes == old(self).scopes,
            final(self).heap@ == old(self).heap@.push(c@),
            r matches Value::Ref(i) && i as int == old(self).heap@.len(),
            crate::heap::handle_below(r, final(self).heap@.len() as int),
            (final(self).model(), Out::Val(r)) == crate::semantics::store(old(self).model(), c@),
    {
        proof {
            crate::heap::lemma_push_closed(self.heap@, c@);
            crate::env::lemma_bindings_below_mono(self.scopes@, self.heap@.len() as int, self.heap@.len() + 1int);
        }
        Value::Ref(self.heap.store(c))
    }

    /// Sets `key` to `v` in the dictionary `dv`.
    fn write_entry(&mut self, dv: Value, key: Value, v: Value)
        requires
            old(self).inv(),
            dv matches Value::Ref(d) && d < old(self).heap@.len() && old(self).heap@[d as int] is Dict,
            crate::heap::handle_below(key, old(self).heap@.len() as int),
            crate::heap::handle_below(v, old(self).heap@.len() as int),
        ensures
            old(self).evolves(&*final(self)),
            final(self).scopes == old(self).scopes,
            final(self).heap@.len() == old(self).heap@.len(),
            dv matches Value::Ref(d) && final(self).heap@[d as int] is Dict,
            final(self).model() == (Model { heap: write_spec(old(self).heap@, dv, key, v).1, ..old(self).model() }),
    {
        proof { crate::access::lemma_write_closed(self.heap@, dv, key, v); }
        let _ = index_write(&mut self.heap, dv, key, v, 0, 0, 0, 0);
    }

    /// Leaves a scope entered when there were `mark` frames and `cmark` closures: the frames
    /// opened since vanish, unless a closure made since may have captured one of them.
    fn close_scope(&mut self, mark: usize, cmark: usize)
        requires
            old(self).inv(),
            mark <= old(self).scopes@.len(),
            cmark <= old(self).closures@.len(),
            forall|c: int| 0 <= c < cmark ==> (#[trigger] old(self).closures@[c]).env < mark,
        ensures
            final(self).inv(),
            final(self).scopes@.len() >= mark,
            final(self).closures == old(self).closures,
            final(self).commands == old(self).commands,
            final(self).stack_ctx == old(self).stack_ctx,
            final(self).budget == old(self).budget,
            final(self).heap == old(self).heap,
            crate::env::names_kept_before(old(self).scopes@, final(self).scopes@, mark as int),
            final(self).model() == crate::semantics::close_to(old(self).model(), mark as int, cmark as int),
    {
        proof { crate::env::lemma_names_kept(self.scopes@, 0, Seq::empty(), Value::Null, None); }
        if self.closures.len() == cmark {
            proof {
                crate::env::lemma_frames_change_below(self.scopes@, Option::<usize>::None, mark as int, self.heap@.len() as int);
                crate::env::lemma_truncate_keeps_before(self.scopes@, mark as int);
            }
            self.scopes.close_from(mark);
        }
    }

    /// Drops frame `mark` and every later one, as the host does with a tick's frame once the
    /// tick is over. Nothing is dropped, and the result is false, when that would leave the
    /// global frame gone or a closure's captured frame missing.
    pub fn release_frames_from(&mut self, mark: usize) -> (r: bool)
        requires
            old(self).inv(),
        ensures
            final(self).inv(),
            r == (0 < mark <= old(self).frames().len() && forall|c: int| 0 <= c < old(self).closure_count()
                ==> #[trigger] old(self).closure_env(c) < mark),
            r ==> final(self).frames() == old(self).frames().subrange(0, mark as int),
            !r ==> final(self).frames() == old(self).frames(),
            final(self).heap_view() == old(self).heap_view(),
            final(self).contexts() == old(self).contexts(),
    {
        if mark == 0 || mark > self.scopes.len() {
            return false;
        }
        let mut c: usize = 0;
        while c < self.closures.len()
            invariant
                self.inv(),
                0 < mark <= self.scopes@.len(),
                c <= self.closures@.len(),
                forall|k: int| 0 <= k < c ==> (#[trigger] self.closures@[k]).env < mark,
            decreases self.closures@.len() - c,
        {
            if self.closures[c].env >= mark {
                assert(self.closure_env(c as int) >= mark);
                return false;
            }
            c = c + 1;
        }
        proof {
            crate::env::lemma_frames_change_below(self.scopes@, Option::<usize>::None, mark as int, self.heap@.len() as int);
        }
        self.scopes.close_from(mark);
        true
    }

    /// The number of heap cells.
    pub fn cell_count(&self) -> (r: usize)
        ensures
            r == self.heap_view().len(),
    {
        self.heap.len()
    }

    /// Drops heap cell `mark` and every later one, as the host does with the cells a tick
    /// made once the tick is over and its frames are released. Nothing is dropped, and the
    /// result is false, when a binding of any frame or an earlier cell still holds a handle to
    /// one of them; so no handle is left dangling.
    pub fn release_cells_from(&mut self, mark: usize) -> (r: bool)
        requires
            old(self).inv(),
        ensures
            final(self).inv(),
            r == (mark <= old(self).heap_view().len() && crate::env::bindings_below(old(self).frames(), mark as int)
                && crate::heap::cells_below(old(self).heap_view(), mark as int)),
            r ==> final(self).heap_view() == old(self).heap_view().subrange(0, mark as int)
                && crate::env::bindings_below(old(self).frames(), mark as int)
                && crate::heap::cells_below(final(self).heap_view(), mark as int),
            !r ==> final(self).heap_view() == old(self).heap_view(),
            final(self).frames() == old(self).frames(),
            final(self).contexts() == old(self).contexts(),
    {
        if mark > self.heap.len() {
            return false;
        }
        if !self.scopes.bindings_stay_below(mark) || !self.heap.cells_before_stay_below(mark) {
            return false;
        }
        let ghost h = self.heap@;
        self.heap.close_from(mark);
        assert forall|i: int| 0 <= i < mark && i < self.heap@.len() implies crate::heap::cell_below(#[trigger] self.heap@[i], mark as int) by {
            assert(self.heap@[i] == h[i]);
        }
        true
    }

    fn too_deep(line: usize, col: usize) -> (r: Flow)
        ensures
            r matches Flow::Error(e) && e.kind == ErrorKind::LimitExceeded,
            out(r) == Out::Fail(ErrorKind::LimitExceeded, crate::semantics::loc("evaluation nests too deeply"@, line, col)),
    {
        fail(ErrorKind::LimitExceeded, "evaluation nests too deeply", line, col)
    }

    /// Evaluates a program in frame `f` with a fresh loop budget and the markers reset to the
    /// global one. The outcome is void, or the first error met.
    pub fn eval_program(&mut self, statements: &Vec<Stmt>, f: usize) -> (r: Flow)
        requires
            old(self).inv(),
            f < old(self).frames().len(),
        ensures
            (final(self).model(), out(r)) == crate::semantics::sp_program(old(self).model(), statements@, f),
            final(self).inv(),
            final(self).frames().len() >= old(self).frames().len(),
            final(self).contexts() == seq![Context::Global],
            r matches Flow::Value(Value::Void) || r is Error,
    {
        self.stack_ctx.clear();
        self.stack_ctx.push(Context::Global);
        assert(!loop_open(self.stack_ctx@) && !in_function(self.stack_ctx@)) by {
            assert(self.stack_ctx@.drop_last() =~= Seq::<Context>::empty());
            assert(!loop_open(Seq::<Context>::empty()));
            assert(!in_function(Seq::<Context>::empty()));
        }
        self.budget = self.loop_budget;
        let fl = self.eval_block(statements, f, MAX_DEPTH);
        assert(self.stack_ctx@ =~= seq![Context::Global]);
        match fl {
            Flow::Error(e) => Flow::Error(e),
            _ => Flow::Value(Value::Void),
        }
    }

    /// Evaluates an expression in frame `f`.
    pub fn eval_expression(&mut self, e: &Expr, f: usize) -> (r: Flow)
        requires
            old(self).inv(),
            f < old(self).frames().len(),
        ensures
            (final(self).model(), out(r)) == crate::semantics::sp_expr(old(self).model(), *e, f, MAX_DEPTH as nat),
            old(self).evolves(&*final(self)),
            flow_fits(r, old(self).contexts()),
            flow_valid(r, final(self).heap_view().len() as int),
            literal_value(*e) is Some ==> r == Flow::Value(literal_value(*e)->0) && *final(self) == *old(self),
            e.kind is Ident ==> match crate::env::lookup_value(old(self).frames(), f as int, e.kind->Ident_0@) {
                Some(v) => r == Flow::Value(v),
                None => r matches Flow::Value(Value::Native(_)) || (r matches Flow::Error(er) && er.kind == ErrorKind::UndeclaredIdentifier),
            },
            falsy_literal_loop(*e) ==> r == Flow::Value(Value::Void) && *final(self) == *old(self),
            (e.kind is Assign && e.kind->Assign_target.kind is Ident && r is Value)
                ==> crate::env::lookup_value(final(self).frames(), f as int, e.kind->Assign_target.kind->Ident_0@) == Some(r->Value_0),
    {
        self.eval_expr(e, f, MAX_DEPTH)
    }

    /// Runs the statements of a block in order in frame `f`. A `continue` ends the block, which
    /// is then void; any other outcome that is not a value (a return, a break, an error) ends it
    /// and is handed on. A block that runs to its end is void.
    #[verifier::rlimit(100)]
    #[verifier::spinoff_prover]
    fn eval_block(&mut self, stmts: &Vec<Stmt>, f: usize, depth: u64) -> (r: Flow)
        requires
            old(self).inv(),
            f < old(self).scopes@.len(),
        ensures
            (final(self).model(), out(r)) == crate::semantics::sp_block(old(self).model(), stmts@, f, depth as nat),
            old(self).evolves(&*final(self)),
            flow_fits(r, old(self).stack_ctx@),
            flow_valid(r, final(self).heap@.len() as int),
        decreases depth, 0nat,
    {
        if depth == 0 {
            return Self::too_deep(0, 0);
        }
        let mut k: usize = 0;
        while k < stmts.len()
            invariant
                old(self).evolves(&*self),
                f < old(self).scopes@.len(),
                depth > 0,
                k <= stmts@.len(),
                crate::semantics::sp_block(old(self).model(), stmts@, f, depth as nat)
                    == crate::semantics::sp_block_from(self.model(), stmts@, k as int, f, depth as nat),
            decreases stmts@.len() - k,
        {
            let ghost m0 = self.model();
            let fl = self.eval_stmt(&stmts[k], f, depth - 1);
            assert(((depth - 1) as u64) as nat == (depth as nat - 1) as nat);
            match fl {
                Flow::Value(_) => {},
                Flow::Continue => {
                    return Flow::Value(Value::Void);
                },
                _ => {
                    return fl;
                },
            }
            k = k + 1;
        }
        Flow::Value(Value::Void)
    }

    fn make_closure(&mut self, def: &Rc<FnDef>, f: usize) -> (r: Value)
        requires
            old(self).inv(),
            f < old(self).scopes@.len(),
        ensures
            old(self).evolves(&*final(self)),
            final(self).scopes == old(self).scopes,
            final(self).heap == old(self).heap,
            r is Func,
            (final(self).model(), r) == crate::semantics::make_closure(old(self).model(), *def, f),
    {
        let c = self.closures.len();
        self.closures.push(Closure { def: Rc::clone(def), env: f });
        Value::Func(c)
    }

    /// Evaluates one statement in frame `f`. A declaration fails when frame `f` itself binds
    /// the name already; `break` and `continue` need an open loop and `return` a function.
    #[verifier::spinoff_prover]
    #[verifier::rlimit(100)]
    fn eval_stmt(&mut self, s: &Stmt, f: usize, depth: u64) -> (r: Flow)
        requires
            old(self).inv(),
            f < old(self).scopes@.len(),
        ensures
            (final(self).model(), out(r)) == crate::semantics::sp_stmt(old(self).model(), *s, f, depth as nat),
            old(self).evolves(&*final(self)),
            flow_fits(r, old(self).stack_ctx@),
            flow_valid(r, final(self).heap@.len() as int),
            (depth > 0 && s is Var && crate::env::slot_of(old(self).scopes@[f as int].bindings, s->Var_name@) is Some)
                ==> (r matches Flow::Error(er) && er.kind == ErrorKind::RedeclaredIdentifier) && *final(self) == *old(self),
            (depth > 0 && s is Break) ==> if loop_open(old(self).stack_ctx@) {
                r is Break
            } else {
                r matches Flow::Error(er) && er.kind == ErrorKind::IllegalControlFlow
            },
            (depth > 0 && s is Continue) ==> if loop_open(old(self).stack_ctx@) {
                r is Continue
            } else {
                r matches Flow::Error(er) && er.kind == ErrorKind::IllegalControlFlow
            },
            (depth > 0 && s is Return && !in_function(old(self).stack_ctx@))
                ==> (r matches Flow::Error(er) && er.kind == ErrorKind::IllegalControlFlow),
            (r is Value && declares(*s) is Some) ==> crate::env::binds(final(self).scopes@, f as int, declares(*s)->0),
            (r is Value && s is Var) ==> crate::env::lookup_value(final(self).scopes@, f as int, s->Var_name@) == Some(r->Value_0),
        decreases depth, 0nat,
    {
        if depth == 0 {
            return Self::too_deep(0, 0);
        }
        match s {
            Stmt::Var { name, value } => {
                if self.scopes.binds_here(f, name) {
                    return fail_named(ErrorKind::RedeclaredIdentifier, "the identifier `", name, "` was declared already", value.line, value.col);
                }
                let fl = self.eval_expr(value, f, depth - 1);
                match fl {
                    Flow::Value(Value::Void) => fail(ErrorKind::TypeMismatch, "a variable cannot hold void", value.line, value.col),
                    Flow::Value(v) => {
                        if self.declare_in(f, name, v) {
                            Flow::Value(v)
                        } else {
                            fail_named(ErrorKind::RedeclaredIdentifier, "the identifier `", name, "` was declared already", value.line, value.col)
                        }
                    },
                    other => other,
                }
            },
            Stmt::Return { value, line, col } => {
                if !self.check_in_function() {
                    return fail(ErrorKind::IllegalControlFlow, "return is allowed only inside functions", *line, *col);
                }
                let fl = self.eval_expr(value, f, depth - 1);
                match fl {
                    Flow::Value(v) => Flow::Return(v),
                    other => other,
                }
            },
            Stmt::Break { line, col } => {
                if self.check_loop_open() {
                    Flow::Break
                } else {
                    fail(ErrorKind::IllegalControlFlow, "break is allowed only inside loops", *line, *col)
                }
            },
            Stmt::Continue { line, col } => {
                if self.check_loop_open() {
                    Flow::Continue
                } else {
                    fail(ErrorKind::IllegalControlFlow, "continue is allowed only inside loops", *line, *col)
                }
            },
            Stmt::Expr(e) => self.eval_expr(e, f, depth - 1),
            Stmt::Fn { name, def, line, col } => {
                if self.scopes.binds_here(f, name) {
                    return fail_named(ErrorKind::RedeclaredIdentifier, "the identifier `", name, "` was declared already", *line, *col);
                }
                let v = self.make_closure(def, f);
                if self.declare_in(f, name, v) {
                    Flow::Value(v)
                } else {
                    fail_named(ErrorKind::RedeclaredIdentifier, "the identifier `", name, "` was declared already", *line, *col)
                }
            },
        }
    }

    #[verifier::spinoff_prover]
    #[verifier::rlimit(100)]
    fn eval_expr(&mut self, e: &Expr, f: usize, depth: u64) -> (r: Flow)
        requires
            old(self).inv(),
            f < old(self).scopes@.len(),
        ensures
            (final(self).model(), out(r)) == crate::semantics::sp_expr(old(self).model(), *e, f, depth as nat),
            old(self).evolves(&*final(self)),
            flow_fits(r, old(self).stack_ctx@),
            flow_valid(r, final(self).heap@.len() as int),
            (depth > 0 && literal_value(*e) is Some) ==> r == Flow::Value(literal_value(*e)->0) && *final(self) == *old(self),
            (depth > 0 && e.kind is Ident) ==> match crate::env::lookup_value(old(self).scopes@, f as int, e.kind->Ident_0@) {
                Some(v) => r == Flow::Value(v),
                None => r matches Flow::Value(Value::Native(_)) || (r matches Flow::Error(er) && er.kind == ErrorKind::UndeclaredIdentifier),
            },
            depth > 2 && falsy_literal_loop(*e) ==> r == Flow::Value(Value::Void) && *final(self) == *old(self),
            (depth > 0 && e.kind is Assign && e.kind->Assign_target.kind is Ident && r is Value)
                ==> crate::env::lookup_value(final(self).scopes@, f as int, e.kind->Assign_target.kind->Ident_0@) == Some(r->Value_0),
        decreases depth, 0nat,
    {
        if depth == 0 {
            return Self::too_deep(e.line, e.col);
        }
        match &e.kind {
            ExprKind::Int(n) => Flow::Value(Value::Int(*n)),
            ExprKind::Bool(b) => Flow::Value(Value::Bool(*b)),
            ExprKind::Null => Flow::Value(Value::Null),
            ExprKind::Str(s) => Flow::Value(self.store_cell(Cell::Str(s.clone()))),
            ExprKind::Ident(name) => self.eval_identifier(name, f, e.line, e.col),
            ExprKind::Prefix { op, right } => {
                match self.eval_expr(right, f, depth - 1) {
                    Flow::Value(v) => match prefix(*op, v, e.line, e.col) {
                        Ok(w) => Flow::Value(w),
                        Err(er) => Flow::Error(er),
                    },
                    other => other,
                }
            },
            ExprKind::Infix { op, left, right } => {
                let a = match self.eval_expr(left, f, depth - 1) {
                    Flow::Value(v) => v,
                    other => {
                        return other;
                    },
                };
                let b = match self.eval_expr(right, f, depth - 1) {
                    Flow::Value(v) => v,
                    other => {
                        return other;
                    },
                };
                match binop(&mut self.heap, *op, a, b, left.line, left.col) {
                    Ok(v) => Flow::Value(v),
                    Err(er) => Flow::Error(er),
                }
            },
            ExprKind::If { condition, consequence, alternative } => {
                self.eval_if(condition, consequence, alternative, f, depth - 1)
            },
            ExprKind::FnLiteral(def) => Flow::Value(self.make_closure(def, f)),
            ExprKind::Call { function, arguments } => self.eval_call(function, arguments, f, depth - 1),
            ExprKind::Assign { target, value } => self.eval_assign(target, value, f, depth - 1),
            ExprKind::List(elements) => self.eval_list_literal(elements, f, depth - 1),
            ExprKind::Dict(pairs) => self.eval_dictionary(pairs, f, depth - 1),
            ExprKind::Index { base, index } => {
                let c = match self.eval_expr(base, f, depth - 1) {
                    Flow::Value(v) => v,
                    other => {
                        return other;
                    },
                };
                let k = match self.eval_expr(index, f, depth - 1) {
                    Flow::Value(v) => v,
                    other => {
                        return other;
                    },
                };
                match index_read(&self.heap, c, k, base.line, base.col, index.line, index.col) {
                    Ok(v) => Flow::Value(v),
                    Err(er) => Flow::Error(er),
                }
            },
            ExprKind::While { condition, body } => self.eval_while(condition, body, f, depth - 1),
            ExprKind::ForRange { var, arguments, body } => {
                self.eval_for_range(var, arguments, body, f, e.line, e.col, depth - 1)
            },
        }
    }

    fn eval_expression_at(&mut self, e: &Expr, f: usize, depth: u64) -> (r: Flow)
        requires
            old(self).inv(),
            f < old(self).scopes@.len(),
        ensures
            (final(self).model(), out(r)) == crate::semantics::sp_expr(old(self).model(), *e, f, depth as nat),
            old(self).evolves(&*final(self)),
            flow_fits(r, old(self).stack_ctx@),
            flow_valid(r, final(self).heap@.len() as int),
        decreases depth, 1nat,
    {
        self.eval_expr(e, f, depth)
    }

    /// The builtin registered under `name`, consulted only when no frame binds it.
    fn find_native(&self, name: &String) -> (r: Option<Builtin>)
        ensures
            r == crate::semantics::native_from(self.natives@, name@, 0),
    {
        let mut k: usize = 0;
        while k < self.natives.len()
            invariant
                k <= self.natives@.len(),
                crate::semantics::native_from(self.natives@, name@, 0) == crate::semantics::native_from(self.natives@, name@, k as int),
            decreases self.natives@.len() - k,
        {
            if self.natives[k].0 == *name {
                return Some(self.natives[k].1);
            }
            k = k + 1;
        }
        None
    }

    fn eval_identifier(&mut self, name: &String, f: usize, line: usize, col: usize) -> (r: Flow)
        requires
            old(self).inv(),
            f < old(self).scopes@.len(),
        ensures
            (final(self).model(), out(r)) == crate::semantics::sp_ident(old(self).model(), name@, f, line, col),
            old(self).evolves(&*final(self)),
            match crate::env::lookup_value(old(self).scopes@, f as int, name@) {
                Some(v) => r == Flow::Value(v),
                None => r matches Flow::Value(Value::Native(_)) || (r matches Flow::Error(er) && er.kind == ErrorKind::UndeclaredIdentifier),
            },
            *final(self) == *old(self),
            flow_valid(r, final(self).heap@.len() as int),
    {
        proof { crate::env::lemma_lookup_below(self.scopes@, f as int, name@, self.heap@.len() as int); }
        match self.scopes.lookup(f, name) {
            Some(v) => Flow::Value(v),
            None => match self.find_native(name) {
                Some(b) => Flow::Value(Value::Native(b)),
                None => fail_named(ErrorKind::UndeclaredIdentifier, "the identifier `", name, "` does not exist", line, col),
            },
        }
    }

    fn eval_if(&mut self, condition: &Expr, consequence: &Vec<Stmt>, alternative: &Vec<Stmt>, f: usize, depth: u64) -> (r: Flow)
        requires
            old(self).inv(),
            f < old(self).scopes@.len(),
        ensures
            (final(self).model(), out(r)) == crate::semantics::sp_if(old(self).model(), *condition, consequence@, alternative@, f, depth as nat),
            old(self).evolves(&*final(self)),
            flow_fits(r, old(self).stack_ctx@),
            flow_valid(r, final(self).heap@.len() as int),
        decreases depth, 0nat,
    {
        if depth == 0 {
            return Self::too_deep(condition.line, condition.col);
        }
        let c = match self.eval_expr(condition, f, depth - 1) {
            Flow::Value(v) => v,
            other => {
                return other;
            },
        };
        let ghost s0 = self.stack_ctx@;
        let mark = self.scopes.len();
        let cmark = self.closures.len();
        let child = self.open_child(f);
        self.push_ctx(Context::If);
        proof { Self::lemma_push_transparent(s0); }
        let fl = if is_truthy(c) {
            self.eval_block(consequence, child, depth - 1)
        } else {
            self.eval_block(alternative, child, depth - 1)
        };
        self.pop_ctx();
        assert(self.stack_ctx@ =~= s0);
        self.close_scope(mark, cmark);
        fl
    }

    /// Evaluates `target = value`. A variable must be visible already; it takes the value in
    /// the frame that binds it. An indexed element is written as `index_write` does.
    fn eval_assign(&mut self, target: &Expr, value: &Expr, f: usize, depth: u64) -> (r: Flow)
        requires
            old(self).inv(),
            f < old(self).scopes@.len(),
        ensures
            (final(self).model(), out(r)) == crate::semantics::sp_assign(old(self).model(), *target, *value, f, depth as nat),
            old(self).evolves(&*final(self)),
            flow_fits(r, old(self).stack_ctx@),
            flow_valid(r, final(self).heap@.len() as int),
            (target.kind is Ident && r is Value) ==> crate::env::lookup_value(final(self).scopes@, f as int, target.kind->Ident_0@) == Some(r->Value_0),
            (depth > 0 && target.kind is Ident && crate::env::lookup_value(old(self).scopes@, f as int, target.kind->Ident_0@) is None)
                ==> (r matches Flow::Error(er) && er.kind == ErrorKind::UndeclaredIdentifier),
        decreases depth, 0nat,
    {
        if depth == 0 {
            return Self::too_deep(target.line, target.col);
        }
        match &target.kind {
            ExprKind::Ident(name) => {
                if self.scopes.lookup(f, name).is_none() {
                    return fail_named(ErrorKind::UndeclaredIdentifier, "there is no variable `", name, "` to assign", target.line, target.col);
                }
                let v = match self.eval_expr(value, f, depth - 1) {
                    Flow::Value(v) => v,
                    other => {
                        return other;
                    },
                };
                proof { crate::env::lemma_resolve_names(self.scopes@, f as int, name@); }
                if self.assign_in(f, name, v) {
                    Flow::Value(v)
                } else {
                    fail_named(ErrorKind::UndeclaredIdentifier, "there is no variable `", name, "` to assign", target.line, target.col)
                }
            },
            ExprKind::Index { base, index } => {
                let v = match self.eval_expr(value, f, depth - 1) {
                    Flow::Value(v) => v,
                    other => {
                        return other;
                    },
                };
                let c = match self.eval_expr(base, f, depth - 1) {
                    Flow::Value(v) => v,
                    other => {
                        return other;
                    },
                };
                let k = match self.eval_expr(index, f, depth - 1) {
                    Flow::Value(v) => v,
                    other => {
                        return other;
                    },
                };
                match index_write(&mut self.heap, c, k, v, base.line, base.col, index.line, index.col) {
                    Ok(w) => Flow::Value(w),
                    Err(er) => Flow::Error(er),
                }
            },
            _ => fail(ErrorKind::TypeMismatch, "only a variable or an indexed element can be assigned", target.line, target.col),
        }
    }

    fn eval_list_literal(&mut self, elements: &Vec<Expr>, f: usize, depth: u64) -> (r: Flow)
        requires
            old(self).inv(),
            f < old(self).scopes@.len(),
        ensures
            (final(self).model(), out(r)) == crate::semantics::sp_list(old(self).model(), elements@, f, depth as nat),
            old(self).evolves(&*final(self)),
            flow_fits(r, old(self).stack_ctx@),
            flow_valid(r, final(self).heap@.len() as int),
        decreases depth, 0nat,
    {
        if depth == 0 {
            return Self::too_deep(0, 0);
        }
        let mut items: Vec<Value> = Vec::new();
        let mut k: usize = 0;
        while k < elements.len()
            invariant
                old(self).evolves(&*self),
                forall|j: int| 0 <= j < items@.len() ==> crate::heap::handle_below(#[trigger] items@[j], self.heap@.len() as int),
                f < old(self).scopes@.len(),
                depth > 0,
                k <= elements@.len(),
                crate::semantics::sp_list(old(self).model(), elements@, f, depth as nat)
                    == crate::semantics::sp_list_from(self.model(), elements@, k as int, items@, f, depth as nat),
            decreases elements@.len() - k,
        {
            match self.eval_expr(&elements[k], f, depth - 1) {
                Flow::Value(v) => items.push(v),
                other => {
                    return other;
                },
            }
            k = k + 1;
        }
        Flow::Value(self.store_cell(Cell::List(items)))
    }

    #[verifier::spinoff_prover]
    #[verifier::rlimit(100)]
    fn eval_dictionary(&mut self, pairs: &Vec<(Expr, Expr)>, f: usize, depth: u64) -> (r: Flow)
        requires
            old(self).inv(),
            f < old(self).scopes@.len(),
        ensures
            (final(self).model(), out(r)) == crate::semantics::sp_dict(old(self).model(), pairs@, f, depth as nat),
            old(self).evolves(&*final(self)),
            flow_fits(r, old(self).stack_ctx@),
            flow_valid(r, final(self).heap@.len() as int),
        decreases depth, 0nat,
    {
        if depth == 0 {
            return Self::too_deep(0, 0);
        }
        let mut entries: Vec<(Value, Value)> = Vec::new();
        let mut k: usize = 0;
        while k < pairs.len()
            invariant
                old(self).evolves(&*self),
                forall|j: int| 0 <= j < entries@.len() ==> crate::heap::handle_below((#[trigger] entries@[j]).0, self.heap@.len() as int)
                    && crate::heap::handle_below(entries@[j].1, self.heap@.len() as int),
                f < old(self).scopes@.len(),
                depth > 0,
                k <= pairs@.len(),
                crate::semantics::sp_dict(old(self).model(), pairs@, f, depth as nat)
                    == crate::semantics::sp_dict_from(self.model(), pairs@, k as int, entries@, f, depth as nat),
            decreases pairs@.len() - k,
        {
            let key = match self.eval_expr(&pairs[k].0, f, depth - 1) {
                Flow::Value(v) => v,
                other => {
                    return other;
                },
            };
            let v = match self.eval_expr(&pairs[k].1, f, depth - 1) {
                Flow::Value(v) => v,
                other => {
                    return other;
                },
            };
            entries.push((key, v));
            k = k + 1;
        }
        let ghost m1 = self.model();
        let empty: Vec<(Value, Value)> = Vec::new();
        let dv = self.store_cell(Cell::Dict(empty));
        let ghost idx = m1.heap.len() as usize;
        assert(empty@ =~= Seq::<(Value, Value)>::empty());
        let mut j: usize = 0;
        while j < entries.len()
            invariant
                old(self).evolves(&*self),
                dv == Value::Ref(idx),
                idx as int == m1.heap.len(),
                j <= entries@.len(),
                (crate::semantics::Model { heap: crate::semantics::dict_fill(self.model().heap, idx, entries@, j as int), ..self.model() })
                    == (crate::semantics::Model { heap: crate::semantics::dict_fill(m1.heap.push(CellView::Dict(Seq::empty())), idx, entries@, 0), ..m1 }),
                dv matches Value::Ref(d) && d < self.heap@.len() && self.heap@[d as int] is Dict,
                forall|t: int| 0 <= t < entries@.len() ==> crate::heap::handle_below((#[trigger] entries@[t]).0, self.heap@.len() as int)
                    && crate::heap::handle_below(entries@[t].1, self.heap@.len() as int),
            decreases entries@.len() - j,
        {
            self.write_entry(dv, entries[j].0, entries[j].1);
            j = j + 1;
        }
        Flow::Value(dv)
    }

    /// Evaluates a call: the callee, then a user function or a builtin.
    pub fn eval_call(&mut self, function: &Expr, arguments: &Vec<Expr>, f: usize, depth: u64) -> (r: Flow)
        requires
            old(self).inv(),
            f < old(self).frames().len(),
        ensures
            (final(self).model(), out(r)) == crate::semantics::sp_call(old(self).model(), *function, arguments@, f, depth as nat),
            old(self).evolves(&*final(self)),
            flow_fits(r, old(self).contexts()),
            flow_valid(r, final(self).heap_view().len() as int),
        decreases depth, 0nat,
    {
        if depth == 0 {
            return Self::too_deep(function.line, function.col);
        }
        let callee = match self.eval_expr(function, f, depth - 1) {
            Flow::Value(v) => v,
            other => {
                return other;
            },
        };
        match callee {
            Value::Func(c) => self.eval_fn_expr(arguments, c, f, function.line, function.col, depth - 1),
            Value::Native(b) => self.call_builtin(b, arguments, f, function.line, function.col, depth - 1),
            _ => fail(ErrorKind::TypeMismatch, "only functions can be called", function.line, function.col),
        }
    }

    /// Calls closure `c` with the argument expressions, which are evaluated in the caller's
    /// frame `f`. The arguments must be as many as the parameters. The body runs in a new frame
    /// under the frame the closure captured, inside a function marker; a `return` there ends
    /// the call with its value, and a body that ends without one gives void.
    #[verifier::spinoff_prover]
    #[verifier::rlimit(100)]
    pub fn eval_fn_expr(&mut self, arguments: &Vec<Expr>, c: usize, f: usize, line: usize, col: usize, depth: u64) -> (r: Flow)
        requires
            old(self).inv(),
            f < old(self).frames().len(),
        ensures
            (final(self).model(), out(r)) == crate::semantics::sp_fn_call(old(self).model(), arguments@, c, f, line, col, depth as nat),
            old(self).evolves(&*final(self)),
            r is Value || r is Error,
            flow_valid(r, final(self).heap_view().len() as int),
            (depth > 0 && c < old(self).closure_count() && arguments@.len() != old(self).closure_arity(c as int))
                ==> (r matches Flow::Error(er) && er.kind == ErrorKind::ArityMismatch),
        decreases depth, 1nat,
    {
        if depth == 0 {
            return Self::too_deep(line, col);
        }
        if c >= self.closures.len() {
            return fail(ErrorKind::TypeMismatch, "not a function", line, col);
        }
        let def = Rc::clone(&self.closures[c].def);
        let env = self.closures[c].env;
        let n = arguments.len();
        let m = def.params.len();
        if n != m {
            let mut msg = message("found ");
            msg.append(render_u64(n as u64).as_str());
            msg.append(" arguments, expected ");
            msg.append(render_u64(m as u64).as_str());
            return Flow::Error(error_at(ErrorKind::ArityMismatch, msg, line, col));
        }
        assert(n == old(self).closure_arity(c as int));
        let ghost clo = old(self).model().closures[c as int];
        let mut values: Vec<Value> = Vec::new();
        let mut k: usize = 0;
        while k < n
            invariant
                old(self).evolves(&*self),
                f < old(self).scopes@.len(),
                env < self.scopes@.len(),
                n == arguments@.len(),
                c < old(self).closures@.len(),
                n == old(self).closure_arity(c as int),
                values@.len() == k,
                k <= n,
                forall|t: int| 0 <= t < values@.len() ==> crate::heap::handle_below(#[trigger] values@[t], self.heap@.len() as int),
                depth > 0,
                def == clo.def,
                env == clo.env,
                crate::semantics::sp_fn_call(old(self).model(), arguments@, c, f, line, col, depth as nat)
                    == crate::semantics::sp_fn_args_from(self.model(), arguments@, k as int, values@, clo, f, line, col, depth as nat),
            decreases n - k,
        {
            match self.eval_expr(&arguments[k], f, depth - 1) {
                Flow::Value(v) => values.push(v),
                Flow::Error(er) => {
                    return Flow::Error(er);
                },
                _ => {
                    return fail(ErrorKind::IllegalControlFlow, "a signal cannot leave an argument", line, col);
                },
            }
            k = k + 1;
        }
        self.enter_call(&def, env, values, line, col, depth)
    }

    /// Declares the parameters of `def` in `frame`, bound to `values` in order (see `bind_from`);
    /// false when a parameter name repeats, with the declarations before it made.
    fn bind_params(&mut self, frame: usize, def: &Rc<FnDef>, values: &Vec<Value>) -> (r: bool)
        requires
            old(self).inv(),
            frame < old(self).scopes@.len(),
            values@.len() == def.params@.len(),
            forall|t: int| 0 <= t < values@.len() ==> crate::heap::handle_below(#[trigger] values@[t], old(self).heap@.len() as int),
        ensures
            old(self).evolves(&*final(self)),
            final(self).scopes@.len() == old(self).scopes@.len(),
            final(self).heap == old(self).heap,
            final(self).closures == old(self).closures,
            r == crate::semantics::bind_from(old(self).scopes@, frame as int, def.params@, values@, 0).1,
            final(self).model() == (Model {
                frames: crate::semantics::bind_from(old(self).scopes@, frame as int, def.params@, values@, 0).0,
                ..old(self).model()
            }),
    {
        let mut j: usize = 0;
        while j < values.len()
            invariant
                old(self).evolves(&*self),
                frame < self.scopes@.len(),
                self.scopes@.len() == old(self).scopes@.len(),
                self.heap == old(self).heap,
                self.closures == old(self).closures,
                values@.len() == def.params@.len(),
                j <= values@.len(),
                forall|t: int| 0 <= t < values@.len() ==> crate::heap::handle_below(#[trigger] values@[t], self.heap@.len() as int),
                self.model() == (Model { frames: self.scopes@, ..old(self).model() }),
                crate::semantics::bind_from(old(self).scopes@, frame as int, def.params@, values@, 0)
                    == crate::semantics::bind_from(self.scopes@, frame as int, def.params@, values@, j as int),
            decreases values@.len() - j,
        {
            if !self.declare_in(frame, &def.params[j], values[j]) {
                return false;
            }
            j = j + 1;
        }
        true
    }

    /// Binds the argument values to the parameters of `def` in a fresh frame under `env` and runs
    /// the body there inside a function marker (see `sp_fn_body`).
    #[verifier::rlimit(100)]
    fn enter_call(&mut self, def: &Rc<FnDef>, env: usize, values: Vec<Value>, line: usize, col: usize, depth: u64) -> (r: Flow)
        requires
            old(self).inv(),
            env < old(self).scopes@.len(),
            depth > 0,
            values@.len() == def.params@.len(),
            forall|t: int| 0 <= t < values@.len() ==> crate::heap::handle_below(#[trigger] values@[t], old(self).heap@.len() as int),
        ensures
            (final(self).model(), out(r)) == crate::semantics::sp_fn_body(old(self).model(), values@, Closure { def: *def, env }, line, col, depth as nat),
            old(self).evolves(&*final(self)),
            r is Value || r is Error,
            flow_valid(r, final(self).heap@.len() as int),
        decreases depth, 0nat,
    {
        let ghost clo = Closure { def: *def, env };
        let m = def.params.len();
        let ghost s_pre = self.model();
        let mark = self.scopes.len();
        let cmark = self.closures.len();
        let frame = self.open_child(env);
        let ghost s1 = self.model();
        if !self.bind_params(frame, def, &values) {
            return fail(ErrorKind::RedeclaredIdentifier, "a parameter name appears twice", line, col);
        }
        let ghost s0 = self.stack_ctx@;
        self.push_ctx(Context::Fn);
        proof { Self::lemma_push_transparent(s0); }
        let fl = self.eval_block(&def.body, frame, depth - 1);
        self.pop_ctx();
        assert(self.stack_ctx@ =~= s0);
        self.close_scope(mark, cmark);
        match fl {
            Flow::Return(v) => Flow::Value(v),
            Flow::Value(_) => Flow::Value(Value::Void),
            Flow::Error(er) => Flow::Error(er),
            _ => fail(ErrorKind::IllegalControlFlow, "a loop signal cannot leave a function", line, col),
        }
    }

    /// Evaluates a while loop: the condition in frame `f` before each iteration, the body in a
    /// fresh frame under `f` inside a loop marker. `break` ends the loop, `continue` ends the
    /// iteration; a return or an error leaves the loop. A loop that ends is void. Each
    /// iteration spends one unit of the loop budget; an exhausted budget is an error.
    #[verifier::spinoff_prover]
    #[verifier::rlimit(100)]
    fn eval_while(&mut self, condition: &Expr, body: &Vec<Stmt>, f: usize, depth: u64) -> (r: Flow)
        requires
            old(self).inv(),
            f < old(self).scopes@.len(),
        ensures
            (final(self).model(), out(r)) == crate::semantics::sp_while(old(self).model(), *condition, body@, f, depth as nat),
            old(self).evolves(&*final(self)),
            flow_fits(r, old(self).stack_ctx@),
            flow_valid(r, final(self).heap@.len() as int),
            (depth > 1 && literal_value(*condition) is Some && !crate::value::truthy(literal_value(*condition)->0)) ==> r == Flow::Value(Value::Void) && *final(self) == *old(self),
        decreases depth, 0nat,
    {
        if depth == 0 {
            return Self::too_deep(condition.line, condition.col);
        }
        let ghost s0 = self.stack_ctx@;
        let ghost falsy = literal_value(*condition) is Some && !crate::value::truthy(literal_value(*condition)->0);
        loop
            invariant
                old(self).evolves(&*self),
                s0 == old(self).stack_ctx@,
                f < old(self).scopes@.len(),
                depth > 0,
                falsy == (literal_value(*condition) is Some && !crate::value::truthy(literal_value(*condition)->0)),
                depth > 1 && falsy ==> *self == *old(self),
                crate::semantics::sp_while(old(self).model(), *condition, body@, f, depth as nat)
                    == crate::semantics::sp_while_from(self.model(), *condition, body@, f, depth as nat),
            decreases self.budget,
        {
            let ghost head = self.model();
            let c = match self.eval_expr(condition, f, depth - 1) {
                Flow::Value(v) => v,
                other => {
                    return other;
                },
            };
            if !is_truthy(c) {
                return Flow::Value(Value::Void);
            }
            if self.budget == 0 {
                return fail(ErrorKind::LimitExceeded, "the loop budget is exhausted", condition.line, condition.col);
            }
            self.budget = self.budget - 1;
            let mark = self.scopes.len();
            let cmark = self.closures.len();
            let child = self.open_child(f);
            self.push_ctx(Context::Loop);
            proof { Self::lemma_push_transparent(s0); }
            let fl = self.eval_block(body, child, depth - 1);
            self.pop_ctx();
            assert(self.stack_ctx@ =~= s0);
            self.close_scope(mark, cmark);
            match fl {
                Flow::Break => {
                    return Flow::Value(Value::Void);
                },
                Flow::Return(v) => {
                    return Flow::Return(v);
                },
                Flow::Error(er) => {
                    return Flow::Error(er);
                },
                _ => {},
            }
        }
    }

    /// Evaluates an expression that must give an integer.
    fn extract_numeric_int(&mut self, e: &Expr, f: usize, depth: u64) -> (r: Result<i64, Flow>)
        requires
            old(self).inv(),
            f < old(self).scopes@.len(),
        ensures
            final(self).model() == crate::semantics::sp_extract(old(self).model(), *e, f, depth as nat).0,
            match crate::semantics::sp_extract(old(self).model(), *e, f, depth as nat).1 {
                Ok(n) => r == Ok::<i64, Flow>(n),
                Err(o) => r matches Err(fl) && out(fl) == o,
            },
            old(self).evolves(&*final(self)),
            r matches Err(fl) ==> flow_fits(fl, old(self).stack_ctx@) && flow_valid(fl, final(self).heap@.len() as int),
        decreases depth, 0nat,
    {
        if depth == 0 {
            return Err(Self::too_deep(e.line, e.col));
        }
        match self.eval_expr(e, f, depth - 1) {
            Flow::Value(Value::Int(n)) => Ok(n),
            Flow::Value(v) => {
                let mut msg = message("a range needs integers, not ");
                msg.append(crate::ops::kind_name(&self.heap, v));
                Err(Flow::Error(error_at(ErrorKind::TypeMismatch, msg, e.line, e.col)))
            },
            other => Err(other),
        }
    }

    /// Evaluates a ranged loop `para (var, a[, end[, step]])`. The variable must not be visible
    /// yet. With one argument the variable runs over `0..a`. With two or three, it runs over
    /// `0..end` in steps of `step` (1 when absent), and `a` is used as the bound only when
    /// `end` is zero. Negative bounds or steps and a zero step are range errors. Each iteration
    /// binds the variable in a fresh frame under `f` and runs the body inside a loop marker.
    #[verifier::spinoff_prover]
    #[verifier::rlimit(100)]
    fn eval_for_range(&mut self, var: &String, arguments: &Vec<Expr>, body: &Vec<Stmt>, f: usize, line: usize, col: usize, depth: u64) -> (r: Flow)
        requires
            old(self).inv(),
            f < old(self).scopes@.len(),
        ensures
            (final(self).model(), out(r)) == crate::semantics::sp_for(old(self).model(), var@, arguments@, body@, f, line, col, depth as nat),
            old(self).evolves(&*final(self)),
            flow_fits(r, old(self).stack_ctx@),
            flow_valid(r, final(self).heap@.len() as int),
        decreases depth, 0nat,
    {
        if depth == 0 {
            return Self::too_deep(line, col);
        }
        if self.scopes.lookup(f, var).is_some() {
            return fail_named(ErrorKind::RedeclaredIdentifier, "the variable `", var, "` exists already", line, col);
        }
        let n = arguments.len();
        if n < 1 || n > 3 {
            let mut msg = message("found ");
            msg.append(render_u64(n as u64).as_str());
            msg.append(" arguments, expected 1 to 3");
            return Flow::Error(error_at(ErrorKind::ArityMismatch, msg, line, col));
        }
        let first = &arguments[0];
        let (aline, acol) = (first.line, first.col);
        let begin_value = match self.eval_expr(first, f, depth - 1) {
            Flow::Value(v) => v,
            other => {
                return other;
            },
        };
        let mut end: i64 = 0;
        let mut step: i64 = 1;
        if n >= 2 {
            match self.extract_numeric_int(&arguments[1], f, depth - 1) {
                Ok(x) => end = x,
                Err(fl) => {
                    return fl;
                },
            }
        }
        if n == 3 {
            match self.extract_numeric_int(&arguments[2], f, depth - 1) {
                Ok(x) => step = x,
                Err(fl) => {
                    return fl;
                },
            }
        }
        let bound = match range_plan(begin_value, end, step) {
            Ok(b) => b,
            Err(kind) => {
                return match kind {
                    ErrorKind::TypeMismatch => {
                        let mut msg = message("a range needs integers, not ");
                        msg.append(crate::ops::kind_name(&self.heap, begin_value));
                        Flow::Error(error_at(ErrorKind::TypeMismatch, msg, aline, acol))
                    },
                    _ => fail(ErrorKind::InvalidRange, "a range needs a non-negative bound and a positive step", aline, acol),
                };
            },
        };
        let ghost s0 = self.stack_ctx@;
        let ghost bi = bound;
        let ghost si = step;
        let bound = bound as u64;
        let step = step as u64;
        let mut i: u64 = 0;
        while i < bound
            invariant
                old(self).evolves(&*self),
                s0 == old(self).stack_ctx@,
                f < old(self).scopes@.len(),
                depth > 0,
                bound <= i64::MAX,
                1 <= step <= i64::MAX,
                i <= i64::MAX,
                bound as int == bi as int,
                step as int == si as int,
                crate::semantics::sp_for(old(self).model(), var@, arguments@, body@, f, line, col, depth as nat)
                    == crate::semantics::sp_for_from(self.model(), var@, body@, f, depth as nat, bi as int, si as int, i as int),
            decreases bound - i,
        {
            let mark = self.scopes.len();
            let cmark = self.closures.len();
            let child = self.open_child(f);
            self.declare_in(child, var, Value::Int(i as i64));
            self.push_ctx(Context::Loop);
            proof { Self::lemma_push_transparent(s0); }
            let fl = self.eval_block(body, child, depth - 1);
            self.pop_ctx();
            assert(self.stack_ctx@ =~= s0);
            self.close_scope(mark, cmark);
            match fl {
                Flow::Break => {
                    return Flow::Value(Value::Void);
                },
                Flow::Return(v) => {
                    return Flow::Return(v);
                },
                Flow::Error(er) => {
                    return Flow::Error(er);
                },
                _ => {},
            }
            if bound - i <= step {
                return Flow::Value(Value::Void);
            }
            i = i + step;
        }
        Flow::Value(Value::Void)
    }

    /// Detaches the definition of the loop function (`fn Bucle`) from a program's top-level
    /// statements, the first one if there are several, for the host to run once per tick.
    /// Fails, leaving the statements as they were, when the program defines none.
    pub fn extract_loop_fn(&mut self, statements: &mut Vec<Stmt>) -> (r: Result<Rc<FnDef>, ()>)
        ensures
            match loop_fn_from(old(statements)@, 0) {
                Some(i) => r is Ok && final(statements)@ == old(statements)@.remove(i)
                    && (old(statements)@[i] matches Stmt::Fn { def, .. } && r->Ok_0 == def),
                None => r is Err && final(statements)@ == old(statements)@,
            },
    {
        let mut i: usize = 0;
        while i < statements.len()
            invariant
                i <= statements@.len(),
                statements@ == old(statements)@,
                loop_fn_from(statements@, 0) == loop_fn_from(statements@, i as int),
            decreases statements@.len() - i,
        {
            let found = match &statements[i] {
                Stmt::Fn { name, .. } => text_is(name, LOOP_FN_NAME),
                _ => false,
            };
            proof { reveal_strlit("Bucle"); }
            if found {
                let s = statements.remove(i);
                return match s {
                    Stmt::Fn { def, .. } => Ok(def),
                    _ => Err(()),
                };
            }
            i = i + 1;
        }
        Err(())
    }
}

} // verus!
