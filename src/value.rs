use vstd::prelude::*;

verus! {

/// The natives that the evaluator offers under reserved names.
#[derive(Clone, Copy, PartialEq, Eq, Structural, Debug)]
pub enum Builtin {
    Length,
    TypeName,
    DrawText,
    DrawLine,
    DrawRect,
    DrawCircle,
    CanvasWidth,
    CanvasHeight,
    KeyPressed,
    Random,
    ToText,
}

/// A value of the language as a binding, a list element or a dictionary entry holds it.
///
/// Numbers, booleans, null, void and functions are value-classified: they are copied whole on
/// every assignment. Strings, lists and dictionaries are reference-classified: they live in a
/// cell of the heap and a value holds only the cell's handle, so that every holder sees every
/// mutation. A function is a handle to an immutable closure record; the environment that the
/// closure captured is shared, not copied.
#[derive(Clone, Copy, PartialEq, Eq, Structural, Debug)]
pub enum Value {
    Int(i64),
    Bool(bool),
    Null,
    Void,
    Func(usize),
    Native(Builtin),
    Ref(usize),
}

impl Value {
    /// Whether the value is copied on assignment (it holds no heap handle).
    pub open spec fn is_value_classified(self) -> bool {
        !(self is Ref)
    }
}

/// Truthiness: the integer zero, `false` and null are falsy; everything else is truthy.
pub open spec fn truthy(v: Value) -> bool {
    match v {
        Value::Int(n) => n != 0,
        Value::Bool(b) => b,
        Value::Null => false,
        _ => true,
    }
}

pub fn is_truthy(v: Value) -> (r: bool)
    ensures
        r == truthy(v),
{
    match v {
        Value::Int(n) => n != 0,
        Value::Bool(b) => b,
        Value::Null => false,
        _ => true,
    }
}

/// What a heap cell holds, as plain mathematical values.
pub enum CellView {
    Str(Seq<char>),
    List(Seq<Value>),
    Dict(Seq<(Value, Value)>),
}

/// A heap cell: the one storage place of a string, a list or a dictionary.
#[derive(Clone, Debug)]
pub enum Cell {
    Str(String),
    List(Vec<Value>),
    Dict(Vec<(Value, Value)>),
}

impl View for Cell {
    type V = CellView;

    open spec fn view(&self) -> CellView {
        match self {
            Cell::Str(s) => CellView::Str(s@),
            Cell::List(l) => CellView::List(l@),
            Cell::Dict(d) => CellView::Dict(d@),
        }
    }
}

/// The classes of runtime error.
#[derive(Clone, Copy, PartialEq, Eq, Structural, Debug)]
pub enum ErrorKind {
    ArityMismatch,
    TypeMismatch,
    UndeclaredIdentifier,
    RedeclaredIdentifier,
    IllegalControlFlow,
    InvalidKey,
    InvalidRange,
    UnsupportedOperator,
    /// Integer overflow, or division by zero.
    Arithmetic,
    /// The nesting depth or the loop budget of one evaluation ran out.
    LimitExceeded,
}

/// A runtime error: its class and its text, which carries the source position.
#[derive(Debug)]
pub struct RunError {
    pub kind: ErrorKind,
    pub message: String,
}

/// The outcome of evaluating a statement, a block or an expression: a value, or one of the
/// signals that travel up the evaluation until a block, loop or call boundary takes them.
#[derive(Debug)]
pub enum Flow {
    Value(Value),
    Return(Value),
    Break,
    Continue,
    Error(RunError),
}

} // verus!

verus! {

/// Makes a runtime error of class `kind` whose text places `msg` at `line`, `col`.
pub fn error_at(kind: ErrorKind, msg: String, line: usize, col: usize) -> (r: RunError)
    ensures
        r.kind == kind,
        r.message@ == crate::text::located_message(msg@, line as nat, col as nat),
{
    RunError { kind, message: crate::text::create_msg_err(msg, line, col) }
}

} // verus!
