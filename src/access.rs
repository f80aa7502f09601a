use vstd::prelude::*;
use vstd::string::StringExecFns;
use crate::heap::{cell_below, dict_get, dict_put, find_key, handle_below, heap_closed, lemma_found_in_range, lemma_update_closed, Heap};
use crate::value::{error_at, Cell, CellView, ErrorKind, RunError, Value};

verus! {

/// What `c[k]` reads over the heap `h`. A list takes an integer index and reads null outside
/// its bounds; a dictionary takes any key, compared structurally, and an absent key is an
/// error; anything else cannot be indexed.
pub open spec fn read_spec(h: Seq<CellView>, c: Value, k: Value) -> Result<Value, ErrorKind> {
    match c {
        Value::Ref(i) => if i < h.len() {
            match h[i as int] {
                CellView::List(items) => match k {
                    Value::Int(n) => if 0 <= n < items.len() {
                        Ok(items[n as int])
                    } else {
                        Ok(Value::Null)
                    },
                    _ => Err(ErrorKind::TypeMismatch),
                },
                CellView::Dict(entries) => match dict_get(h, entries, k) {
                    Some(v) => Ok(v),
                    None => Err(ErrorKind::InvalidKey),
                },
                CellView::Str(_) => Err(ErrorKind::TypeMismatch),
            }
        } else {
            Err(ErrorKind::TypeMismatch)
        },
        _ => Err(ErrorKind::TypeMismatch),
    }
}

/// What `c[k] = v` gives and the heap after it. A list element inside the bounds is replaced;
/// outside them nothing changes and the result is null. A dictionary always takes the entry.
pub open spec fn write_spec(h: Seq<CellView>, c: Value, k: Value, v: Value) -> (Result<Value, ErrorKind>, Seq<CellView>) {
    match c {
        Value::Ref(i) => if i < h.len() {
            match h[i as int] {
                CellView::List(items) => match k {
                    Value::Int(n) => if 0 <= n < items.len() {
                        (Ok(v), h.update(i as int, CellView::List(items.update(n as int, v))))
                    } else {
                        (Ok(Value::Null), h)
                    },
                    _ => (Err(ErrorKind::TypeMismatch), h),
                },
                CellView::Dict(entries) => (Ok(v), h.update(i as int, CellView::Dict(dict_put(h, entries, k, v)))),
                CellView::Str(_) => (Err(ErrorKind::TypeMismatch), h),
            }
        } else {
            (Err(ErrorKind::TypeMismatch), h)
        },
        _ => (Err(ErrorKind::TypeMismatch), h),
    }
}

/// The text of an indexing error of `c[k]`: a list takes only integer indices and a dictionary
/// only present keys (both located at the index, `kline`, `kcol`); anything else cannot be
/// indexed (located at the base, `line`, `col`).
pub open spec fn index_message(h: Seq<CellView>, c: Value, k: Value, line: usize, col: usize, kline: usize, kcol: usize) -> Seq<char> {
    let other = crate::text::located_message("only lists and dictionaries can be indexed"@, line as nat, col as nat);
    match c {
        Value::Ref(i) => if i < h.len() {
            match h[i as int] {
                CellView::List(_) => crate::text::located_message("a list index must be an integer"@, kline as nat, kcol as nat),
                CellView::Dict(_) => crate::text::located_message("no entry under this key"@, kline as nat, kcol as nat),
                CellView::Str(_) => other,
            }
        } else {
            other
        },
        _ => other,
    }
}

/// Whether an exec result matches a specified one, error classes compared.
pub open spec fn result_matches(r: Result<Value, RunError>, s: Result<Value, ErrorKind>) -> bool {
    match s {
        Ok(v) => r == Ok::<Value, RunError>(v),
        Err(k) => r is Err && r->Err_0.kind == k,
    }
}

/// In a closed heap what a read gives names an existing cell, if it is a handle.
pub proof fn lemma_read_below(h: Seq<CellView>, c: Value, k: Value)
    ensures
        heap_closed(h) ==> (read_spec(h, c, k) matches Ok(v) ==> handle_below(v, h.len() as int)),
{
    if heap_closed(h) {
        if let Value::Ref(i) = c {
            if i < h.len() {
                assert(cell_below(h[i as int], h.len() as int));
                if let CellView::Dict(entries) = h[i as int] {
                    lemma_found_in_range(h, entries, k, 0);
                }
            }
        }
    }
}

/// A write of handles to existing cells keeps a closed heap closed.
pub proof fn lemma_write_closed(h: Seq<CellView>, c: Value, k: Value, w: Value)
    ensures
        (heap_closed(h) && handle_below(k, h.len() as int) && handle_below(w, h.len() as int))
            ==> heap_closed(write_spec(h, c, k, w).1) && write_spec(h, c, k, w).1.len() == h.len()
                && (write_spec(h, c, k, w).0 matches Ok(v) ==> handle_below(v, h.len() as int)),
{
    let m = h.len() as int;
    if heap_closed(h) && handle_below(k, m) && handle_below(w, m) {
        if let Value::Ref(i) = c {
            if i < h.len() {
                assert(cell_below(h[i as int], m));
                match h[i as int] {
                    CellView::List(items) => {
                        if let Value::Int(n) = k {
                            if 0 <= n < items.len() {
                                let items1 = items.update(n as int, w);
                                assert forall|j: int| 0 <= j < items1.len() implies handle_below(#[trigger] items1[j], m) by {
                                    if j != n {
                                        assert(items1[j] == items[j]);
                                    }
                                }
                                lemma_update_closed(h, i as int, CellView::List(items1));
                            }
                        }
                    },
                    CellView::Dict(entries) => {
                        let e1 = dict_put(h, entries, k, w);
                        lemma_found_in_range(h, entries, k, 0);
                        assert forall|j: int| 0 <= j < e1.len() implies handle_below((#[trigger] e1[j]).0, m) && handle_below(e1[j].1, m) by {
                            if j < entries.len() {
                                match find_key(h, entries, k) {
                                    Some(f) => {
                                        if j != f {
                                            assert(e1[j] == entries[j]);
                                        }
                                    },
                                    None => {
                                        assert(e1[j] == entries[j]);
                                    },
                                }
                            }
                        }
                        lemma_update_closed(h, i as int, CellView::Dict(e1));
                    },
                    _ => {},
                }
            }
        }
    }
}

fn not_indexable(line: usize, col: usize) -> (r: RunError)
    ensures
        r.kind == ErrorKind::TypeMismatch,
        r.message@ == crate::text::located_message("only lists and dictionaries can be indexed"@, line as nat, col as nat),
{
    error_at(ErrorKind::TypeMismatch, String::from_str("only lists and dictionaries can be indexed"), line, col)
}

fn not_integer(line: usize, col: usize) -> (r: RunError)
    ensures
        r.kind == ErrorKind::TypeMismatch,
        r.message@ == crate::text::located_message("a list index must be an integer"@, line as nat, col as nat),
{
    error_at(ErrorKind::TypeMismatch, String::from_str("a list index must be an integer"), line, col)
}

/// Reads `c[k]` (see `read_spec`). A wrong container is located at `line`, `col`; a wrong key
/// at `kline`, `kcol`.
pub fn index_read(heap: &Heap, c: Value, k: Value, line: usize, col: usize, kline: usize, kcol: usize) -> (r: Result<Value, RunError>)
    ensures
        result_matches(r, read_spec(heap@, c, k)),
        r matches Err(e) ==> e.message@ == index_message(heap@, c, k, line, col, kline, kcol),
        heap_closed(heap@) ==> (r matches Ok(v) ==> handle_below(v, heap@.len() as int)),
{
    proof { lemma_read_below(heap@, c, k); }
    match c {
        Value::Ref(i) => {
            if i >= heap.len() {
                return Err(not_indexable(line, col));
            }
            match heap.cell(i) {
                Cell::List(items) => match k {
                    Value::Int(n) => {
                        if 0 <= n && (n as u64) < (items.len() as u64) {
                            Ok(items[n as usize])
                        } else {
                            Ok(Value::Null)
                        }
                    },
                    _ => Err(not_integer(kline, kcol)),
                },
                Cell::Dict(_) => match heap.dict_lookup(i, k) {
                    Some(v) => Ok(v),
                    None => Err(error_at(ErrorKind::InvalidKey, String::from_str("no entry under this key"), kline, kcol)),
                },
                Cell::Str(_) => Err(not_indexable(line, col)),
            }
        },
        _ => Err(not_indexable(line, col)),
    }
}

/// Performs `c[k] = v` (see `write_spec`).
pub fn index_write(heap: &mut Heap, c: Value, k: Value, v: Value, line: usize, col: usize, kline: usize, kcol: usize) -> (r: Result<Value, RunError>)
    ensures
        result_matches(r, write_spec(old(heap)@, c, k, v).0),
        r matches Err(e) ==> e.message@ == index_message(old(heap)@, c, k, line, col, kline, kcol),
        final(heap)@ == write_spec(old(heap)@, c, k, v).1,
        (heap_closed(old(heap)@) && handle_below(k, old(heap)@.len() as int) && handle_below(v, old(heap)@.len() as int))
            ==> heap_closed(final(heap)@) && (r matches Ok(w) ==> handle_below(w, final(heap)@.len() as int)),
{
    proof { lemma_write_closed(old(heap)@, c, k, v); }
    match c {
        Value::Ref(i) => {
            if i >= heap.len() {
                return Err(not_indexable(line, col));
            }
            let is_list: Option<bool> = match heap.cell(i) {
                Cell::List(items) => match k {
                    Value::Int(n) => Some(0 <= n && (n as u64) < (items.len() as u64)),
                    _ => {
                        return Err(not_integer(kline, kcol));
                    },
                },
                Cell::Dict(_) => None,
                Cell::Str(_) => {
                    return Err(not_indexable(line, col));
                },
            };
            match is_list {
                Some(true) => {
                    if let Value::Int(n) = k {
                        heap.list_set(i, n as usize, v);
                    }
                    Ok(v)
                },
                Some(false) => Ok(Value::Null),
                None => {
                    heap.dict_store(i, k, v);
                    Ok(v)
                },
            }
        },
        _ => Err(not_indexable(line, col)),
    }
}

} // verus!
