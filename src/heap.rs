use vstd::prelude::*;
use crate::value::{Cell, CellView, Value};

verus! {

/// Structural equality of two values over the heap `h`, looking at most `fuel` cells deep.
/// Two handles of one cell are equal; two cells are equal when they are strings with the same
/// text, lists with pairwise equal elements, or dictionaries of one size each of whose entries
/// the other holds (an equal key with an equal value). Any other two values are equal when they
/// are the same value.
pub open spec fn deep_eq(h: Seq<CellView>, a: Value, b: Value, fuel: nat) -> bool
    decreases fuel, 0nat, 0nat,
{
    match (a, b) {
        (Value::Ref(i), Value::Ref(j)) => i == j || (i < h.len() && j < h.len() && fuel > 0
            && cells_eq(h, h[i as int], h[j as int], (fuel - 1) as nat)),
        _ => a == b,
    }
}

pub open spec fn cells_eq(h: Seq<CellView>, x: CellView, y: CellView, fuel: nat) -> bool
    decreases fuel, 3nat, 0nat,
{
    match (x, y) {
        (CellView::Str(s), CellView::Str(t)) => s == t,
        (CellView::List(p), CellView::List(q)) => p.len() == q.len() && lists_eq_from(h, p, q, 0, fuel),
        (CellView::Dict(p), CellView::Dict(q)) => p.len() == q.len() && entries_in_from(h, p, q, 0, fuel),
        _ => false,
    }
}

/// Whether the elements of `p` from `k` on equal those of `q` at the same places.
pub open spec fn lists_eq_from(h: Seq<CellView>, p: Seq<Value>, q: Seq<Value>, k: int, fuel: nat) -> bool
    decreases fuel, 2nat, p.len() - k,
{
    if k < 0 || k >= p.len() {
        true
    } else {
        k < q.len() && deep_eq(h, p[k], q[k], fuel) && lists_eq_from(h, p, q, k + 1, fuel)
    }
}

/// Whether every entry of `p` from `k` on has an equal entry in `q`.
pub open spec fn entries_in_from(h: Seq<CellView>, p: Seq<(Value, Value)>, q: Seq<(Value, Value)>, k: int, fuel: nat) -> bool
    decreases fuel, 2nat, p.len() - k,
{
    if k < 0 || k >= p.len() {
        true
    } else {
        entry_in_from(h, q, p[k], 0, fuel) && entries_in_from(h, p, q, k + 1, fuel)
    }
}

/// Whether an entry of `q` from `m` on equals `e`, key and value.
pub open spec fn entry_in_from(h: Seq<CellView>, q: Seq<(Value, Value)>, e: (Value, Value), m: int, fuel: nat) -> bool
    decreases fuel, 1nat, q.len() - m,
{
    if m < 0 || m >= q.len() {
        false
    } else {
        (deep_eq(h, e.0, q[m].0, fuel) && deep_eq(h, e.1, q[m].1, fuel)) || entry_in_from(h, q, e, m + 1, fuel)
    }
}

/// Structural equality with the heap's size as the depth bound, which is the whole structure
/// of every value that nests no cell inside itself.
pub open spec fn same_value(h: Seq<CellView>, a: Value, b: Value) -> bool {
    deep_eq(h, a, b, h.len())
}

/// The first index from `start` on whose key is structurally equal to `key`.
pub open spec fn find_key_from(h: Seq<CellView>, entries: Seq<(Value, Value)>, key: Value, start: int) -> Option<int>
    decreases entries.len() - start,
{
    if start < 0 || start >= entries.len() {
        None
    } else if same_value(h, key, entries[start].0) {
        Some(start)
    } else {
        find_key_from(h, entries, key, start + 1)
    }
}

/// The index of the entry whose key is structurally equal to `key`, the first if several are.
pub open spec fn find_key(h: Seq<CellView>, entries: Seq<(Value, Value)>, key: Value) -> Option<int> {
    find_key_from(h, entries, key, 0)
}

/// The entries of a dictionary after `key` is set to `v`: the entry of an equal key takes the
/// new value, or a new entry is added at the end.
pub open spec fn dict_put(h: Seq<CellView>, entries: Seq<(Value, Value)>, key: Value, v: Value) -> Seq<(Value, Value)> {
    match find_key(h, entries, key) {
        Some(j) => entries.update(j, (entries[j].0, v)),
        None => entries.push((key, v)),
    }
}

/// The value stored under `key` in the dictionary entries, if an equal key is there.
pub open spec fn dict_get(h: Seq<CellView>, entries: Seq<(Value, Value)>, key: Value) -> Option<Value> {
    match find_key(h, entries, key) {
        Some(j) => Some(entries[j].1),
        None => None,
    }
}

/// Whether `v` holds no handle at or past `mark`.
pub open spec fn handle_below(v: Value, mark: int) -> bool {
    v matches Value::Ref(i) ==> i < mark
}

/// Whether no element, key or value of cell `c` holds a handle at or past `mark`.
pub open spec fn cell_below(c: CellView, mark: int) -> bool {
    match c {
        CellView::Str(_) => true,
        CellView::List(p) => forall|k: int| 0 <= k < p.len() ==> handle_below(#[trigger] p[k], mark),
        CellView::Dict(d) => forall|k: int| 0 <= k < d.len() ==> handle_below((#[trigger] d[k]).0, mark)
            && handle_below(d[k].1, mark),
    }
}

/// Whether no cell before `mark` holds a handle at or past `mark`.
pub open spec fn cells_below(h: Seq<CellView>, mark: int) -> bool {
    forall|i: int| 0 <= i < mark && i < h.len() ==> cell_below(#[trigger] h[i], mark)
}

/// Every handle that a cell holds names an existing cell.
pub open spec fn heap_closed(h: Seq<CellView>) -> bool {
    cells_below(h, h.len() as int)
}

/// A bound on handles holds for every larger bound too.
pub proof fn lemma_cell_below_mono(c: CellView, m: int, m2: int)
    requires
        cell_below(c, m),
        m <= m2,
    ensures
        cell_below(c, m2),
{
}

/// Storing a cell whose handles name existing cells keeps the heap closed.
pub proof fn lemma_push_closed(h: Seq<CellView>, c: CellView)
    requires
        heap_closed(h),
        cell_below(c, h.len() as int),
    ensures
        heap_closed(h.push(c)),
{
    let h1 = h.push(c);
    assert forall|i: int| 0 <= i < h1.len() as int && i < h1.len() implies cell_below(#[trigger] h1[i], h1.len() as int) by {
        if i < h.len() {
            assert(h1[i] == h[i]);
            lemma_cell_below_mono(h[i], h.len() as int, h1.len() as int);
        } else {
            lemma_cell_below_mono(c, h.len() as int, h1.len() as int);
        }
    }
}

/// Replacing a cell by one whose handles name existing cells keeps the heap closed.
pub proof fn lemma_update_closed(h: Seq<CellView>, i: int, c: CellView)
    requires
        heap_closed(h),
        0 <= i < h.len(),
        cell_below(c, h.len() as int),
    ensures
        heap_closed(h.update(i, c)),
{
    let h1 = h.update(i, c);
    assert forall|j: int| 0 <= j < h1.len() as int && j < h1.len() implies cell_below(#[trigger] h1[j], h1.len() as int) by {
        if j != i {
            assert(h1[j] == h[j]);
        }
    }
}

/// The place `find_key_from` gives is one of the entries.
pub proof fn lemma_found_in_range(h: Seq<CellView>, entries: Seq<(Value, Value)>, key: Value, s: int)
    ensures
        find_key_from(h, entries, key, s) matches Some(j) ==> s <= j < entries.len(),
    decreases entries.len() - s,
{
    if 0 <= s < entries.len() {
        lemma_found_in_range(h, entries, key, s + 1);
    }
}

/// The heap: one storage place for each string, list and dictionary, addressed by handle.
pub struct Heap {
    cells: Vec<Cell>,
}

impl View for Heap {
    type V = Seq<CellView>;

    closed spec fn view(&self) -> Seq<CellView> {
        self.cells@.map_values(|c: Cell| c@)
    }
}

impl Heap {
    pub fn new() -> (r: Heap)
        ensures
            r@ == Seq::<CellView>::empty(),
    {
        let r = Heap { cells: Vec::new() };
        assert(r@ =~= Seq::<CellView>::empty());
        r
    }

    pub fn len(&self) -> (r: usize)
        ensures
            r == self@.len(),
    {
        self.cells.len()
    }

    pub fn cell(&self, i: usize) -> (r: &Cell)
        requires
            i < self@.len(),
        ensures
            r@ == self@[i as int],
    {
        &self.cells[i]
    }

    /// Stores a new cell; its handle is the previous number of cells.
    pub fn store(&mut self, c: Cell) -> (r: usize)
        ensures
            final(self)@ == old(self)@.push(c@),
            r == old(self)@.len(),
    {
        let r = self.cells.len();
        self.cells.push(c);
        assert(self@ =~= old(self)@.push(c@));
        r
    }

    /// Replaces element `k` of the list in cell `i`.
    pub fn list_set(&mut self, i: usize, k: usize, v: Value)
        requires
            i < old(self)@.len(),
            old(self)@[i as int] is List,
            k < old(self)@[i as int]->List_0.len(),
        ensures
            final(self)@ == old(self)@.update(
                i as int,
                CellView::List(old(self)@[i as int]->List_0.update(k as int, v)),
            ),
    {
        let mut tmp = Cell::List(Vec::new());
        self.cells.set_and_swap(i, &mut tmp);
        match tmp {
            Cell::List(mut items) => {
                items.set(k, v);
                let mut back = Cell::List(items);
                self.cells.set_and_swap(i, &mut back);
            },
            _ => {},
        }
        assert(self@ =~= old(self)@.update(
            i as int,
            CellView::List(old(self)@[i as int]->List_0.update(k as int, v)),
        ));
    }

    /// Whether `q` holds an entry equal to `e`, key and value, within depth `fuel`.
    fn entry_present(&self, q: &Vec<(Value, Value)>, e: (Value, Value), fuel: usize) -> (r: bool)
        ensures
            r == entry_in_from(self@, q@, e, 0, fuel as nat),
        decreases fuel, 1nat,
    {
        let mut m: usize = 0;
        while m < q.len()
            invariant
                m <= q@.len(),
                entry_in_from(self@, q@, e, 0, fuel as nat) == entry_in_from(self@, q@, e, m as int, fuel as nat),
            decreases q@.len() - m,
        {
            let o = q[m];
            if self.deep_equal(e.0, o.0, fuel) && self.deep_equal(e.1, o.1, fuel) {
                return true;
            }
            m = m + 1;
        }
        false
    }

    /// Structural equality with a depth bound (see `deep_eq`).
    pub fn deep_equal(&self, a: Value, b: Value, fuel: usize) -> (r: bool)
        ensures
            r == deep_eq(self@, a, b, fuel as nat),
        decreases fuel, 0nat,
    {
        match (a, b) {
            (Value::Ref(i), Value::Ref(j)) => {
                if i == j {
                    return true;
                }
                if i >= self.cells.len() || j >= self.cells.len() || fuel == 0 {
                    return false;
                }
                let f = fuel - 1;
                let ghost h = self@;
                let ci = &self.cells[i];
                let cj = &self.cells[j];
                assert(h[i as int] == ci@);
                assert(h[j as int] == cj@);
                assert(deep_eq(h, a, b, fuel as nat) == cells_eq(h, ci@, cj@, f as nat));
                match (ci, cj) {
                    (Cell::Str(s), Cell::Str(t)) => *s == *t,
                    (Cell::List(p), Cell::List(q)) => {
                        if p.len() != q.len() {
                            return false;
                        }
                        let mut k: usize = 0;
                        while k < p.len()
                            invariant
                                k <= p@.len() == q@.len(),
                                f + 1 == fuel,
                                h == self@,
                                lists_eq_from(h, p@, q@, 0, f as nat) == lists_eq_from(h, p@, q@, k as int, f as nat),
                                deep_eq(h, a, b, fuel as nat) == cells_eq(h, CellView::List(p@), CellView::List(q@), f as nat),
                            decreases p@.len() - k,
                        {
                            if !self.deep_equal(p[k], q[k], f) {
                                assert(!lists_eq_from(h, p@, q@, k as int, f as nat));
                                return false;
                            }
                            k = k + 1;
                        }
                        true
                    },
                    (Cell::Dict(p), Cell::Dict(q)) => {
                        if p.len() != q.len() {
                            return false;
                        }
                        let mut k: usize = 0;
                        while k < p.len()
                            invariant
                                k <= p@.len() == q@.len(),
                                f + 1 == fuel,
                                h == self@,
                                entries_in_from(h, p@, q@, 0, f as nat) == entries_in_from(h, p@, q@, k as int, f as nat),
                                deep_eq(h, a, b, fuel as nat) == cells_eq(h, CellView::Dict(p@), CellView::Dict(q@), f as nat),
                            decreases p@.len() - k,
                        {
                            if !self.entry_present(q, p[k], f) {
                                assert(!entries_in_from(h, p@, q@, k as int, f as nat));
                                return false;
                            }
                            k = k + 1;
                        }
                        true
                    },
                    _ => false,
                }
            },
            _ => a == b,
        }
    }

    /// Structural equality over the whole heap (see `same_value`).
    pub fn same(&self, a: Value, b: Value) -> (r: bool)
        ensures
            r == same_value(self@, a, b),
    {
        self.deep_equal(a, b, self.cells.len())
    }

    /// The index of the entry of `entries` whose key is structurally equal to `key`.
    pub fn find_key(&self, entries: &Vec<(Value, Value)>, key: Value) -> (r: Option<usize>)
        ensures
            r matches Some(j) ==> find_key(self@, entries@, key) == Some(j as int) && j < entries@.len(),
            r is None ==> find_key(self@, entries@, key) is None,
    {
        let mut j: usize = 0;
        while j < entries.len()
            invariant
                j <= entries@.len(),
                find_key_from(self@, entries@, key, 0) == find_key_from(self@, entries@, key, j as int),
            decreases entries@.len() - j,
        {
            if self.same(key, entries[j].0) {
                return Some(j);
            }
            j = j + 1;
        }
        None
    }

    /// Reads the value stored under `key` in the dictionary in cell `i`.
    pub fn dict_lookup(&self, i: usize, key: Value) -> (r: Option<Value>)
        requires
            i < self@.len(),
            self@[i as int] is Dict,
        ensures
            r == dict_get(self@, self@[i as int]->Dict_0, key),
    {
        let c = &self.cells[i];
        assert(self@[i as int] == c@);
        match c {
            Cell::Dict(entries) => {
                match self.find_key(entries, key) {
                    Some(j) => Some(entries[j].1),
                    None => None,
                }
            },
            _ => None,
        }
    }

    /// Sets `key` to `v` in the dictionary in cell `i` (see `dict_put`).
    pub fn dict_store(&mut self, i: usize, key: Value, v: Value)
        requires
            i < old(self)@.len(),
            old(self)@[i as int] is Dict,
        ensures
            final(self)@ == old(self)@.update(
                i as int,
                CellView::Dict(dict_put(old(self)@, old(self)@[i as int]->Dict_0, key, v)),
            ),
    {
        let ghost h = self@;
        let c = &self.cells[i];
        assert(h[i as int] == c@);
        let found = match c {
            Cell::Dict(entries) => self.find_key(entries, key),
            _ => None,
        };
        let mut tmp = Cell::List(Vec::new());
        self.cells.set_and_swap(i, &mut tmp);
        assert(tmp@ == h[i as int]);
        match tmp {
            Cell::Dict(mut entries) => {
                match found {
                    Some(j) => {
                        let k = entries[j].0;
                        entries.set(j, (k, v));
                    },
                    None => {
                        entries.push((key, v));
                    },
                }
                let mut back = Cell::Dict(entries);
                self.cells.set_and_swap(i, &mut back);
            },
            _ => {},
        }
        assert(self@ =~= h.update(i as int, CellView::Dict(dict_put(h, h[i as int]->Dict_0, key, v))));
    }

    /// Whether no cell before `mark` holds a handle at or past `mark`.
    pub fn cells_before_stay_below(&self, mark: usize) -> (r: bool)
        ensures
            r == cells_below(self@, mark as int),
    {
        let mut i: usize = 0;
        while i < mark && i < self.cells.len()
            invariant
                i <= self@.len(),
                forall|j: int| 0 <= j < i && j < mark && j < self@.len() ==> cell_below(#[trigger] self@[j], mark as int),
            decreases self@.len() - i,
        {
            let c = &self.cells[i];
            assert(self@[i as int] == c@);
            match c {
                Cell::Str(_) => {},
                Cell::List(p) => {
                    let mut k: usize = 0;
                    while k < p.len()
                        invariant
                            i < mark,
                            i < self@.len(),
                            self@[i as int] == CellView::List(p@),
                            k <= p@.len(),
                            forall|j: int| 0 <= j < i && j < mark && j < self@.len() ==> cell_below(#[trigger] self@[j], mark as int),
                            forall|j: int| 0 <= j < k ==> handle_below(#[trigger] p@[j], mark as int),
                        decreases p@.len() - k,
                    {
                        if let Value::Ref(t) = p[k] {
                            if t >= mark {
                                assert(!handle_below(p@[k as int], mark as int));
                                assert(self@[i as int]->List_0 == p@);
                                assert(!cell_below(self@[i as int], mark as int));
                                return false;
                            }
                        }
                        k = k + 1;
                    }
                    assert(cell_below(self@[i as int], mark as int));
                },
                Cell::Dict(d) => {
                    let mut k: usize = 0;
                    while k < d.len()
                        invariant
                            i < mark,
                            i < self@.len(),
                            self@[i as int] == CellView::Dict(d@),
                            k <= d@.len(),
                            forall|j: int| 0 <= j < i && j < mark && j < self@.len() ==> cell_below(#[trigger] self@[j], mark as int),
                            forall|j: int| 0 <= j < k ==> handle_below((#[trigger] d@[j]).0, mark as int) && handle_below(d@[j].1, mark as int),
                        decreases d@.len() - k,
                    {
                        let e = d[k];
                        if let Value::Ref(t) = e.0 {
                            if t >= mark {
                                assert(!handle_below(d@[k as int].0, mark as int));
                                assert(self@[i as int]->Dict_0 == d@);
                                assert(!cell_below(self@[i as int], mark as int));
                                return false;
                            }
                        }
                        if let Value::Ref(t) = e.1 {
                            if t >= mark {
                                assert(!handle_below(d@[k as int].1, mark as int));
                                assert(self@[i as int]->Dict_0 == d@);
                                assert(!cell_below(self@[i as int], mark as int));
                                return false;
                            }
                        }
                        k = k + 1;
                    }
                    assert(cell_below(self@[i as int], mark as int));
                },
            }
            i = i + 1;
        }
        true
    }

    /// Drops every cell from `mark` on.
    pub fn close_from(&mut self, mark: usize)
        requires
            mark <= old(self)@.len(),
        ensures
            final(self)@ == old(self)@.subrange(0, mark as int),
    {
        self.cells.truncate(mark);
        assert(self@ =~= old(self)@.subrange(0, mark as int));
    }
}

} // verus!
