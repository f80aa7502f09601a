use vstd::prelude::*;
use crate::value::Value;

verus! {

/// One frame of the scope chain as mathematical values: its bindings in order of declaration
/// and the frame it was opened in.
pub struct FrameView {
    pub bindings: Seq<(Seq<char>, Value)>,
    pub parent: Option<usize>,
}

/// The place of `name` among `b` from `start` on, the first if it is there twice.
pub open spec fn slot_from(b: Seq<(Seq<char>, Value)>, name: Seq<char>, start: int) -> Option<int>
    decreases b.len() - start,
{
    if start < 0 || start >= b.len() {
        None
    } else if b[start].0 == name {
        Some(start)
    } else {
        slot_from(b, name, start + 1)
    }
}

/// The place of `name` among the bindings `b`.
pub open spec fn slot_of(b: Seq<(Seq<char>, Value)>, name: Seq<char>) -> Option<int> {
    slot_from(b, name, 0)
}

/// The frame and the place at which `name` is found when looked up from frame `f`: the
/// innermost frame of the chain that binds it.
pub open spec fn resolve(fr: Seq<FrameView>, f: int, name: Seq<char>) -> Option<(int, int)>
    decreases f,
{
    if f < 0 || f >= fr.len() {
        None
    } else {
        match slot_of(fr[f].bindings, name) {
            Some(k) => Some((f, k)),
            None => match fr[f].parent {
                Some(p) => if p < f {
                    resolve(fr, p as int, name)
                } else {
                    None
                },
                None => None,
            },
        }
    }
}

/// The value that `name` has when looked up from frame `f`.
pub open spec fn lookup_value(fr: Seq<FrameView>, f: int, name: Seq<char>) -> Option<Value> {
    match resolve(fr, f, name) {
        Some((g, k)) => Some(fr[g].bindings[k].1),
        None => None,
    }
}

/// The frames after `name` is set to `v` where the lookup from `f` finds it.
pub open spec fn assign_value(fr: Seq<FrameView>, f: int, name: Seq<char>, v: Value) -> Seq<FrameView> {
    match resolve(fr, f, name) {
        Some((g, k)) => fr.update(
            g,
            FrameView { bindings: fr[g].bindings.update(k, (name, v)), parent: fr[g].parent },
        ),
        None => fr,
    }
}

/// The frames after `name` is bound to `v` in frame `f`.
pub open spec fn declare_value(fr: Seq<FrameView>, f: int, name: Seq<char>, v: Value) -> Seq<FrameView> {
    fr.update(f, FrameView { bindings: fr[f].bindings.push((name, v)), parent: fr[f].parent })
}

/// Every frame's parent was opened before it.
pub open spec fn frames_ordered(fr: Seq<FrameView>) -> bool {
    forall|f: int| 0 <= f < fr.len() ==> match #[trigger] fr[f].parent {
        Some(p) => p < f,
        None => true,
    }
}

/// Whether no binding of any frame holds a heap handle at or past `mark`.
pub open spec fn bindings_below(fr: Seq<FrameView>, mark: int) -> bool {
    forall|g: int, k: int| 0 <= g < fr.len() && 0 <= k < fr[g].bindings.len()
        ==> crate::heap::handle_below((#[trigger] fr[g].bindings[k]).1, mark)
}

/// A bound on the handles of the bindings holds for every larger bound too.
pub proof fn lemma_bindings_below_mono(fr: Seq<FrameView>, m: int, m2: int)
    requires
        bindings_below(fr, m),
        m <= m2,
    ensures
        bindings_below(fr, m2),
{
    assert forall|g: int, k: int| 0 <= g < fr.len() && 0 <= k < fr[g].bindings.len()
        implies crate::heap::handle_below((#[trigger] fr[g].bindings[k]).1, m2) by {
        assert(crate::heap::handle_below(fr[g].bindings[k].1, m));
    }
}

/// What the lookup finds is below every bound on the bindings' handles.
pub proof fn lemma_lookup_below(fr: Seq<FrameView>, f: int, name: Seq<char>, m: int)
    requires
        bindings_below(fr, m),
    ensures
        lookup_value(fr, f, name) matches Some(v) ==> crate::heap::handle_below(v, m),
{
    lemma_resolve_names(fr, f, name);
    match resolve(fr, f, name) {
        Some((g, k)) => {
            assert(crate::heap::handle_below(fr[g].bindings[k].1, m));
        },
        None => {},
    }
}

/// Declaring or assigning a value below a bound keeps the bindings below it.
pub proof fn lemma_store_below(fr: Seq<FrameView>, f: int, name: Seq<char>, v: Value, m: int)
    requires
        bindings_below(fr, m),
        crate::heap::handle_below(v, m),
    ensures
        0 <= f < fr.len() ==> bindings_below(declare_value(fr, f, name, v), m),
        bindings_below(assign_value(fr, f, name, v), m),
{
    if 0 <= f < fr.len() {
        let fr1 = declare_value(fr, f, name, v);
        assert forall|g: int, k: int| 0 <= g < fr1.len() && 0 <= k < fr1[g].bindings.len()
            implies crate::heap::handle_below((#[trigger] fr1[g].bindings[k]).1, m) by {
            if g != f || k < fr[f].bindings.len() {
                assert(fr1[g].bindings[k] == fr[g].bindings[k]);
            }
        }
    }
    lemma_resolve_names(fr, f, name);
    match resolve(fr, f, name) {
        Some((g0, k0)) => {
            let fr2 = assign_value(fr, f, name, v);
            assert forall|g: int, k: int| 0 <= g < fr2.len() && 0 <= k < fr2[g].bindings.len()
                implies crate::heap::handle_below((#[trigger] fr2[g].bindings[k]).1, m) by {
                if g != g0 || k != k0 {
                    assert(fr2[g].bindings[k] == fr[g].bindings[k]);
                }
            }
        },
        None => {},
    }
}

/// Opening an empty frame or dropping frames keeps the bindings below a bound.
pub proof fn lemma_frames_change_below(fr: Seq<FrameView>, parent: Option<usize>, n: int, m: int)
    requires
        bindings_below(fr, m),
        0 <= n <= fr.len(),
    ensures
        bindings_below(fr.push(FrameView { bindings: Seq::empty(), parent }), m),
        bindings_below(fr.subrange(0, n), m),
{
    let fr1 = fr.push(FrameView { bindings: Seq::empty(), parent });
    assert forall|g: int, k: int| 0 <= g < fr1.len() && 0 <= k < fr1[g].bindings.len()
        implies crate::heap::handle_below((#[trigger] fr1[g].bindings[k]).1, m) by {
        assert(fr1[g] == fr[g]);
    }
    let fr2 = fr.subrange(0, n);
    assert forall|g: int, k: int| 0 <= g < fr2.len() && 0 <= k < fr2[g].bindings.len()
        implies crate::heap::handle_below((#[trigger] fr2[g].bindings[k]).1, m) by {
        assert(fr2[g] == fr[g]);
    }
}

/// Whether frame `g` itself binds `name`.
pub open spec fn binds(fr: Seq<FrameView>, g: int, name: Seq<char>) -> bool {
    0 <= g < fr.len() && slot_of(fr[g].bindings, name) is Some
}

/// Every name that a frame of `a` binds, the same frame of `b` binds too.
pub open spec fn names_kept(a: Seq<FrameView>, b: Seq<FrameView>) -> bool {
    forall|g: int, name: Seq<char>| #[trigger] binds(a, g, name) ==> binds(b, g, name)
}

proof fn lemma_slot_from_push_kept(b: Seq<(Seq<char>, Value)>, e: (Seq<char>, Value), name: Seq<char>, start: int)
    requires
        0 <= start,
        slot_from(b, name, start) is Some,
    ensures
        slot_from(b.push(e), name, start) == slot_from(b, name, start),
    decreases b.len() - start,
{
    if start < b.len() {
        assert(b.push(e)[start] == b[start]);
        if b[start].0 != name {
            lemma_slot_from_push_kept(b, e, name, start + 1);
        }
    }
}

/// Declaring, assigning, opening a frame and dropping frames opened later keep every bound
/// name bound.
pub proof fn lemma_names_kept(fr: Seq<FrameView>, f: int, x: Seq<char>, v: Value, parent: Option<usize>)
    ensures
        0 <= f < fr.len() ==> names_kept(fr, declare_value(fr, f, x, v)),
        names_kept(fr, assign_value(fr, f, x, v)),
        names_kept(fr, fr.push(FrameView { bindings: Seq::empty(), parent })),
        names_kept(fr, fr),
{
    if 0 <= f < fr.len() {
        let fr1 = declare_value(fr, f, x, v);
        assert forall|g: int, name: Seq<char>| #[trigger] binds(fr, g, name) implies binds(fr1, g, name) by {
            if g == f {
                lemma_slot_from_push_kept(fr[f].bindings, (x, v), name, 0);
            } else {
                assert(fr1[g] == fr[g]);
            }
        }
    }
    let fr2 = assign_value(fr, f, x, v);
    lemma_resolve_names(fr, f, x);
    assert forall|g: int, name: Seq<char>| #[trigger] binds(fr, g, name) implies binds(fr2, g, name) by {
        match resolve(fr, f, x) {
            Some((g0, k0)) => {
                if g == g0 {
                    assert forall|k: int| 0 <= k < fr[g].bindings.len() implies (#[trigger] fr[g].bindings[k]).0 == fr2[g].bindings[k].0 by {
                    }
                    lemma_slot_from_same_names(fr[g].bindings, fr2[g].bindings, name, 0);
                } else {
                    assert(fr2[g] == fr[g]);
                }
            },
            None => {},
        }
    }
    let fr3 = fr.push(FrameView { bindings: Seq::empty(), parent });
    assert forall|g: int, name: Seq<char>| #[trigger] binds(fr, g, name) implies binds(fr3, g, name) by {
        assert(fr3[g] == fr[g]);
    }
}

/// Every name that a frame of `a` before `n` binds, the same frame of `b` binds too.
pub open spec fn names_kept_before(a: Seq<FrameView>, b: Seq<FrameView>, n: int) -> bool {
    forall|g: int, name: Seq<char>| #[trigger] binds(a, g, name) && g < n ==> binds(b, g, name)
}

/// Dropping the frames from `n` on keeps every name that a frame before `n` binds.
pub proof fn lemma_truncate_keeps_before(b: Seq<FrameView>, n: int)
    requires
        0 <= n <= b.len(),
    ensures
        names_kept_before(b, b.subrange(0, n), n),
{
    let c = b.subrange(0, n);
    assert forall|g: int, name: Seq<char>| #[trigger] binds(b, g, name) && g < n implies binds(c, g, name) by {
        assert(c[g] == b[g]);
    }
}

/// A frame: a name-to-value mapping and the frame it was opened in.
pub struct Frame {
    bindings: Vec<(String, Value)>,
    parent: Option<usize>,
}

impl View for Frame {
    type V = FrameView;

    closed spec fn view(&self) -> FrameView {
        FrameView { bindings: self.bindings@.map_values(|b: (String, Value)| (b.0@, b.1)), parent: self.parent }
    }
}

/// The scope chain: every frame opened so far, addressed by its index. A frame knows its
/// parent only to look names up; it does not own it.
pub struct Scopes {
    frames: Vec<Frame>,
}

impl View for Scopes {
    type V = Seq<FrameView>;

    closed spec fn view(&self) -> Seq<FrameView> {
        self.frames@.map_values(|f: Frame| f@)
    }
}

impl Scopes {
    pub open spec fn wf(&self) -> bool {
        frames_ordered(self@)
    }

    pub fn new() -> (r: Scopes)
        ensures
            r@ == Seq::<FrameView>::empty(),
            r.wf(),
    {
        let r = Scopes { frames: Vec::new() };
        assert(r@ =~= Seq::<FrameView>::empty());
        r
    }

    pub fn len(&self) -> (r: usize)
        ensures
            r == self@.len(),
    {
        self.frames.len()
    }

    /// Opens a new, empty frame under `parent`; its index is the previous number of frames.
    pub fn open(&mut self, parent: Option<usize>) -> (r: usize)
        requires
            old(self).wf(),
            parent matches Some(p) ==> p < old(self)@.len(),
        ensures
            final(self).wf(),
            final(self)@ == old(self)@.push(FrameView { bindings: Seq::empty(), parent }),
            r == old(self)@.len(),
    {
        let r = self.frames.len();
        let fr = Frame { bindings: Vec::new(), parent };
        assert(fr@.bindings =~= Seq::<(Seq<char>, Value)>::empty());
        self.frames.push(fr);
        assert(self@ =~= old(self)@.push(FrameView { bindings: Seq::empty(), parent }));
        r
    }

    /// Drops every frame from index `n` on.
    pub fn close_from(&mut self, n: usize)
        requires
            old(self).wf(),
            n <= old(self)@.len(),
        ensures
            final(self).wf(),
            final(self)@ == old(self)@.subrange(0, n as int),
    {
        self.frames.truncate(n);
        assert(self@ =~= old(self)@.subrange(0, n as int));
    }

    fn find_slot(b: &Vec<(String, Value)>, name: &String) -> (r: Option<usize>)
        ensures
            r matches Some(k) ==> k < b@.len(),
            ({
                let v = b@.map_values(|e: (String, Value)| (e.0@, e.1));
                match r {
                    Some(k) => slot_of(v, name@) == Some(k as int),
                    None => slot_of(v, name@) is None,
                }
            }),
    {
        let ghost v = b@.map_values(|e: (String, Value)| (e.0@, e.1));
        let mut k: usize = 0;
        while k < b.len()
            invariant
                k <= b@.len(),
                v == b@.map_values(|e: (String, Value)| (e.0@, e.1)),
                slot_from(v, name@, 0) == slot_from(v, name@, k as int),
            decreases b@.len() - k,
        {
            if b[k].0 == *name {
                return Some(k);
            }
            k = k + 1;
        }
        None
    }

    /// Whether no binding holds a heap handle at or past `mark`.
    pub fn bindings_stay_below(&self, mark: usize) -> (r: bool)
        ensures
            r == bindings_below(self@, mark as int),
    {
        let mut g: usize = 0;
        while g < self.frames.len()
            invariant
                g <= self@.len(),
                forall|g2: int, k: int| 0 <= g2 < g && 0 <= k < self@[g2].bindings.len()
                    ==> crate::heap::handle_below((#[trigger] self@[g2].bindings[k]).1, mark as int),
            decreases self@.len() - g,
        {
            let fr = &self.frames[g];
            assert(self@[g as int] == fr@);
            let mut k: usize = 0;
            while k < fr.bindings.len()
                invariant
                    g < self@.len(),
                    self@[g as int] == fr@,
                    k <= fr@.bindings.len(),
                    forall|g2: int, k3: int| 0 <= g2 < g && 0 <= k3 < self@[g2].bindings.len()
                        ==> crate::heap::handle_below((#[trigger] self@[g2].bindings[k3]).1, mark as int),
                    forall|k2: int| 0 <= k2 < k ==> crate::heap::handle_below((#[trigger] fr@.bindings[k2]).1, mark as int),
                decreases fr.bindings@.len() - k,
            {
                if let Value::Ref(t) = fr.bindings[k].1 {
                    if t >= mark {
                        assert(self@[g as int].bindings[k as int].1 == Value::Ref(t));
                        assert(!crate::heap::handle_below(self@[g as int].bindings[k as int].1, mark as int));
                        return false;
                    }
                }
                assert(fr@.bindings[k as int].1 == fr.bindings@[k as int].1);
                k = k + 1;
            }
            g = g + 1;
        }
        true
    }

    /// Whether frame `f` itself binds `name` (its parents are not consulted).
    pub fn binds_here(&self, f: usize, name: &String) -> (r: bool)
        requires
            f < self@.len(),
        ensures
            r == slot_of(self@[f as int].bindings, name@) is Some,
    {
        let fr = &self.frames[f];
        assert(self@[f as int] == fr@);
        Self::find_slot(&fr.bindings, name).is_some()
    }

    /// Binds `name` to `v` in frame `f`. Fails, changing nothing, when frame `f` itself binds
    /// `name` already; a binding of a parent frame does not stop it, it is shadowed.
    pub fn declare(&mut self, f: usize, name: &String, v: Value) -> (r: bool)
        requires
            old(self).wf(),
            f < old(self)@.len(),
        ensures
            final(self).wf(),
            r == slot_of(old(self)@[f as int].bindings, name@) is None,
            r ==> final(self)@ == declare_value(old(self)@, f as int, name@, v),
            !r ==> final(self)@ == old(self)@,
    {
        if self.binds_here(f, name) {
            return false;
        }
        let ghost before = self@;
        let mut tmp = Frame { bindings: Vec::new(), parent: None };
        self.frames.set_and_swap(f, &mut tmp);
        assert(tmp@ == before[f as int]);
        tmp.bindings.push((name.clone(), v));
        self.frames.set_and_swap(f, &mut tmp);
        assert(self@ =~= declare_value(before, f as int, name@, v)) by {
            assert(self.frames@[f as int]@.bindings =~= before[f as int].bindings.push((name@, v)));
        }
        true
    }

    /// The frame and place where the lookup of `name` from `f` finds it.
    fn locate(&self, f: usize, name: &String) -> (r: Option<(usize, usize)>)
        requires
            self.wf(),
            f < self@.len(),
        ensures
            match r {
                Some((g, k)) => resolve(self@, f as int, name@) == Some((g as int, k as int))
                    && g < self@.len() && k < self@[g as int].bindings.len(),
                None => resolve(self@, f as int, name@) is None,
            },
    {
        let mut cur = f;
        loop
            invariant
                self.wf(),
                cur < self@.len(),
                resolve(self@, f as int, name@) == resolve(self@, cur as int, name@),
            decreases cur,
        {
            let fr = &self.frames[cur];
            assert(self@[cur as int] == fr@);
            match Self::find_slot(&fr.bindings, name) {
                Some(k) => {
                    return Some((cur, k));
                },
                None => {
                    match fr.parent {
                        Some(p) => {
                            assert(self@[cur as int].parent == Some(p));
                            cur = p;
                        },
                        None => {
                            return None;
                        },
                    }
                },
            }
        }
    }

    /// The value of `name` as seen from frame `f`: the binding of the innermost frame of the
    /// chain that has one.
    pub fn lookup(&self, f: usize, name: &String) -> (r: Option<Value>)
        requires
            self.wf(),
            f < self@.len(),
        ensures
            r == lookup_value(self@, f as int, name@),
    {
        match self.locate(f, name) {
            Some((g, k)) => {
                let fr = &self.frames[g];
                assert(self@[g as int] == fr@);
                Some(fr.bindings[k].1)
            },
            None => None,
        }
    }

    /// Sets `name` to `v` in the frame where the lookup from `f` finds it, which need not be the
    /// innermost one. Fails, changing nothing, when no frame of the chain binds `name`.
    pub fn assign(&mut self, f: usize, name: &String, v: Value) -> (r: bool)
        requires
            old(self).wf(),
            f < old(self)@.len(),
        ensures
            final(self).wf(),
            r == resolve(old(self)@, f as int, name@) is Some,
            final(self)@ == assign_value(old(self)@, f as int, name@, v),
    {
        match self.locate(f, name) {
            Some((g, k)) => {
                let ghost before = self@;
                let mut tmp = Frame { bindings: Vec::new(), parent: None };
                self.frames.set_and_swap(g, &mut tmp);
                assert(tmp@ == before[g as int]);
                assert(tmp@.bindings[k as int].0 == name@) by {
                    lemma_resolve_names(before, f as int, name@);
                }
                tmp.bindings.set(k, (name.clone(), v));
                self.frames.set_and_swap(g, &mut tmp);
                assert(self@ =~= assign_value(before, f as int, name@, v)) by {
                    assert(self.frames@[g as int]@.bindings =~= before[g as int].bindings.update(k as int, (name@, v)));
                }
                true
            },
            None => false,
        }
    }
}

proof fn lemma_slot_from_names(b: Seq<(Seq<char>, Value)>, name: Seq<char>, start: int)
    ensures
        slot_from(b, name, start) matches Some(k) ==> 0 <= k < b.len() && b[k].0 == name,
    decreases b.len() - start,
{
    if start >= 0 && start < b.len() && b[start].0 != name {
        lemma_slot_from_names(b, name, start + 1);
    }
}

/// What the lookup finds is a binding of that name.
pub proof fn lemma_resolve_names(fr: Seq<FrameView>, f: int, name: Seq<char>)
    ensures
        resolve(fr, f, name) matches Some((g, k)) ==> 0 <= g <= f && g < fr.len() && 0 <= k
            < fr[g].bindings.len() && fr[g].bindings[k].0 == name,
    decreases f,
{
    if 0 <= f < fr.len() {
        lemma_slot_from_names(fr[f].bindings, name, 0);
        match slot_of(fr[f].bindings, name) {
            Some(k) => {},
            None => match fr[f].parent {
                Some(p) => if p < f {
                    lemma_resolve_names(fr, p as int, name);
                },
                None => {},
            },
        }
    }
}

/// Two frame sequences of one shape: the same frames, parents and binding names.
pub open spec fn same_shape(a: Seq<FrameView>, b: Seq<FrameView>) -> bool {
    &&& a.len() == b.len()
    &&& forall|g: int| 0 <= g < a.len() ==> (#[trigger] a[g]).parent == b[g].parent
        && a[g].bindings.len() == b[g].bindings.len()
    &&& forall|g: int, k: int| 0 <= g < a.len() && 0 <= k < a[g].bindings.len()
        ==> (#[trigger] a[g].bindings[k]).0 == b[g].bindings[k].0
}

pub proof fn lemma_slot_from_same_names(b1: Seq<(Seq<char>, Value)>, b2: Seq<(Seq<char>, Value)>, name: Seq<char>, start: int)
    requires
        b1.len() == b2.len(),
        forall|k: int| 0 <= k < b1.len() ==> (#[trigger] b1[k]).0 == b2[k].0,
    ensures
        slot_from(b1, name, start) == slot_from(b2, name, start),
    decreases b1.len() - start,
{
    if start >= 0 && start < b1.len() {
        lemma_slot_from_same_names(b1, b2, name, start + 1);
    }
}

/// The lookup depends only on the shape of the frames, not on the values bound.
pub proof fn lemma_resolve_same_shape(a: Seq<FrameView>, b: Seq<FrameView>, f: int, name: Seq<char>)
    requires
        same_shape(a, b),
    ensures
        resolve(a, f, name) == resolve(b, f, name),
    decreases f,
{
    if 0 <= f < a.len() {
        assert(a[f].parent == b[f].parent);
        assert forall|k: int| 0 <= k < a[f].bindings.len() implies (#[trigger] a[f].bindings[k]).0 == b[f].bindings[k].0 by {
            assert(a[f].bindings[k].0 == b[f].bindings[k].0);
        }
        lemma_slot_from_same_names(a[f].bindings, b[f].bindings, name, 0);
        match a[f].parent {
            Some(p) => if p < f {
                lemma_resolve_same_shape(a, b, p as int, name);
            },
            None => {},
        }
    }
}

/// An assignment changes one binding's value: the lookup of the assigned name gives the new
/// value, and the lookup of every other name, from every frame, is unchanged.
pub proof fn lemma_assign_effect(fr: Seq<FrameView>, f: int, x: Seq<char>, v: Value, g: int, y: Seq<char>)
    requires
        resolve(fr, f, x) is Some,
    ensures
        lookup_value(assign_value(fr, f, x, v), f, x) == Some(v),
        y != x ==> lookup_value(assign_value(fr, f, x, v), g, y) == lookup_value(fr, g, y),
{
    let fr1 = assign_value(fr, f, x, v);
    lemma_resolve_names(fr, f, x);
    let (gx, kx) = resolve(fr, f, x)->0;
    assert(same_shape(fr, fr1)) by {
        assert forall|g2: int, k: int| 0 <= g2 < fr.len() && 0 <= k < fr[g2].bindings.len()
            implies (#[trigger] fr[g2].bindings[k]).0 == fr1[g2].bindings[k].0 by {
            if g2 == gx && k == kx {
            }
        }
    }
    lemma_resolve_same_shape(fr, fr1, f, x);
    lemma_resolve_same_shape(fr, fr1, g, y);
    lemma_resolve_names(fr, g, y);
}

pub proof fn lemma_slot_from_push(b: Seq<(Seq<char>, Value)>, name: Seq<char>, v: Value, start: int)
    requires
        0 <= start <= b.len(),
        slot_from(b, name, start) is None,
    ensures
        slot_from(b.push((name, v)), name, start) == Some(b.len() as int),
    decreases b.len() - start,
{
    let b1 = b.push((name, v));
    if start < b.len() {
        assert(b1[start] == b[start]);
        lemma_slot_from_push(b, name, v, start + 1);
    }
}

/// A lookup from frame `p` reads only frames up to `p`: changing later frames changes nothing.
pub proof fn lemma_resolve_reads_below(a: Seq<FrameView>, b: Seq<FrameView>, p: int, name: Seq<char>)
    requires
        frames_ordered(a),
        0 <= p < a.len() <= b.len(),
        forall|g: int| 0 <= g <= p ==> #[trigger] a[g] == b[g],
    ensures
        resolve(a, p, name) == resolve(b, p, name),
    decreases p,
{
    assert(a[p] == b[p]);
    match a[p].parent {
        Some(q) => {
            if q < p {
                lemma_resolve_reads_below(a, b, q as int, name);
            }
        },
        None => {},
    }
}

/// Declaring `x` in a frame `c` that does not bind it yet: the lookup from `c` now gives the
/// new value, a second declaration there would fail, and the lookup from every earlier frame
/// (the parent of `c` among them) is unchanged, so a parent's binding of `x` is shadowed,
/// not altered.
pub proof fn lemma_declare_effect(fr: Seq<FrameView>, c: int, x: Seq<char>, v: Value, p: int)
    requires
        frames_ordered(fr),
        0 <= c < fr.len(),
        slot_of(fr[c].bindings, x) is None,
    ensures
        lookup_value(declare_value(fr, c, x, v), c, x) == Some(v),
        slot_of(declare_value(fr, c, x, v)[c].bindings, x) is Some,
        0 <= p < c ==> lookup_value(declare_value(fr, c, x, v), p, x) == lookup_value(fr, p, x),
{
    let fr1 = declare_value(fr, c, x, v);
    lemma_slot_from_push(fr[c].bindings, x, v, 0);
    assert(fr1[c].bindings[fr[c].bindings.len() as int] == (x, v));
    if 0 <= p < c {
        assert forall|g: int| 0 <= g <= p implies #[trigger] fr[g] == fr1[g] by {}
        lemma_resolve_reads_below(fr, fr1, p, x);
        lemma_resolve_names(fr, p, x);
    }
}

} // verus!
