//! The output registry: the displays known to a backend, in discovery order.

use vstd::prelude::*;

use crate::seq_facts::{lemma_filter_from, lemma_filter_no_duplicates, lemma_filter_prefix_step};

verus! {

/// One physical display: identity, logical placement and size, and whether
/// the platform reports it as the primary display.
#[derive(Clone, Copy, Debug, PartialEq, Eq, Structural)]
pub struct Output {
    pub id: u32,
    pub x: i32,
    pub y: i32,
    pub width: u32,
    pub height: u32,
    pub primary: bool,
}

/// A span that starts at `start` and is `len` long ends inside the `i32`
/// coordinate space.
pub open spec fn span_fits(start: i32, len: u32) -> bool {
    start as int + len as int <= i32::MAX as int
}

/// Tests `span_fits`.
pub fn span_fits_exec(start: i32, len: u32) -> (r: bool)
    ensures
        r == span_fits(start, len),
{
    (start as i64) + (len as i64) <= (i32::MAX as i64)
}

impl Output {
    /// The output's rectangle lies inside the `i32` coordinate space.
    pub open spec fn fits(self) -> bool {
        span_fits(self.x, self.width) && span_fits(self.y, self.height)
    }
}

/// A notification from a backend's output-discovery feed.
#[derive(Clone, Copy, Debug, PartialEq, Eq, Structural)]
pub enum OutputEvent {
    /// A display appeared; its geometry follows in later events.
    Discovered { id: u32, primary: bool },
    /// A display was lost.
    Removed { id: u32 },
    /// A display's logical top-left corner changed.
    Moved { id: u32, x: i32, y: i32 },
    /// A display's logical size changed.
    Resized { id: u32, width: u32, height: u32 },
}

/// Some output in `s` carries `id`.
pub open spec fn has_id(s: Seq<Output>, id: u32) -> bool {
    exists|i: int| 0 <= i < s.len() && s[i].id == id
}

/// No two outputs in `s` share an id.
pub open spec fn ids_unique(s: Seq<Output>) -> bool {
    forall|i: int, j: int| 0 <= i < s.len() && 0 <= j < s.len() && i != j ==> s[i].id != s[j].id
}

/// Every output in `s` lies inside the coordinate space.
pub open spec fn all_fit(s: Seq<Output>) -> bool {
    forall|i: int| 0 <= i < s.len() ==> s[i].fits()
}

/// The ids of `s`, in order.
pub open spec fn ids_of(s: Seq<Output>) -> Seq<u32> {
    s.map_values(|o: Output| o.id)
}

/// The output in `s` that carries `id` (the first, should several).
pub open spec fn output_with(s: Seq<Output>, id: u32) -> Output
    recommends
        has_id(s, id),
{
    s[choose|k: int| 0 <= k < s.len() && s[k].id == id]
}

/// Keeps the outputs whose id is not `id`.
pub open spec fn id_is_not(id: u32) -> spec_fn(Output) -> bool {
    |o: Output| o.id != id
}

/// Keeps the values other than `id`.
pub open spec fn other_than(id: u32) -> spec_fn(u32) -> bool {
    |v: u32| v != id
}

/// `o` moved to `(x, y)`, unless the result would leave the coordinate space.
pub open spec fn moved_to(o: Output, x: i32, y: i32) -> Output {
    let m = Output { x: x, y: y, ..o };
    if m.fits() {
        m
    } else {
        o
    }
}

/// `o` resized to `width` x `height`, unless the result would leave the
/// coordinate space.
pub open spec fn resized_to(o: Output, width: u32, height: u32) -> Output {
    let m = Output { width: width, height: height, ..o };
    if m.fits() {
        m
    } else {
        o
    }
}

/// The outputs after one event.
pub open spec fn outputs_after(s: Seq<Output>, e: OutputEvent) -> Seq<Output> {
    match e {
        OutputEvent::Discovered { id, primary } => {
            if has_id(s, id) {
                s
            } else {
                s.push(Output { id: id, x: 0, y: 0, width: 0, height: 0, primary: primary })
            }
        },
        OutputEvent::Removed { id } => s.filter(id_is_not(id)),
        OutputEvent::Moved { id, x, y } => s.map_values(
            |o: Output|
                if o.id == id {
                    moved_to(o, x, y)
                } else {
                    o
                },
        ),
        OutputEvent::Resized { id, width, height } => s.map_values(
            |o: Output|
                if o.id == id {
                    resized_to(o, width, height)
                } else {
                    o
                },
        ),
    }
}

/// The outputs after a sequence of events, applied in order.
pub open spec fn outputs_after_all(s: Seq<Output>, events: Seq<OutputEvent>) -> Seq<Output>
    decreases events.len(),
{
    if events.len() == 0 {
        s
    } else {
        outputs_after(outputs_after_all(s, events.drop_last()), events.last())
    }
}

/// The ids with a pending geometry notification after one event: a move or a
/// resize of a known output marks it, a loss unmarks it.
pub open spec fn dirty_after(d: Seq<u32>, s: Seq<Output>, e: OutputEvent) -> Seq<u32> {
    match e {
        OutputEvent::Discovered { .. } => d,
        OutputEvent::Removed { id } => d.filter(other_than(id)),
        OutputEvent::Moved { id, .. } => {
            if has_id(s, id) && !d.contains(id) {
                d.push(id)
            } else {
                d
            }
        },
        OutputEvent::Resized { id, .. } => {
            if has_id(s, id) && !d.contains(id) {
                d.push(id)
            } else {
                d
            }
        },
    }
}

/// The displays known to one backend, in first-seen-first order, with the ids
/// whose geometry changed since the last time they were taken.
pub struct OutputRegistry {
    outputs: Vec<Output>,
    dirty: Vec<u32>,
}

/// Filtering keeps the ids of a sequence of outputs unique.
proof fn lemma_filter_keeps_ids_unique(s: Seq<Output>, pred: spec_fn(Output) -> bool)
    requires
        ids_unique(s),
    ensures
        ids_unique(s.filter(pred)),
    decreases s.len(),
{
    reveal(Seq::filter);
    if s.len() > 0 {
        let rest = s.drop_last();
        lemma_filter_keeps_ids_unique(rest, pred);
        if pred(s.last()) {
            let f = rest.filter(pred);
            assert forall|k: int| 0 <= k < f.len() implies f[k].id != s.last().id by {
                lemma_filter_from(rest, pred, k);
                let m = choose|m: int| 0 <= m < rest.len() && rest[m] == f[k];
                assert(s[m] == f[k]);
            }
            let g = f.push(s.last());
            assert forall|a: int, b: int| 0 <= a < g.len() && 0 <= b < g.len() && a != b implies g[a].id
                != g[b].id by {
                if a < f.len() && b < f.len() {
                    assert(f[a].id != f[b].id);
                }
            }
        }
    }
}

/// Two sequences with the same id at every position know the same ids.
proof fn lemma_same_ids_keep_membership(a: Seq<Output>, b: Seq<Output>)
    requires
        a.len() == b.len(),
        forall|k: int| 0 <= k < b.len() ==> #[trigger] b[k].id == a[k].id,
    ensures
        forall|v: u32| has_id(a, v) <==> has_id(b, v),
{
    assert forall|v: u32| has_id(a, v) implies has_id(b, v) by {
        let k = choose|k: int| 0 <= k < a.len() && a[k].id == v;
        assert(b[k].id == v);
    }
    assert forall|v: u32| has_id(b, v) implies has_id(a, v) by {
        let k = choose|k: int| 0 <= k < b.len() && b[k].id == v;
        assert(a[k].id == v);
    }
}

impl View for OutputRegistry {
    type V = Seq<Output>;

    closed spec fn view(&self) -> Seq<Output> {
        self.outputs@
    }
}

impl OutputRegistry {
    /// The ids with a pending geometry notification, oldest first.
    pub closed spec fn dirty(&self) -> Seq<u32> {
        self.dirty@
    }

    /// Ids are unique, every output fits the coordinate space, and the
    /// pending notifications name known outputs, once each.
    pub open spec fn wf(&self) -> bool {
        &&& ids_unique(self@)
        &&& all_fit(self@)
        &&& self.dirty().no_duplicates()
        &&& forall|i: int| 0 <= i < self.dirty().len() ==> has_id(self@, #[trigger] self.dirty()[i])
    }

    /// An empty registry.
    pub fn new() -> (r: Self)
        ensures
            r.wf(),
            r@ == Seq::<Output>::empty(),
            r.dirty() == Seq::<u32>::empty(),
    {
        OutputRegistry { outputs: Vec::new(), dirty: Vec::new() }
    }

    /// The current outputs in discovery order.
    pub fn list_outputs(&self) -> (r: &Vec<Output>)
        ensures
            r@ == self@,
    {
        &self.outputs
    }

    /// The number of known outputs.
    pub fn len(&self) -> (r: usize)
        ensures
            r == self@.len(),
    {
        self.outputs.len()
    }

    /// Whether an output with `id` is known.
    pub fn contains(&self, id: u32) -> (r: bool)
        ensures
            r == has_id(self@, id),
    {
        let mut i: usize = 0;
        while i < self.outputs.len()
            invariant
                0 <= i <= self.outputs@.len(),
                forall|k: int| 0 <= k < i ==> self.outputs@[k].id != id,
            decreases self.outputs@.len() - i,
        {
            if self.outputs[i].id == id {
                return true;
            }
            i = i + 1;
        }
        false
    }

    /// The output with `id`, if it is known.
    pub fn get(&self, id: u32) -> (r: Option<Output>)
        requires
            self.wf(),
        ensures
            r is Some <==> has_id(self@, id),
            r matches Some(o) ==> o == output_with(self@, id),
    {
        let mut i: usize = 0;
        while i < self.outputs.len()
            invariant
                0 <= i <= self.outputs@.len(),
                self.wf(),
                forall|k: int| 0 <= k < i ==> self.outputs@[k].id != id,
            decreases self.outputs@.len() - i,
        {
            let o = self.outputs[i];
            if o.id == id {
                proof {
                    let s = self@;
                    let k = choose|k: int| 0 <= k < s.len() && s[k].id == id;
                    assert(ids_unique(s));
                    assert(k == i);
                }
                return Some(o);
            }
            i = i + 1;
        }
        None
    }

    /// The logical offset of output `id`, or `(0, 0)` when it is unknown.
    pub fn offset_of(&self, id: u32) -> (r: (i32, i32))
        requires
            self.wf(),
        ensures
            has_id(self@, id) ==> r == (output_with(self@, id).x, output_with(self@, id).y),
            !has_id(self@, id) ==> r == (0i32, 0i32),
    {
        match self.get(id) {
            Some(o) => (o.x, o.y),
            None => (0, 0),
        }
    }

    /// Applies one notification from the discovery feed.
    pub fn apply(&mut self, e: OutputEvent)
        requires
            old(self).wf(),
        ensures
            final(self).wf(),
            final(self)@ == outputs_after(old(self)@, e),
            final(self).dirty() == dirty_after(old(self).dirty(), old(self)@, e),
    {
        match e {
            OutputEvent::Discovered { id, primary } => {
                if !self.contains(id) {
                    self.outputs.push(
                        Output { id: id, x: 0, y: 0, width: 0, height: 0, primary: primary },
                    );
                    proof {
                        let n = old(self)@.len() as int;
                        assert(self@[n].id == id);
                        assert forall|a: int, b: int|
                            0 <= a < self@.len() && 0 <= b < self@.len() && a != b implies self@[a].id
                            != self@[b].id by {
                            if a == n {
                                assert(old(self)@[b].id != id);
                            } else if b == n {
                                assert(old(self)@[a].id != id);
                            } else {
                                assert(old(self)@[a].id != old(self)@[b].id);
                            }
                        }
                        assert forall|i: int| 0 <= i < self.dirty().len() implies has_id(
                            self@,
                            #[trigger] self.dirty()[i],
                        ) by {
                            let v = self.dirty()[i];
                            assert(old(self).dirty()[i] == v);
                            assert(has_id(old(self)@, v));
                            let k = choose|k: int| 0 <= k < old(self)@.len() && old(self)@[k].id == v;
                            assert(self@[k].id == v);
                        }
                    }
                }
            },
            OutputEvent::Removed { id } => {
                self.remove_output(id);
                self.remove_dirty(id);
            },
            OutputEvent::Moved { id, x, y } => {
                let known = self.contains(id);
                self.move_output(id, x, y);
                proof {
                    lemma_same_ids_keep_membership(old(self)@, self@);
                }
                if known {
                    self.mark_dirty(id);
                }
            },
            OutputEvent::Resized { id, width, height } => {
                let known = self.contains(id);
                self.resize_output(id, width, height);
                proof {
                    lemma_same_ids_keep_membership(old(self)@, self@);
                }
                if known {
                    self.mark_dirty(id);
                }
            },
        }
    }

    /// Applies notifications in arrival order.
    pub fn apply_all(&mut self, events: &Vec<OutputEvent>)
        requires
            old(self).wf(),
        ensures
            final(self).wf(),
            final(self)@ == outputs_after_all(old(self)@, events@),
    {
        let mut i: usize = 0;
        while i < events.len()
            invariant
                0 <= i <= events@.len(),
                self.wf(),
                self@ == outputs_after_all(old(self)@, events@.subrange(0, i as int)),
            decreases events@.len() - i,
        {
            proof {
                let next = events@.subrange(0, i as int + 1);
                assert(next.drop_last() =~= events@.subrange(0, i as int));
                assert(next.last() == events@[i as int]);
            }
            self.apply(events[i]);
            i = i + 1;
        }
        proof {
            assert(events@.subrange(0, events@.len() as int) =~= events@);
        }
    }

    /// Hands out the ids whose geometry changed since the last call, oldest
    /// first, and clears them.
    pub fn take_dirty(&mut self) -> (r: Vec<u32>)
        requires
            old(self).wf(),
        ensures
            final(self).wf(),
            final(self)@ == old(self)@,
            r@ == old(self).dirty(),
            final(self).dirty() == Seq::<u32>::empty(),
    {
        let mut taken: Vec<u32> = Vec::new();
        std::mem::swap(&mut taken, &mut self.dirty);
        taken
    }

    fn remove_output(&mut self, id: u32)
        requires
            old(self).wf(),
        ensures
            final(self)@ == old(self)@.filter(id_is_not(id)),
            final(self).dirty() == old(self).dirty(),
            ids_unique(final(self)@),
            all_fit(final(self)@),
            !has_id(final(self)@, id),
            forall|v: u32| v != id && has_id(old(self)@, v) ==> has_id(final(self)@, v),
    {
        let ghost s = self.outputs@;
        let ghost pred = id_is_not(id);
        let mut kept: Vec<Output> = Vec::new();
        let mut i: usize = 0;
        while i < self.outputs.len()
            invariant
                0 <= i <= s.len(),
                self.outputs@ == s,
                pred == id_is_not(id),
                kept@ == s.subrange(0, i as int).filter(pred),
            decreases s.len() - i,
        {
            proof {
                lemma_filter_prefix_step(s, pred, i as int);
                assert(pred(s[i as int]) == (s[i as int].id != id));
            }
            let o = self.outputs[i];
            if o.id != id {
                kept.push(o);
            }
            i = i + 1;
        }
        proof {
            assert(s.subrange(0, s.len() as int) =~= s);
            lemma_filter_keeps_ids_unique(s, pred);
            assert forall|k: int| 0 <= k < kept@.len() implies (#[trigger] kept@[k]).fits()
                && kept@[k].id != id by {
                lemma_filter_from(s, pred, k);
            }
            assert forall|v: u32| v != id && has_id(s, v) implies has_id(kept@, v) by {
                broadcast use vstd::seq_lib::group_filter_ensures;

                let m = choose|m: int| 0 <= m < s.len() && s[m].id == v;
                assert(kept@.contains(s[m]));
            }
        }
        self.outputs = kept;
    }

    fn remove_dirty(&mut self, id: u32)
        requires
            old(self).dirty().no_duplicates(),
            forall|i: int|
                0 <= i < old(self).dirty().len() ==> #[trigger] old(self).dirty()[i] != id ==> has_id(
                    old(self)@,
                    old(self).dirty()[i],
                ),
        ensures
            final(self)@ == old(self)@,
            final(self).dirty() == old(self).dirty().filter(other_than(id)),
            final(self).dirty().no_duplicates(),
            forall|i: int|
                0 <= i < final(self).dirty().len() ==> has_id(
                    old(self)@,
                    #[trigger] final(self).dirty()[i],
                ),
            forall|i: int| 0 <= i < final(self).dirty().len() ==> #[trigger] final(self).dirty()[i] != id,
    {
        let ghost d = self.dirty@;
        let ghost pred = other_than(id);
        let mut kept: Vec<u32> = Vec::new();
        let mut i: usize = 0;
        while i < self.dirty.len()
            invariant
                0 <= i <= d.len(),
                self.dirty@ == d,
                pred == other_than(id),
                kept@ == d.subrange(0, i as int).filter(pred),
            decreases d.len() - i,
        {
            proof {
                lemma_filter_prefix_step(d, pred, i as int);
                assert(pred(d[i as int]) == (d[i as int] != id));
            }
            let v = self.dirty[i];
            if v != id {
                kept.push(v);
            }
            i = i + 1;
        }
        proof {
            assert(d.subrange(0, d.len() as int) =~= d);
            lemma_filter_no_duplicates(d, pred);
            assert forall|k: int| 0 <= k < kept@.len() implies has_id(old(self)@, #[trigger] kept@[k])
                && kept@[k] != id by {
                lemma_filter_from(d, pred, k);
                let m = choose|m: int| 0 <= m < d.len() && d[m] == kept@[k];
            }
        }
        self.dirty = kept;
    }

    fn mark_dirty(&mut self, id: u32)
        requires
            old(self).dirty().no_duplicates(),
        ensures
            final(self)@ == old(self)@,
            final(self).dirty() == (if old(self).dirty().contains(id) {
                old(self).dirty()
            } else {
                old(self).dirty().push(id)
            }),
            final(self).dirty().no_duplicates(),
    {
        let mut i: usize = 0;
        while i < self.dirty.len()
            invariant
                0 <= i <= self.dirty@.len(),
                self.dirty@ == old(self).dirty@,
                self.outputs@ == old(self).outputs@,
                old(self).dirty().no_duplicates(),
                forall|k: int| 0 <= k < i ==> self.dirty@[k] != id,
            decreases self.dirty@.len() - i,
        {
            if self.dirty[i] == id {
                return;
            }
            i = i + 1;
        }
        self.dirty.push(id);
    }

    fn move_output(&mut self, id: u32, x: i32, y: i32)
        requires
            old(self).wf(),
        ensures
            final(self)@ == outputs_after(old(self)@, OutputEvent::Moved { id, x, y }),
            final(self).dirty() == old(self).dirty(),
            ids_unique(final(self)@),
            all_fit(final(self)@),
            forall|k: int| 0 <= k < final(self)@.len() ==> #[trigger] final(self)@[k].id == old(self)@[k].id,
    {
        let ghost s = self.outputs@;
        let mut i: usize = 0;
        while i < self.outputs.len()
            invariant
                0 <= i <= s.len(),
                self.outputs@.len() == s.len(),
                self.dirty@ == old(self).dirty@,
                forall|k: int| 0 <= k < i ==> #[trigger] self.outputs@[k] == (if s[k].id == id {
                    moved_to(s[k], x, y)
                } else {
                    s[k]
                }),
                forall|k: int| i <= k < s.len() ==> #[trigger] self.outputs@[k] == s[k],
                all_fit(s),
            decreases s.len() - i,
        {
            let o = self.outputs[i];
            if o.id == id && span_fits_exec(x, o.width) && span_fits_exec(y, o.height) {
                self.outputs.set(i, Output { x: x, y: y, ..o });
            }
            i = i + 1;
        }
        proof {
            assert(self.outputs@ =~= outputs_after(s, OutputEvent::Moved { id, x, y }));
        }
    }

    fn resize_output(&mut self, id: u32, width: u32, height: u32)
        requires
            old(self).wf(),
        ensures
            final(self)@ == outputs_after(old(self)@, OutputEvent::Resized { id, width, height }),
            final(self).dirty() == old(self).dirty(),
            ids_unique(final(self)@),
            all_fit(final(self)@),
            forall|k: int| 0 <= k < final(self)@.len() ==> #[trigger] final(self)@[k].id == old(self)@[k].id,
    {
        let ghost s = self.outputs@;
        let mut i: usize = 0;
        while i < self.outputs.len()
            invariant
                0 <= i <= s.len(),
                self.outputs@.len() == s.len(),
                self.dirty@ == old(self).dirty@,
                forall|k: int| 0 <= k < i ==> #[trigger] self.outputs@[k] == (if s[k].id == id {
                    resized_to(s[k], width, height)
                } else {
                    s[k]
                }),
                forall|k: int| i <= k < s.len() ==> #[trigger] self.outputs@[k] == s[k],
                all_fit(s),
            decreases s.len() - i,
        {
            let o = self.outputs[i];
            if o.id == id && span_fits_exec(o.x, width) && span_fits_exec(o.y, height) {
                self.outputs.set(i, Output { width: width, height: height, ..o });
            }
            i = i + 1;
        }
        proof {
            assert(self.outputs@ =~= outputs_after(s, OutputEvent::Resized { id, width, height }));
        }
    }
}

/// The id that an event names.
pub open spec fn event_id(e: OutputEvent) -> u32 {
    match e {
        OutputEvent::Discovered { id, .. } => id,
        OutputEvent::Removed { id } => id,
        OutputEvent::Moved { id, .. } => id,
        OutputEvent::Resized { id, .. } => id,
    }
}

/// One event keeps ids unique, adds an id only by discovering it, and leaves
/// no trace of an id it removes.
proof fn lemma_step_sound(s: Seq<Output>, e: OutputEvent)
    requires
        ids_unique(s),
    ensures
        ids_unique(outputs_after(s, e)),
        forall|v: u32|
            has_id(outputs_after(s, e), v) ==> has_id(s, v) || (e is Discovered && event_id(e) == v),
        e is Removed ==> !has_id(outputs_after(s, e), event_id(e)),
{
    let t = outputs_after(s, e);
    match e {
        OutputEvent::Discovered { id, primary } => {
            if !has_id(s, id) {
                let n = s.len() as int;
                assert forall|a: int, b: int| 0 <= a < t.len() && 0 <= b < t.len() && a != b implies t[a].id
                    != t[b].id by {
                    if a == n {
                        assert(s[b].id != id);
                    } else if b == n {
                        assert(s[a].id != id);
                    } else {
                        assert(s[a].id != s[b].id);
                    }
                }
                assert forall|v: u32| has_id(t, v) implies has_id(s, v) || v == id by {
                    let k = choose|k: int| 0 <= k < t.len() && t[k].id == v;
                    if k < n {
                        assert(s[k].id == v);
                    }
                }
            }
        },
        OutputEvent::Removed { id } => {
            let pred = id_is_not(id);
            lemma_filter_keeps_ids_unique(s, pred);
            assert forall|v: u32| has_id(t, v) implies has_id(s, v) && v != id by {
                let k = choose|k: int| 0 <= k < t.len() && t[k].id == v;
                lemma_filter_from(s, pred, k);
                let m = choose|m: int| 0 <= m < s.len() && s[m] == t[k];
                assert(s[m].id == v);
            }
        },
        OutputEvent::Moved { .. } => {
            lemma_same_ids_keep_membership(s, t);
        },
        OutputEvent::Resized { .. } => {
            lemma_same_ids_keep_membership(s, t);
        },
    }
}

/// Whatever sequence of notifications the discovery feed delivers, the
/// registry never lists the same id twice.
pub proof fn lemma_outputs_keep_unique_ids(s: Seq<Output>, events: Seq<OutputEvent>)
    requires
        ids_unique(s),
    ensures
        ids_unique(outputs_after_all(s, events)),
    decreases events.len(),
{
    if events.len() > 0 {
        lemma_outputs_keep_unique_ids(s, events.drop_last());
        lemma_step_sound(outputs_after_all(s, events.drop_last()), events.last());
    }
}

/// Once an output is removed, the registry does not list its id again until
/// a later notification discovers it anew.
pub proof fn lemma_removed_output_stays_gone(s: Seq<Output>, events: Seq<OutputEvent>, i: int)
    requires
        ids_unique(s),
        0 <= i < events.len(),
        events[i] is Removed,
        forall|j: int|
            i < j < events.len() ==> !(#[trigger] events[j] is Discovered && event_id(events[j])
                == event_id(events[i])),
    ensures
        !has_id(outputs_after_all(s, events), event_id(events[i])),
    decreases events.len(),
{
    let prev = events.drop_last();
    lemma_outputs_keep_unique_ids(s, prev);
    lemma_step_sound(outputs_after_all(s, prev), events.last());
    if i < events.len() - 1 {
        assert(prev[i] == events[i]);
        assert forall|j: int| i < j < prev.len() implies !(#[trigger] prev[j] is Discovered
            && event_id(prev[j]) == event_id(prev[i])) by {
            assert(prev[j] == events[j]);
        }
        lemma_removed_output_stays_gone(s, prev, i);
    }
}

} // verus!
