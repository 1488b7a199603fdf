//! The surface lifecycle: one native drawing surface per selected output,
//! kept in step with the selection by a diff each tick.

use vstd::prelude::*;

use crate::registry::{has_id, ids_of, ids_unique, Output, OutputRegistry};
use crate::seq_facts::{
    lemma_filter_all_pass, lemma_filter_from, lemma_filter_no_duplicates, lemma_filter_none_pass, lemma_filter_prefix_step,
    vec_contains,
};
use crate::target_monitor::{ids_view, select, selection, WallpaperTargetMonitor};

verus! {

/// A surface must go: its output was lost, or a selection exists and leaves
/// it out.
pub open spec fn doomed(sel: Option<Seq<u32>>, known: Seq<Output>) -> spec_fn(u32) -> bool {
    |o: u32|
        !has_id(known, o) || match sel {
            Some(v) => !v.contains(o),
            None => false,
        }
}

/// A surface stays: the negation of `doomed`.
pub open spec fn spared(sel: Option<Seq<u32>>, known: Seq<Output>) -> spec_fn(u32) -> bool {
    |o: u32| !doomed(sel, known)(o)
}

/// Keeps the outputs that have no surface yet.
pub open spec fn not_live(live: Seq<u32>) -> spec_fn(u32) -> bool {
    |o: u32| !live.contains(o)
}

/// The outputs that need a new surface: the selected ones without one, in
/// selection order. A failed selection creates nothing.
pub open spec fn planned_creates(live: Seq<u32>, sel: Option<Seq<u32>>) -> Seq<u32> {
    match sel {
        Some(v) => v.filter(not_live(live)),
        None => Seq::empty(),
    }
}

/// The surfaces to destroy, in the order they were created.
pub open spec fn planned_destroys(live: Seq<u32>, sel: Option<Seq<u32>>, known: Seq<Output>) -> Seq<
    u32,
> {
    live.filter(doomed(sel, known))
}

/// The outputs with a surface after the diff: the survivors, then the new ones.
pub open spec fn live_after(live: Seq<u32>, sel: Option<Seq<u32>>, known: Seq<Output>) -> Seq<u32> {
    live.filter(spared(sel, known)) + planned_creates(live, sel)
}

/// What the backend must do on its native surfaces this tick.
pub struct SurfaceActions {
    /// Outputs that need a new surface spanning the whole output, below
    /// ordinary windows and taking no input.
    pub create: Vec<u32>,
    /// Outputs whose surface must be destroyed, native resources first.
    pub destroy: Vec<u32>,
}

/// The outputs that currently own a native surface, in creation order.
pub struct SurfaceLifecycle {
    live: Vec<u32>,
}

impl View for SurfaceLifecycle {
    type V = Seq<u32>;

    closed spec fn view(&self) -> Seq<u32> {
        self.live@
    }
}

/// Every id a selection names is a known output's.
proof fn lemma_selection_known(policy: WallpaperTargetMonitor, s: Seq<Output>)
    ensures
        selection(policy, s) matches Some(v) ==> forall|k: int|
            0 <= k < v.len() ==> has_id(s, #[trigger] v[k]),
        selection(policy, s) matches Some(v) ==> (ids_unique(s) ==> v.no_duplicates()),
{
    crate::target_monitor::lemma_primary_index_in_range(s);
    match selection(policy, s) {
        Some(v) => {
            assert forall|k: int| 0 <= k < v.len() implies has_id(s, #[trigger] v[k]) by {
                match policy {
                    WallpaperTargetMonitor::All => {
                        assert(s[k].id == v[k]);
                    },
                    WallpaperTargetMonitor::Primary => {
                        assert(s[crate::target_monitor::primary_index(s)].id == v[k]);
                    },
                    WallpaperTargetMonitor::Index(n) => {
                        assert(s[n as int].id == v[k]);
                    },
                }
            }
            if ids_unique(s) {
                assert forall|a: int, b: int| 0 <= a < v.len() && 0 <= b < v.len() && a != b implies v[a]
                    != v[b] by {
                    if policy is All {
                        assert(ids_of(s)[a] == s[a].id);
                        assert(ids_of(s)[b] == s[b].id);
                    }
                }
            }
        },
        None => {},
    }
}

impl SurfaceLifecycle {
    /// No output owns two surfaces.
    pub open spec fn wf(&self) -> bool {
        self@.no_duplicates()
    }

    /// No surfaces yet.
    pub fn new() -> (r: Self)
        ensures
            r.wf(),
            r@ == Seq::<u32>::empty(),
    {
        SurfaceLifecycle { live: Vec::new() }
    }

    /// The outputs that own a surface.
    pub fn live_outputs(&self) -> (r: &Vec<u32>)
        ensures
            r@ == self@,
    {
        &self.live
    }

    /// Diffs the selection that `policy` makes among the known outputs
    /// against the live surfaces: selected outputs without a surface get one,
    /// surfaces of lost or deselected outputs go, the rest stay. A failed
    /// selection keeps every surface whose output is still known.
    pub fn reconcile(&mut self, policy: WallpaperTargetMonitor, registry: &OutputRegistry) -> (r:
        SurfaceActions)
        requires
            old(self).wf(),
            registry.wf(),
        ensures
            final(self).wf(),
            r.create@ == planned_creates(old(self)@, selection(policy, registry@)),
            r.destroy@ == planned_destroys(old(self)@, selection(policy, registry@), registry@),
            final(self)@ == live_after(old(self)@, selection(policy, registry@), registry@),
            forall|k: int| 0 <= k < final(self)@.len() ==> has_id(registry@, #[trigger] final(self)@[k]),
    {
        let sel = select(policy, registry.list_outputs());
        proof {
            lemma_selection_known(policy, registry@);
        }
        self.apply_diff(sel, registry)
    }

    /// Destroys only the surfaces of lost outputs, creating none: the diff
    /// for a platform that cannot create surfaces right now.
    pub fn prune_lost(&mut self, registry: &OutputRegistry) -> (r: SurfaceActions)
        requires
            old(self).wf(),
            registry.wf(),
        ensures
            final(self).wf(),
            r.create@.len() == 0,
            r.destroy@ == planned_destroys(old(self)@, None, registry@),
            final(self)@ == live_after(old(self)@, None, registry@),
            forall|k: int| 0 <= k < final(self)@.len() ==> has_id(registry@, #[trigger] final(self)@[k]),
    {
        self.apply_diff(None, registry)
    }

    /// Diffs an optional selection of known outputs against the live
    /// surfaces.
    fn apply_diff(&mut self, sel: Option<Vec<u32>>, registry: &OutputRegistry) -> (r: SurfaceActions)
        requires
            old(self).wf(),
            registry.wf(),
            ids_view(sel) matches Some(v) ==> v.no_duplicates() && forall|k: int|
                0 <= k < v.len() ==> has_id(registry@, #[trigger] v[k]),
        ensures
            final(self).wf(),
            r.create@ == planned_creates(old(self)@, ids_view(sel)),
            r.destroy@ == planned_destroys(old(self)@, ids_view(sel), registry@),
            final(self)@ == live_after(old(self)@, ids_view(sel), registry@),
            forall|k: int| 0 <= k < final(self)@.len() ==> has_id(registry@, #[trigger] final(self)@[k]),
    {
        let ghost selv = ids_view(sel);
        let ghost known = registry@;
        let ghost live = self.live@;
        let ghost kill = doomed(selv, known);
        let ghost keep = spared(selv, known);
        let mut kept: Vec<u32> = Vec::new();
        let mut destroy: Vec<u32> = Vec::new();
        let mut i: usize = 0;
        while i < self.live.len()
            invariant
                0 <= i <= live.len(),
                self.live@ == live,
                registry@ == known,
                ids_view(sel) == selv,
                kill == doomed(selv, known),
                keep == spared(selv, known),
                kept@ == live.subrange(0, i as int).filter(keep),
                destroy@ == live.subrange(0, i as int).filter(kill),
            decreases live.len() - i,
        {
            let o = self.live[i];
            let gone = !registry.contains(o) || match &sel {
                Some(v) => !vec_contains(v, o),
                None => false,
            };
            proof {
                lemma_filter_prefix_step(live, keep, i as int);
                lemma_filter_prefix_step(live, kill, i as int);
                assert(kill(o) == gone);
                assert(keep(o) == !gone);
            }
            if gone {
                destroy.push(o);
            } else {
                kept.push(o);
            }
            i = i + 1;
        }
        proof {
            assert(live.subrange(0, live.len() as int) =~= live);
        }
        let mut create: Vec<u32> = Vec::new();
        match &sel {
            Some(v) => {
                let ghost pred = not_live(live);
                let mut j: usize = 0;
                while j < v.len()
                    invariant
                        0 <= j <= v@.len(),
                        self.live@ == live,
                        pred == not_live(live),
                        create@ == v@.subrange(0, j as int).filter(pred),
                    decreases v@.len() - j,
                {
                    let o = v[j];
                    proof {
                        lemma_filter_prefix_step(v@, pred, j as int);
                    }
                    if !vec_contains(&self.live, o) {
                        create.push(o);
                    }
                    j = j + 1;
                }
                proof {
                    assert(v@.subrange(0, v@.len() as int) =~= v@);
                }
            },
            None => {},
        }
        proof {
            lemma_filter_no_duplicates(live, keep);
            assert(create@.no_duplicates()) by {
                if let Some(v) = selv {
                    lemma_filter_no_duplicates(v, not_live(live));
                }
            }
            let a = kept@;
            let b = create@;
            assert forall|x: int, y: int| 0 <= x < a.len() && 0 <= y < b.len() implies a[x] != b[y] by {
                lemma_filter_from(live, keep, x);
                if let Some(v) = selv {
                    lemma_filter_from(v, not_live(live), y);
                }
            }
            let c = a + b;
            assert forall|x: int, y: int| 0 <= x < c.len() && 0 <= y < c.len() && x != y implies c[x]
                != c[y] by {
                if x < a.len() && y >= a.len() {
                    assert(a[x] != b[y - a.len()]);
                } else if y < a.len() && x >= a.len() {
                    assert(a[y] != b[x - a.len()]);
                }
            }
            assert forall|k: int| 0 <= k < c.len() implies has_id(known, #[trigger] c[k]) by {
                if k < a.len() {
                    lemma_filter_from(live, keep, k);
                } else {
                    if let Some(v) = selv {
                        lemma_filter_from(v, not_live(live), k - a.len());
                        let m = choose|m: int| 0 <= m < v.len() && v[m] == b[k - a.len()];
                        assert(has_id(known, v[m]));
                    }
                }
            }
            assert(c == a + b);
        }
        let mut next = kept;
        let mut fresh = create.clone();
        next.append(&mut fresh);
        self.live = next;
        SurfaceActions { create, destroy }
    }
}

/// Running the diff a second time, with the selection policy and the known
/// outputs unchanged, asks for no surface to be created or destroyed.
pub proof fn lemma_reconcile_settles(live: Seq<u32>, policy: WallpaperTargetMonitor, known: Seq<Output>)
    requires
        live.no_duplicates(),
        ids_unique(known),
    ensures
        planned_creates(live_after(live, selection(policy, known), known), selection(policy, known)).len()
            == 0,
        planned_destroys(live_after(live, selection(policy, known), known), selection(policy, known), known).len()
            == 0,
{
    broadcast use vstd::seq_lib::group_filter_ensures;

    let sel = selection(policy, known);
    let keep = spared(sel, known);
    let a = live.filter(keep);
    let b = planned_creates(live, sel);
    let next = a + b;
    lemma_selection_known(policy, known);
    assert forall|k: int| 0 <= k < next.len() implies !doomed(sel, known)(#[trigger] next[k]) by {
        if k < a.len() {
            lemma_filter_from(live, keep, k);
        } else {
            if let Some(v) = sel {
                lemma_filter_from(v, not_live(live), k - a.len());
                let m = choose|m: int| 0 <= m < v.len() && v[m] == b[k - a.len()];
                assert(has_id(known, v[m]));
            }
        }
    }
    lemma_filter_none_pass(next, doomed(sel, known));
    if let Some(v) = sel {
        assert forall|k: int| 0 <= k < v.len() implies !not_live(next)(#[trigger] v[k]) by {
            assert(has_id(known, v[k]));
            if live.contains(v[k]) {
                let m = choose|m: int| 0 <= m < live.len() && live[m] == v[k];
                assert(keep(live[m]));
                assert(a.contains(live[m]));
                let x = choose|x: int| 0 <= x < a.len() && a[x] == live[m];
                assert(next[x] == v[k]);
            } else {
                assert(not_live(live)(v[k]));
                assert(b.contains(v[k]));
                let y = choose|y: int| 0 <= y < b.len() && b[y] == v[k];
                assert(next[a.len() + y] == v[k]);
            }
        }
        lemma_filter_none_pass(v, not_live(next));
    }
}

/// A failed selection (no outputs, or an index out of range) tears nothing
/// down: while every live surface's output is still known, the diff asks for
/// nothing and the live surfaces stay as they were.
pub proof fn lemma_failed_selection_keeps_surfaces(
    live: Seq<u32>,
    policy: WallpaperTargetMonitor,
    known: Seq<Output>,
)
    requires
        selection(policy, known) is None,
        forall|k: int| 0 <= k < live.len() ==> has_id(known, #[trigger] live[k]),
    ensures
        planned_creates(live, selection(policy, known)).len() == 0,
        planned_destroys(live, selection(policy, known), known).len() == 0,
        live_after(live, selection(policy, known), known) == live,
{
    let sel = selection(policy, known);
    assert forall|k: int| 0 <= k < live.len() implies !doomed(sel, known)(#[trigger] live[k]) by {}
    lemma_filter_none_pass(live, doomed(sel, known));
    assert forall|k: int| 0 <= k < live.len() implies spared(sel, known)(#[trigger] live[k]) by {}
    lemma_filter_all_pass(live, spared(sel, known));
    assert(live.filter(spared(sel, known)) + Seq::<u32>::empty() =~= live);
}

/// A diff that destroys nothing keeps every live surface.
pub proof fn lemma_no_destroy_keeps_live(live: Seq<u32>, sel: Option<Seq<u32>>, known: Seq<Output>)
    requires
        planned_destroys(live, sel, known).len() == 0,
    ensures
        forall|k: int| 0 <= k < live.len() ==> live_after(live, sel, known).contains(#[trigger] live[k]),
{
    broadcast use vstd::seq_lib::group_filter_ensures;

    let a = live.filter(spared(sel, known));
    assert forall|k: int| 0 <= k < live.len() implies live_after(live, sel, known).contains(
        #[trigger] live[k],
    ) by {
        if doomed(sel, known)(live[k]) {
            assert(live.filter(doomed(sel, known)).contains(live[k]));
        }
        assert(spared(sel, known)(live[k]));
        assert(a.contains(live[k]));
        let x = choose|x: int| 0 <= x < a.len() && a[x] == live[k];
        assert(live_after(live, sel, known)[x] == live[k]);
    }
}

} // verus!
