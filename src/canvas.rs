//! The virtual canvas: the surface entries of the selected outputs, their
//! bounding box, and the generation counter that tells GPU-side state when
//! to follow a change.

use vstd::prelude::*;

use crate::geometry::{any_counted, bounding_box, is_tight_bounds, lemma_tight_bounds_of_one, Rect};
use crate::target_monitor::{ids_view, select, selection, WallpaperTargetMonitor};
use crate::handles::WaylandSurfaceHandles;
use crate::registry::{has_id, output_with, span_fits, span_fits_exec, Output, OutputRegistry};
use crate::seq_facts::{lemma_filter_all_pass, lemma_filter_from, lemma_filter_prefix_step, vec_contains};

verus! {

/// A negotiated size for one output's surface, as the backend reports it.
#[derive(Clone, Copy, Debug, PartialEq, Eq, Structural)]
pub struct WaylandSurfaceConfig {
    pub output: u32,
    pub handles: WaylandSurfaceHandles,
    pub width: u32,
    pub height: u32,
    pub offset_x: i32,
    pub offset_y: i32,
}

impl WaylandSurfaceConfig {
    /// The configured rectangle lies inside the coordinate space.
    pub open spec fn fits(self) -> bool {
        span_fits(self.offset_x, self.width) && span_fits(self.offset_y, self.height)
    }

    /// Tests `fits`.
    pub fn is_placeable(&self) -> (r: bool)
        ensures
            r == self.fits(),
    {
        span_fits_exec(self.offset_x, self.width) && span_fits_exec(self.offset_y, self.height)
    }
}

/// One output's surface on the canvas.
#[derive(Clone, Copy, Debug, PartialEq, Eq, Structural)]
pub struct SurfaceDescriptorEntry {
    pub output: u32,
    pub handles: Option<WaylandSurfaceHandles>,
    pub width: u32,
    pub height: u32,
    pub offset_x: i32,
    pub offset_y: i32,
}

impl SurfaceDescriptorEntry {
    /// The entry may be rendered to: it has handles and a non-empty size.
    pub open spec fn ready(self) -> bool {
        self.handles is Some && self.width > 0 && self.height > 0
    }

    /// The entry's rectangle on the canvas.
    pub open spec fn rect(self) -> Rect {
        Rect { x: self.offset_x, y: self.offset_y, width: self.width, height: self.height }
    }

    /// Whether the entry may be rendered to.
    pub fn is_ready(&self) -> (r: bool)
        ensures
            r == self.ready(),
    {
        self.handles.is_some() && self.width > 0 && self.height > 0
    }
}

/// The entry a configuration creates or overwrites.
pub open spec fn entry_of(c: WaylandSurfaceConfig) -> SurfaceDescriptorEntry {
    SurfaceDescriptorEntry {
        output: c.output,
        handles: Some(c.handles),
        width: c.width,
        height: c.height,
        offset_x: c.offset_x,
        offset_y: c.offset_y,
    }
}

/// Some entry in `s` belongs to output `id`.
pub open spec fn has_entry(s: Seq<SurfaceDescriptorEntry>, id: u32) -> bool {
    exists|k: int| 0 <= k < s.len() && s[k].output == id
}

/// Some entry in `s` belongs to output `id` and is ready.
pub open spec fn has_ready_entry(s: Seq<SurfaceDescriptorEntry>, id: u32) -> bool {
    exists|k: int| 0 <= k < s.len() && s[k].output == id && s[k].ready()
}

/// No two entries in `s` belong to the same output.
pub open spec fn outputs_unique(s: Seq<SurfaceDescriptorEntry>) -> bool {
    forall|i: int, j: int| 0 <= i < s.len() && 0 <= j < s.len() && i != j ==> s[i].output != s[j].output
}

/// Every entry in `s` lies inside the coordinate space.
pub open spec fn entries_fit(s: Seq<SurfaceDescriptorEntry>) -> bool {
    forall|i: int| 0 <= i < s.len() ==> (#[trigger] s[i]).rect().fits()
}

/// The rectangles of `s`, in order.
pub open spec fn entry_rects(s: Seq<SurfaceDescriptorEntry>) -> Seq<Rect> {
    s.map_values(|e: SurfaceDescriptorEntry| e.rect())
}

/// Which entries of `s` are ready, in order.
pub open spec fn ready_flags(s: Seq<SurfaceDescriptorEntry>) -> Seq<bool> {
    s.map_values(|e: SurfaceDescriptorEntry| e.ready())
}

/// `s` with the configuration applied: the entry of its output overwritten,
/// or a new entry appended.
pub open spec fn upserted(s: Seq<SurfaceDescriptorEntry>, c: WaylandSurfaceConfig) -> Seq<
    SurfaceDescriptorEntry,
> {
    if has_entry(s, c.output) {
        s.map_values(
            |e: SurfaceDescriptorEntry|
                if e.output == c.output {
                    entry_of(c)
                } else {
                    e
                },
        )
    } else {
        s.push(entry_of(c))
    }
}

/// `s` with each configuration applied in order, but those of outputs
/// without a live surface and those that would leave the coordinate space.
pub open spec fn upserted_all(
    s: Seq<SurfaceDescriptorEntry>,
    live: Seq<u32>,
    cs: Seq<WaylandSurfaceConfig>,
) -> Seq<SurfaceDescriptorEntry>
    decreases cs.len(),
{
    if cs.len() == 0 {
        s
    } else {
        let before = upserted_all(s, live, cs.drop_last());
        let c = cs.last();
        if live.contains(c.output) && c.fits() {
            upserted(before, c)
        } else {
            before
        }
    }
}

/// Keeps the entries whose output has a live surface.
pub open spec fn on_live(live: Seq<u32>) -> spec_fn(SurfaceDescriptorEntry) -> bool {
    |e: SurfaceDescriptorEntry| live.contains(e.output)
}

/// `e` after a geometry notification: when its output is marked dirty and
/// known, it takes the output's position, and its size where the output
/// reports a non-zero one, unless that would leave the coordinate space.
pub open spec fn geometry_applied(e: SurfaceDescriptorEntry, known: Seq<Output>, dirty: Seq<u32>) -> SurfaceDescriptorEntry {
    if dirty.contains(e.output) && has_id(known, e.output) {
        let o = output_with(known, e.output);
        let m = SurfaceDescriptorEntry {
            offset_x: o.x,
            offset_y: o.y,
            width: if o.width > 0 {
                o.width
            } else {
                e.width
            },
            height: if o.height > 0 {
                o.height
            } else {
                e.height
            },
            ..e
        };
        if m.rect().fits() {
            m
        } else {
            e
        }
    } else {
        e
    }
}

/// The entries after one tick: entries of outputs that lost their surface
/// dropped, new configurations applied, then pending geometry notifications.
pub open spec fn entries_after_tick(
    s: Seq<SurfaceDescriptorEntry>,
    live: Seq<u32>,
    cs: Seq<WaylandSurfaceConfig>,
    known: Seq<Output>,
    dirty: Seq<u32>,
) -> Seq<SurfaceDescriptorEntry> {
    upserted_all(s.filter(on_live(live)), live, cs).map_values(
        |e: SurfaceDescriptorEntry| geometry_applied(e, known, dirty),
    )
}

/// Filtering keeps the outputs of a sequence of entries unique.
proof fn lemma_filter_keeps_outputs_unique(
    s: Seq<SurfaceDescriptorEntry>,
    pred: spec_fn(SurfaceDescriptorEntry) -> bool,
)
    requires
        outputs_unique(s),
    ensures
        outputs_unique(s.filter(pred)),
    decreases s.len(),
{
    reveal(Seq::filter);
    if s.len() > 0 {
        let rest = s.drop_last();
        lemma_filter_keeps_outputs_unique(rest, pred);
        if pred(s.last()) {
            let f = rest.filter(pred);
            assert forall|k: int| 0 <= k < f.len() implies f[k].output != s.last().output by {
                lemma_filter_from(rest, pred, k);
                let m = choose|m: int| 0 <= m < rest.len() && rest[m] == f[k];
                assert(s[m] == f[k]);
            }
            let g = f.push(s.last());
            assert forall|a: int, b: int| 0 <= a < g.len() && 0 <= b < g.len() && a != b implies g[a].output
                != g[b].output by {
                if a < f.len() && b < f.len() {
                    assert(f[a].output != f[b].output);
                }
            }
        }
    }
}

/// Whether two entry lists are equal.
fn same_entries(a: &Vec<SurfaceDescriptorEntry>, b: &Vec<SurfaceDescriptorEntry>) -> (r: bool)
    ensures
        r == (a@ == b@),
{
    if a.len() != b.len() {
        return false;
    }
    let mut i: usize = 0;
    while i < a.len()
        invariant
            0 <= i <= a@.len(),
            a@.len() == b@.len(),
            forall|k: int| 0 <= k < i ==> a@[k] == b@[k],
        decreases a@.len() - i,
    {
        if a[i] != b[i] {
            return false;
        }
        i = i + 1;
    }
    proof {
        assert(a@ =~= b@);
    }
    true
}

/// The entries of `s` whose output has a live surface.
fn entries_on_live(s: &Vec<SurfaceDescriptorEntry>, live: &Vec<u32>) -> (r: Vec<SurfaceDescriptorEntry>)
    requires
        outputs_unique(s@),
        entries_fit(s@),
    ensures
        r@ == s@.filter(on_live(live@)),
        outputs_unique(r@),
        entries_fit(r@),
{
    let ghost pred = on_live(live@);
    let mut kept: Vec<SurfaceDescriptorEntry> = Vec::new();
    let mut i: usize = 0;
    while i < s.len()
        invariant
            0 <= i <= s@.len(),
            pred == on_live(live@),
            kept@ == s@.subrange(0, i as int).filter(pred),
        decreases s@.len() - i,
    {
        let e = s[i];
        proof {
            lemma_filter_prefix_step(s@, pred, i as int);
        }
        if vec_contains(live, e.output) {
            kept.push(e);
        }
        i = i + 1;
    }
    proof {
        assert(s@.subrange(0, s@.len() as int) =~= s@);
        lemma_filter_keeps_outputs_unique(s@, pred);
        assert forall|k: int| 0 <= k < kept@.len() implies (#[trigger] kept@[k]).rect().fits() by {
            lemma_filter_from(s@, pred, k);
            let m = choose|m: int| 0 <= m < s@.len() && s@[m] == kept@[k];
        }
    }
    kept
}

/// Whether `entries` holds an entry of output `id`.
pub fn has_entry_for(entries: &Vec<SurfaceDescriptorEntry>, id: u32) -> (r: bool)
    ensures
        r == has_entry(entries@, id),
{
    let mut i: usize = 0;
    while i < entries.len()
        invariant
            0 <= i <= entries@.len(),
            forall|k: int| 0 <= k < i ==> entries@[k].output != id,
        decreases entries@.len() - i,
    {
        if entries[i].output == id {
            return true;
        }
        i = i + 1;
    }
    false
}

/// The first ready entry of output `id` in `entries`, if there is one.
pub fn ready_entry_for(entries: &Vec<SurfaceDescriptorEntry>, id: u32) -> (r: Option<
    SurfaceDescriptorEntry,
>)
    ensures
        r is Some <==> has_ready_entry(entries@, id),
        r matches Some(e) ==> exists|k: int|
            0 <= k < entries@.len() && entries@[k] == e && e.output == id && e.ready() && forall|j: int|
                0 <= j < k ==> !(#[trigger] entries@[j].output == id && entries@[j].ready()),
{
    let mut i: usize = 0;
    while i < entries.len()
        invariant
            0 <= i <= entries@.len(),
            forall|k: int| 0 <= k < i ==> !(#[trigger] entries@[k].output == id && entries@[k].ready()),
        decreases entries@.len() - i,
    {
        let e = entries[i];
        if e.output == id && e.is_ready() {
            return Some(e);
        }
        i = i + 1;
    }
    None
}

/// The canvas: one entry per configured output surface, in the order the
/// configurations arrived, and a counter that advances on every change.
pub struct WaylandSurfaceDescriptor {
    surfaces: Vec<SurfaceDescriptorEntry>,
    generation: u64,
}

impl View for WaylandSurfaceDescriptor {
    type V = Seq<SurfaceDescriptorEntry>;

    closed spec fn view(&self) -> Seq<SurfaceDescriptorEntry> {
        self.surfaces@
    }
}

impl WaylandSurfaceDescriptor {
    /// The generation counter.
    pub closed spec fn gen(&self) -> u64 {
        self.generation
    }

    /// One entry per output, each inside the coordinate space.
    pub open spec fn wf(&self) -> bool {
        outputs_unique(self@) && entries_fit(self@)
    }

    /// An empty canvas at generation zero.
    pub fn new() -> (r: Self)
        ensures
            r.wf(),
            r@ == Seq::<SurfaceDescriptorEntry>::empty(),
            r.gen() == 0,
    {
        WaylandSurfaceDescriptor { surfaces: Vec::new(), generation: 0 }
    }

    /// The entries, in order.
    pub fn surfaces(&self) -> (r: &Vec<SurfaceDescriptorEntry>)
        ensures
            r@ == self@,
    {
        &self.surfaces
    }

    /// The generation counter.
    pub fn generation(&self) -> (r: u64)
        ensures
            r == self.gen(),
    {
        self.generation
    }

    /// Advances the generation counter by one.
    pub fn bump_generation(&mut self)
        requires
            old(self).gen() < u64::MAX,
        ensures
            final(self)@ == old(self)@,
            final(self).gen() == old(self).gen() + 1,
    {
        self.generation = self.generation + 1;
    }

    /// Whether output `id` has an entry.
    pub fn contains_output(&self, id: u32) -> (r: bool)
        ensures
            r == has_entry(self@, id),
    {
        let mut i: usize = 0;
        while i < self.surfaces.len()
            invariant
                0 <= i <= self.surfaces@.len(),
                forall|k: int| 0 <= k < i ==> self.surfaces@[k].output != id,
            decreases self.surfaces@.len() - i,
        {
            if self.surfaces[i].output == id {
                return true;
            }
            i = i + 1;
        }
        false
    }

    /// Whether output `id` has a ready entry.
    pub fn output_ready(&self, id: u32) -> (r: bool)
        requires
            self.wf(),
        ensures
            r == has_ready_entry(self@, id),
    {
        let mut i: usize = 0;
        while i < self.surfaces.len()
            invariant
                0 <= i <= self.surfaces@.len(),
                self.wf(),
                forall|k: int| 0 <= k < i ==> self.surfaces@[k].output != id,
            decreases self.surfaces@.len() - i,
        {
            let e = self.surfaces[i];
            if e.output == id {
                proof {
                    assert forall|k: int|
                        0 <= k < self@.len() && self@[k].output == id implies k == i by {}
                }
                return e.is_ready();
            }
            i = i + 1;
        }
        false
    }

    /// Records a configuration: overwrites the entry of its output, or
    /// appends a new one. The generation is left to the caller.
    pub fn upsert_surface(&mut self, config: WaylandSurfaceConfig)
        requires
            old(self).wf(),
            config.fits(),
        ensures
            final(self).wf(),
            final(self)@ == upserted(old(self)@, config),
            final(self).gen() == old(self).gen(),
    {
        let ghost s = self.surfaces@;
        let entry = SurfaceDescriptorEntry {
            output: config.output,
            handles: Some(config.handles),
            width: config.width,
            height: config.height,
            offset_x: config.offset_x,
            offset_y: config.offset_y,
        };
        let mut i: usize = 0;
        while i < self.surfaces.len()
            invariant
                0 <= i <= s.len(),
                self.surfaces@ == s,
                s == old(self)@,
                self.generation == old(self).generation,
                outputs_unique(s),
                entries_fit(s),
                entry == entry_of(config),
                config.fits(),
                forall|k: int| 0 <= k < i ==> s[k].output != config.output,
            decreases s.len() - i,
        {
            if self.surfaces[i].output == config.output {
                self.surfaces.set(i, entry);
                proof {
                    assert(has_entry(s, config.output));
                    assert(self.surfaces@ =~= upserted(s, config));
                }
                return;
            }
            i = i + 1;
        }
        self.surfaces.push(entry);
        proof {
            assert(!has_entry(s, config.output));
            assert(self.surfaces@ =~= upserted(s, config));
        }
    }

    /// The tight bounding box of the ready entries as `(min_x, min_y, width,
    /// height)`, or `None` when no entry is ready.
    pub fn overall_bounds(&self) -> (r: Option<(i32, i32, u32, u32)>)
        requires
            self.wf(),
        ensures
            r is None <==> !any_counted(ready_flags(self@)),
            r matches Some(b) ==> is_tight_bounds(
                entry_rects(self@),
                ready_flags(self@),
                Rect { x: b.0, y: b.1, width: b.2, height: b.3 },
            ),
    {
        let mut rects: Vec<Rect> = Vec::new();
        let mut counted: Vec<bool> = Vec::new();
        let mut i: usize = 0;
        while i < self.surfaces.len()
            invariant
                0 <= i <= self@.len(),
                rects@ == entry_rects(self@.subrange(0, i as int)),
                counted@ == ready_flags(self@.subrange(0, i as int)),
            decreases self@.len() - i,
        {
            let e = self.surfaces[i];
            rects.push(Rect { x: e.offset_x, y: e.offset_y, width: e.width, height: e.height });
            counted.push(e.is_ready());
            i = i + 1;
            proof {
                assert(rects@ =~= entry_rects(self@.subrange(0, i as int)));
                assert(counted@ =~= ready_flags(self@.subrange(0, i as int)));
            }
        }
        proof {
            assert(self@.subrange(0, self@.len() as int) =~= self@);
        }
        match bounding_box(&rects, &counted) {
            Some(b) => Some((b.x, b.y, b.width, b.height)),
            None => None,
        }
    }
}

impl WaylandSurfaceDescriptor {
    /// Applies pending geometry notifications to the entries of the outputs
    /// in `dirty`. The generation is left to the caller.
    pub fn apply_geometry(&mut self, registry: &OutputRegistry, dirty: &Vec<u32>)
        requires
            old(self).wf(),
            registry.wf(),
        ensures
            final(self).wf(),
            final(self)@ == old(self)@.map_values(
                |e: SurfaceDescriptorEntry| geometry_applied(e, registry@, dirty@),
            ),
            final(self).gen() == old(self).gen(),
    {
        let ghost s = self.surfaces@;
        let mut i: usize = 0;
        while i < self.surfaces.len()
            invariant
                0 <= i <= s.len(),
                self.surfaces@.len() == s.len(),
                self.generation == old(self).generation,
                s == old(self)@,
                registry.wf(),
                outputs_unique(s),
                entries_fit(s),
                forall|k: int|
                    0 <= k < i ==> #[trigger] self.surfaces@[k] == geometry_applied(s[k], registry@, dirty@),
                forall|k: int| i <= k < s.len() ==> #[trigger] self.surfaces@[k] == s[k],
            decreases s.len() - i,
        {
            let e = self.surfaces[i];
            if vec_contains(dirty, e.output) {
                match registry.get(e.output) {
                    Some(o) => {
                        let width = if o.width > 0 {
                            o.width
                        } else {
                            e.width
                        };
                        let height = if o.height > 0 {
                            o.height
                        } else {
                            e.height
                        };
                        if span_fits_exec(o.x, width) && span_fits_exec(o.y, height) {
                            self.surfaces.set(
                                i,
                                SurfaceDescriptorEntry {
                                    offset_x: o.x,
                                    offset_y: o.y,
                                    width: width,
                                    height: height,
                                    ..e
                                },
                            );
                        }
                    },
                    None => {},
                }
            }
            i = i + 1;
        }
        proof {
            let t = self.surfaces@;
            assert(t =~= s.map_values(|e: SurfaceDescriptorEntry| geometry_applied(e, registry@, dirty@)));
            assert forall|a: int, b: int| 0 <= a < t.len() && 0 <= b < t.len() && a != b implies t[a].output
                != t[b].output by {
                assert(t[a].output == s[a].output);
                assert(t[b].output == s[b].output);
            }
            assert forall|k: int| 0 <= k < t.len() implies (#[trigger] t[k]).rect().fits() by {
                assert(s[k].rect().fits());
            }
        }
    }

    /// Brings the canvas in step with one tick of the backend: entries of
    /// outputs without a live surface go, each configuration of a live
    /// output is recorded (one that would leave the coordinate space is
    /// dropped), and pending geometry notifications are applied. The
    /// generation advances by one exactly when the entries changed; the
    /// result tells whether they did.
    pub fn sync_tick(
        &mut self,
        live: &Vec<u32>,
        configs: &Vec<WaylandSurfaceConfig>,
        registry: &OutputRegistry,
        dirty: &Vec<u32>,
    ) -> (changed: bool)
        requires
            old(self).wf(),
            registry.wf(),
            old(self).gen() < u64::MAX,
        ensures
            final(self).wf(),
            final(self)@ == entries_after_tick(old(self)@, live@, configs@, registry@, dirty@),
            changed == (final(self)@ != old(self)@),
            final(self).gen() == (if changed {
                old(self).gen() + 1
            } else {
                old(self).gen() as int
            }),
    {
        let ghost base = self.surfaces@.filter(on_live(live@));
        let kept = entries_on_live(&self.surfaces, live);
        let mut next = WaylandSurfaceDescriptor { surfaces: kept, generation: 0 };
        let mut j: usize = 0;
        while j < configs.len()
            invariant
                0 <= j <= configs@.len(),
                next.wf(),
                next@ == upserted_all(base, live@, configs@.subrange(0, j as int)),
            decreases configs@.len() - j,
        {
            let c = configs[j];
            proof {
                let pre = configs@.subrange(0, j as int + 1);
                assert(pre.drop_last() =~= configs@.subrange(0, j as int));
                assert(pre.last() == c);
            }
            if vec_contains(live, c.output) && c.is_placeable() {
                next.upsert_surface(c);
            }
            j = j + 1;
        }
        proof {
            assert(configs@.subrange(0, configs@.len() as int) =~= configs@);
        }
        next.apply_geometry(registry, dirty);
        let changed = !same_entries(&self.surfaces, &next.surfaces);
        self.surfaces = next.surfaces;
        if changed {
            self.generation = self.generation + 1;
        }
        changed
    }
}

/// With a single ready entry, the canvas bounds are exactly that entry's
/// rectangle.
pub proof fn lemma_single_ready_entry_bounds(s: Seq<SurfaceDescriptorEntry>, k: int, b: Rect)
    requires
        is_tight_bounds(entry_rects(s), ready_flags(s), b),
        0 <= k < s.len(),
        s[k].ready(),
        forall|i: int| 0 <= i < s.len() && i != k ==> !(#[trigger] s[i]).ready(),
    ensures
        b == s[k].rect(),
{
    let rs = entry_rects(s);
    let fl = ready_flags(s);
    assert forall|i: int| 0 <= i < rs.len() && i != k implies !#[trigger] fl[i] by {
        assert(!s[i].ready());
    }
    lemma_tight_bounds_of_one(rs, fl, k, b);
}

/// Every output that `target` selects has a ready entry.
pub open spec fn selection_ready(
    s: Seq<SurfaceDescriptorEntry>,
    target: WallpaperTargetMonitor,
    known: Seq<Output>,
) -> bool {
    &&& selection(target, known) is Some
    &&& forall|k: int|
        0 <= k < selection(target, known)->Some_0.len() ==> has_ready_entry(
            s,
            #[trigger] selection(target, known)->Some_0[k],
        )
}

/// The canvas rectangle to publish once the selection is fully covered: the
/// bounds of the ready entries when every selected output has a ready entry
/// (under `All`, every known output), else `None`. A partly covered virtual
/// desktop is never reported.
pub fn ready_bounds(
    descriptor: &WaylandSurfaceDescriptor,
    registry: &OutputRegistry,
    target: WallpaperTargetMonitor,
) -> (r: Option<(i32, i32, u32, u32)>)
    requires
        descriptor.wf(),
        registry.wf(),
    ensures
        r is Some <==> selection_ready(descriptor@, target, registry@) && any_counted(
            ready_flags(descriptor@),
        ),
        r matches Some(b) ==> is_tight_bounds(
            entry_rects(descriptor@),
            ready_flags(descriptor@),
            Rect { x: b.0, y: b.1, width: b.2, height: b.3 },
        ),
{
    let selected = match select(target, registry.list_outputs()) {
        Some(v) => v,
        None => {
            return None;
        },
    };
    let mut i: usize = 0;
    while i < selected.len()
        invariant
            0 <= i <= selected@.len(),
            descriptor.wf(),
            selection(target, registry@) == Some(selected@),
            forall|k: int|
                0 <= k < i ==> has_ready_entry(
                    descriptor@,
                    #[trigger] selection(target, registry@)->Some_0[k],
                ),
        decreases selected@.len() - i,
    {
        if !descriptor.output_ready(selected[i]) {
            proof {
                assert(!has_ready_entry(descriptor@, selection(target, registry@)->Some_0[i as int]));
            }
            return None;
        }
        i = i + 1;
    }
    descriptor.overall_bounds()
}

/// A tick that changes nothing (every entry keeps its live surface, no new
/// configuration, no geometry notification) leaves the entries as they
/// were, so the generation stays.
pub proof fn lemma_quiet_tick_keeps_entries(
    s: Seq<SurfaceDescriptorEntry>,
    live: Seq<u32>,
    known: Seq<Output>,
)
    requires
        forall|k: int| 0 <= k < s.len() ==> live.contains(#[trigger] s[k].output),
    ensures
        entries_after_tick(s, live, Seq::empty(), known, Seq::empty()) == s,
{
    assert forall|k: int| 0 <= k < s.len() implies on_live(live)(#[trigger] s[k]) by {
        assert(live.contains(s[k].output));
    }
    lemma_filter_all_pass(s, on_live(live));
    assert(upserted_all(s, live, Seq::empty()) == s);
    let dirty = Seq::<u32>::empty();
    assert forall|k: int| 0 <= k < s.len() implies geometry_applied(#[trigger] s[k], known, dirty) == s[k] by {
        assert(!dirty.contains(s[k].output));
    }
    assert(s.map_values(|e: SurfaceDescriptorEntry| geometry_applied(e, known, dirty)) =~= s);
}

/// A tick with no configuration and no geometry notification only drops
/// the entries of outputs that lost their surface.
pub proof fn lemma_tick_without_news_prunes(
    s: Seq<SurfaceDescriptorEntry>,
    live: Seq<u32>,
    known: Seq<Output>,
)
    ensures
        entries_after_tick(s, live, Seq::empty(), known, Seq::empty()) == s.filter(on_live(live)),
{
    let f = s.filter(on_live(live));
    assert(upserted_all(f, live, Seq::empty()) == f);
    let dirty = Seq::<u32>::empty();
    assert forall|k: int| 0 <= k < f.len() implies geometry_applied(#[trigger] f[k], known, dirty) == f[k] by {
        assert(!dirty.contains(f[k].output));
    }
    assert(f.map_values(|e: SurfaceDescriptorEntry| geometry_applied(e, known, dirty)) =~= f);
}

/// After a tick every entry belongs to an output with a live surface.
pub proof fn lemma_tick_entries_live(
    s: Seq<SurfaceDescriptorEntry>,
    live: Seq<u32>,
    cs: Seq<WaylandSurfaceConfig>,
    known: Seq<Output>,
    dirty: Seq<u32>,
)
    ensures
        forall|k: int|
            0 <= k < entries_after_tick(s, live, cs, known, dirty).len() ==> live.contains(
                (#[trigger] entries_after_tick(s, live, cs, known, dirty)[k]).output,
            ),
{
    let f = s.filter(on_live(live));
    assert forall|k: int| 0 <= k < f.len() implies live.contains((#[trigger] f[k]).output) by {
        lemma_filter_from(s, on_live(live), k);
    }
    lemma_upserted_all_live(f, live, cs);
}

proof fn lemma_upserted_all_live(
    s: Seq<SurfaceDescriptorEntry>,
    live: Seq<u32>,
    cs: Seq<WaylandSurfaceConfig>,
)
    requires
        forall|k: int| 0 <= k < s.len() ==> live.contains((#[trigger] s[k]).output),
    ensures
        forall|k: int|
            0 <= k < upserted_all(s, live, cs).len() ==> live.contains(
                (#[trigger] upserted_all(s, live, cs)[k]).output,
            ),
    decreases cs.len(),
{
    if cs.len() > 0 {
        lemma_upserted_all_live(s, live, cs.drop_last());
        let before = upserted_all(s, live, cs.drop_last());
        let c = cs.last();
        if live.contains(c.output) && c.fits() {
            let t = upserted(before, c);
            assert forall|k: int| 0 <= k < t.len() implies live.contains((#[trigger] t[k]).output) by {
                if has_entry(before, c.output) {
                    assert(t[k].output == before[k].output || t[k].output == c.output);
                } else if k < before.len() {
                    assert(t[k] == before[k]);
                }
            }
        }
    }
}

} // verus!
