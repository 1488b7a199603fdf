//! One backend's reconciliation state, advanced once per tick: the output
//! registry, the live surfaces, the canvas, the fused pointer and the
//! published canvas rectangle.

use vstd::prelude::*;

use crate::canvas::{
    entries_after_tick, entry_rects, lemma_quiet_tick_keeps_entries, lemma_tick_entries_live,
    lemma_tick_without_news_prunes, on_live, ready_bounds, ready_flags, selection_ready,
    SurfaceDescriptorEntry, WaylandSurfaceConfig, WaylandSurfaceDescriptor,
};
use crate::geometry::{any_counted, is_tight_bounds, Rect};
use crate::input::{fused_all, quiet, RawPointerEvent, WallpaperPointerState};
use crate::lifecycle::{
    lemma_failed_selection_keeps_surfaces, lemma_no_destroy_keeps_live, live_after, planned_creates, planned_destroys, SurfaceActions,
    SurfaceLifecycle,
};
use crate::registry::{has_id, outputs_after_all, Output, OutputEvent, OutputRegistry};
use crate::seq_facts::{lemma_filter_all_pass, lemma_filter_from};
use crate::surface_info::WallpaperSurfaceInfo;
use crate::target_monitor::{selection, WallpaperTargetMonitor};

verus! {

/// The state a multi-surface backend reconciles each tick. A tick runs in
/// two halves around the native work: `begin_tick` takes the discovery
/// notifications, says which surfaces to create and destroy, and drops the
/// canvas entries of destroyed surfaces; `finish_tick` takes the negotiated
/// sizes and the pointer events once the backend has carried that out.
pub struct WaylandBackendState {
    pub registry: OutputRegistry,
    pub lifecycle: SurfaceLifecycle,
    pub descriptor: WaylandSurfaceDescriptor,
    pub pointer: WallpaperPointerState,
    pub surface_info: WallpaperSurfaceInfo,
    /// A fatal error stopped the backend; its last state stays readable.
    pub closed: bool,
}

/// Every live surface belongs to a known output.
pub open spec fn surfaces_known(live: Seq<u32>, known: Seq<Output>) -> bool {
    forall|k: int| 0 <= k < live.len() ==> has_id(known, #[trigger] live[k])
}

/// Every canvas entry belongs to an output with a live surface.
pub open spec fn entries_live(s: Seq<SurfaceDescriptorEntry>, live: Seq<u32>) -> bool {
    forall|k: int| 0 <= k < s.len() ==> live.contains((#[trigger] s[k]).output)
}

impl WaylandBackendState {
    /// Each part is well formed, every live surface's output is known, and
    /// every canvas entry's output has a live surface; so every entry's
    /// output is known.
    pub open spec fn wf(&self) -> bool {
        &&& self.registry.wf()
        &&& self.lifecycle.wf()
        &&& self.descriptor.wf()
        &&& self.pointer.wf()
        &&& surfaces_known(self.lifecycle@, self.registry@)
        &&& entries_live(self.descriptor@, self.lifecycle@)
    }

    /// Nothing known yet.
    pub fn new() -> (r: Self)
        ensures
            r.wf(),
            r.registry@ == Seq::<Output>::empty(),
            r.lifecycle@ == Seq::<u32>::empty(),
            r.descriptor@ == Seq::<SurfaceDescriptorEntry>::empty(),
            r.descriptor.gen() == 0,
            r.pointer@ is None,
            !r.closed,
    {
        WaylandBackendState {
            registry: OutputRegistry::new(),
            lifecycle: SurfaceLifecycle::new(),
            descriptor: WaylandSurfaceDescriptor::new(),
            pointer: WallpaperPointerState::new(),
            surface_info: WallpaperSurfaceInfo { offset_x: 0, offset_y: 0, width: 0, height: 0 },
            closed: false,
        }
    }

    /// First half of a tick: applies the discovery notifications, then
    /// diffs the live surfaces. When the platform can create surfaces
    /// (`can_create`) the diff follows the selection that `policy` makes;
    /// otherwise it creates nothing and destroys the surfaces of lost
    /// outputs. The canvas drops the entries of destroyed surfaces, its
    /// generation advancing exactly when that changes it. A closed backend
    /// does nothing, and so does one whose generation counter can no longer
    /// advance: it closes.
    pub fn begin_tick(
        &mut self,
        events: &Vec<OutputEvent>,
        policy: WallpaperTargetMonitor,
        can_create: bool,
    ) -> (r: SurfaceActions)
        requires
            old(self).wf(),
        ensures
            final(self).wf(),
            final(self).pointer@ == old(self).pointer@,
            final(self).surface_info == old(self).surface_info,
            final(self).closed == (old(self).closed || old(self).descriptor.gen() == u64::MAX),
            final(self).closed ==> {
                &&& final(self).registry@ == old(self).registry@
                &&& final(self).lifecycle@ == old(self).lifecycle@
                &&& final(self).descriptor@ == old(self).descriptor@
                &&& final(self).descriptor.gen() == old(self).descriptor.gen()
                &&& r.create@.len() == 0
                &&& r.destroy@.len() == 0
            },
            !final(self).closed ==> {
                let known = outputs_after_all(old(self).registry@, events@);
                let sel = if can_create {
                    selection(policy, known)
                } else {
                    None
                };
                &&& final(self).registry@ == known
                &&& r.create@ == planned_creates(old(self).lifecycle@, sel)
                &&& r.destroy@ == planned_destroys(old(self).lifecycle@, sel, known)
                &&& final(self).lifecycle@ == live_after(old(self).lifecycle@, sel, known)
                &&& final(self).descriptor@ == old(self).descriptor@.filter(
                    on_live(final(self).lifecycle@),
                )
                &&& final(self).descriptor.gen() == (if final(self).descriptor@
                    != old(self).descriptor@ {
                    old(self).descriptor.gen() + 1
                } else {
                    old(self).descriptor.gen() as int
                })
                &&& r.destroy@.len() == 0 ==> final(self).descriptor@ == old(self).descriptor@
                    && final(self).descriptor.gen() == old(self).descriptor.gen()
            },
            !final(self).closed && events@.len() == 0 && selection(policy, old(self).registry@) is None
                ==> {
                &&& r.create@.len() == 0
                &&& r.destroy@.len() == 0
                &&& final(self).lifecycle@ == old(self).lifecycle@
                &&& final(self).descriptor@ == old(self).descriptor@
                &&& final(self).descriptor.gen() == old(self).descriptor.gen()
            },
    {
        if self.closed || self.descriptor.generation() == u64::MAX {
            self.closed = true;
            return SurfaceActions { create: Vec::new(), destroy: Vec::new() };
        }
        let ghost old_live = self.lifecycle@;
        let ghost old_entries = self.descriptor@;
        let ghost old_known = self.registry@;
        self.registry.apply_all(events);
        let actions = if can_create {
            self.lifecycle.reconcile(policy, &self.registry)
        } else {
            self.lifecycle.prune_lost(&self.registry)
        };
        let none: Vec<u32> = Vec::new();
        let no_configs: Vec<WaylandSurfaceConfig> = Vec::new();
        self.descriptor.sync_tick(self.lifecycle.live_outputs(), &no_configs, &self.registry, &none);
        proof {
            let known = self.registry@;
            let live = self.lifecycle@;
            let sel = if can_create {
                selection(policy, known)
            } else {
                None
            };
            if events@.len() == 0 && selection(policy, old_known) is None {
                assert(known == old_known);
                lemma_failed_selection_keeps_surfaces(old_live, policy, known);
            }
            assert(no_configs@ =~= Seq::<WaylandSurfaceConfig>::empty());
            assert(none@ =~= Seq::<u32>::empty());
            lemma_tick_without_news_prunes(old_entries, live, known);
            let f = old_entries.filter(on_live(live));
            assert forall|k: int| 0 <= k < f.len() implies live.contains((#[trigger] f[k]).output) by {
                lemma_filter_from(old_entries, on_live(live), k);
            }
            if actions.destroy@.len() == 0 {
                lemma_no_destroy_keeps_live(old_live, sel, known);
                assert forall|k: int| 0 <= k < old_entries.len() implies on_live(live)(
                    #[trigger] old_entries[k],
                ) by {
                    let o = old_entries[k].output;
                    assert(old_live.contains(o));
                    let m = choose|m: int| 0 <= m < old_live.len() && old_live[m] == o;
                    assert(live.contains(old_live[m]));
                }
                lemma_filter_all_pass(old_entries, on_live(live));
            }
        }
        actions
    }

    /// Second half of a tick: the canvas follows the new configurations and
    /// the pending geometry notifications (advancing the generation exactly
    /// when its entries change); the pointer takes the tick's events; and
    /// once the selection is fully covered the canvas rectangle is
    /// published. A closed backend does nothing, and so does one whose
    /// generation counter can no longer advance: it closes.
    pub fn finish_tick(
        &mut self,
        configs: &Vec<WaylandSurfaceConfig>,
        pointer_events: &Vec<RawPointerEvent>,
        policy: WallpaperTargetMonitor,
    )
        requires
            old(self).wf(),
        ensures
            final(self).wf(),
            final(self).lifecycle@ == old(self).lifecycle@,
            final(self).registry@ == old(self).registry@,
            old(self).closed || old(self).descriptor.gen() == u64::MAX ==> {
                &&& final(self).closed
                &&& final(self).descriptor@ == old(self).descriptor@
                &&& final(self).descriptor.gen() == old(self).descriptor.gen()
                &&& final(self).pointer@ == old(self).pointer@
                &&& final(self).surface_info == old(self).surface_info
            },
            !old(self).closed && old(self).descriptor.gen() < u64::MAX ==> {
                let entries = entries_after_tick(
                    old(self).descriptor@,
                    old(self).lifecycle@,
                    configs@,
                    old(self).registry@,
                    old(self).registry.dirty(),
                );
                let covered = selection_ready(entries, policy, old(self).registry@) && any_counted(
                    ready_flags(entries),
                );
                let info = final(self).surface_info;
                &&& !final(self).closed
                &&& final(self).descriptor@ == entries
                &&& final(self).descriptor.gen() == (if entries != old(self).descriptor@ {
                    old(self).descriptor.gen() + 1
                } else {
                    old(self).descriptor.gen() as int
                })
                &&& configs@.len() == 0 && old(self).registry.dirty().len() == 0 ==> {
                    &&& final(self).descriptor@ == old(self).descriptor@
                    &&& final(self).descriptor.gen() == old(self).descriptor.gen()
                }
                &&& pointer_events@.len() == 0 ==> final(self).pointer@ == quiet(old(self).pointer@)
                &&& pointer_events@.len() > 0 ==> final(self).pointer@ == fused_all(
                    old(self).pointer@,
                    pointer_events@,
                    old(self).registry@,
                )
                &&& covered ==> is_tight_bounds(
                    entry_rects(entries),
                    ready_flags(entries),
                    Rect { x: info.offset_x, y: info.offset_y, width: info.width, height: info.height },
                )
                &&& !covered ==> info == old(self).surface_info
            },
    {
        if self.closed {
            return;
        }
        if self.descriptor.generation() == u64::MAX {
            self.closed = true;
            return;
        }
        let ghost old_entries = self.descriptor@;
        let ghost old_dirty = self.registry.dirty();
        let dirty = self.registry.take_dirty();
        self.descriptor.sync_tick(self.lifecycle.live_outputs(), configs, &self.registry, &dirty);
        proof {
            let live = self.lifecycle@;
            let known = self.registry@;
            lemma_tick_entries_live(old_entries, live, configs@, known, old_dirty);
            if configs@.len() == 0 && old_dirty.len() == 0 {
                assert(configs@ =~= Seq::<WaylandSurfaceConfig>::empty());
                assert(old_dirty =~= Seq::<u32>::empty());
                lemma_quiet_tick_keeps_entries(old_entries, live, known);
            }
        }
        self.pointer.apply_tick(pointer_events, &self.registry);
        match ready_bounds(&self.descriptor, &self.registry, policy) {
            Some((x, y, w, h)) => {
                self.surface_info.set(x, y, w, h);
            },
            None => {},
        }
    }

    /// A fatal error: the backend closes. Everything it holds stays as it
    /// was, so consumers keep seeing the last good canvas, pointer sample and
    /// rectangle; a closed backend is no longer driven or presented.
    pub fn close(&mut self)
        requires
            old(self).wf(),
        ensures
            final(self).wf(),
            final(self).closed,
            final(self).registry@ == old(self).registry@,
            final(self).lifecycle@ == old(self).lifecycle@,
            final(self).descriptor@ == old(self).descriptor@,
            final(self).descriptor.gen() == old(self).descriptor.gen(),
            final(self).pointer@ == old(self).pointer@,
            final(self).surface_info == old(self).surface_info,
    {
        self.closed = true;
    }
}

} // verus!
