//! Target selection: which outputs a wallpaper covers under a policy.

use vstd::prelude::*;

use crate::geometry::{any_counted, bounding_box, is_tight_bounds, Rect};
use crate::registry::{ids_of, Output};

verus! {

/// Selects which monitor(s) display the wallpaper.
#[derive(Clone, Copy, Debug, PartialEq, Eq, Structural)]
pub enum WallpaperTargetMonitor {
    /// The output flagged primary, else the first one.
    Primary,
    /// The output at this position in registry order.
    Index(usize),
    /// All outputs as one large logical desktop.
    All,
}

impl Default for WallpaperTargetMonitor {
    fn default() -> (r: Self)
        ensures
            r == WallpaperTargetMonitor::Primary,
    {
        WallpaperTargetMonitor::Primary
    }
}

/// The position of the first output flagged primary at or after `i`, or `0`
/// when none is.
pub open spec fn primary_index_from(s: Seq<Output>, i: int) -> int
    decreases s.len() - i,
{
    if i < 0 || i >= s.len() {
        0
    } else if s[i].primary {
        i
    } else {
        primary_index_from(s, i + 1)
    }
}

/// The position of the output that `Primary` chooses: the first one flagged
/// primary, else the first one.
pub open spec fn primary_index(s: Seq<Output>) -> int {
    primary_index_from(s, 0)
}

/// The ids that `policy` selects from `s`, in registry order; `None` when it
/// selects nothing.
pub open spec fn selection(policy: WallpaperTargetMonitor, s: Seq<Output>) -> Option<Seq<u32>> {
    match policy {
        WallpaperTargetMonitor::All => {
            if s.len() == 0 {
                None
            } else {
                Some(ids_of(s))
            }
        },
        WallpaperTargetMonitor::Primary => {
            if s.len() == 0 {
                None
            } else {
                Some(seq![s[primary_index(s)].id])
            }
        },
        WallpaperTargetMonitor::Index(n) => {
            if n < s.len() {
                Some(seq![s[n as int].id])
            } else {
                None
            }
        },
    }
}

/// The view of an optional id list.
pub open spec fn ids_view(r: Option<Vec<u32>>) -> Option<Seq<u32>> {
    match r {
        Some(v) => Some(v@),
        None => None,
    }
}

/// The rectangle of an output.
pub open spec fn rect_of(o: Output) -> Rect {
    Rect { x: o.x, y: o.y, width: o.width, height: o.height }
}

/// The position `Primary` chooses lies inside a non-empty sequence.
pub proof fn lemma_primary_index_in_range(s: Seq<Output>)
    ensures
        s.len() > 0 ==> 0 <= primary_index(s) < s.len(),
{
    if s.len() > 0 {
        lemma_primary_index_bounds(s, 0);
    }
}

proof fn lemma_primary_index_bounds(s: Seq<Output>, i: int)
    requires
        0 <= i,
        s.len() > 0,
    ensures
        0 <= primary_index_from(s, i) < s.len(),
    decreases s.len() - i,
{
    if i < s.len() && !s[i].primary {
        lemma_primary_index_bounds(s, i + 1);
    }
}

/// Finds the position of the output that `Primary` chooses.
fn find_primary(outputs: &Vec<Output>) -> (r: usize)
    requires
        outputs@.len() > 0,
    ensures
        r == primary_index(outputs@),
        r < outputs@.len(),
{
    let ghost s = outputs@;
    let mut i: usize = 0;
    while i < outputs.len()
        invariant
            0 <= i <= s.len(),
            s == outputs@,
            s.len() > 0,
            primary_index_from(s, 0) == primary_index_from(s, i as int),
        decreases s.len() - i,
    {
        if outputs[i].primary {
            return i;
        }
        i = i + 1;
    }
    proof {
        lemma_primary_index_bounds(s, 0);
    }
    0
}

/// The ids that `policy` selects among `outputs`, in registry order, or
/// `None` when the selection fails (no outputs, or an index out of range).
pub fn select(policy: WallpaperTargetMonitor, outputs: &Vec<Output>) -> (r: Option<Vec<u32>>)
    ensures
        ids_view(r) == selection(policy, outputs@),
{
    match policy {
        WallpaperTargetMonitor::All => {
            if outputs.len() == 0 {
                return None;
            }
            let mut ids: Vec<u32> = Vec::new();
            let mut i: usize = 0;
            while i < outputs.len()
                invariant
                    0 <= i <= outputs@.len(),
                    ids@ == ids_of(outputs@.subrange(0, i as int)),
                decreases outputs@.len() - i,
            {
                ids.push(outputs[i].id);
                i = i + 1;
                proof {
                    assert(ids@ =~= ids_of(outputs@.subrange(0, i as int)));
                }
            }
            proof {
                assert(outputs@.subrange(0, outputs@.len() as int) =~= outputs@);
            }
            Some(ids)
        },
        WallpaperTargetMonitor::Primary => {
            if outputs.len() == 0 {
                return None;
            }
            let k = find_primary(outputs);
            let mut ids: Vec<u32> = Vec::new();
            ids.push(outputs[k].id);
            proof {
                assert(ids@ =~= seq![outputs@[k as int].id]);
            }
            Some(ids)
        },
        WallpaperTargetMonitor::Index(n) => {
            if n >= outputs.len() {
                return None;
            }
            let mut ids: Vec<u32> = Vec::new();
            ids.push(outputs[n].id);
            proof {
                assert(ids@ =~= seq![outputs@[n as int].id]);
            }
            Some(ids)
        },
    }
}

/// The rectangle a single covering window spans under `policy`: the bounding
/// box of all outputs for `All`, else the rectangle of the selected output;
/// `None` when the selection fails.
pub fn monitor_for(policy: WallpaperTargetMonitor, outputs: &Vec<Output>) -> (r: Option<Rect>)
    requires
        forall|i: int| 0 <= i < outputs@.len() ==> (#[trigger] outputs@[i]).fits(),
    ensures
        r is None <==> selection(policy, outputs@) is None,
        policy is All ==> (r matches Some(b) ==> is_tight_bounds(
            outputs@.map_values(|o: Output| rect_of(o)),
            Seq::new(outputs@.len(), |i: int| true),
            b,
        )),
        policy is Primary && outputs@.len() > 0 ==> r == Some(
            rect_of(outputs@[primary_index(outputs@)]),
        ),
        forall|n: usize|
            policy == WallpaperTargetMonitor::Index(n) && n < outputs@.len() ==> r == Some(
                rect_of(#[trigger] outputs@[n as int]),
            ),
{
    match policy {
        WallpaperTargetMonitor::All => {
            let mut rects: Vec<Rect> = Vec::new();
            let mut counted: Vec<bool> = Vec::new();
            let mut i: usize = 0;
            while i < outputs.len()
                invariant
                    0 <= i <= outputs@.len(),
                    rects@ == outputs@.subrange(0, i as int).map_values(|o: Output| rect_of(o)),
                    counted@ == Seq::new(i as nat, |k: int| true),
                decreases outputs@.len() - i,
            {
                let o = outputs[i];
                rects.push(Rect { x: o.x, y: o.y, width: o.width, height: o.height });
                counted.push(true);
                i = i + 1;
                proof {
                    assert(rects@ =~= outputs@.subrange(0, i as int).map_values(
                        |o: Output| rect_of(o),
                    ));
                    assert(counted@ =~= Seq::new(i as nat, |k: int| true));
                }
            }
            proof {
                assert(outputs@.subrange(0, outputs@.len() as int) =~= outputs@);
                if outputs@.len() > 0 {
                    assert(counted@[0]);
                }
            }
            bounding_box(&rects, &counted)
        },
        WallpaperTargetMonitor::Primary => {
            if outputs.len() == 0 {
                return None;
            }
            let o = outputs[find_primary(outputs)];
            Some(Rect { x: o.x, y: o.y, width: o.width, height: o.height })
        },
        WallpaperTargetMonitor::Index(n) => {
            if n >= outputs.len() {
                return None;
            }
            let o = outputs[n];
            Some(Rect { x: o.x, y: o.y, width: o.width, height: o.height })
        },
    }
}

/// The id of the first output, in registry order, whose rectangle holds the
/// point `(px, py)`, or `None` when no output does.
pub fn output_at(outputs: &Vec<Output>, px: i64, py: i64) -> (r: Option<u32>)
    ensures
        r is None <==> forall|k: int|
            0 <= k < outputs@.len() ==> !rect_of(#[trigger] outputs@[k]).holds_point(
                px as int,
                py as int,
            ),
        r matches Some(id) ==> exists|k: int|
            0 <= k < outputs@.len() && outputs@[k].id == id && rect_of(outputs@[k]).holds_point(
                px as int,
                py as int,
            ) && forall|j: int|
                0 <= j < k ==> !rect_of(#[trigger] outputs@[j]).holds_point(px as int, py as int),
{
    let mut i: usize = 0;
    while i < outputs.len()
        invariant
            0 <= i <= outputs@.len(),
            forall|j: int|
                0 <= j < i ==> !rect_of(#[trigger] outputs@[j]).holds_point(px as int, py as int),
        decreases outputs@.len() - i,
    {
        let o = outputs[i];
        let right = o.x as i64 + o.width as i64;
        let bottom = o.y as i64 + o.height as i64;
        if o.x as i64 <= px && px < right && o.y as i64 <= py && py < bottom {
            return Some(o.id);
        }
        i = i + 1;
    }
    None
}

} // verus!
