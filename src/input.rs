//! Pointer fusion: raw pointer events from per-output coordinate spaces
//! merged into one global pointer sample, and the polling adapter that
//! derives the same samples from absolute state.

use vstd::prelude::*;

use crate::registry::{has_id, output_with, Output, OutputRegistry};
use crate::seq_facts::{lemma_filter_from, lemma_filter_no_duplicates, lemma_filter_prefix_step, lemma_filter_none_pass};

verus! {

/// A pointer button.
#[derive(Clone, Copy, Debug, PartialEq, Eq, Hash, Structural)]
pub enum MouseButton {
    Left,
    Right,
    Middle,
    Back,
    Forward,
    Other(u16),
}

/// The last button transition: which button, and whether it went down.
#[derive(Clone, Copy, Debug, PartialEq, Eq, Structural)]
pub struct PointerButton {
    pub button: Option<MouseButton>,
    pub pressed: bool,
}

/// A point or a displacement in the fused desktop space (top-left origin,
/// Y pointing down).
#[derive(Clone, Copy, Debug, PartialEq, Eq, Structural)]
pub struct Point {
    pub x: i64,
    pub y: i64,
}

/// One fused pointer sample.
#[derive(Clone, Debug)]
pub struct PointerSample {
    /// The output the event came from; `None` for unkeyed events or when
    /// the pointer is over no known output.
    pub output: Option<u32>,
    /// Global logical position.
    pub position: Point,
    /// Displacement from the previous sample.
    pub delta: Point,
    /// The button transition this sample carries, if any.
    pub last_button: Option<PointerButton>,
    /// Buttons held down, in the order they went down.
    pub pressed: Vec<MouseButton>,
}

/// The mathematical content of a sample.
pub struct SampleModel {
    pub output: Option<u32>,
    pub x: int,
    pub y: int,
    pub dx: int,
    pub dy: int,
    pub last_button: Option<PointerButton>,
    pub pressed: Seq<MouseButton>,
}

impl View for PointerSample {
    type V = SampleModel;

    open spec fn view(&self) -> SampleModel {
        SampleModel {
            output: self.output,
            x: self.position.x as int,
            y: self.position.y as int,
            dx: self.delta.x as int,
            dy: self.delta.y as int,
            last_button: self.last_button,
            pressed: self.pressed@,
        }
    }
}

/// The largest distance from the origin a fused position may have: the sum
/// of two `i32` coordinates stays within it.
pub const POSITION_LIMIT: i64 = 0x1_0000_0000;

/// A coordinate inside the fused space.
pub open spec fn coord_ok(v: int) -> bool {
    -POSITION_LIMIT <= v <= POSITION_LIMIT
}

impl PointerSample {
    /// Position inside the fused space; no button held twice.
    pub open spec fn wf(&self) -> bool {
        coord_ok(self.position.x as int) && coord_ok(self.position.y as int) && self.pressed@.no_duplicates()
    }
}

/// The latest pointer sample across all outputs.
#[derive(Clone, Debug)]
pub struct WallpaperPointerState {
    pub last: Option<PointerSample>,
}

impl View for WallpaperPointerState {
    type V = Option<SampleModel>;

    open spec fn view(&self) -> Option<SampleModel> {
        match self.last {
            Some(s) => Some(s@),
            None => None,
        }
    }
}

/// What a raw pointer event reports besides its position.
#[derive(Clone, Copy, Debug, PartialEq, Eq, Structural)]
pub enum PointerEventKind {
    Motion,
    Button { button: Option<MouseButton>, pressed: bool },
}

impl PointerEventKind {
    /// The button transition of a button event.
    pub open spec fn edge(self) -> Option<PointerButton> {
        match self {
            PointerEventKind::Motion => None,
            PointerEventKind::Button { button, pressed } => Some(
                PointerButton { button: button, pressed: pressed },
            ),
        }
    }

    /// Returns the button state transition if this event is a button action.
    pub fn button_change(&self) -> (r: Option<(Option<MouseButton>, bool)>)
        ensures
            r == (match *self {
                PointerEventKind::Motion => None,
                PointerEventKind::Button { button, pressed } => Some((button, pressed)),
            }),
    {
        match self {
            PointerEventKind::Motion => None,
            PointerEventKind::Button { button, pressed } => Some((*button, *pressed)),
        }
    }
}

/// A raw pointer event in the coordinates of the output that reported it;
/// an event with no output is already global.
#[derive(Clone, Copy, Debug, PartialEq, Eq, Structural)]
pub struct RawPointerEvent {
    pub output: Option<u32>,
    pub x: i32,
    pub y: i32,
    pub kind: PointerEventKind,
}

/// Keeps the buttons other than `b`.
pub open spec fn button_is_not(b: MouseButton) -> spec_fn(MouseButton) -> bool {
    |m: MouseButton| m != b
}

/// The held buttons after a transition: a press adds its button (once), a
/// release removes it, anything else keeps them.
pub open spec fn pressed_after(held: Seq<MouseButton>, edge: Option<PointerButton>) -> Seq<MouseButton> {
    match edge {
        Some(PointerButton { button: Some(b), pressed }) => {
            if pressed {
                if held.contains(b) {
                    held
                } else {
                    held.push(b)
                }
            } else {
                held.filter(button_is_not(b))
            }
        },
        _ => held,
    }
}

/// The sample an event at global position `(gx, gy)` produces after `prev`:
/// the delta is measured from the previous position (zero for the first
/// sample), the held buttons carry over and follow a button transition, and
/// the transition is recorded (a motion clears it).
pub open spec fn fused(
    prev: Option<SampleModel>,
    output: Option<u32>,
    gx: int,
    gy: int,
    kind: PointerEventKind,
) -> SampleModel {
    let px = match prev {
        Some(p) => p.x,
        None => gx,
    };
    let py = match prev {
        Some(p) => p.y,
        None => gy,
    };
    let held = match prev {
        Some(p) => p.pressed,
        None => Seq::empty(),
    };
    SampleModel {
        output: output,
        x: gx,
        y: gy,
        dx: gx - px,
        dy: gy - py,
        last_button: kind.edge(),
        pressed: pressed_after(held, kind.edge()),
    }
}

/// The global position of an event: its local position plus the offset of
/// its output, or `(0, 0)` for an unknown output or an unkeyed event.
pub open spec fn global_x(e: RawPointerEvent, known: Seq<Output>) -> int {
    match e.output {
        Some(id) => if has_id(known, id) {
            e.x + output_with(known, id).x
        } else {
            e.x as int
        },
        None => e.x as int,
    }
}

/// See `global_x`.
pub open spec fn global_y(e: RawPointerEvent, known: Seq<Output>) -> int {
    match e.output {
        Some(id) => if has_id(known, id) {
            e.y + output_with(known, id).y
        } else {
            e.y as int
        },
        None => e.y as int,
    }
}

/// The sample after a batch of events, applied in arrival order.
pub open spec fn fused_all(
    prev: Option<SampleModel>,
    events: Seq<RawPointerEvent>,
    known: Seq<Output>,
) -> Option<SampleModel>
    decreases events.len(),
{
    if events.len() == 0 {
        prev
    } else {
        let before = fused_all(prev, events.drop_last(), known);
        let e = events.last();
        Some(fused(before, e.output, global_x(e, known), global_y(e, known), e.kind))
    }
}

/// The sample after a tick without events: no displacement and no button
/// transition, position and held buttons kept.
pub open spec fn quiet(prev: Option<SampleModel>) -> Option<SampleModel> {
    match prev {
        Some(p) => Some(SampleModel { dx: 0, dy: 0, last_button: None, ..p }),
        None => None,
    }
}

/// `held` with `b` added once.
fn with_button(held: &Vec<MouseButton>, b: MouseButton) -> (r: Vec<MouseButton>)
    requires
        held@.no_duplicates(),
    ensures
        r@ == (if held@.contains(b) {
            held@
        } else {
            held@.push(b)
        }),
        r@.no_duplicates(),
{
    let mut out: Vec<MouseButton> = Vec::new();
    let mut found = false;
    let mut i: usize = 0;
    while i < held.len()
        invariant
            0 <= i <= held@.len(),
            out@ == held@.subrange(0, i as int),
            found == held@.subrange(0, i as int).contains(b),
        decreases held@.len() - i,
    {
        let m = held[i];
        if m == b {
            found = true;
        }
        out.push(m);
        proof {
            let pre = held@.subrange(0, i as int + 1);
            assert(pre =~= held@.subrange(0, i as int).push(m));
            if m == b {
                assert(pre[i as int] == b);
            } else if !found {
                assert forall|k: int| 0 <= k < pre.len() implies pre[k] != b by {
                    if k < i {
                        assert(pre[k] == held@.subrange(0, i as int)[k]);
                    }
                }
            }
        }
        i = i + 1;
    }
    proof {
        assert(held@.subrange(0, held@.len() as int) =~= held@);
    }
    if !found {
        out.push(b);
    }
    out
}

/// `held` without `b`.
fn without_button(held: &Vec<MouseButton>, b: MouseButton) -> (r: Vec<MouseButton>)
    requires
        held@.no_duplicates(),
    ensures
        r@ == held@.filter(button_is_not(b)),
        r@.no_duplicates(),
{
    let ghost pred = button_is_not(b);
    let mut out: Vec<MouseButton> = Vec::new();
    let mut i: usize = 0;
    while i < held.len()
        invariant
            0 <= i <= held@.len(),
            pred == button_is_not(b),
            out@ == held@.subrange(0, i as int).filter(pred),
        decreases held@.len() - i,
    {
        let m = held[i];
        proof {
            lemma_filter_prefix_step(held@, pred, i as int);
        }
        if m != b {
            out.push(m);
        }
        i = i + 1;
    }
    proof {
        assert(held@.subrange(0, held@.len() as int) =~= held@);
        lemma_filter_no_duplicates(held@, pred);
    }
    out
}

/// Copies a button list.
fn copy_buttons(held: &Vec<MouseButton>) -> (r: Vec<MouseButton>)
    ensures
        r@ == held@,
{
    let mut out: Vec<MouseButton> = Vec::new();
    let mut i: usize = 0;
    while i < held.len()
        invariant
            0 <= i <= held@.len(),
            out@ == held@.subrange(0, i as int),
        decreases held@.len() - i,
    {
        out.push(held[i]);
        i = i + 1;
        proof {
            assert(out@ =~= held@.subrange(0, i as int));
        }
    }
    proof {
        assert(held@.subrange(0, held@.len() as int) =~= held@);
    }
    out
}

impl WallpaperPointerState {
    /// Every position the state holds lies inside the fused space.
    pub open spec fn wf(&self) -> bool {
        match self.last {
            Some(s) => s.wf(),
            None => true,
        }
    }

    /// No sample yet.
    pub fn new() -> (r: Self)
        ensures
            r.wf(),
            r@ is None,
    {
        WallpaperPointerState { last: None }
    }

    /// Fuses one event already placed at global position `(gx, gy)`.
    pub fn apply_event_at(&mut self, output: Option<u32>, gx: i64, gy: i64, kind: PointerEventKind)
        requires
            old(self).wf(),
            coord_ok(gx as int),
            coord_ok(gy as int),
        ensures
            final(self).wf(),
            final(self)@ == Some(fused(old(self)@, output, gx as int, gy as int, kind)),
    {
        let (px, py) = match &self.last {
            Some(s) => (s.position.x, s.position.y),
            None => (gx, gy),
        };
        let held = match &self.last {
            Some(s) => copy_buttons(&s.pressed),
            None => Vec::new(),
        };
        let edge = match kind {
            PointerEventKind::Motion => None,
            PointerEventKind::Button { button, pressed } => Some(PointerButton { button, pressed }),
        };
        let pressed = match edge {
            Some(PointerButton { button: Some(b), pressed: true }) => with_button(&held, b),
            Some(PointerButton { button: Some(b), pressed: false }) => without_button(&held, b),
            _ => held,
        };
        let sample = PointerSample {
            output,
            position: Point { x: gx, y: gy },
            delta: Point { x: gx - px, y: gy - py },
            last_button: edge,
            pressed,
        };
        self.last = Some(sample);
    }

    /// Fuses one raw event: its output's offset (zero when unknown or
    /// unkeyed) places it globally.
    pub fn apply_event(&mut self, e: RawPointerEvent, registry: &OutputRegistry)
        requires
            old(self).wf(),
            registry.wf(),
        ensures
            final(self).wf(),
            final(self)@ == Some(
                fused(old(self)@, e.output, global_x(e, registry@), global_y(e, registry@), e.kind),
            ),
    {
        let (ox, oy) = match e.output {
            Some(id) => registry.offset_of(id),
            None => (0, 0),
        };
        let gx = e.x as i64 + ox as i64;
        let gy = e.y as i64 + oy as i64;
        self.apply_event_at(e.output, gx, gy, e.kind);
    }

    /// Clears what a sample says about the last event only: zero delta and
    /// no button transition; position and held buttons stay.
    pub fn clear_transients(&mut self)
        requires
            old(self).wf(),
        ensures
            final(self).wf(),
            final(self)@ == quiet(old(self)@),
    {
        match &mut self.last {
            Some(s) => {
                s.delta = Point { x: 0, y: 0 };
                s.last_button = None;
            },
            None => {},
        }
    }

    /// Processes one tick's events in arrival order, each position feeding
    /// the next delta; a tick without events clears the transients.
    pub fn apply_tick(&mut self, events: &Vec<RawPointerEvent>, registry: &OutputRegistry)
        requires
            old(self).wf(),
            registry.wf(),
        ensures
            final(self).wf(),
            events@.len() == 0 ==> final(self)@ == quiet(old(self)@),
            events@.len() > 0 ==> final(self)@ == fused_all(old(self)@, events@, registry@),
    {
        if events.len() == 0 {
            self.clear_transients();
            return;
        }
        let mut i: usize = 0;
        while i < events.len()
            invariant
                0 <= i <= events@.len(),
                self.wf(),
                registry.wf(),
                self@ == fused_all(old(self)@, events@.subrange(0, i as int), registry@),
            decreases events@.len() - i,
        {
            proof {
                let pre = events@.subrange(0, i as int + 1);
                assert(pre.drop_last() =~= events@.subrange(0, i as int));
                assert(pre.last() == events@[i as int]);
            }
            self.apply_event(events[i], registry);
            i = i + 1;
        }
        proof {
            assert(events@.subrange(0, events@.len() as int) =~= events@);
        }
    }
}

/// The button a set of candidates resolves to: `Left`, then `Right`, then
/// `Middle`, then the first of the others.
pub open spec fn prioritized(s: Seq<MouseButton>) -> Option<MouseButton> {
    if s.contains(MouseButton::Left) {
        Some(MouseButton::Left)
    } else if s.contains(MouseButton::Right) {
        Some(MouseButton::Right)
    } else if s.contains(MouseButton::Middle) {
        Some(MouseButton::Middle)
    } else if s.len() > 0 {
        Some(s[0])
    } else {
        None
    }
}

/// Keeps the buttons not in `s`.
pub open spec fn absent_from(s: Seq<MouseButton>) -> spec_fn(MouseButton) -> bool {
    |m: MouseButton| !s.contains(m)
}

/// The one transition a change of the held set from `prev` to `cur`
/// resolves to: a newly pressed button first, else a released one, each
/// chosen by `prioritized`; `None` when nothing changed.
pub open spec fn button_edge(prev: Seq<MouseButton>, cur: Seq<MouseButton>) -> Option<PointerButton> {
    let pressed_now = cur.filter(absent_from(prev));
    let released = prev.filter(absent_from(cur));
    if pressed_now.len() > 0 {
        Some(PointerButton { button: prioritized(pressed_now), pressed: true })
    } else if released.len() > 0 {
        Some(PointerButton { button: prioritized(released), pressed: false })
    } else {
        None
    }
}

/// Whether `s` holds `b`.
fn holds_button(s: &Vec<MouseButton>, b: MouseButton) -> (r: bool)
    ensures
        r == s@.contains(b),
{
    let mut i: usize = 0;
    while i < s.len()
        invariant
            0 <= i <= s@.len(),
            forall|k: int| 0 <= k < i ==> s@[k] != b,
        decreases s@.len() - i,
    {
        if s[i] == b {
            proof {
                assert(s@[i as int] == b);
            }
            return true;
        }
        i = i + 1;
    }
    false
}

/// The buttons of `s` that `other` does not hold, in order.
fn buttons_not_in(s: &Vec<MouseButton>, other: &Vec<MouseButton>) -> (r: Vec<MouseButton>)
    ensures
        r@ == s@.filter(absent_from(other@)),
{
    let ghost pred = absent_from(other@);
    let mut out: Vec<MouseButton> = Vec::new();
    let mut i: usize = 0;
    while i < s.len()
        invariant
            0 <= i <= s@.len(),
            pred == absent_from(other@),
            out@ == s@.subrange(0, i as int).filter(pred),
        decreases s@.len() - i,
    {
        let m = s[i];
        proof {
            lemma_filter_prefix_step(s@, pred, i as int);
        }
        if !holds_button(other, m) {
            out.push(m);
        }
        i = i + 1;
    }
    proof {
        assert(s@.subrange(0, s@.len() as int) =~= s@);
    }
    out
}

/// Resolves several candidate buttons to one: `Left`, then `Right`, then
/// `Middle`, then the first of the others.
pub fn prioritize_button(buttons: &Vec<MouseButton>) -> (r: Option<MouseButton>)
    ensures
        r == prioritized(buttons@),
{
    if holds_button(buttons, MouseButton::Left) {
        Some(MouseButton::Left)
    } else if holds_button(buttons, MouseButton::Right) {
        Some(MouseButton::Right)
    } else if holds_button(buttons, MouseButton::Middle) {
        Some(MouseButton::Middle)
    } else if buttons.len() > 0 {
        Some(buttons[0])
    } else {
        None
    }
}

/// The transition between two polled held sets (no previous set counts as
/// empty): a newly pressed button if any, else a released one.
pub fn detect_last_button(prev: Option<&Vec<MouseButton>>, current: &Vec<MouseButton>) -> (r: Option<
    PointerButton,
>)
    ensures
        r == button_edge(
            match prev {
                Some(p) => p@,
                None => Seq::empty(),
            },
            current@,
        ),
{
    let empty: Vec<MouseButton> = Vec::new();
    let before: &Vec<MouseButton> = match prev {
        Some(p) => p,
        None => &empty,
    };
    let pressed_now = buttons_not_in(current, before);
    if pressed_now.len() > 0 {
        return Some(PointerButton { button: prioritize_button(&pressed_now), pressed: true });
    }
    let released = buttons_not_in(before, current);
    if released.len() > 0 {
        return Some(PointerButton { button: prioritize_button(&released), pressed: false });
    }
    None
}

proof fn lemma_push_contains(s: Seq<MouseButton>, x: MouseButton)
    ensures
        forall|b: MouseButton| s.push(x).contains(b) <==> s.contains(b) || b == x,
{
    assert forall|b: MouseButton| s.push(x).contains(b) <==> s.contains(b) || b == x by {
        if s.contains(b) {
            let k = choose|k: int| 0 <= k < s.len() && s[k] == b;
            assert(s.push(x)[k] == b);
        }
        if b == x {
            assert(s.push(x)[s.len() as int] == x);
        }
        if s.push(x).contains(b) && b != x {
            let k = choose|k: int| 0 <= k < s.len() + 1 && s.push(x)[k] == b;
            assert(s[k] == b);
        }
    }
}

/// `s` with repeated buttons dropped, first occurrences kept in order.
pub open spec fn deduped(s: Seq<MouseButton>) -> Seq<MouseButton>
    decreases s.len(),
{
    if s.len() == 0 {
        s
    } else {
        let d = deduped(s.drop_last());
        if d.contains(s.last()) {
            d
        } else {
            d.push(s.last())
        }
    }
}

/// Drops repeated buttons, keeping first occurrences.
fn dedup_buttons(s: &Vec<MouseButton>) -> (r: Vec<MouseButton>)
    ensures
        r@ == deduped(s@),
        r@.no_duplicates(),
        forall|b: MouseButton| r@.contains(b) <==> s@.contains(b),
{
    let mut out: Vec<MouseButton> = Vec::new();
    let mut i: usize = 0;
    while i < s.len()
        invariant
            0 <= i <= s@.len(),
            out@ == deduped(s@.subrange(0, i as int)),
            out@.no_duplicates(),
            forall|b: MouseButton| out@.contains(b) <==> s@.subrange(0, i as int).contains(b),
        decreases s@.len() - i,
    {
        let m = s[i];
        let ghost before = out@;
        proof {
            assert(forall|b: MouseButton| before.contains(b) <==> s@.subrange(0, i as int).contains(b));
        }
        if !holds_button(&out, m) {
            out.push(m);
        }
        proof {
            let old_pre = s@.subrange(0, i as int);
            let pre = s@.subrange(0, i as int + 1);
            assert(pre =~= old_pre.push(m));
            assert(pre.drop_last() =~= old_pre);
            lemma_push_contains(old_pre, m);
            lemma_push_contains(before, m);
            assert(before.contains(m) <==> old_pre.contains(m));
            assert forall|b: MouseButton| out@.contains(b) <==> pre.contains(b) by {
                assert(before.contains(b) <==> old_pre.contains(b));
                if before.contains(m) {
                    assert(out@ == before);
                } else {
                    assert(out@ == before.push(m));
                }
            }
        }
        i = i + 1;
    }
    proof {
        assert(s@.subrange(0, s@.len() as int) =~= s@);
    }
    out
}

impl WallpaperPointerState {
    /// The polling adapter: builds the sample for one polled tick from the
    /// absolute position and the held buttons, as a push backend would: the
    /// delta from the previous position, the transition from the previous
    /// held set. Repeated buttons in `pressed` count once.
    pub fn apply_poll(&mut self, output: Option<u32>, x: i32, y: i32, pressed: &Vec<MouseButton>)
        requires
            old(self).wf(),
        ensures
            final(self).wf(),
            final(self).last matches Some(s) && {
                &&& s.output == output
                &&& s.position == Point { x: x as i64, y: y as i64 }
                &&& s@.dx == x - match old(self)@ {
                    Some(p) => p.x,
                    None => x as int,
                }
                &&& s@.dy == y - match old(self)@ {
                    Some(p) => p.y,
                    None => y as int,
                }
                &&& s.pressed@ == deduped(pressed@)
                &&& s.last_button == button_edge(
                    match old(self)@ {
                        Some(p) => p.pressed,
                        None => Seq::empty(),
                    },
                    s.pressed@,
                )
            },
    {
        let held = dedup_buttons(pressed);
        let gx = x as i64;
        let gy = y as i64;
        let (px, py) = match &self.last {
            Some(s) => (s.position.x, s.position.y),
            None => (gx, gy),
        };
        let edge = match &self.last {
            Some(s) => detect_last_button(Some(&s.pressed), &held),
            None => detect_last_button(None, &held),
        };
        self.last = Some(
            PointerSample {
                output,
                position: Point { x: gx, y: gy },
                delta: Point { x: gx - px, y: gy - py },
                last_button: edge,
                pressed: held,
            },
        );
    }
}

/// The buttons an X11 key-and-button mask reports held, in the order
/// `Left`, `Middle`, `Right`. The wheel buttons are left out, so scrolling
/// never counts as a held button.
pub open spec fn x11_held(mask: u16) -> Seq<MouseButton> {
    let l = if mask & 0x100u16 != 0 {
        seq![MouseButton::Left]
    } else {
        Seq::empty()
    };
    let m = if mask & 0x200u16 != 0 {
        seq![MouseButton::Middle]
    } else {
        Seq::empty()
    };
    let r = if mask & 0x400u16 != 0 {
        seq![MouseButton::Right]
    } else {
        Seq::empty()
    };
    l + m + r
}

/// Reads the held buttons from an X11 key-and-button mask.
pub fn pressed_buttons(mask: u16) -> (r: Vec<MouseButton>)
    ensures
        r@ == x11_held(mask),
{
    let mut held: Vec<MouseButton> = Vec::new();
    if mask & 0x100u16 != 0 {
        held.push(MouseButton::Left);
    }
    if mask & 0x200u16 != 0 {
        held.push(MouseButton::Middle);
    }
    if mask & 0x400u16 != 0 {
        held.push(MouseButton::Right);
    }
    proof {
        assert(held@ =~= x11_held(mask));
    }
    held
}

/// The held buttons from three per-button states, in the order `Left`,
/// `Right`, `Middle`.
pub fn pressed_from_states(left: bool, right: bool, middle: bool) -> (r: Vec<MouseButton>)
    ensures
        r@ == (if left {
            seq![MouseButton::Left]
        } else {
            Seq::empty()
        }) + (if right {
            seq![MouseButton::Right]
        } else {
            Seq::empty()
        }) + (if middle {
            seq![MouseButton::Middle]
        } else {
            Seq::empty()
        }),
{
    let mut held: Vec<MouseButton> = Vec::new();
    if left {
        held.push(MouseButton::Left);
    }
    if right {
        held.push(MouseButton::Right);
    }
    if middle {
        held.push(MouseButton::Middle);
    }
    proof {
        assert(held@ =~= (if left {
            seq![MouseButton::Left]
        } else {
            Seq::empty()
        }) + (if right {
            seq![MouseButton::Right]
        } else {
            Seq::empty()
        }) + (if middle {
            seq![MouseButton::Middle]
        } else {
            Seq::empty()
        }));
    }
    held
}

/// The button a Linux input event code names: `BTN_LEFT`, `BTN_RIGHT` and
/// `BTN_MIDDLE` by name, any other code that fits in 16 bits as `Other`,
/// else none.
pub fn button_from_code(code: u32) -> (r: Option<MouseButton>)
    ensures
        code == 272 ==> r == Some(MouseButton::Left),
        code == 273 ==> r == Some(MouseButton::Right),
        code == 274 ==> r == Some(MouseButton::Middle),
        code != 272 && code != 273 && code != 274 && code <= u16::MAX ==> r == Some(
            MouseButton::Other(code as u16),
        ),
        code > u16::MAX ==> r is None,
{
    if code == 272 {
        Some(MouseButton::Left)
    } else if code == 273 {
        Some(MouseButton::Right)
    } else if code == 274 {
        Some(MouseButton::Middle)
    } else if code <= 0xffff {
        Some(MouseButton::Other(code as u16))
    } else {
        None
    }
}

/// Where the pointer currently is, as last entered or moved: the output it
/// is over (`None` when its surface is unknown) and its local position.
#[derive(Clone, Copy, Debug, PartialEq, Eq, Structural)]
pub struct PointerFocus {
    pub output: Option<u32>,
    pub x: i32,
    pub y: i32,
}

/// Turns a seat's enter, leave, motion and button notifications into raw
/// pointer events. Motion and buttons outside any surface are dropped.
#[derive(Clone, Copy, Debug, PartialEq, Eq, Structural)]
pub struct FocusTracker {
    pub focus: Option<PointerFocus>,
}

impl FocusTracker {
    /// No focus.
    pub fn new() -> (r: Self)
        ensures
            r.focus is None,
    {
        FocusTracker { focus: None }
    }

    /// The pointer entered a surface of `output` at `(x, y)`: it gains focus
    /// there, and the entry counts as a motion.
    pub fn on_enter(&mut self, output: Option<u32>, x: i32, y: i32) -> (r: RawPointerEvent)
        ensures
            final(self).focus == Some(PointerFocus { output, x, y }),
            r == (RawPointerEvent { output, x, y, kind: PointerEventKind::Motion }),
    {
        self.focus = Some(PointerFocus { output, x, y });
        RawPointerEvent { output, x, y, kind: PointerEventKind::Motion }
    }

    /// The pointer left its surface.
    pub fn on_leave(&mut self)
        ensures
            final(self).focus is None,
    {
        self.focus = None;
    }

    /// The pointer moved to `(x, y)` on the focused surface; without focus
    /// nothing happens.
    pub fn on_motion(&mut self, x: i32, y: i32) -> (r: Option<RawPointerEvent>)
        ensures
            old(self).focus is None ==> r is None && final(self).focus is None,
            old(self).focus matches Some(f) ==> final(self).focus == Some(PointerFocus { x, y, ..f })
                && r == Some(RawPointerEvent { output: f.output, x, y, kind: PointerEventKind::Motion }),
    {
        match self.focus {
            Some(f) => {
                self.focus = Some(PointerFocus { output: f.output, x, y });
                Some(RawPointerEvent { output: f.output, x, y, kind: PointerEventKind::Motion })
            },
            None => None,
        }
    }

    /// A button changed state while the pointer is at its focus position;
    /// without focus nothing happens.
    pub fn on_button(&self, button: Option<MouseButton>, pressed: bool) -> (r: Option<RawPointerEvent>)
        ensures
            self.focus is None ==> r is None,
            self.focus matches Some(f) ==> r == Some(
                RawPointerEvent {
                    output: f.output,
                    x: f.x,
                    y: f.y,
                    kind: PointerEventKind::Button { button, pressed },
                },
            ),
    {
        match self.focus {
            Some(f) => Some(
                RawPointerEvent {
                    output: f.output,
                    x: f.x,
                    y: f.y,
                    kind: PointerEventKind::Button { button, pressed },
                },
            ),
            None => None,
        }
    }

    /// Output `id` was lost: a focus on it goes.
    pub fn on_output_removed(&mut self, id: u32)
        ensures
            old(self).focus matches Some(f) && f.output == Some(id) ==> final(self).focus is None,
            !(old(self).focus matches Some(f) && f.output == Some(id)) ==> *final(self) == *old(self),
    {
        match self.focus {
            Some(f) => {
                if f.output == Some(id) {
                    self.focus = None;
                }
            },
            None => {},
        }
    }
}

} // verus!
