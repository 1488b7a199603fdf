use live_wallpaper::input::{
    button_from_code, detect_last_button, pressed_buttons, pressed_from_states, prioritize_button,
    FocusTracker, Point, PointerEventKind, RawPointerEvent,
};
use live_wallpaper::registry::{OutputEvent, OutputRegistry};
use live_wallpaper::{MouseButton, PointerButton, WallpaperPointerState};

fn registry_with_offset(id: u32, x: i32, y: i32) -> OutputRegistry {
    let mut reg = OutputRegistry::new();
    reg.apply(OutputEvent::Discovered { id, primary: false });
    reg.apply(OutputEvent::Resized { id, width: 1920, height: 1080 });
    reg.apply(OutputEvent::Moved { id, x, y });
    reg
}

fn motion(output: u32, x: i32, y: i32) -> RawPointerEvent {
    RawPointerEvent { output: Some(output), x, y, kind: PointerEventKind::Motion }
}

fn button(output: u32, x: i32, y: i32, b: MouseButton, pressed: bool) -> RawPointerEvent {
    RawPointerEvent {
        output: Some(output),
        x,
        y,
        kind: PointerEventKind::Button { button: Some(b), pressed },
    }
}

#[test]
fn motion_is_placed_by_output_offset() {
    let reg = registry_with_offset(1, 100, 200);
    let mut state = WallpaperPointerState::new();
    state.apply_tick(&vec![motion(1, 10, 10)], &reg);
    let s = state.last.clone().unwrap();
    assert_eq!(s.position, Point { x: 110, y: 210 });
    assert_eq!(s.delta, Point { x: 0, y: 0 });
    assert_eq!(s.output, Some(1));
    state.apply_tick(&vec![motion(1, 15, 10)], &reg);
    let s = state.last.clone().unwrap();
    assert_eq!(s.position, Point { x: 115, y: 210 });
    assert_eq!(s.delta, Point { x: 5, y: 0 });
}

#[test]
fn batch_deltas_chain_through_the_batch() {
    let reg = registry_with_offset(1, 100, 200);
    let mut state = WallpaperPointerState::new();
    state.apply_tick(&vec![motion(1, 10, 10), motion(1, 15, 10), motion(1, 15, 30)], &reg);
    let s = state.last.clone().unwrap();
    assert_eq!(s.position, Point { x: 115, y: 230 });
    assert_eq!(s.delta, Point { x: 0, y: 20 });
}

#[test]
fn unknown_output_has_zero_offset() {
    let reg = OutputRegistry::new();
    let mut state = WallpaperPointerState::new();
    state.apply_tick(&vec![motion(8, 3, 4)], &reg);
    assert_eq!(state.last.clone().unwrap().position, Point { x: 3, y: 4 });
}

#[test]
fn buttons_update_held_set_and_edge() {
    let reg = registry_with_offset(1, 0, 0);
    let mut state = WallpaperPointerState::new();
    state.apply_tick(&vec![button(1, 5, 5, MouseButton::Left, true)], &reg);
    let s = state.last.clone().unwrap();
    assert_eq!(s.pressed, vec![MouseButton::Left]);
    assert_eq!(s.last_button, Some(PointerButton { button: Some(MouseButton::Left), pressed: true }));
    state.apply_tick(&vec![button(1, 5, 5, MouseButton::Right, true), motion(1, 6, 5)], &reg);
    let s = state.last.clone().unwrap();
    assert_eq!(s.pressed, vec![MouseButton::Left, MouseButton::Right]);
    assert_eq!(s.last_button, None);
    state.apply_tick(&vec![button(1, 6, 5, MouseButton::Left, false)], &reg);
    let s = state.last.clone().unwrap();
    assert_eq!(s.pressed, vec![MouseButton::Right]);
    assert_eq!(s.last_button, Some(PointerButton { button: Some(MouseButton::Left), pressed: false }));
}

#[test]
fn quiet_tick_clears_delta_and_edge() {
    let reg = registry_with_offset(1, 0, 0);
    let mut state = WallpaperPointerState::new();
    state.apply_tick(&vec![motion(1, 10, 0)], &reg);
    state.apply_tick(&vec![button(1, 15, 0, MouseButton::Middle, true)], &reg);
    let s = state.last.clone().unwrap();
    assert_eq!(s.delta, Point { x: 5, y: 0 });
    assert!(s.last_button.is_some());
    state.apply_tick(&Vec::new(), &reg);
    let q = state.last.clone().unwrap();
    assert_eq!(q.position, Point { x: 15, y: 0 });
    assert_eq!(q.pressed, vec![MouseButton::Middle]);
    assert_eq!(q.delta, Point { x: 0, y: 0 });
    assert_eq!(q.last_button, None);
}

#[test]
fn quiet_tick_without_sample_stays_empty() {
    let reg = OutputRegistry::new();
    let mut state = WallpaperPointerState::new();
    state.apply_tick(&Vec::new(), &reg);
    assert!(state.last.is_none());
}

#[test]
fn simultaneous_presses_resolve_to_left() {
    let prev: Vec<MouseButton> = Vec::new();
    let cur = vec![MouseButton::Right, MouseButton::Left];
    assert_eq!(
        detect_last_button(Some(&prev), &cur),
        Some(PointerButton { button: Some(MouseButton::Left), pressed: true })
    );
    assert_eq!(
        detect_last_button(None, &cur),
        Some(PointerButton { button: Some(MouseButton::Left), pressed: true })
    );
}

#[test]
fn edges_prefer_presses_then_releases() {
    let prev = vec![MouseButton::Middle, MouseButton::Right];
    let cur = vec![MouseButton::Right];
    assert_eq!(
        detect_last_button(Some(&prev), &cur),
        Some(PointerButton { button: Some(MouseButton::Middle), pressed: false })
    );
    let cur = vec![MouseButton::Other(9)];
    assert_eq!(
        detect_last_button(Some(&prev), &cur),
        Some(PointerButton { button: Some(MouseButton::Other(9)), pressed: true })
    );
    assert_eq!(detect_last_button(Some(&prev), &prev), None);
}

#[test]
fn priority_order_is_left_right_middle_other() {
    assert_eq!(prioritize_button(&vec![MouseButton::Back, MouseButton::Middle]), Some(MouseButton::Middle));
    assert_eq!(prioritize_button(&vec![MouseButton::Middle, MouseButton::Right]), Some(MouseButton::Right));
    assert_eq!(prioritize_button(&vec![MouseButton::Forward, MouseButton::Back]), Some(MouseButton::Forward));
    assert_eq!(prioritize_button(&Vec::new()), None);
}

#[test]
fn polling_matches_push_semantics() {
    let mut state = WallpaperPointerState::new();
    state.apply_poll(Some(0), 10, 10, &Vec::new());
    let s = state.last.clone().unwrap();
    assert_eq!(s.delta, Point { x: 0, y: 0 });
    assert_eq!(s.last_button, None);
    state.apply_poll(Some(0), 15, 10, &vec![MouseButton::Left, MouseButton::Right, MouseButton::Left]);
    let s = state.last.clone().unwrap();
    assert_eq!(s.position, Point { x: 15, y: 10 });
    assert_eq!(s.delta, Point { x: 5, y: 0 });
    assert_eq!(s.pressed, vec![MouseButton::Left, MouseButton::Right]);
    assert_eq!(s.last_button, Some(PointerButton { button: Some(MouseButton::Left), pressed: true }));
    state.apply_poll(None, 15, 10, &vec![MouseButton::Left, MouseButton::Right]);
    let s = state.last.clone().unwrap();
    assert_eq!(s.delta, Point { x: 0, y: 0 });
    assert_eq!(s.last_button, None);
    assert_eq!(s.output, None);
}

#[test]
fn x11_mask_bits_map_to_buttons() {
    assert_eq!(pressed_buttons(0x100), vec![MouseButton::Left]);
    assert_eq!(pressed_buttons(0x700), vec![MouseButton::Left, MouseButton::Middle, MouseButton::Right]);
    assert_eq!(pressed_buttons(0x400 | 0x0800 | 0x1000 | 0x1), vec![MouseButton::Right]);
    assert_eq!(pressed_buttons(0), Vec::<MouseButton>::new());
}

#[test]
fn per_button_states_map_to_buttons() {
    assert_eq!(pressed_from_states(true, false, true), vec![MouseButton::Left, MouseButton::Middle]);
    assert_eq!(pressed_from_states(false, true, false), vec![MouseButton::Right]);
}

#[test]
fn linux_button_codes() {
    assert_eq!(button_from_code(272), Some(MouseButton::Left));
    assert_eq!(button_from_code(273), Some(MouseButton::Right));
    assert_eq!(button_from_code(274), Some(MouseButton::Middle));
    assert_eq!(button_from_code(275), Some(MouseButton::Other(275)));
    assert_eq!(button_from_code(70000), None);
}

#[test]
fn button_change_of_event_kinds() {
    assert_eq!(PointerEventKind::Motion.button_change(), None);
    let k = PointerEventKind::Button { button: Some(MouseButton::Back), pressed: true };
    assert_eq!(k.button_change(), Some((Some(MouseButton::Back), true)));
}

#[test]
fn focus_tracking_produces_events() {
    let mut focus = FocusTracker::new();
    assert_eq!(focus.on_motion(1, 1), None);
    assert_eq!(focus.on_button(Some(MouseButton::Left), true), None);
    let e = focus.on_enter(Some(3), 10, 20);
    assert_eq!(e, RawPointerEvent { output: Some(3), x: 10, y: 20, kind: PointerEventKind::Motion });
    let m = focus.on_motion(12, 22).unwrap();
    assert_eq!((m.x, m.y, m.output), (12, 22, Some(3)));
    let b = focus.on_button(Some(MouseButton::Left), true).unwrap();
    assert_eq!((b.x, b.y), (12, 22));
    assert_eq!(b.kind, PointerEventKind::Button { button: Some(MouseButton::Left), pressed: true });
    focus.on_output_removed(4);
    assert!(focus.focus.is_some());
    focus.on_output_removed(3);
    assert!(focus.focus.is_none());
    focus.on_enter(None, 0, 0);
    focus.on_leave();
    assert!(focus.focus.is_none());
}

#[test]
fn unkeyed_event_at_global_position() {
    let mut state = WallpaperPointerState::new();
    state.apply_event_at(None, -5, 7, PointerEventKind::Motion);
    state.apply_event_at(None, -5, 7, PointerEventKind::Button { button: Some(MouseButton::Right), pressed: true });
    let s = state.last.clone().unwrap();
    assert_eq!(s.position, Point { x: -5, y: 7 });
    assert_eq!(s.delta, Point { x: 0, y: 0 });
    assert_eq!(s.pressed, vec![MouseButton::Right]);
}
