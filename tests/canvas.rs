use live_wallpaper::canvas::{has_entry_for, ready_bounds, ready_entry_for};
use live_wallpaper::registry::{OutputEvent, OutputRegistry};
use live_wallpaper::{WallpaperTargetMonitor, WaylandSurfaceConfig, WaylandSurfaceDescriptor, WaylandSurfaceHandles};

fn config(output: u32, x: i32, y: i32, width: u32, height: u32) -> WaylandSurfaceConfig {
    WaylandSurfaceConfig {
        output,
        handles: WaylandSurfaceHandles::new(0x1000, 0x2000 + output as usize),
        width,
        height,
        offset_x: x,
        offset_y: y,
    }
}

fn registry_of(outputs: &[(u32, i32, i32, u32, u32)]) -> OutputRegistry {
    let mut reg = OutputRegistry::new();
    for (id, x, y, w, h) in outputs {
        reg.apply(OutputEvent::Discovered { id: *id, primary: false });
        reg.apply(OutputEvent::Moved { id: *id, x: *x, y: *y });
        reg.apply(OutputEvent::Resized { id: *id, width: *w, height: *h });
    }
    reg.take_dirty();
    reg
}

#[test]
fn bounds_of_one_entry_is_its_rectangle() {
    let mut d = WaylandSurfaceDescriptor::new();
    d.upsert_surface(config(1, 100, 200, 1920, 1080));
    assert_eq!(d.overall_bounds(), Some((100, 200, 1920, 1080)));
}

#[test]
fn bounds_of_several_entries_is_tight() {
    let mut d = WaylandSurfaceDescriptor::new();
    d.upsert_surface(config(1, 0, 0, 1920, 1080));
    d.upsert_surface(config(2, 1920, -300, 1080, 1920));
    d.upsert_surface(config(3, -1280, 100, 1280, 720));
    assert_eq!(d.overall_bounds(), Some((-1280, -300, 4280, 1920)));
}

#[test]
fn bounds_without_entries_is_none() {
    let d = WaylandSurfaceDescriptor::new();
    assert_eq!(d.overall_bounds(), None);
}

#[test]
fn bounds_span_the_whole_coordinate_space() {
    let mut d = WaylandSurfaceDescriptor::new();
    d.upsert_surface(config(1, i32::MIN, i32::MIN, 1, 1));
    d.upsert_surface(config(2, i32::MAX - 1, i32::MAX - 1, 1, 1));
    assert_eq!(d.overall_bounds(), Some((i32::MIN, i32::MIN, u32::MAX, u32::MAX)));
}

#[test]
fn upsert_overwrites_the_entry_of_its_output() {
    let mut d = WaylandSurfaceDescriptor::new();
    d.upsert_surface(config(1, 0, 0, 10, 10));
    d.upsert_surface(config(1, 5, 5, 20, 30));
    assert_eq!(d.surfaces().len(), 1);
    let e = d.surfaces()[0];
    assert_eq!((e.offset_x, e.offset_y, e.width, e.height), (5, 5, 20, 30));
    assert_eq!(d.generation(), 0);
}

#[test]
fn generation_advances_on_change_and_holds_on_no_op() {
    let reg = registry_of(&[(1, 0, 0, 100, 100), (2, 100, 0, 100, 100)]);
    let mut d = WaylandSurfaceDescriptor::new();
    let live = vec![1, 2];
    let none: Vec<u32> = Vec::new();
    assert!(d.sync_tick(&live, &vec![config(1, 0, 0, 100, 100)], &reg, &none));
    assert_eq!(d.generation(), 1);
    assert!(!d.sync_tick(&live, &Vec::new(), &reg, &none));
    assert_eq!(d.generation(), 1);
    assert!(!d.sync_tick(&live, &vec![config(1, 0, 0, 100, 100)], &reg, &none));
    assert_eq!(d.generation(), 1);
    assert!(d.sync_tick(&live, &vec![config(2, 100, 0, 100, 100)], &reg, &none));
    assert_eq!(d.generation(), 2);
    assert!(d.sync_tick(&live, &vec![config(2, 100, 0, 50, 100)], &reg, &none));
    assert_eq!(d.generation(), 3);
    assert!(d.sync_tick(&live, &vec![config(2, 120, 0, 50, 100)], &reg, &none));
    assert_eq!(d.generation(), 4);
    assert!(d.sync_tick(&vec![2], &Vec::new(), &reg, &none));
    assert_eq!(d.generation(), 5);
    assert_eq!(d.surfaces().len(), 1);
    assert_eq!(d.surfaces()[0].output, 2);
}

#[test]
fn configuration_of_an_output_without_surface_is_dropped() {
    let reg = registry_of(&[(1, 0, 0, 100, 100)]);
    let mut d = WaylandSurfaceDescriptor::new();
    let none: Vec<u32> = Vec::new();
    assert!(!d.sync_tick(&vec![1], &vec![config(3, 0, 0, 100, 100)], &reg, &none));
    assert_eq!(d.surfaces().len(), 0);
    assert!(!d.sync_tick(&vec![1], &vec![config(1, i32::MAX, 0, 100, 100)], &reg, &none));
    assert_eq!(d.surfaces().len(), 0);
}

#[test]
fn geometry_notification_moves_and_resizes_entry() {
    let mut reg = registry_of(&[(1, 0, 0, 100, 100)]);
    let mut d = WaylandSurfaceDescriptor::new();
    let none: Vec<u32> = Vec::new();
    d.sync_tick(&vec![1], &vec![config(1, 0, 0, 100, 100)], &reg, &none);
    reg.apply(OutputEvent::Moved { id: 1, x: 40, y: 30 });
    reg.apply(OutputEvent::Resized { id: 1, width: 0, height: 70 });
    let dirty = reg.take_dirty();
    assert!(d.sync_tick(&vec![1], &Vec::new(), &reg, &dirty));
    let e = d.surfaces()[0];
    assert_eq!((e.offset_x, e.offset_y, e.width, e.height), (40, 30, 100, 70));
    assert_eq!(d.generation(), 2);
    assert!(!d.sync_tick(&vec![1], &Vec::new(), &reg, &dirty));
    assert_eq!(d.generation(), 2);
}

#[test]
fn all_policy_not_ready_until_every_output_has_an_entry() {
    let reg = registry_of(&[(1, 0, 0, 100, 100), (2, 100, 0, 100, 100)]);
    let mut d = WaylandSurfaceDescriptor::new();
    d.upsert_surface(config(1, 0, 0, 100, 100));
    assert_eq!(d.overall_bounds(), Some((0, 0, 100, 100)));
    assert_eq!(ready_bounds(&d, &reg, WallpaperTargetMonitor::All), None);
    assert_eq!(ready_bounds(&d, &reg, WallpaperTargetMonitor::Index(0)), Some((0, 0, 100, 100)));
    d.upsert_surface(config(2, 100, 0, 100, 100));
    assert_eq!(ready_bounds(&d, &reg, WallpaperTargetMonitor::All), Some((0, 0, 200, 100)));
}

#[test]
fn ready_bounds_fails_with_failed_selection() {
    let reg = registry_of(&[(1, 0, 0, 100, 100)]);
    let mut d = WaylandSurfaceDescriptor::new();
    d.upsert_surface(config(1, 0, 0, 100, 100));
    assert_eq!(ready_bounds(&d, &reg, WallpaperTargetMonitor::Index(3)), None);
    assert_eq!(ready_bounds(&d, &reg, WallpaperTargetMonitor::Primary), Some((0, 0, 100, 100)));
}

#[test]
fn entry_readiness_and_lookup() {
    let mut d = WaylandSurfaceDescriptor::new();
    d.upsert_surface(config(1, 0, 0, 0, 100));
    assert!(d.contains_output(1));
    assert!(!d.output_ready(1));
    assert!(!d.surfaces()[0].is_ready());
    assert_eq!(d.overall_bounds(), None);
    assert!(!d.contains_output(2));
}

#[test]
fn entry_lookups_in_a_list() {
    let mut d = WaylandSurfaceDescriptor::new();
    d.upsert_surface(config(1, 0, 0, 0, 100));
    d.upsert_surface(config(2, 5, 0, 10, 100));
    let entries = d.surfaces().clone();
    assert!(has_entry_for(&entries, 1));
    assert!(!has_entry_for(&entries, 3));
    assert_eq!(ready_entry_for(&entries, 1), None);
    assert_eq!(ready_entry_for(&entries, 2).map(|e| e.offset_x), Some(5));
}
