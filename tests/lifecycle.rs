use live_wallpaper::lifecycle::SurfaceLifecycle;
use live_wallpaper::registry::{OutputEvent, OutputRegistry};
use live_wallpaper::WallpaperTargetMonitor;

fn registry_of(ids: &[u32]) -> OutputRegistry {
    let mut reg = OutputRegistry::new();
    for id in ids {
        reg.apply(OutputEvent::Discovered { id: *id, primary: false });
    }
    reg
}

#[test]
fn first_diff_creates_selected_surfaces() {
    let reg = registry_of(&[10, 11]);
    let mut life = SurfaceLifecycle::new();
    let actions = life.reconcile(WallpaperTargetMonitor::All, &reg);
    assert_eq!(actions.create, vec![10, 11]);
    assert!(actions.destroy.is_empty());
    assert_eq!(life.live_outputs(), &vec![10, 11]);
}

#[test]
fn second_diff_with_same_inputs_does_nothing() {
    let reg = registry_of(&[10, 11, 12]);
    let mut life = SurfaceLifecycle::new();
    life.reconcile(WallpaperTargetMonitor::Index(1), &reg);
    let again = life.reconcile(WallpaperTargetMonitor::Index(1), &reg);
    assert!(again.create.is_empty());
    assert!(again.destroy.is_empty());
    assert_eq!(life.live_outputs(), &vec![11]);
}

#[test]
fn deselected_surfaces_are_destroyed() {
    let reg = registry_of(&[10, 11]);
    let mut life = SurfaceLifecycle::new();
    life.reconcile(WallpaperTargetMonitor::All, &reg);
    let actions = life.reconcile(WallpaperTargetMonitor::Index(1), &reg);
    assert!(actions.create.is_empty());
    assert_eq!(actions.destroy, vec![10]);
    assert_eq!(life.live_outputs(), &vec![11]);
}

#[test]
fn failed_selection_keeps_surfaces() {
    let reg = registry_of(&[10, 11]);
    let mut life = SurfaceLifecycle::new();
    life.reconcile(WallpaperTargetMonitor::Primary, &reg);
    let actions = life.reconcile(WallpaperTargetMonitor::Index(5), &reg);
    assert!(actions.create.is_empty());
    assert!(actions.destroy.is_empty());
    assert_eq!(life.live_outputs(), &vec![10]);
}

#[test]
fn lost_output_loses_its_surface_even_when_selection_fails() {
    let mut reg = registry_of(&[10, 11]);
    let mut life = SurfaceLifecycle::new();
    life.reconcile(WallpaperTargetMonitor::All, &reg);
    reg.apply(OutputEvent::Removed { id: 10 });
    let actions = life.reconcile(WallpaperTargetMonitor::Index(4), &reg);
    assert_eq!(actions.destroy, vec![10]);
    assert!(actions.create.is_empty());
    assert_eq!(life.live_outputs(), &vec![11]);
}

#[test]
fn hotplugged_output_joins_all() {
    let mut reg = registry_of(&[10]);
    let mut life = SurfaceLifecycle::new();
    life.reconcile(WallpaperTargetMonitor::All, &reg);
    reg.apply(OutputEvent::Discovered { id: 12, primary: false });
    let actions = life.reconcile(WallpaperTargetMonitor::All, &reg);
    assert_eq!(actions.create, vec![12]);
    assert!(actions.destroy.is_empty());
    assert_eq!(life.live_outputs(), &vec![10, 12]);
}
