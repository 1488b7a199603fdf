use live_wallpaper::backend::WaylandBackendState;
use live_wallpaper::input::{Point, PointerEventKind, RawPointerEvent};
use live_wallpaper::registry::OutputEvent;
use live_wallpaper::{WallpaperSurfaceInfo, WallpaperTargetMonitor, WaylandSurfaceConfig, WaylandSurfaceHandles};

fn config(output: u32, x: i32, y: i32, width: u32, height: u32) -> WaylandSurfaceConfig {
    WaylandSurfaceConfig {
        output,
        handles: WaylandSurfaceHandles::new(1, 100 + output as usize),
        width,
        height,
        offset_x: x,
        offset_y: y,
    }
}

fn hotplug(id: u32, x: i32, w: u32) -> Vec<OutputEvent> {
    vec![
        OutputEvent::Discovered { id, primary: false },
        OutputEvent::Moved { id, x, y: 0 },
        OutputEvent::Resized { id, width: w, height: 1080 },
    ]
}

#[test]
fn ticks_reconcile_outputs_surfaces_and_canvas() {
    let all = WallpaperTargetMonitor::All;
    let mut st = WaylandBackendState::new();
    let mut events = hotplug(1, 0, 1920);
    events.extend(hotplug(2, 1920, 1280));
    let actions = st.begin_tick(&events, all, true);
    assert_eq!(actions.create, vec![1, 2]);
    st.finish_tick(&vec![config(1, 0, 0, 1920, 1080)], &Vec::new(), all);
    assert_eq!(st.descriptor.generation(), 1);
    assert_eq!(st.surface_info, WallpaperSurfaceInfo::default());

    let actions = st.begin_tick(&Vec::new(), all, true);
    assert!(actions.create.is_empty() && actions.destroy.is_empty());
    let pointer = vec![RawPointerEvent { output: Some(2), x: 10, y: 10, kind: PointerEventKind::Motion }];
    st.finish_tick(&vec![config(2, 1920, 0, 1280, 1080)], &pointer, all);
    assert_eq!(st.descriptor.generation(), 2);
    assert_eq!(
        st.surface_info,
        WallpaperSurfaceInfo { offset_x: 0, offset_y: 0, width: 3200, height: 1080 }
    );
    assert_eq!(st.pointer.last.clone().unwrap().position, Point { x: 1930, y: 10 });

    let actions = st.begin_tick(&vec![OutputEvent::Removed { id: 1 }], all, true);
    assert_eq!(actions.destroy, vec![1]);
    st.finish_tick(&Vec::new(), &Vec::new(), all);
    assert_eq!(st.descriptor.generation(), 3);
    assert_eq!(st.descriptor.surfaces().len(), 1);
    assert_eq!(
        st.surface_info,
        WallpaperSurfaceInfo { offset_x: 1920, offset_y: 0, width: 1280, height: 1080 }
    );
}

#[test]
fn no_surfaces_without_platform_support() {
    let all = WallpaperTargetMonitor::All;
    let mut st = WaylandBackendState::new();
    let actions = st.begin_tick(&hotplug(1, 0, 100), all, false);
    assert!(actions.create.is_empty());
    assert_eq!(st.registry.len(), 1);
    assert!(st.lifecycle.live_outputs().is_empty());
    let actions = st.begin_tick(&Vec::new(), all, true);
    assert_eq!(actions.create, vec![1]);
}

#[test]
fn closed_backend_freezes() {
    let all = WallpaperTargetMonitor::All;
    let mut st = WaylandBackendState::new();
    st.begin_tick(&hotplug(1, 0, 100), all, true);
    st.finish_tick(&vec![config(1, 0, 0, 100, 1080)], &Vec::new(), all);
    let generation = st.descriptor.generation();
    st.close();
    assert!(st.closed);
    assert_eq!(st.descriptor.surfaces().len(), 1);
    assert_eq!(st.descriptor.generation(), generation);
    let actions = st.begin_tick(&hotplug(2, 100, 100), all, true);
    assert!(actions.create.is_empty());
    assert_eq!(st.registry.len(), 1);
    st.finish_tick(&Vec::new(), &Vec::new(), all);
    assert_eq!(st.descriptor.surfaces().len(), 1);
    assert_eq!(
        st.surface_info,
        WallpaperSurfaceInfo { offset_x: 0, offset_y: 0, width: 100, height: 1080 }
    );
}

#[test]
fn lost_output_loses_surface_and_entry_without_platform_support() {
    let all = WallpaperTargetMonitor::All;
    let mut st = WaylandBackendState::new();
    let mut events = hotplug(1, 0, 100);
    events.extend(hotplug(2, 100, 100));
    st.begin_tick(&events, all, true);
    st.finish_tick(&vec![config(1, 0, 0, 100, 1080), config(2, 100, 0, 100, 1080)], &Vec::new(), all);
    assert_eq!(st.descriptor.generation(), 1);
    let actions = st.begin_tick(&vec![OutputEvent::Removed { id: 1 }], all, false);
    assert_eq!(actions.destroy, vec![1]);
    assert!(actions.create.is_empty());
    assert_eq!(st.lifecycle.live_outputs(), &vec![2]);
    assert_eq!(st.descriptor.surfaces().len(), 1);
    assert_eq!(st.descriptor.surfaces()[0].output, 2);
    assert_eq!(st.descriptor.generation(), 2);
}

#[test]
fn deselected_entry_leaves_canvas_at_begin_tick() {
    let mut st = WaylandBackendState::new();
    let mut events = hotplug(1, 0, 100);
    events.extend(hotplug(2, 100, 100));
    st.begin_tick(&events, WallpaperTargetMonitor::All, true);
    st.finish_tick(
        &vec![config(1, 0, 0, 100, 1080), config(2, 100, 0, 100, 1080)],
        &Vec::new(),
        WallpaperTargetMonitor::All,
    );
    let actions = st.begin_tick(&Vec::new(), WallpaperTargetMonitor::Index(1), true);
    assert_eq!(actions.destroy, vec![1]);
    assert_eq!(st.descriptor.surfaces().len(), 1);
    assert_eq!(st.descriptor.generation(), 2);
    st.finish_tick(&Vec::new(), &Vec::new(), WallpaperTargetMonitor::Index(1));
    assert_eq!(st.descriptor.generation(), 2);
    assert_eq!(
        st.surface_info,
        WallpaperSurfaceInfo { offset_x: 100, offset_y: 0, width: 100, height: 1080 }
    );
}

#[test]
fn failed_selection_tick_keeps_everything() {
    let mut st = WaylandBackendState::new();
    st.begin_tick(&hotplug(1, 0, 100), WallpaperTargetMonitor::All, true);
    st.finish_tick(&vec![config(1, 0, 0, 100, 1080)], &Vec::new(), WallpaperTargetMonitor::All);
    let actions = st.begin_tick(&Vec::new(), WallpaperTargetMonitor::Index(5), true);
    assert!(actions.create.is_empty() && actions.destroy.is_empty());
    assert_eq!(st.lifecycle.live_outputs(), &vec![1]);
    assert_eq!(st.descriptor.surfaces().len(), 1);
    assert_eq!(st.descriptor.generation(), 1);
}
