use live_wallpaper::plugin::resolve_linux_backend;
use live_wallpaper::{
    LinuxBackend, LiveWallpaperPlugin, WallpaperDisplayMode, WallpaperSurfaceInfo, WallpaperTargetMonitor,
    X11SurfaceConfig, X11SurfaceDescriptor, X11SurfaceHandles, WaylandSurfaceHandles,
};
use live_wallpaper::root_window::WindowSurfaceStep;

#[test]
fn defaults() {
    let p = LiveWallpaperPlugin::default();
    assert_eq!(p.target_monitor, WallpaperTargetMonitor::Primary);
    assert_eq!(p.display_mode, WallpaperDisplayMode::Wallpaper);
    assert_eq!(p.linux_backend, LinuxBackend::Auto);
    assert_eq!(WallpaperTargetMonitor::default(), WallpaperTargetMonitor::Primary);
    assert_eq!(
        WallpaperSurfaceInfo::default(),
        WallpaperSurfaceInfo { offset_x: 0, offset_y: 0, width: 0, height: 0 }
    );
}

#[test]
fn backend_resolution() {
    assert_eq!(resolve_linux_backend(LinuxBackend::X11, true, false, true), LinuxBackend::X11);
    assert_eq!(resolve_linux_backend(LinuxBackend::Auto, true, false, false), LinuxBackend::Wayland);
    assert_eq!(resolve_linux_backend(LinuxBackend::Auto, false, true, true), LinuxBackend::X11);
    assert_eq!(resolve_linux_backend(LinuxBackend::Auto, true, true, true), LinuxBackend::Wayland);
    assert_eq!(resolve_linux_backend(LinuxBackend::Auto, true, true, false), LinuxBackend::X11);
}

#[test]
fn surface_info_set() {
    let mut info = WallpaperSurfaceInfo::default();
    info.set(-1280, 20, 4280, 1920);
    assert_eq!(info, WallpaperSurfaceInfo { offset_x: -1280, offset_y: 20, width: 4280, height: 1920 });
}

#[test]
fn handles_keep_their_values() {
    let w = WaylandSurfaceHandles::new(0xdead, 0xbeef);
    assert_eq!((w.display_ptr(), w.window_ptr()), (0xdead, 0xbeef));
    let x = X11SurfaceHandles::new(0xabc, 1, 42);
    assert_eq!((x.connection_ptr(), x.screen(), x.window()), (0xabc, 1, 42));
}

#[test]
fn single_window_descriptor() {
    let h = X11SurfaceHandles::new(0xabc, 0, 42);
    let mut d = X11SurfaceDescriptor::new();
    assert_eq!(d.ready_size(), None);
    let c = X11SurfaceConfig::from_configure(h, 0, 900);
    assert_eq!((c.width, c.height), (1, 900));
    d.apply_config(c);
    assert_eq!(d.generation, 1);
    assert_eq!(d.handles, Some(h));
    assert_eq!(d.ready_size(), Some((1, 900)));
    d.bump_generation();
    assert_eq!(d.generation, 2);
}

#[test]
fn window_surface_steps() {
    let h = X11SurfaceHandles::new(0xabc, 0, 42);
    let mut d = X11SurfaceDescriptor::new();
    assert_eq!(d.surface_step(), WindowSurfaceStep::TearDown);
    d.handles = Some(h);
    assert_eq!(d.surface_step(), WindowSurfaceStep::Wait);
    d.width = 640;
    d.height = 480;
    assert_eq!(d.surface_step(), WindowSurfaceStep::Prepare { handles: h, width: 640, height: 480 });
}
