//! The wallpaper's configuration and the choice of a Linux backend.

use vstd::prelude::*;

use crate::target_monitor::WallpaperTargetMonitor;

verus! {

/// How the wallpaper is presented.
#[derive(Clone, Copy, Debug, PartialEq, Eq, Structural)]
pub enum WallpaperDisplayMode {
    /// Directly on desktop surfaces (layer shell, a root-level window, the
    /// desktop's worker window).
    Wallpaper,
    /// Inside an ordinary window, with the wallpaper interfaces still fed.
    Windowed,
}

impl Default for WallpaperDisplayMode {
    fn default() -> (r: Self)
        ensures
            r == WallpaperDisplayMode::Wallpaper,
    {
        WallpaperDisplayMode::Wallpaper
    }
}

/// Which Linux backend renders the wallpaper.
#[derive(Clone, Copy, Debug, PartialEq, Eq, Structural)]
pub enum LinuxBackend {
    /// Chosen from what is built and what the session offers, preferring
    /// Wayland.
    Auto,
    Wayland,
    X11,
}

impl Default for LinuxBackend {
    fn default() -> (r: Self)
        ensures
            r == LinuxBackend::Auto,
    {
        LinuxBackend::Auto
    }
}

/// The wallpaper's settings.
#[derive(Clone, Copy, Debug, PartialEq, Eq, Structural)]
pub struct LiveWallpaperPlugin {
    /// Which monitor(s) to render to.
    pub target_monitor: WallpaperTargetMonitor,
    /// How the wallpaper is presented.
    pub display_mode: WallpaperDisplayMode,
    /// The Linux backend.
    pub linux_backend: LinuxBackend,
}

impl Default for LiveWallpaperPlugin {
    fn default() -> (r: Self)
        ensures
            r.target_monitor == WallpaperTargetMonitor::Primary,
            r.display_mode == WallpaperDisplayMode::Wallpaper,
            r.linux_backend == LinuxBackend::Auto,
    {
        LiveWallpaperPlugin {
            target_monitor: WallpaperTargetMonitor::Primary,
            display_mode: WallpaperDisplayMode::Wallpaper,
            linux_backend: LinuxBackend::Auto,
        }
    }
}

/// The backend that `requested` resolves to. An explicit choice stands.
/// `Auto` takes the only backend built, if just one is; otherwise Wayland
/// when the session advertises a Wayland display, else X11.
pub fn resolve_linux_backend(
    requested: LinuxBackend,
    wayland_built: bool,
    x11_built: bool,
    wayland_session: bool,
) -> (r: LinuxBackend)
    ensures
        !(requested is Auto) ==> r == requested,
        requested is Auto && wayland_built && !x11_built ==> r is Wayland,
        requested is Auto && x11_built && !wayland_built ==> r is X11,
        requested is Auto && wayland_built == x11_built ==> r == (if wayland_session {
            LinuxBackend::Wayland
        } else {
            LinuxBackend::X11
        }),
{
    match requested {
        LinuxBackend::Auto => {
            if wayland_built && !x11_built {
                LinuxBackend::Wayland
            } else if x11_built && !wayland_built {
                LinuxBackend::X11
            } else if wayland_session {
                LinuxBackend::Wayland
            } else {
                LinuxBackend::X11
            }
        },
        other => other,
    }
}

} // verus!
