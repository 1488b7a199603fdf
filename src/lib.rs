//! Reconciliation core of a live desktop wallpaper: the output registry and
//! target selection, the surface lifecycle diff, the virtual canvas
//! bookkeeping, and pointer fusion across outputs.

mod seq_facts;

pub mod backend;
pub mod canvas;
pub mod geometry;
pub mod handles;
pub mod input;
pub mod lifecycle;
pub mod plugin;
pub mod present;
pub mod registry;
pub mod root_window;
pub mod surface_info;
pub mod target_monitor;

pub use canvas::{SurfaceDescriptorEntry, WaylandSurfaceConfig, WaylandSurfaceDescriptor};
pub use handles::{WaylandSurfaceHandles, X11SurfaceHandles};
pub use input::{MouseButton, PointerButton, PointerSample, WallpaperPointerState};
pub use plugin::{LinuxBackend, LiveWallpaperPlugin, WallpaperDisplayMode};
pub use registry::{Output, OutputEvent, OutputRegistry};
pub use root_window::{X11SurfaceConfig, X11SurfaceDescriptor};
pub use surface_info::WallpaperSurfaceInfo;
pub use target_monitor::WallpaperTargetMonitor;
