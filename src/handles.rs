//! Native surface handles: the identifying values a graphics API needs to
//! attach to a platform surface. Valid until the surface's destroy request is
//! issued.

use vstd::prelude::*;

verus! {

/// A Wayland display and `wl_surface`, by address.
#[derive(Clone, Copy, Debug, PartialEq, Eq, Structural)]
pub struct WaylandSurfaceHandles {
    display_ptr: usize,
    window_ptr: usize,
}

impl WaylandSurfaceHandles {
    /// The display's address.
    pub closed spec fn display(&self) -> usize {
        self.display_ptr
    }

    /// The surface's address.
    pub closed spec fn window(&self) -> usize {
        self.window_ptr
    }

    /// Handles for the display at `display_ptr` and the surface at
    /// `window_ptr`.
    pub fn new(display_ptr: usize, window_ptr: usize) -> (r: Self)
        ensures
            r.display() == display_ptr,
            r.window() == window_ptr,
    {
        WaylandSurfaceHandles { display_ptr, window_ptr }
    }

    /// The display's address.
    pub fn display_ptr(&self) -> (r: usize)
        ensures
            r == self.display(),
    {
        self.display_ptr
    }

    /// The surface's address.
    pub fn window_ptr(&self) -> (r: usize)
        ensures
            r == self.window(),
    {
        self.window_ptr
    }
}

/// An XCB connection (by address), a screen and a window.
#[derive(Clone, Copy, Debug, PartialEq, Eq, Structural)]
pub struct X11SurfaceHandles {
    connection_ptr: usize,
    window: u32,
    screen: i32,
}

impl X11SurfaceHandles {
    /// The connection's address.
    pub closed spec fn connection(&self) -> usize {
        self.connection_ptr
    }

    /// The window id.
    pub closed spec fn window_id(&self) -> u32 {
        self.window
    }

    /// The screen number.
    pub closed spec fn screen_id(&self) -> i32 {
        self.screen
    }

    /// Handles for `window` on `screen` of the connection at
    /// `connection_ptr`.
    pub fn new(connection_ptr: usize, screen: i32, window: u32) -> (r: Self)
        ensures
            r.connection() == connection_ptr,
            r.screen_id() == screen,
            r.window_id() == window,
    {
        X11SurfaceHandles { connection_ptr, window, screen }
    }

    /// The connection's address.
    pub fn connection_ptr(&self) -> (r: usize)
        ensures
            r == self.connection(),
    {
        self.connection_ptr
    }

    /// The window id.
    pub fn window(&self) -> (r: u32)
        ensures
            r == self.window_id(),
    {
        self.window
    }

    /// The screen number.
    pub fn screen(&self) -> (r: i32)
        ensures
            r == self.screen_id(),
    {
        self.screen
    }
}

} // verus!
