//! The single-window canvas: one native window that covers the selected
//! area, as on X11 where the wallpaper is one window below all others.

use vstd::prelude::*;

use crate::handles::X11SurfaceHandles;

verus! {

/// A negotiated size for the wallpaper window.
#[derive(Clone, Copy, Debug, PartialEq, Eq, Structural)]
pub struct X11SurfaceConfig {
    pub handles: X11SurfaceHandles,
    pub width: u32,
    pub height: u32,
}

impl X11SurfaceConfig {
    /// The configuration a window-configure notification of `width` x
    /// `height` yields; an empty side counts as one pixel.
    pub fn from_configure(handles: X11SurfaceHandles, width: u16, height: u16) -> (r: Self)
        ensures
            r.handles == handles,
            r.width == (if width == 0 {
                1
            } else {
                width as int
            }),
            r.height == (if height == 0 {
                1
            } else {
                height as int
            }),
    {
        let w: u16 = if width == 0 {
            1
        } else {
            width
        };
        let h: u16 = if height == 0 {
            1
        } else {
            height
        };
        X11SurfaceConfig { handles, width: w as u32, height: h as u32 }
    }
}

/// What the presentation surface of the window needs this tick.
#[derive(Clone, Copy, Debug, PartialEq, Eq, Structural)]
pub enum WindowSurfaceStep {
    /// The handles are gone: drop the surface.
    TearDown,
    /// The window has no size yet: leave the surface as it is.
    Wait,
    /// Bring the surface in step with these handles and this size.
    Prepare { handles: X11SurfaceHandles, width: u32, height: u32 },
}

/// The window's handles and size, with a generation counter that advances
/// on every new configuration.
#[derive(Clone, Copy, Debug, PartialEq, Eq, Structural)]
pub struct X11SurfaceDescriptor {
    pub handles: Option<X11SurfaceHandles>,
    pub width: u32,
    pub height: u32,
    pub generation: u64,
}

impl X11SurfaceDescriptor {
    /// No window yet, at generation zero.
    pub fn new() -> (r: Self)
        ensures
            r.handles is None,
            r.width == 0,
            r.height == 0,
            r.generation == 0,
    {
        X11SurfaceDescriptor { handles: None, width: 0, height: 0, generation: 0 }
    }

    /// Advances the generation counter by one.
    pub fn bump_generation(&mut self)
        requires
            old(self).generation < u64::MAX,
        ensures
            final(self).generation == old(self).generation + 1,
            final(self).handles == old(self).handles,
            final(self).width == old(self).width,
            final(self).height == old(self).height,
    {
        self.generation = self.generation + 1;
    }

    /// Records a new configuration of the window and advances the
    /// generation.
    pub fn apply_config(&mut self, config: X11SurfaceConfig)
        requires
            old(self).generation < u64::MAX,
        ensures
            final(self).handles == Some(config.handles),
            final(self).width == config.width,
            final(self).height == config.height,
            final(self).generation == old(self).generation + 1,
    {
        self.handles = Some(config.handles);
        self.width = config.width;
        self.height = config.height;
        self.bump_generation();
    }

    /// The size of the shared image: the window's size once both sides are
    /// non-zero, else `None`.
    pub fn ready_size(&self) -> (r: Option<(u32, u32)>)
        ensures
            r is Some <==> self.width > 0 && self.height > 0,
            r matches Some(s) ==> s == (self.width, self.height),
    {
        if self.width == 0 || self.height == 0 {
            None
        } else {
            Some((self.width, self.height))
        }
    }

    /// Decides the surface's step: tear it down without handles, wait while
    /// a side is zero, else prepare it at the window's size.
    pub fn surface_step(&self) -> (r: WindowSurfaceStep)
        ensures
            self.handles is None ==> r == WindowSurfaceStep::TearDown,
            self.handles is Some && (self.width == 0 || self.height == 0) ==> r
                == WindowSurfaceStep::Wait,
            self.handles is Some && self.width > 0 && self.height > 0 ==> r == (
            WindowSurfaceStep::Prepare {
                handles: self.handles->Some_0,
                width: self.width,
                height: self.height,
            }),
    {
        match self.handles {
            None => WindowSurfaceStep::TearDown,
            Some(h) => {
                if self.width == 0 || self.height == 0 {
                    WindowSurfaceStep::Wait
                } else {
                    WindowSurfaceStep::Prepare { handles: h, width: self.width, height: self.height }
                }
            },
        }
    }
}

} // verus!
