//! The combined wallpaper rectangle published for coordinate mapping.

use vstd::prelude::*;

verus! {

/// The wallpaper area in logical coordinates: its top-left corner (the
/// smallest x and y across the covered outputs) and its size.
#[derive(Clone, Copy, Debug, PartialEq, Eq, Structural)]
pub struct WallpaperSurfaceInfo {
    pub offset_x: i32,
    pub offset_y: i32,
    pub width: u32,
    pub height: u32,
}

impl Default for WallpaperSurfaceInfo {
    fn default() -> (r: Self)
        ensures
            r == (WallpaperSurfaceInfo { offset_x: 0, offset_y: 0, width: 0, height: 0 }),
    {
        WallpaperSurfaceInfo { offset_x: 0, offset_y: 0, width: 0, height: 0 }
    }
}

impl WallpaperSurfaceInfo {
    /// Replaces the rectangle.
    pub fn set(&mut self, offset_x: i32, offset_y: i32, width: u32, height: u32)
        ensures
            *final(self) == (WallpaperSurfaceInfo { offset_x, offset_y, width, height }),
    {
        self.offset_x = offset_x;
        self.offset_y = offset_y;
        self.width = width;
        self.height = height;
    }
}

} // verus!
