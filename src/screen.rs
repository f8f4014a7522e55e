use vstd::prelude::*;

verus! {

/// Largest horizontal scroll, in fixed-point pixels: the camera stops after
/// 32768 columns of 8 pixels.
pub const CAMERA_X_LIMIT: i32 = 0x400_0000;

/// Largest vertical scroll, in fixed-point pixels (100 pixels).
pub const CAMERA_Y_LIMIT: i32 = 25600;

/// What the camera shows this frame. Positions here and elsewhere in the
/// crate are fixed point: `i32` with 8 fractional bits.
#[derive(Clone, Copy, PartialEq, Eq, Structural, Debug)]
pub struct ScreenInfo {
    pub affn_x: i32,
    pub affn_y: i32,
    /// The first visible column of 8 pixels.
    pub onscreen_col_start: u16,
}

impl ScreenInfo {
    /// The column start matches the horizontal scroll, which is in range.
    pub open spec fn wf(&self) -> bool {
        &&& 0 <= self.affn_x <= CAMERA_X_LIMIT
        &&& self.onscreen_col_start == self.affn_x / 2048
    }

    /// The last visible column of 8 pixels.
    pub fn onscreen_col_end(&self) -> (r: u16)
        requires
            self.wf(),
        ensures
            r == self.onscreen_col_start + 30,
    {
        self.onscreen_col_start + 30
    }
}

/// The camera: a scroll pair in fixed point.
pub struct ScreenManager {
    pub affn_x: i32,
    pub affn_y: i32,
}

impl ScreenManager {
    /// The camera never scrolls left of the origin, nor past its limits.
    pub open spec fn wf(&self) -> bool {
        &&& 0 <= self.affn_x <= CAMERA_X_LIMIT
        &&& self.affn_y <= CAMERA_Y_LIMIT
    }

    pub fn new() -> (s: Self)
        ensures
            s.wf(),
            s.affn_x == 0,
            s.affn_y == 0,
    {
        ScreenManager { affn_x: 0, affn_y: 0 }
    }

    /// What the camera shows.
    pub open spec fn view_info(&self) -> ScreenInfo {
        ScreenInfo {
            affn_x: self.affn_x,
            affn_y: self.affn_y,
            onscreen_col_start: (self.affn_x / 2048) as u16,
        }
    }

    pub fn get_screen_info(&self) -> (r: ScreenInfo)
        requires
            self.wf(),
        ensures
            r.wf(),
            r == self.view_info(),
    {
        ScreenInfo {
            affn_x: self.affn_x,
            affn_y: self.affn_y,
            onscreen_col_start: (self.affn_x / 2048) as u16,
        }
    }

    /// Scrolls right by `amount`, stopping at the limit.
    pub fn translate_x(&mut self, amount: i32)
        requires
            old(self).wf(),
            amount >= 0,
        ensures
            final(self).wf(),
            final(self).affn_x == if old(self).affn_x + amount <= CAMERA_X_LIMIT {
                old(self).affn_x + amount
            } else {
                CAMERA_X_LIMIT as int
            },
            final(self).affn_y == old(self).affn_y,
    {
        if amount > CAMERA_X_LIMIT - self.affn_x {
            self.affn_x = CAMERA_X_LIMIT;
        } else {
            self.affn_x = self.affn_x + amount;
        }
    }

    /// Scrolls right by `x` (stopping at the limit) and down by `y`, with a
    /// wrapping add and no scroll below the vertical limit.
    pub fn translate(&mut self, x: i32, y: i32)
        requires
            old(self).wf(),
            x >= 0,
        ensures
            final(self).wf(),
            final(self).affn_x == if old(self).affn_x + x <= CAMERA_X_LIMIT {
                old(self).affn_x + x
            } else {
                CAMERA_X_LIMIT as int
            },
            final(self).affn_y == if old(self).affn_y.wrapping_add(y) > CAMERA_Y_LIMIT {
                CAMERA_Y_LIMIT
            } else {
                old(self).affn_y.wrapping_add(y)
            },
    {
        self.translate_x(x);
        self.affn_y = self.affn_y.wrapping_add(y);
        if self.affn_y > CAMERA_Y_LIMIT {
            self.affn_y = CAMERA_Y_LIMIT;
        }
    }
}

} // verus!
