use crate::color::{darken_rgb15, rgb15};
use vstd::prelude::*;

verus! {

/// The brightest shade of the shimmering palette entry.
pub const COLOR_MAGIC_MAX: u16 = 0x127c;

/// Shades of the shimmer, as fractions of 256.
pub const MAGIC_FACTOR_1: i32 = 230;
pub const MAGIC_FACTOR_2: i32 = 180;
pub const MAGIC_FACTOR_3: i32 = 130;

/// The shade that the shimmer shows at step `step` of its cycle, if it
/// changes then.
pub open spec fn shimmer_factor(step: u8) -> Option<i32> {
    if step == 0 || step == 48 {
        Some(256i32)
    } else if step == 8 || step == 40 {
        Some(MAGIC_FACTOR_1)
    } else if step == 16 || step == 32 {
        Some(MAGIC_FACTOR_2)
    } else if step == 24 {
        Some(MAGIC_FACTOR_3)
    } else {
        None
    }
}

/// Drives the shimmer of the question blocks' palette entry.
pub struct AssetManager {
    pub change_magic: u8,
}

impl AssetManager {
    pub fn new() -> (a: Self)
        ensures
            a.change_magic == 0,
    {
        AssetManager { change_magic: 0 }
    }

    /// Restarts the shimmer.
    pub fn on_start(&mut self)
        ensures
            final(self).change_magic == 0,
    {
        self.change_magic = 0;
    }

    /// One frame of the shimmer: the color to give the palette entry, if it
    /// changes this frame. The cycle lasts 65 frames.
    pub fn post_tick(&mut self) -> (c: Option<u16>)
        ensures
            c == match shimmer_factor(old(self).change_magic) {
                Some(f) => Some(
                    rgb15(
                        (COLOR_MAGIC_MAX % 32) * f / 256,
                        (COLOR_MAGIC_MAX / 32 % 32) * f / 256,
                        (COLOR_MAGIC_MAX / 1024 % 32) * f / 256,
                    ) as u16,
                ),
                None => None,
            },
            final(self).change_magic == if old(self).change_magic == 64 {
                1
            } else {
                old(self).change_magic.wrapping_add(1)
            },
    {
        let step = self.change_magic;
        let factor: Option<i32> = if step == 0 || step == 48 {
            Some(256)
        } else if step == 8 || step == 40 {
            Some(MAGIC_FACTOR_1)
        } else if step == 16 || step == 32 {
            Some(MAGIC_FACTOR_2)
        } else if step == 24 {
            Some(MAGIC_FACTOR_3)
        } else {
            None
        };
        if step == 64 {
            self.change_magic = 0;
        }
        self.change_magic = self.change_magic.wrapping_add(1);
        match factor {
            Some(f) => Some(darken_rgb15(COLOR_MAGIC_MAX, f)),
            None => None,
        }
    }
}

} // verus!
