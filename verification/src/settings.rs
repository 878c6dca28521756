//! Sizes that change rarely: the sandbox in pixels and in cells, and the
//! number of pixels to a cell.

use vstd::prelude::*;

verus! {

pub const DEF_SANDBOX_W: i32 = 512;

pub const DEF_SANDBOX_H: i32 = 512;

pub const DEF_SCALING_FACTOR: i32 = 10;

pub const MAX_SCALING_FACTOR: i32 = 10;

/// A scaling factor was asked for that is not between 1 and
/// `MAX_SCALING_FACTOR`.
#[derive(Copy, Clone, Debug, PartialEq, Eq, Structural)]
pub struct SettingsError;

#[derive(Copy, Clone, Debug, PartialEq, Eq, Structural)]
pub struct Settings {
    /// Width of the sandbox in pixels.
    pub sandbox_w: i32,
    /// Height of the sandbox in pixels.
    pub sandbox_h: i32,
    /// Number of cells in a row of the sandbox.
    pub sandbox_max_coord_w: i32,
    /// Number of cells in a column of the sandbox.
    pub sandbox_max_coord_h: i32,
    /// Number of pixels on each side of a cell.
    pub scaling_factor: i32,
}

impl Settings {
    /// The largest multiple of `scale` that is at most `length`.
    pub open spec fn aligned(length: int, scale: int) -> int {
        length - length % scale
    }

    /// The default settings: the default sandbox, cut down to a whole number
    /// of cells of the default scaling factor.
    pub open spec fn spec_new() -> Settings {
        Settings {
            sandbox_w: Self::aligned(DEF_SANDBOX_W as int, DEF_SCALING_FACTOR as int) as i32,
            sandbox_h: Self::aligned(DEF_SANDBOX_H as int, DEF_SCALING_FACTOR as int) as i32,
            sandbox_max_coord_w: (Self::aligned(DEF_SANDBOX_W as int, DEF_SCALING_FACTOR as int)
                / DEF_SCALING_FACTOR as int) as i32,
            sandbox_max_coord_h: (Self::aligned(DEF_SANDBOX_H as int, DEF_SCALING_FACTOR as int)
                / DEF_SCALING_FACTOR as int) as i32,
            scaling_factor: DEF_SCALING_FACTOR,
        }
    }

    pub fn new() -> (settings: Self)
        ensures
            settings == Settings::spec_new(),
            settings.sandbox_w == 510,
            settings.sandbox_h == 510,
            settings.sandbox_max_coord_w == 51,
            settings.sandbox_max_coord_h == 51,
            settings.scaling_factor == 10,
    {
        // align the sandbox to the grid scale
        let sandbox_w = DEF_SANDBOX_W - DEF_SANDBOX_W % DEF_SCALING_FACTOR;
        let sandbox_h = DEF_SANDBOX_H - DEF_SANDBOX_H % DEF_SCALING_FACTOR;
        Settings {
            sandbox_w,
            sandbox_h,
            sandbox_max_coord_w: sandbox_w / DEF_SCALING_FACTOR,
            sandbox_max_coord_h: sandbox_h / DEF_SCALING_FACTOR,
            scaling_factor: DEF_SCALING_FACTOR,
        }
    }

    /// Sets the scaling factor to `sf` if it is between 1 and
    /// `MAX_SCALING_FACTOR`; any other is refused and changes nothing.
    pub fn set_scaling_factor(&mut self, sf: i32) -> (result: Result<(), SettingsError>)
        ensures
            result is Ok <==> 1 <= sf <= MAX_SCALING_FACTOR,
            result is Ok ==> *final(self) == (Settings { scaling_factor: sf, ..*old(self) }),
            result is Err ==> *final(self) == *old(self),
    {
        if 1 <= sf && sf <= MAX_SCALING_FACTOR {
            self.scaling_factor = sf;
            Ok(())
        } else {
            Err(SettingsError)
        }
    }

    pub fn get_scaling_factor(&self) -> (sf: i32)
        ensures
            sf == self.scaling_factor,
    {
        self.scaling_factor
    }
}

} // verus!
