use vstd::prelude::*;

verus! {

/// Thousandths of a world unit in one unit.
pub const UNIT: i64 = 1000;

/// A point or a displacement in space, each axis in thousandths of a world unit.
#[derive(Clone, Copy, Debug, PartialEq, Eq, Structural)]
pub struct Pos {
    pub x: i64,
    pub y: i64,
    pub z: i64,
}

/// Nearest whole unit to `v` thousandths; a value exactly half way between
/// two units rounds away from zero.
pub open spec fn round_milli(v: int) -> int {
    if v >= 0 {
        (v + 500) / 1000
    } else {
        -((-v + 500) / 1000)
    }
}

/// The largest magnitude that `round_axis` takes.
pub open spec fn round_range(v: int) -> bool {
    -0x1_0000_0000_0000_0000_0000_0000 <= v <= 0x1_0000_0000_0000_0000_0000_0000
}

/// Rounds `v` thousandths to the nearest whole unit, half away from zero.
pub fn round_axis(v: i128) -> (r: i128)
    requires
        round_range(v as int),
    ensures
        r == round_milli(v as int),
{
    if v >= 0 {
        (v + 500) / 1000
    } else {
        -((-v + 500) / 1000)
    }
}

/// `v` held to the range of `i64`.
pub open spec fn clamp_i64(v: int) -> i64 {
    if v > i64::MAX {
        i64::MAX
    } else if v < i64::MIN {
        i64::MIN
    } else {
        v as i64
    }
}

/// `v` held to the range of `i64`.
pub fn saturate(v: i128) -> (r: i64)
    ensures
        r == clamp_i64(v as int),
{
    if v > i64::MAX as i128 {
        i64::MAX
    } else if v < i64::MIN as i128 {
        i64::MIN
    } else {
        v as i64
    }
}

/// `d` itself when `ahead`, else `-d`.
pub open spec fn signed(d: int, ahead: bool) -> int {
    if ahead {
        d
    } else {
        -d
    }
}

/// `p` moved by `d` (`ahead`) or by `-d`, each axis held to the range of `i64`.
pub open spec fn shift(p: Pos, d: Pos, ahead: bool) -> Pos {
    Pos {
        x: clamp_i64(p.x + signed(d.x as int, ahead)),
        y: clamp_i64(p.y + signed(d.y as int, ahead)),
        z: clamp_i64(p.z + signed(d.z as int, ahead)),
    }
}

impl Pos {
    /// The point `(x, y, z)`, in thousandths of a unit.
    pub fn new(x: i64, y: i64, z: i64) -> (r: Pos)
        ensures
            r == (Pos { x, y, z }),
    {
        Pos { x, y, z }
    }

    /// This point moved by `d` (`ahead`) or by `-d`, each axis saturating at
    /// the range of `i64`.
    pub fn shifted(self, d: Pos, ahead: bool) -> (r: Pos)
        ensures
            r == shift(self, d, ahead),
    {
        if ahead {
            Pos {
                x: saturate(self.x as i128 + d.x as i128),
                y: saturate(self.y as i128 + d.y as i128),
                z: saturate(self.z as i128 + d.z as i128),
            }
        } else {
            Pos {
                x: saturate(self.x as i128 - d.x as i128),
                y: saturate(self.y as i128 - d.y as i128),
                z: saturate(self.z as i128 - d.z as i128),
            }
        }
    }
}

} // verus!
