use vstd::prelude::*;

use crate::grid::{empty_point, HeightChunk};
use crate::point::{clamp_i64, saturate, shift, signed, Pos, UNIT};

verus! {

/// Half a turn, in millionths of a radian (3.14159 rad).
pub const PI: i64 = 3141590;

/// A quarter turn, in millionths of a radian: the bound of the pitch.
pub const HALF_PI: i64 = 1570795;

/// Factor from pointer motion to change of angle.
pub const LOOK_SCALE: i64 = 10;

/// Speed lost each frame in the air, in thousandths of a unit per frame.
pub const GRAVITY: i64 = 50;

/// The lowest vertical speed, in thousandths of a unit per frame.
pub const TERMINAL_VELOCITY: i64 = -1000;

/// Speed gained by a jump, in thousandths of a unit per frame.
pub const JUMP_IMPULSE: i64 = 500;

/// The yaw after adding a turn: above `PI` it jumps to `-PI`, below `-PI`
/// to `PI`.
pub open spec fn wrap_yaw(a: int) -> int {
    if a > PI {
        -PI
    } else if a < -PI {
        PI as int
    } else {
        a
    }
}

/// The pitch held to `[-HALF_PI, HALF_PI]`.
pub open spec fn clamp_pitch(a: int) -> int {
    if a < -HALF_PI {
        -HALF_PI
    } else if a > HALF_PI {
        HALF_PI as int
    } else {
        a
    }
}

/// Vertical speed after one frame: on the ground a fall stops; in the air the
/// speed drops by `GRAVITY`, down to `TERMINAL_VELOCITY`; a jump then adds
/// `JUMP_IMPULSE`.
pub open spec fn next_velocity(v: int, grounded: bool, jump: bool) -> int {
    let settled = if grounded {
        if v < 0 {
            0
        } else {
            v
        }
    } else if v - GRAVITY < TERMINAL_VELOCITY {
        TERMINAL_VELOCITY as int
    } else {
        v - GRAVITY
    };
    if jump {
        clamp_i64(settled + JUMP_IMPULSE) as int
    } else {
        settled
    }
}

/// Turning past `PI` lands exactly on `-PI`, and past `-PI` exactly on `PI`.
pub proof fn lemma_yaw_wrap(yaw: int, turn: int)
    ensures
        yaw + turn > PI ==> wrap_yaw(yaw + turn) == -PI,
        yaw + turn < -PI ==> wrap_yaw(yaw + turn) == PI,
        -PI <= yaw + turn <= PI ==> wrap_yaw(yaw + turn) == yaw + turn,
{
}

/// The vertical speed after a frame is never below `TERMINAL_VELOCITY`.
pub proof fn lemma_velocity_floor(v: int, grounded: bool, jump: bool)
    requires
        v <= i64::MAX,
    ensures
        TERMINAL_VELOCITY <= next_velocity(v, grounded, jump) <= i64::MAX,
{
}

/// The vertical speed after `n` frames in the air without a jump.
pub open spec fn airborne(v: int, n: nat) -> int
    decreases n,
{
    if n == 0 {
        v
    } else {
        next_velocity(airborne(v, (n - 1) as nat), false, false)
    }
}

/// However many frames are spent in the air, the vertical speed stays at or
/// above `TERMINAL_VELOCITY`: after `n` frames it is `v - n * GRAVITY`, or
/// `TERMINAL_VELOCITY` once that would fall below it.
pub proof fn lemma_airborne_floor(v: int, n: nat)
    requires
        TERMINAL_VELOCITY <= v <= i64::MAX,
    ensures
        TERMINAL_VELOCITY <= airborne(v, n) <= v,
        airborne(v, n) == if v - GRAVITY * n < TERMINAL_VELOCITY {
            TERMINAL_VELOCITY as int
        } else {
            v - GRAVITY * n
        },
    decreases n,
{
    if n > 0 {
        lemma_airborne_floor(v, (n - 1) as nat);
        assert(v - GRAVITY * n == v - GRAVITY * (n - 1) - GRAVITY);
    }
}

/// A held move whose probe lands inside a solid cell leaves the eye where it was.
pub proof fn lemma_blocked_move(s: Seq<bool>, e: Pos, feet: Pos, d: Pos, ahead: bool)
    requires
        !empty_point(
            s,
            feet.x + signed(d.x as int, ahead),
            feet.y + signed(d.y as int, ahead),
            feet.z + signed(d.z as int, ahead),
        ),
    ensures
        try_move(s, e, true, feet, d, ahead) == e,
{
}

/// The keys of one frame: four held movement keys and a jump pressed this frame.
#[derive(Clone, Copy, Debug, PartialEq, Eq, Structural)]
pub struct Keys {
    pub forward: bool,
    pub back: bool,
    pub right: bool,
    pub left: bool,
    pub jump: bool,
}

/// One horizontal move: taken only when held and when the probe `feet`,
/// moved by `d` (or `-d`), is not inside a solid cell.
pub open spec fn try_move(
    s: Seq<bool>,
    e: Pos,
    held: bool,
    feet: Pos,
    d: Pos,
    ahead: bool,
) -> Pos {
    if held && empty_point(
        s,
        feet.x + signed(d.x as int, ahead),
        feet.y + signed(d.y as int, ahead),
        feet.z + signed(d.z as int, ahead),
    ) {
        shift(e, d, ahead)
    } else {
        e
    }
}

/// The point one unit below the eye.
pub open spec fn feet_of(eye: Pos) -> Pos {
    Pos { x: eye.x, y: clamp_i64(eye.y - UNIT), z: eye.z }
}

/// The eye after the four horizontal moves of a frame, each tested on its
/// own against the feet of the eye as the frame began.
pub open spec fn walk(s: Seq<bool>, eye: Pos, keys: Keys, forward: Pos, right: Pos) -> Pos {
    let feet = feet_of(eye);
    let e1 = try_move(s, eye, keys.forward, feet, forward, true);
    let e2 = try_move(s, e1, keys.back, feet, forward, false);
    let e3 = try_move(s, e2, keys.right, feet, right, true);
    try_move(s, e3, keys.left, feet, right, false)
}

/// Standing: the point two units below the eye is inside a solid cell.
pub open spec fn grounded(s: Seq<bool>, eye: Pos) -> bool {
    !empty_point(s, eye.x as int, eye.y - 2 * UNIT, eye.z as int)
}

/// The look angles and vertical speed of a controller.
pub struct ControllerView {
    pub yaw: int,
    pub pitch: int,
    pub velocity: int,
}

/// Steers a first-person eye: look angles from pointer motion, walking with
/// collision against the grid, and gravity.
pub struct CameraController {
    xrot: i64,
    yrot: i64,
    yvel: i64,
}

impl View for CameraController {
    type V = ControllerView;

    closed spec fn view(&self) -> ControllerView {
        ControllerView { yaw: self.xrot as int, pitch: self.yrot as int, velocity: self.yvel as int }
    }
}

impl CameraController {
    /// The angles are within their bounds and the vertical speed is not below
    /// `TERMINAL_VELOCITY`.
    pub open spec fn wf(&self) -> bool {
        &&& -PI <= self@.yaw <= PI
        &&& -HALF_PI <= self@.pitch <= HALF_PI
        &&& TERMINAL_VELOCITY <= self@.velocity <= i64::MAX
    }

    /// A controller looking along `+x`, level, at rest.
    pub fn new() -> (r: Self)
        ensures
            r.wf(),
            r@ == (ControllerView { yaw: 0, pitch: 0, velocity: 0 }),
    {
        CameraController { xrot: 0, yrot: 0, yvel: 0 }
    }

    /// The yaw, in millionths of a radian.
    pub fn yaw(&self) -> (r: i64)
        ensures
            r == self@.yaw,
    {
        self.xrot
    }

    /// The pitch, in millionths of a radian.
    pub fn pitch(&self) -> (r: i64)
        ensures
            r == self@.pitch,
    {
        self.yrot
    }

    /// The vertical speed, in thousandths of a unit per frame.
    pub fn velocity(&self) -> (r: i64)
        ensures
            r == self@.velocity,
    {
        self.yvel
    }

    /// Advances one frame.
    ///
    /// `look` is the pointer motion in millionths: the yaw turns by
    /// `LOOK_SCALE * look.0` and the pitch by `-LOOK_SCALE * look.1`.
    /// `forward` and `right` are this frame's horizontal steps, in
    /// thousandths of a unit; the eye takes each held one whose probe from
    /// the feet is free. Then the vertical speed is updated (see
    /// `next_velocity`) and added to the height of the eye; it is not
    /// scaled by the frame's duration.
    pub fn update(
        &mut self,
        eye: &mut Pos,
        chunk: &HeightChunk,
        keys: &Keys,
        look: (i32, i32),
        forward: Pos,
        right: Pos,
    )
        requires
            old(self).wf(),
            chunk.wf(),
        ensures
            final(self).wf(),
            final(self)@.yaw == wrap_yaw(old(self)@.yaw + LOOK_SCALE * look.0),
            final(self)@.pitch == clamp_pitch(old(self)@.pitch - LOOK_SCALE * look.1),
            final(self)@.velocity == next_velocity(
                old(self)@.velocity,
                grounded(chunk@, walk(chunk@, *old(eye), *keys, forward, right)),
                keys.jump,
            ),
            *final(eye) == ({
                let w = walk(chunk@, *old(eye), *keys, forward, right);
                Pos { x: w.x, y: clamp_i64(w.y + final(self)@.velocity), z: w.z }
            }),
    {
        let yaw = self.xrot + look.0 as i64 * LOOK_SCALE;
        self.xrot = if yaw > PI {
            -PI
        } else if yaw < -PI {
            PI
        } else {
            yaw
        };
        let pitch = self.yrot - look.1 as i64 * LOOK_SCALE;
        self.yrot = if pitch < -HALF_PI {
            -HALF_PI
        } else if pitch > HALF_PI {
            HALF_PI
        } else {
            pitch
        };

        let start = *eye;
        let feet = Pos { x: start.x, y: saturate(start.y as i128 - UNIT as i128), z: start.z };
        let mut e = start;
        e = step(chunk, e, keys.forward, feet, forward, true);
        e = step(chunk, e, keys.back, feet, forward, false);
        e = step(chunk, e, keys.right, feet, right, true);
        e = step(chunk, e, keys.left, feet, right, false);

        let on_ground = !chunk.is_empty_wide(
            e.x as i128,
            e.y as i128 - 2 * UNIT as i128,
            e.z as i128,
        );
        let mut v = self.yvel;
        if on_ground {
            if v < 0 {
                v = 0;
            }
        } else {
            v = v - GRAVITY;
            if v < TERMINAL_VELOCITY {
                v = TERMINAL_VELOCITY;
            }
        }
        if keys.jump {
            v = saturate(v as i128 + JUMP_IMPULSE as i128);
        }
        self.yvel = v;
        *eye = Pos { x: e.x, y: saturate(e.y as i128 + v as i128), z: e.z };
    }
}

/// One horizontal move of a frame (see `try_move`).
fn step(chunk: &HeightChunk, e: Pos, held: bool, feet: Pos, d: Pos, ahead: bool) -> (r: Pos)
    requires
        chunk.wf(),
    ensures
        r == try_move(chunk@, e, held, feet, d, ahead),
{
    if !held {
        return e;
    }
    let free = if ahead {
        chunk.is_empty_wide(
            feet.x as i128 + d.x as i128,
            feet.y as i128 + d.y as i128,
            feet.z as i128 + d.z as i128,
        )
    } else {
        chunk.is_empty_wide(
            feet.x as i128 - d.x as i128,
            feet.y as i128 - d.y as i128,
            feet.z as i128 - d.z as i128,
        )
    };
    if free {
        e.shifted(d, ahead)
    } else {
        e
    }
}

} // verus!
