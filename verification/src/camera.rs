use vstd::prelude::*;
use crate::geometry::{Eye, Vec3, COORD_LIMIT, SCALE};
use vstd::arithmetic::div_mod::{lemma_div_is_ordered, lemma_div_multiples_vanish};

verus! {

// Camera-relative eye movement.  A movement delta `(x, y, z)` is taken in
// camera coordinates: `x` along the camera's look direction projected onto
// the ground plane and normalized, `y` along that direction's right-handed
// in-plane orthogonal (`(x, y) ↦ (y, −x)`, i.e. 90° clockwise seen from
// above), and `z` along the world vertical.  Both the camera position and
// its target are translated by the same resulting world-space offset, so the
// view direction is preserved.  The normalization is fixed-point: the unit
// forward vector is scaled by `SCALE` and every division rounds toward zero.

/// Floor of the square root of `n`.
pub open spec fn sqrt_floor(n: nat) -> nat
    decreases n,
{
    if n == 0 {
        0
    } else {
        let s = sqrt_floor((n - 1) as nat);
        if (s + 1) * (s + 1) <= n {
            s + 1
        } else {
            s
        }
    }
}

/// `sqrt_floor` is the largest integer whose square is at most `n`.
pub proof fn lemma_sqrt_floor(n: nat)
    ensures
        sqrt_floor(n) * sqrt_floor(n) <= n,
        n < (sqrt_floor(n) + 1) * (sqrt_floor(n) + 1),
    decreases n,
{
    if n == 0 {
        assert(sqrt_floor(n) == 0);
        assert(n < (sqrt_floor(n) + 1) * (sqrt_floor(n) + 1)) by (nonlinear_arith)
            requires
                n == 0,
                sqrt_floor(n) == 0,
        ;
    } else {
        lemma_sqrt_floor((n - 1) as nat);
        let s = sqrt_floor((n - 1) as nat);
        reveal_with_fuel(sqrt_floor, 2);
        if (s + 1) * (s + 1) <= n {
            assert(sqrt_floor(n) == s + 1);
            assert(n - 1 < (s + 1) * (s + 1));
            assert(n == (s + 1) * (s + 1));
            assert((s + 1) * (s + 1) < (s + 2) * (s + 2)) by (nonlinear_arith);
        } else {
            assert(sqrt_floor(n) == s);
        }
    }
}

/// Any integer bracketed the same way as `sqrt_floor(n)` equals it.
pub proof fn lemma_sqrt_unique(n: nat, r: nat)
    requires
        r * r <= n,
        n < (r + 1) * (r + 1),
    ensures
        r == sqrt_floor(n),
{
    lemma_sqrt_floor(n);
    let s = sqrt_floor(n);
    if r < s {
        assert((r + 1) * (r + 1) <= s * s) by (nonlinear_arith)
            requires
                r + 1 <= s,
        ;
    }
    if s < r {
        assert((s + 1) * (s + 1) <= r * r) by (nonlinear_arith)
            requires
                s + 1 <= r,
        ;
    }
}

/// Integer square root by binary search.
pub fn isqrt(n: u64) -> (r: u64)
    requires
        n < 0x4000000000000000,
    ensures
        r == sqrt_floor(n as nat),
        r * r <= n,
        n < (r + 1) * (r + 1),
{
    let mut lo: u64 = 0;
    let mut hi: u64 = 0x80000000;
    proof {
        assert((lo * lo) as nat <= n as nat);
    }
    while lo + 1 < hi
        invariant
            lo < hi <= 0x80000000,
            lo * lo <= n,
            n < hi * hi,
        decreases hi - lo,
    {
        let mid = lo + (hi - lo) / 2;
        proof {
            assert((mid as int) * (mid as int) < 0x4000000000000000) by (nonlinear_arith)
                requires
                    0 <= (mid as int) < 0x80000000,
            ;
        }
        if mid * mid <= n {
            lo = mid;
        } else {
            hi = mid;
        }
    }
    proof {
        lemma_sqrt_unique(n as nat, lo as nat);
    }
    lo
}

/// Absolute value as a mathematical integer.
pub open spec fn int_abs(a: int) -> int {
    if a >= 0 {
        a
    } else {
        -a
    }
}

/// Signed division by a positive divisor, rounding toward zero (the
/// convention every division in the camera arithmetic uses).
pub open spec fn div_trunc(a: int, b: int) -> int {
    if a >= 0 {
        a / b
    } else {
        -((-a) / b)
    }
}

/// Divides by `SCALE`, rounding toward zero.
fn div_scale(a: i64) -> (r: i64)
    requires
        -0x4000000000000000 <= a <= 0x4000000000000000,
    ensures
        r == div_trunc(a as int, SCALE as int),
        int_abs(r as int) <= int_abs(a as int),
{
    proof {
        lemma_div_is_ordered(int_abs(a as int) / (SCALE as int), int_abs(a as int), 1);
        assert(int_abs(a as int) / 1 == int_abs(a as int)) by {
            lemma_div_multiples_vanish(int_abs(a as int), 1);
        }
        lemma_div_is_ordered(0, int_abs(a as int), SCALE as int);
    }
    if a >= 0 {
        ((a as u64) / 65536) as i64
    } else {
        let m = ((-a) as u64 / 65536) as i64;
        -m
    }
}

/// The ground-plane components of the look vector.
pub open spec fn ground_dx(eye: Eye) -> int {
    eye.target.x - eye.position.x
}

pub open spec fn ground_dy(eye: Eye) -> int {
    eye.target.y - eye.position.y
}

/// Length of the ground-projected look vector, rounded down.
pub open spec fn ground_len(eye: Eye) -> int {
    sqrt_floor((ground_dx(eye) * ground_dx(eye) + ground_dy(eye) * ground_dy(eye)) as nat) as int
}

/// One component of the normalized direction, scaled by `SCALE` and rounded
/// toward zero.
pub open spec fn scaled_unit(a: int, len: int) -> int {
    div_trunc(a * SCALE, len)
}

/// x component of the unit forward direction, times `SCALE`.
pub open spec fn forward_x(eye: Eye) -> int {
    scaled_unit(ground_dx(eye), ground_len(eye))
}

/// y component of the unit forward direction, times `SCALE`.
pub open spec fn forward_y(eye: Eye) -> int {
    scaled_unit(ground_dy(eye), ground_len(eye))
}

/// The world-space offset a camera-relative `delta` produces.
pub open spec fn world_dx(eye: Eye, delta: Vec3) -> int {
    div_trunc(delta.x * forward_x(eye) + delta.y * forward_y(eye), SCALE as int)
}

pub open spec fn world_dy(eye: Eye, delta: Vec3) -> int {
    div_trunc(delta.x * forward_y(eye) - delta.y * forward_x(eye), SCALE as int)
}

pub open spec fn world_dz(eye: Eye, delta: Vec3) -> int {
    delta.z as int
}

/// An eye can be moved when its coordinates are in range and its look
/// direction does not point straight up or down (the ground projection of
/// the view would vanish and the movement frame would be undefined).
pub open spec fn eye_movable(eye: Eye) -> bool {
    &&& eye.position.in_bounds()
    &&& eye.target.in_bounds()
    &&& !(ground_dx(eye) == 0 && ground_dy(eye) == 0)
}

/// The eye after a camera-relative movement: position and target translated
/// by the same world-space offset; up vector and field of view untouched.
pub open spec fn moved_eye(eye: Eye, delta: Vec3) -> Eye {
    Eye {
        position: Vec3 {
            x: (eye.position.x + world_dx(eye, delta)) as i64,
            y: (eye.position.y + world_dy(eye, delta)) as i64,
            z: (eye.position.z + world_dz(eye, delta)) as i64,
        },
        target: Vec3 {
            x: (eye.target.x + world_dx(eye, delta)) as i64,
            y: (eye.target.y + world_dy(eye, delta)) as i64,
            z: (eye.target.z + world_dz(eye, delta)) as i64,
        },
        up: eye.up,
        field_of_view: eye.field_of_view,
    }
}

/// The world-space offset components stay well inside `i64`.
pub proof fn lemma_world_delta_bounds(eye: Eye, delta: Vec3)
    requires
        eye_movable(eye),
        delta.in_bounds(),
    ensures
        int_abs(world_dx(eye, delta)) <= 2 * COORD_LIMIT * SCALE,
        int_abs(world_dy(eye, delta)) <= 2 * COORD_LIMIT * SCALE,
        int_abs(world_dz(eye, delta)) <= COORD_LIMIT,
{
    let fx = forward_x(eye);
    let fy = forward_y(eye);
    lemma_forward_bounds(eye);
    assert(int_abs(delta.x * fx + delta.y * fy) <= 2 * COORD_LIMIT * SCALE) by (nonlinear_arith)
        requires
            int_abs(fx) <= SCALE,
            int_abs(fy) <= SCALE,
            int_abs(delta.x as int) <= COORD_LIMIT,
            int_abs(delta.y as int) <= COORD_LIMIT,
    ;
    assert(int_abs(delta.x * fy - delta.y * fx) <= 2 * COORD_LIMIT * SCALE) by (nonlinear_arith)
        requires
            int_abs(fx) <= SCALE,
            int_abs(fy) <= SCALE,
            int_abs(delta.x as int) <= COORD_LIMIT,
            int_abs(delta.y as int) <= COORD_LIMIT,
    ;
    lemma_div_trunc_abs(delta.x * fx + delta.y * fy, SCALE as int);
    lemma_div_trunc_abs(delta.x * fy - delta.y * fx, SCALE as int);
}

/// Rounding toward zero never grows the magnitude.
proof fn lemma_div_trunc_abs(a: int, b: int)
    requires
        b >= 1,
    ensures
        int_abs(div_trunc(a, b)) <= int_abs(a),
{
    lemma_div_is_ordered(int_abs(a) / b, int_abs(a), 1);
    assert(int_abs(a) / 1 == int_abs(a)) by {
        lemma_div_multiples_vanish(int_abs(a), 1);
    }
    lemma_div_is_ordered(0, int_abs(a), b);
}

/// The scaled unit direction's components are bounded by `SCALE`.
pub proof fn lemma_forward_bounds(eye: Eye)
    requires
        eye_movable(eye),
    ensures
        ground_len(eye) >= 1,
        ground_len(eye) >= int_abs(ground_dx(eye)),
        ground_len(eye) >= int_abs(ground_dy(eye)),
        int_abs(forward_x(eye)) <= SCALE,
        int_abs(forward_y(eye)) <= SCALE,
{
    let dx = ground_dx(eye);
    let dy = ground_dy(eye);
    let n = (dx * dx + dy * dy) as nat;
    assert(dx * dx >= 0 && dy * dy >= 0) by (nonlinear_arith);
    lemma_sqrt_floor(n);
    let len = sqrt_floor(n) as int;
    assert(int_abs(dx) * int_abs(dx) == dx * dx) by (nonlinear_arith);
    assert(int_abs(dy) * int_abs(dy) == dy * dy) by (nonlinear_arith);
    if n == 0 {
        assert(dx * dx == 0 && dy * dy == 0);
        assert(dx == 0 && dy == 0) by (nonlinear_arith)
            requires
                dx * dx == 0 && dy * dy == 0,
        ;
        assert(false);
    }
    if len < 1 {
        assert(len == 0);
        assert(n < 1) by (nonlinear_arith)
            requires
                n < (len + 1) * (len + 1),
                len == 0,
        ;
        assert(false);
    }
    assert(len >= int_abs(dx)) by (nonlinear_arith)
        requires
            len >= 0,
            (len + 1) * (len + 1) > int_abs(dx) * int_abs(dx),
    ;
    assert(len >= int_abs(dy)) by (nonlinear_arith)
        requires
            len >= 0,
            (len + 1) * (len + 1) > int_abs(dy) * int_abs(dy),
    ;
    lemma_scaled_unit_bound(dx, len);
    lemma_scaled_unit_bound(dy, len);
}

/// With `|a| <= len`, the scaled component `a·SCALE / len` stays within
/// `SCALE`.
proof fn lemma_scaled_unit_bound(a: int, len: int)
    requires
        len >= 1,
        int_abs(a) <= len,
    ensures
        int_abs(scaled_unit(a, len)) <= SCALE,
{
    let m = int_abs(a);
    assert(m * SCALE <= len * SCALE) by (nonlinear_arith)
        requires
            m <= len,
            SCALE >= 1,
    ;
    lemma_div_is_ordered(m * SCALE, len * SCALE, len);
    assert(len * SCALE / len == SCALE) by {
        lemma_div_multiples_vanish(SCALE as int, len);
    }
    lemma_div_is_ordered(0, m * SCALE, len);
    assert(m * SCALE >= 0) by (nonlinear_arith)
        requires
            m >= 0,
            SCALE >= 1,
    ;
}

/// Moves `eye` by the camera-relative `delta`; see the module comment for
/// the movement frame.  Position and target receive the same world offset.
pub fn move_eye(eye: &mut Eye, delta: Vec3)
    requires
        eye_movable(*old(eye)),
        delta.in_bounds(),
    ensures
        *final(eye) == moved_eye(*old(eye), delta),
        final(eye).position.x == old(eye).position.x + world_dx(*old(eye), delta),
        final(eye).position.y == old(eye).position.y + world_dy(*old(eye), delta),
        final(eye).position.z == old(eye).position.z + world_dz(*old(eye), delta),
        final(eye).target.x == old(eye).target.x + world_dx(*old(eye), delta),
        final(eye).target.y == old(eye).target.y + world_dy(*old(eye), delta),
        final(eye).target.z == old(eye).target.z + world_dz(*old(eye), delta),
        final(eye).up == old(eye).up,
        final(eye).field_of_view == old(eye).field_of_view,
{
    proof {
        lemma_forward_bounds(*eye);
        lemma_world_delta_bounds(*eye, delta);
    }
    let vx = eye.target.x - eye.position.x;
    let vy = eye.target.y - eye.position.y;
    let ax: u64 = if vx < 0 {
        (-vx) as u64
    } else {
        vx as u64
    };
    let ay: u64 = if vy < 0 {
        (-vy) as u64
    } else {
        vy as u64
    };
    proof {
        assert((ax as int) * (ax as int) + (ay as int) * (ay as int) < 0x4000000000000000)
            by (nonlinear_arith)
            requires
                0 <= (ax as int) <= 2 * COORD_LIMIT,
                0 <= (ay as int) <= 2 * COORD_LIMIT,
        ;
    }
    let len = isqrt(ax * ax + ay * ay);
    proof {
        assert((ax * ax + ay * ay) as nat == (ground_dx(*eye) * ground_dx(*eye) + ground_dy(*eye)
            * ground_dy(*eye)) as nat) by (nonlinear_arith)
            requires
                ax as int == int_abs(ground_dx(*eye)),
                ay as int == int_abs(ground_dy(*eye)),
        ;
        assert(len as int == ground_len(*eye));
        assert(len >= 1 && len >= ax && len >= ay);
    }
    let ux = ax * 65536 / len;
    let uy = ay * 65536 / len;
    let fx: i64 = if vx < 0 {
        -(ux as i64)
    } else {
        ux as i64
    };
    let fy: i64 = if vy < 0 {
        -(uy as i64)
    } else {
        uy as i64
    };
    proof {
        assert(ux as int == int_abs(ground_dx(*eye)) * SCALE / ground_len(*eye));
        assert(uy as int == int_abs(ground_dy(*eye)) * SCALE / ground_len(*eye));
        assert(fx as int == forward_x(*eye));
        assert(fy as int == forward_y(*eye));
        assert(int_abs((delta.x as int) * (fx as int)) <= COORD_LIMIT * SCALE) by (nonlinear_arith)
            requires
                int_abs(delta.x as int) <= COORD_LIMIT,
                int_abs(fx as int) <= SCALE,
        ;
        assert(int_abs((delta.y as int) * (fy as int)) <= COORD_LIMIT * SCALE) by (nonlinear_arith)
            requires
                int_abs(delta.y as int) <= COORD_LIMIT,
                int_abs(fy as int) <= SCALE,
        ;
        assert(int_abs((delta.x as int) * (fy as int)) <= COORD_LIMIT * SCALE) by (nonlinear_arith)
            requires
                int_abs(delta.x as int) <= COORD_LIMIT,
                int_abs(fy as int) <= SCALE,
        ;
        assert(int_abs((delta.y as int) * (fx as int)) <= COORD_LIMIT * SCALE) by (nonlinear_arith)
            requires
                int_abs(delta.y as int) <= COORD_LIMIT,
                int_abs(fx as int) <= SCALE,
        ;
    }
    let wx = div_scale(delta.x * fx + delta.y * fy);
    let wy = div_scale(delta.x * fy - delta.y * fx);
    let wz = delta.z;
    eye.position = Vec3 {
        x: eye.position.x + wx,
        y: eye.position.y + wy,
        z: eye.position.z + wz,
    };
    eye.target = Vec3 { x: eye.target.x + wx, y: eye.target.y + wy, z: eye.target.z + wz };
}

} // verus!
