//! Integer world-space geometry: 2D/3D points, the point-in-rectangle
//! primitive shared by every hover pass, and an exact integer square
//! root used by the move animation.

use vstd::prelude::*;

verus! {

/// Bound on every coordinate, size and target the systems accept; keeps
/// all additive arithmetic far away from `i64` overflow.
pub const COORD_LIMIT: i64 = 1_000_000_000_000;

#[derive(Clone, Copy, PartialEq, Eq, Structural, Debug)]
pub struct Vec2i {
    pub x: i64,
    pub y: i64,
}

#[derive(Clone, Copy, PartialEq, Eq, Structural, Debug)]
pub struct Vec3i {
    pub x: i64,
    pub y: i64,
    pub z: i64,
}

impl Vec3i {
    pub open spec fn xy(self) -> Vec2i {
        Vec2i { x: self.x, y: self.y }
    }
}

pub open spec fn vec2_ok(v: Vec2i) -> bool {
    &&& -COORD_LIMIT <= v.x <= COORD_LIMIT
    &&& -COORD_LIMIT <= v.y <= COORD_LIMIT
}

pub open spec fn vec3_ok(v: Vec3i) -> bool {
    &&& -COORD_LIMIT <= v.x <= COORD_LIMIT
    &&& -COORD_LIMIT <= v.y <= COORD_LIMIT
    &&& -COORD_LIMIT <= v.z <= COORD_LIMIT
}

pub open spec fn size_ok(v: Vec2i) -> bool {
    &&& 0 <= v.x <= COORD_LIMIT
    &&& 0 <= v.y <= COORD_LIMIT
}

/// Whether `pos` lies in the axis-aligned rectangle centered at
/// `region_pos` with extent `region_size` (half the extent on each
/// side, rounded down); bounds inclusive.
pub open spec fn spec_in_region(pos: Vec2i, region_pos: Vec2i, region_size: Vec2i) -> bool {
    let hx = region_size.x as int / 2;
    let hy = region_size.y as int / 2;
    &&& region_pos.x - hx <= pos.x <= region_pos.x + hx
    &&& region_pos.y - hy <= pos.y <= region_pos.y + hy
}

/// Point-in-rectangle test shared by the card and slot hover passes.
/// The bounds admit slot regions inflated well past `COORD_LIMIT`.
pub fn in_region(pos: Vec2i, region_pos: Vec2i, region_size: Vec2i) -> (r: bool)
    requires
        -8 * COORD_LIMIT <= pos.x <= 8 * COORD_LIMIT,
        -8 * COORD_LIMIT <= pos.y <= 8 * COORD_LIMIT,
        -8 * COORD_LIMIT <= region_pos.x <= 8 * COORD_LIMIT,
        -8 * COORD_LIMIT <= region_pos.y <= 8 * COORD_LIMIT,
        0 <= region_size.x <= 8 * COORD_LIMIT,
        0 <= region_size.y <= 8 * COORD_LIMIT,
    ensures
        r == spec_in_region(pos, region_pos, region_size),
{
    let half_x = region_size.x / 2;
    let half_y = region_size.y / 2;
    let min_x = region_pos.x - half_x;
    let max_x = region_pos.x + half_x;
    let min_y = region_pos.y - half_y;
    let max_y = region_pos.y + half_y;
    pos.x >= min_x && pos.x <= max_x && pos.y >= min_y && pos.y <= max_y
}

/// `r` is the integer square root of `n`.
pub open spec fn is_sqrt(n: nat, r: nat) -> bool {
    r * r <= n < (r + 1) * (r + 1)
}

/// The integer square root of `n`: the largest `r` with `r * r <= n`.
pub open spec fn spec_sqrt(n: nat) -> nat
    decreases n,
{
    if n == 0 {
        0
    } else {
        let p = spec_sqrt((n - 1) as nat);
        if (p + 1) * (p + 1) <= n {
            p + 1
        } else {
            p
        }
    }
}

/// `spec_sqrt` satisfies the square-root characterization.
pub proof fn lemma_spec_sqrt(n: nat)
    ensures
        is_sqrt(n, spec_sqrt(n)),
    decreases n,
{
    if n == 0 {
        assert(is_sqrt(0, 0)) by (nonlinear_arith);
    } else {
        lemma_spec_sqrt((n - 1) as nat);
        let p = spec_sqrt((n - 1) as nat);
        assert(spec_sqrt(n) == if (p + 1) * (p + 1) <= n {
            p + 1
        } else {
            p
        });
        if (p + 1) * (p + 1) <= n {
            assert(n <= (p + 1) * (p + 1));
            assert(n < (p + 1 + 1) * (p + 1 + 1)) by (nonlinear_arith)
                requires
                    n == (p + 1) * (p + 1),
                    p >= 0,
            ;
            assert(is_sqrt(n, p + 1));
        } else {
            assert(p * p <= n);
            assert(is_sqrt(n, p));
        }
    }
}

/// Only one value satisfies the square-root characterization.
pub proof fn lemma_sqrt_unique(n: nat, r: nat)
    requires
        is_sqrt(n, r),
    ensures
        r == spec_sqrt(n),
{
    lemma_spec_sqrt(n);
    let s = spec_sqrt(n);
    if r < s {
        assert(false) by (nonlinear_arith)
            requires
                r < s,
                n < (r + 1) * (r + 1),
                s * s <= n,
        ;
    }
    if s < r {
        assert(false) by (nonlinear_arith)
            requires
                s < r,
                n < (s + 1) * (s + 1),
                r * r <= n,
        ;
    }
}

/// The square root is monotone: a smaller square has a root no larger.
pub proof fn lemma_sqrt_at_least(n: nat, d: nat)
    requires
        d * d <= n,
    ensures
        spec_sqrt(n) >= d,
{
    lemma_spec_sqrt(n);
    let s = spec_sqrt(n);
    if s < d {
        assert(false) by (nonlinear_arith)
            requires
                s < d,
                n < (s + 1) * (s + 1),
                d * d <= n,
        ;
    }
}

/// Integer square root by bisection.
pub fn isqrt64(n: u64) -> (r: u64)
    ensures
        r as nat == spec_sqrt(n as nat),
        is_sqrt(n as nat, r as nat),
{
    let mut lo: u64 = 0;
    let mut hi: u64 = 4294967296;
    proof {
        assert((n as nat) < 4294967296 * 4294967296);
    }
    while lo + 1 < hi
        invariant
            lo < hi <= 4294967296,
            (lo as nat) * (lo as nat) <= n as nat,
            (n as nat) < (hi as nat) * (hi as nat),
        decreases hi - lo,
    {
        let mid = lo + (hi - lo) / 2;
        proof {
            assert((mid as int) * (mid as int) <= 4294967296 * 4294967296) by (nonlinear_arith)
                requires
                    0 <= mid as int <= 4294967296,
            ;
        }
        let sq: u128 = (mid as u128) * (mid as u128);
        if sq <= n as u128 {
            lo = mid;
        } else {
            hi = mid;
        }
    }
    proof {
        lemma_sqrt_unique(n as nat, lo as nat);
    }
    lo
}

} // verus!
