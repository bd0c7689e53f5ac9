//! One particle of the swarm, and how its heading bounces off a wall.

use vstd::prelude::*;
use crate::field::Wall;

verus! {

/// The farthest from the origin, along either axis, that a member may stand
/// and still be moved or measured. Within it every step stays far inside
/// the range of `i64`, and every squared distance inside that of `u128`.
pub const REACH: i64 = 1_000_000_000_000_000_000;

/// One particle of the swarm.
///
/// `pos_x` and `pos_y` are in position units (see [`crate::field::UNIT`]);
/// `dir` is the heading in degrees, `0` pointing straight up and growing
/// clockwise.
#[derive(Clone, Copy, Debug, PartialEq, Eq, Structural)]
pub struct BoidMember {
    pub id: u8,
    pub pos_x: i64,
    pub pos_y: i64,
    pub dir: u16,
}

/// The heading that `dir` turns into when it bounces off `wall`.
///
/// Off a flat wall the vertical direction flips: `180 - dir` below 180 and
/// `540 - dir` above it, while 180 itself is kept. Off a side wall the
/// horizontal direction flips: `360 - dir`, which sends 0 to 360.
pub open spec fn reflected(dir: int, wall: Wall) -> int {
    match wall {
        Wall::Flat => if dir < 180 {
            180 - dir
        } else if dir > 180 {
            540 - dir
        } else {
            dir
        },
        Wall::Side => 360 - dir,
    }
}

/// The square of the Euclidean distance between two members, in position
/// units squared.
pub open spec fn distance_squared(a: BoidMember, b: BoidMember) -> int {
    (a.pos_x - b.pos_x) * (a.pos_x - b.pos_x) + (a.pos_y - b.pos_y) * (a.pos_y - b.pos_y)
}

/// The square of a difference of two coordinates within reach is the square
/// of its absolute value, and it is at most the square of twice [`REACH`].
proof fn lemma_square_of_difference(d: int, d_abs: int)
    by (nonlinear_arith)
    requires
        d_abs == d || d_abs == -d,
        0 <= d_abs <= 2_000_000_000_000_000_000,
    ensures
        d_abs * d_abs == d * d,
        d_abs * d_abs <= 4_000_000_000_000_000_000_000_000_000_000_000_000,
{
}

/// Bouncing twice off the same wall gives a heading back: for every heading
/// above 0 and below 360 the second reflection undoes the first.
pub proof fn lemma_reflecting_twice_restores(dir: int, wall: Wall)
    requires
        0 < dir < 360,
    ensures
        reflected(reflected(dir, wall), wall) == dir,
{
}

/// The square root of `n`, rounded down, for `n` below the square of
/// `2^63`.
fn floor_sqrt(n: u128) -> (r: u64)
    requires
        n < 0x4000_0000_0000_0000_0000_0000_0000_0000,
    ensures
        r * r <= n < (r + 1) * (r + 1),
{
    let mut low: u64 = 0;
    let mut high: u64 = 0x8000_0000_0000_0000;
    assert(0x8000_0000_0000_0000int * 0x8000_0000_0000_0000int
        == 0x4000_0000_0000_0000_0000_0000_0000_0000int) by (nonlinear_arith);
    while high - low > 1
        invariant
            low < high <= 0x8000_0000_0000_0000,
            low * low <= n < high * high,
        decreases high - low,
    {
        let mid: u64 = low + (high - low) / 2;
        assert(mid * mid < 0x4000_0000_0000_0000_0000_0000_0000_0000) by (nonlinear_arith)
            requires
                0 <= mid < 0x8000_0000_0000_0000,
        ;
        if (mid as u128) * (mid as u128) <= n {
            low = mid;
        } else {
            high = mid;
        }
    }
    low
}

impl BoidMember {
    /// A member with the given identity, position and heading.
    pub fn new(id: u8, pos_x: i64, pos_y: i64, dir: u16) -> (m: BoidMember)
        ensures
            m == (BoidMember { id, pos_x, pos_y, dir }),
    {
        BoidMember { id, pos_x, pos_y, dir }
    }

    /// Whether the member stands close enough to the origin to be moved.
    pub open spec fn within_reach(&self) -> bool {
        &&& -REACH <= self.pos_x <= REACH
        &&& -REACH <= self.pos_y <= REACH
    }

    /// Decides [`BoidMember::within_reach`].
    pub fn can_move(&self) -> (ok: bool)
        ensures
            ok == self.within_reach(),
    {
        -REACH <= self.pos_x && self.pos_x <= REACH && -REACH <= self.pos_y && self.pos_y <= REACH
    }

    /// Two members are the same member when they carry the same identity.
    pub fn equals(&self, member: &BoidMember) -> (same: bool)
        ensures
            same == (self.id == member.id),
    {
        self.id == member.id
    }

    /// The Euclidean distance between two members in position units,
    /// rounded down to a whole number.
    pub fn distance(&self, member: &BoidMember) -> (d: u64)
        requires
            self.within_reach(),
            member.within_reach(),
        ensures
            d * d <= distance_squared(*self, *member) < (d + 1) * (d + 1),
    {
        let a: i64 = self.pos_x - member.pos_x;
        let b: i64 = self.pos_y - member.pos_y;
        let a_abs: u128 = if a < 0 {
            (-a) as u128
        } else {
            a as u128
        };
        let b_abs: u128 = if b < 0 {
            (-b) as u128
        } else {
            b as u128
        };
        proof {
            lemma_square_of_difference(a as int, a_abs as int);
            lemma_square_of_difference(b as int, b_abs as int);
        }
        floor_sqrt(a_abs * a_abs + b_abs * b_abs)
    }

    /// Puts the member at `(x, y)`; identity and heading stay.
    pub fn transform(&mut self, x: i64, y: i64)
        ensures
            *final(self) == (BoidMember { pos_x: x, pos_y: y, ..*old(self) }),
    {
        self.pos_x = x;
        self.pos_y = y;
    }

    /// Bounces the heading off `wall`; identity and position stay.
    ///
    /// The new heading is again a heading of at most 360 degrees, and it is
    /// below 360 except in one case: heading 0 bounced off a side wall
    /// becomes 360.
    pub fn reflect(&mut self, wall: Wall)
        requires
            wall == Wall::Side ==> old(self).dir <= 360,
            wall == Wall::Flat ==> old(self).dir <= 540,
        ensures
            final(self).dir == reflected(old(self).dir as int, wall),
            final(self).id == old(self).id,
            final(self).pos_x == old(self).pos_x,
            final(self).pos_y == old(self).pos_y,
            old(self).dir <= 360 ==> final(self).dir <= 360,
            old(self).dir <= 360 ==> (final(self).dir == 360 <==> wall == Wall::Side
                && old(self).dir == 0),
    {
        if wall == Wall::Flat {
            if self.dir < 180 {
                self.dir = 180 - self.dir;
            } else if self.dir > 180 {
                self.dir = 540 - self.dir;
            }
        } else if wall == Wall::Side {
            self.dir = 360 - self.dir;
        }
    }
}

} // verus!
