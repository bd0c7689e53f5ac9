//! The motion engine: where a member stands after one tick, and how its
//! heading changes when the step carries it across a wall.
//!
//! A tick moves a member by one field unit, split between the two axes in
//! proportion to how far the heading has turned into its quadrant:
//!
//! | heading     | x step      | y step      | side wall crossed | flat wall crossed |
//! |-------------|-------------|-------------|-------------------|-------------------|
//! | `[0, 90)`   | `h`         | `h - 90`    | `x > width`       | `y < 0`           |
//! | `[90, 180)` | `180 - h`   | `h - 90`    | `x > width`       | `y > height`      |
//! | `[180, 270)`| `180 - h`   | `270 - h`   | `x < 0`           | `y > height`      |
//! | `[270, 360)`| `h - 360`   | `270 - h`   | `x < 0`           | `y < 0`           |
//!
//! All lengths are in position units, `y` grows downwards. A heading of 360
//! or more belongs to no quadrant, and a member that has one stays put.

use vstd::prelude::*;
use vstd::math::abs;
use crate::field::{Point, Wall, FIELD_HEIGHT, FIELD_WIDTH, UNIT};
use crate::member::{reflected, BoidMember, REACH};

verus! {

/// How far one tick carries a member with heading `h` along the x axis.
pub open spec fn step_x(h: int) -> int {
    if h < 90 {
        h
    } else if h < 270 {
        180 - h
    } else if h < 360 {
        h - 360
    } else {
        0
    }
}

/// How far one tick carries a member with heading `h` along the y axis.
pub open spec fn step_y(h: int) -> int {
    if h < 180 {
        h - 90
    } else if h < 360 {
        270 - h
    } else {
        0
    }
}

/// Whether a member with heading `h` that has advanced to `x` has crossed
/// the side wall it is heading for.
pub open spec fn crosses_side(x: int, h: int) -> bool {
    if h < 180 {
        x > FIELD_WIDTH
    } else if h < 360 {
        x < 0
    } else {
        false
    }
}

/// Whether a member with heading `h` that has advanced to `y` has crossed
/// the flat wall it is heading for.
pub open spec fn crosses_flat(y: int, h: int) -> bool {
    if h < 90 {
        y < 0
    } else if h < 270 {
        y > FIELD_HEIGHT
    } else if h < 360 {
        y < 0
    } else {
        false
    }
}

/// What is added to x once a side wall has been crossed.
///
/// Heading up (`h < 90` or `h >= 270`) this takes the whole x step back.
/// Heading down it does not: rightwards the member is set back by `h`,
/// leftwards it is moved on by `270 - h`.
pub open spec fn side_setback(h: int) -> int {
    if h < 180 {
        -h
    } else if h < 270 {
        270 - h
    } else if h < 360 {
        360 - h
    } else {
        0
    }
}

/// What is added to y once a flat wall has been crossed.
///
/// Only in the first quadrant does this take the y step back. In the second
/// it repeats the step, in the third it sets the member back by the size of
/// its x step, and in the fourth it pushes the member a further `h - 90`
/// beyond the top wall.
pub open spec fn flat_setback(h: int) -> int {
    if h < 90 {
        90 - h
    } else if h < 180 {
        h - 90
    } else if h < 270 {
        180 - h
    } else if h < 360 {
        90 - h
    } else {
        0
    }
}

/// The x coordinate after one tick, starting at `x` with heading `h`.
pub open spec fn next_x(x: int, h: int) -> int {
    if crosses_side(x + step_x(h), h) {
        x + step_x(h) + side_setback(h)
    } else {
        x + step_x(h)
    }
}

/// The y coordinate after one tick, starting at `y` with heading `h`.
pub open spec fn next_y(y: int, h: int) -> int {
    if crosses_flat(y + step_y(h), h) {
        y + step_y(h) + flat_setback(h)
    } else {
        y + step_y(h)
    }
}

/// The heading after one tick: bounced off the side wall if the step crossed
/// one, and then off the flat wall if the step crossed one.
pub open spec fn next_dir(x: int, y: int, h: int) -> int {
    let turned = if crosses_side(x + step_x(h), h) {
        reflected(h, Wall::Side)
    } else {
        h
    };
    if crosses_flat(y + step_y(h), h) {
        reflected(turned, Wall::Flat)
    } else {
        turned
    }
}

/// The member as it is after one tick, moved and turned.
pub open spec fn moved(m: BoidMember) -> BoidMember {
    BoidMember {
        id: m.id,
        pos_x: next_x(m.pos_x as int, m.dir as int) as i64,
        pos_y: next_y(m.pos_y as int, m.dir as int) as i64,
        dir: next_dir(m.pos_x as int, m.pos_y as int, m.dir as int) as u16,
    }
}

/// Computes where `member` stands after one tick and turns its heading if
/// the step crosses a wall. The member itself is not moved: the caller puts
/// it at the returned point. A member whose heading is 360 or more is
/// neither moved nor turned.
pub fn move_member(member: &mut BoidMember) -> (p: Point)
    requires
        old(member).within_reach(),
    ensures
        p.x == next_x(old(member).pos_x as int, old(member).dir as int),
        p.y == next_y(old(member).pos_y as int, old(member).dir as int),
        final(member).dir == next_dir(
            old(member).pos_x as int,
            old(member).pos_y as int,
            old(member).dir as int,
        ),
        final(member).id == old(member).id,
        final(member).pos_x == old(member).pos_x,
        final(member).pos_y == old(member).pos_y,
{
    let dir: i64 = member.dir as i64;
    let mut pos_x: i64 = member.pos_x;
    let mut pos_y: i64 = member.pos_y;
    if dir < 90 {
        pos_x += dir;
        pos_y -= 90 - dir;
        if pos_x > FIELD_WIDTH {
            pos_x -= dir;
            member.reflect(Wall::Side);
        }
        if pos_y < 0 {
            pos_y += UNIT - dir;
            member.reflect(Wall::Flat);
        }
    } else if dir < 180 {
        pos_x += 180 - dir;
        pos_y += dir - 90;
        if pos_x > FIELD_WIDTH {
            pos_x -= dir;
            member.reflect(Wall::Side);
        }
        if pos_y > FIELD_HEIGHT {
            pos_y -= UNIT - dir;
            member.reflect(Wall::Flat);
        }
    } else if dir < 270 {
        pos_x -= dir - 180;
        pos_y += 270 - dir;
        if pos_x < 0 {
            pos_x += 270 - dir;
            member.reflect(Wall::Side);
        }
        if pos_y > FIELD_HEIGHT {
            pos_y -= dir - 180;
            member.reflect(Wall::Flat);
        }
    } else if dir < 360 {
        pos_x -= 360 - dir;
        pos_y -= dir - 270;
        if pos_x < 0 {
            pos_x += 360 - dir;
            member.reflect(Wall::Side);
        }
        if pos_y < 0 {
            pos_y += UNIT - dir;
            member.reflect(Wall::Flat);
        }
    }
    Point::new(pos_x, pos_y)
}

/// The square of the Euclidean length of the step that heading `h` takes.
pub open spec fn step_length_squared(h: int) -> int {
    step_x(h) * step_x(h) + step_y(h) * step_y(h)
}

/// The member `m` after `n` ticks, none of which found it out of reach.
pub open spec fn moved_times(m: BoidMember, n: nat) -> BoidMember
    decreases n,
{
    if n == 0 {
        m
    } else {
        moved(moved_times(m, (n - 1) as nat))
    }
}

/// Whether a member is on a course that the simulation keeps it on: its
/// heading is below 360 degrees, it stands less than one field unit left of
/// the field and nowhere right of it, and where it stands left of the field
/// it does not head left.
pub open spec fn on_course(m: BoidMember) -> bool {
    &&& m.dir < 360
    &&& -UNIT < m.pos_x <= FIELD_WIDTH
    &&& m.pos_x < 0 ==> m.dir <= 180
}

/// Whether `(x, y)` lies strictly inside the field.
pub open spec fn strictly_inside(x: int, y: int) -> bool {
    0 < x < FIELD_WIDTH && 0 < y < FIELD_HEIGHT
}

proof fn lemma_split_square(a: int, b: int)
    by (nonlinear_arith)
    requires
        0 <= a,
        0 <= b,
    ensures
        a * a + b * b == (a + b) * (a + b) - 2 * (a * b),
        2 * (a * a + b * b) >= (a + b) * (a + b),
        a * b >= 0,
        a * b == 0 <==> a == 0 || b == 0,
        (-a) * (-a) == a * a,
        (-b) * (-b) == b * b,
{
}

/// Along the four axes a step is exactly one field unit long: for the
/// headings 0, 90, 180 and 270 the Euclidean length of the step is `UNIT`.
pub proof fn lemma_step_is_unit_along_axes(h: int)
    requires
        0 <= h < 360,
        h % 90 == 0,
    ensures
        step_length_squared(h) == UNIT * UNIT,
{
    lemma_step_length_bounds(h);
}

/// Every step covers one field unit when its two components are added up,
/// so its Euclidean length is at most one unit and at least the diagonal's
/// share of it, and it is one unit only along the axes.
pub proof fn lemma_step_length_bounds(h: int)
    requires
        0 <= h < 360,
    ensures
        abs(step_x(h)) + abs(step_y(h)) == UNIT,
        UNIT * UNIT <= 2 * step_length_squared(h),
        step_length_squared(h) <= UNIT * UNIT,
        step_length_squared(h) == UNIT * UNIT <==> h % 90 == 0,
{
    let a = abs(step_x(h)) as int;
    let b = abs(step_y(h)) as int;
    lemma_split_square(a, b);
    assert(step_x(h) * step_x(h) == a * a);
    assert(step_y(h) * step_y(h) == b * b);
    assert((a + b) * (a + b) == UNIT * UNIT);
    assert(a == 0 || b == 0 <==> h % 90 == 0);
}

/// A reflection mirrors the step. Off a side wall the x step is reversed
/// and the y step kept, for every heading but 0; off a flat wall the y step
/// is reversed and the x step kept, for every heading but 180.
pub proof fn lemma_reflection_mirrors_the_step(h: int)
    requires
        0 <= h < 360,
    ensures
        h != 0 ==> step_x(reflected(h, Wall::Side)) == -step_x(h),
        h != 0 ==> step_y(reflected(h, Wall::Side)) == step_y(h),
        h != 180 ==> step_x(reflected(h, Wall::Flat)) == step_x(h),
        h != 180 ==> step_y(reflected(h, Wall::Flat)) == -step_y(h),
{
}

/// A tick never changes who a member is, however many ticks there are.
pub proof fn lemma_identity_is_kept(m: BoidMember, n: nat)
    ensures
        moved_times(m, n).id == m.id,
    decreases n,
{
    if n > 0 {
        lemma_identity_is_kept(m, (n - 1) as nat);
    }
}

/// A member on course stays on course. So the heading of such a member is
/// a heading below 360 degrees after every tick, and the member never
/// strays sideways: the heading 360 can only come from a member that was
/// put beyond the right wall heading straight up.
pub proof fn lemma_stays_on_course(m: BoidMember)
    requires
        on_course(m),
        m.within_reach(),
    ensures
        on_course(moved(m)),
{
}

/// One tick carries a member less than two field units sideways and less
/// than four field units up or down.
pub proof fn lemma_drift_is_bounded(m: BoidMember)
    requires
        m.within_reach(),
    ensures
        -2 * UNIT < moved(m).pos_x - m.pos_x <= UNIT,
        -4 * UNIT < moved(m).pos_y - m.pos_y < 2 * UNIT,
{
}

/// The farthest that `n` ticks can carry a member along either axis: four
/// field units for each tick.
pub open spec fn drift(n: nat) -> int {
    360 * (n as int)
}

/// A member that stands at least [`drift`]`(n)` short of [`REACH`] is
/// within reach for the next `n` ticks, and when it started on course it is
/// on course after them.
pub proof fn lemma_stays_within_reach(m: BoidMember, n: nat)
    requires
        -REACH + drift(n) <= m.pos_x <= REACH - drift(n),
        -REACH + drift(n) <= m.pos_y <= REACH - drift(n),
    ensures
        moved_times(m, n).within_reach(),
        -drift(n) <= moved_times(m, n).pos_x - m.pos_x <= drift(n),
        -drift(n) <= moved_times(m, n).pos_y - m.pos_y <= drift(n),
        on_course(m) ==> on_course(moved_times(m, n)),
    decreases n,
{
    if n > 0 {
        let before = moved_times(m, (n - 1) as nat);
        lemma_stays_within_reach(m, (n - 1) as nat);
        lemma_drift_is_bounded(before);
        if on_course(m) {
            lemma_stays_on_course(before);
        }
    }
}

/// A tick corrects at most once per wall. The heading after the tick is the
/// old heading bounced at most once off a side wall and then at most once
/// off a flat wall, and where the member lands strictly inside the field no
/// wall test fires at its new position, whatever heading it is made for.
pub proof fn lemma_single_correction(m: BoidMember)
    requires
        m.within_reach(),
    ensures
        ({
            let h = m.dir as int;
            let turned = reflected(h, Wall::Side);
            ||| moved(m).dir == h
            ||| moved(m).dir == turned
            ||| moved(m).dir == reflected(h, Wall::Flat)
            ||| moved(m).dir == reflected(turned, Wall::Flat)
        }),
        strictly_inside(moved(m).pos_x as int, moved(m).pos_y as int) ==> forall|h: int|
            !crosses_side(moved(m).pos_x as int, h) && !crosses_flat(moved(m).pos_y as int, h),
{
}

} // verus!
