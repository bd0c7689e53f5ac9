use boids::field::{Point, Wall, FIELD_HEIGHT, FIELD_WIDTH, UNIT};
use boids::member::{BoidMember, REACH};
use boids::motion::move_member;

/// One tick from `(x, y)` with heading `dir`: where the member lands and the
/// heading it then has.
fn tick(x: i64, y: i64, dir: u16) -> (i64, i64, u16) {
    let mut m = BoidMember::new(1, x, y, dir);
    let p = move_member(&mut m);
    assert_eq!(m.pos_x, x);
    assert_eq!(m.pos_y, y);
    assert_eq!(m.id, 1);
    (p.x, p.y, m.dir)
}

#[test]
fn field_is_800_by_600_units() {
    assert_eq!(UNIT, 90);
    assert_eq!(FIELD_WIDTH, 800 * UNIT);
    assert_eq!(FIELD_HEIGHT, 600 * UNIT);
}

#[test]
fn step_in_each_quadrant() {
    assert_eq!(tick(36000, 27000, 30), (36030, 26940, 30));
    assert_eq!(tick(36000, 27000, 120), (36060, 27030, 120));
    assert_eq!(tick(36000, 27000, 210), (35970, 27060, 210));
    assert_eq!(tick(36000, 27000, 300), (35940, 26970, 300));
}

#[test]
fn step_along_each_axis() {
    assert_eq!(tick(36000, 27000, 0), (36000, 26910, 0));
    assert_eq!(tick(36000, 27000, 90), (36090, 27000, 90));
    assert_eq!(tick(36000, 27000, 180), (36000, 27090, 180));
    assert_eq!(tick(36000, 27000, 270), (35910, 27000, 270));
}

#[test]
fn step_at_quadrant_edges() {
    assert_eq!(tick(36000, 27000, 89), (36089, 26999, 89));
    assert_eq!(tick(36000, 27000, 179), (36001, 27089, 179));
    assert_eq!(tick(36000, 27000, 269), (35911, 27001, 269));
    assert_eq!(tick(36000, 27000, 359), (35999, 26911, 359));
}

#[test]
fn step_components_add_up_to_one_unit() {
    for dir in 0u16..360 {
        let (x, y, _) = tick(36000, 27000, dir);
        let dx = x - 36000;
        let dy = y - 27000;
        assert_eq!(dx.abs() + dy.abs(), UNIT);
        assert!(dx * dx + dy * dy <= UNIT * UNIT);
        assert!(2 * (dx * dx + dy * dy) >= UNIT * UNIT);
    }
}

#[test]
fn step_is_one_unit_long_along_the_axes() {
    for dir in [0u16, 90, 180, 270] {
        let (x, y, _) = tick(36000, 27000, dir);
        let dx = (x - 36000) as f64 / UNIT as f64;
        let dy = (y - 27000) as f64 / UNIT as f64;
        assert_eq!((dx * dx + dy * dy).sqrt(), 1.0);
    }
}

#[test]
fn step_is_shorter_than_one_unit_off_the_axes() {
    for dir in [1u16, 30, 45, 89, 91, 135, 200, 225, 269, 271, 315, 359] {
        let (x, y, _) = tick(36000, 27000, dir);
        let dx = x - 36000;
        let dy = y - 27000;
        assert!(dx * dx + dy * dy < UNIT * UNIT);
    }
    let (x, y, _) = tick(36000, 27000, 45);
    let dx = (x - 36000) as f64 / UNIT as f64;
    let dy = (y - 27000) as f64 / UNIT as f64;
    assert_eq!((dx, dy), (0.5, -0.5));
    assert!(((dx * dx + dy * dy).sqrt() - 0.5f64.sqrt()).abs() < 1e-12);
}

#[test]
fn heading_135_one_unit_above_the_bottom_wall() {
    // From (400, 599) the step is half a unit down and half a unit right:
    // the member lands at (400.5, 599.5), short of the wall, and keeps its
    // heading.
    assert_eq!(tick(400 * UNIT, 599 * UNIT, 135), (36045, 53955, 135));
}

#[test]
fn heading_135_across_the_bottom_wall() {
    // The same heading from close enough to the wall: the step crosses it,
    // the member is carried the same distance again, and its heading turns
    // from 135 to 180 - 135.
    assert_eq!(tick(400 * UNIT, FIELD_HEIGHT - 10, 135), (36045, 54080, 45));
}

#[test]
fn heading_200_one_unit_from_the_corner() {
    // From (1, 1) the step is 20/90 left and 70/90 down: x decreases but
    // stays inside the field, so the heading is kept.
    assert_eq!(tick(UNIT, UNIT, 200), (70, 160, 200));
}

#[test]
fn heading_200_across_the_left_wall() {
    assert_eq!(tick(0, UNIT, 200), (50, 160, 160));
}

#[test]
fn first_quadrant_walls() {
    assert_eq!(tick(FIELD_WIDTH - 10, 27000, 30), (71990, 26940, 330));
    assert_eq!(tick(36000, 10, 30), (36030, 10, 150));
    assert_eq!(tick(FIELD_WIDTH - 10, 10, 30), (71990, 10, 210));
}

#[test]
fn second_quadrant_walls() {
    assert_eq!(tick(FIELD_WIDTH - 10, 27000, 120), (71930, 27030, 240));
    assert_eq!(tick(36000, FIELD_HEIGHT - 10, 120), (36060, 54050, 60));
    assert_eq!(tick(FIELD_WIDTH - 10, FIELD_HEIGHT - 10, 120), (71930, 54050, 300));
}

#[test]
fn third_quadrant_walls() {
    assert_eq!(tick(10, 27000, 210), (40, 27060, 150));
    assert_eq!(tick(36000, FIELD_HEIGHT - 10, 210), (35970, 54020, 330));
    assert_eq!(tick(10, FIELD_HEIGHT - 10, 210), (40, 54020, 30));
}

#[test]
fn fourth_quadrant_walls() {
    assert_eq!(tick(10, 27000, 300), (10, 26970, 60));
    assert_eq!(tick(36000, 10, 300), (35940, -230, 240));
    assert_eq!(tick(10, 10, 300), (10, -230, 120));
}

#[test]
fn landing_on_a_wall_is_no_crossing() {
    assert_eq!(tick(FIELD_WIDTH - 30, 27000, 30), (72000, 26940, 30));
    assert_eq!(tick(36000, 60, 30), (36030, 0, 30));
    assert_eq!(tick(30, 27000, 210), (0, 27060, 210));
    assert_eq!(tick(36000, FIELD_HEIGHT - 60, 210), (35970, 54000, 210));
}

#[test]
fn heading_180_runs_through_the_bottom_wall() {
    let mut m = BoidMember::new(1, 36000, FIELD_HEIGHT - 10, 180);
    for k in 1i64..=5 {
        let p = move_member(&mut m);
        assert_eq!(p, Point { x: 36000, y: FIELD_HEIGHT - 10 + k * UNIT });
        assert_eq!(m.dir, 180);
        m.transform(p.x, p.y);
    }
}

#[test]
fn heading_zero_beyond_the_right_wall_turns_to_360() {
    assert_eq!(tick(FIELD_WIDTH + 1, 27000, 0), (72001, 26910, 360));
}

#[test]
fn heading_of_360_or_more_stays_put() {
    assert_eq!(tick(36000, 27000, 360), (36000, 27000, 360));
    assert_eq!(tick(-5, 99999, 400), (-5, 99999, 400));
    assert_eq!(tick(36000, 27000, u16::MAX), (36000, 27000, u16::MAX));
}

#[test]
fn step_at_the_edge_of_reach() {
    assert_eq!(tick(REACH, REACH, 120), (REACH - 60, REACH + 60, 300));
    assert_eq!(tick(-REACH, -REACH, 300), (-REACH, -REACH - 240, 120));
}

#[test]
fn identity_survives_many_ticks() {
    let mut m = BoidMember::new(37, 1000, 2000, 77);
    for _ in 0..20000 {
        let p = move_member(&mut m);
        m.transform(p.x, p.y);
        assert_eq!(m.id, 37);
    }
}

#[test]
fn member_inside_the_field_keeps_a_heading_below_360() {
    for start in 0u16..360 {
        let mut m = BoidMember::new(1, 71000, 500, start);
        for _ in 0..3000 {
            let p = move_member(&mut m);
            m.transform(p.x, p.y);
            assert!(m.dir < 360);
            assert!(m.pos_x <= FIELD_WIDTH);
        }
    }
}

#[test]
fn landing_inside_the_field_needs_no_further_correction() {
    // After a corrected step that lands strictly inside the field, the next
    // tick moves the member by a plain step of its new heading.
    let (x, y, dir) = tick(10, 27000, 210);
    assert_eq!((x, y, dir), (40, 27060, 150));
    assert!(0 < x && x < FIELD_WIDTH && 0 < y && y < FIELD_HEIGHT);
    assert_eq!(tick(x, y, dir), (70, 27120, 150));
}

#[test]
fn reflection_mirrors_the_step() {
    for dir in 0u16..360 {
        let (x, y, _) = tick(36000, 27000, dir);
        let (dx, dy) = (x - 36000, y - 27000);
        if dir != 0 {
            let mut m = BoidMember::new(1, 36000, 27000, dir);
            m.reflect(Wall::Side);
            let (sx, sy, _) = tick(36000, 27000, m.dir);
            assert_eq!((sx - 36000, sy - 27000), (-dx, dy));
        }
        if dir != 180 {
            let mut m = BoidMember::new(1, 36000, 27000, dir);
            m.reflect(Wall::Flat);
            let (fx, fy, _) = tick(36000, 27000, m.dir);
            assert_eq!((fx - 36000, fy - 27000), (dx, -dy));
        }
    }
}

#[test]
fn one_tick_never_carries_far() {
    let xs = [-50, 0, 5, 36000, FIELD_WIDTH - 5, FIELD_WIDTH, FIELD_WIDTH + 50];
    let ys = [-50, 0, 5, 27000, FIELD_HEIGHT - 5, FIELD_HEIGHT, FIELD_HEIGHT + 50];
    for dir in 0u16..400 {
        for x in xs {
            for y in ys {
                let (nx, ny, _) = tick(x, y, dir);
                assert!(-2 * UNIT < nx - x && nx - x <= UNIT);
                assert!(-4 * UNIT < ny - y && ny - y < 2 * UNIT);
            }
        }
    }
}
