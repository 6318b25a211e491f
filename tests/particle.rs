use flowfield::geom::{Rect, Vec2, UNIT};
use flowfield::particle::{Particle, HUE_STEPS};

fn speed_sq(p: &Particle) -> i64 {
    p.velocity.x * p.velocity.x + p.velocity.y * p.velocity.y
}

#[test]
fn single_force_moves_one_unit() {
    let mut p = Particle::new(Vec2::new(0, 0), 4 * UNIT);
    p.apply_force(Vec2::new(UNIT, 0));
    p.update();
    assert_eq!(p.velocity, Vec2::new(UNIT, 0));
    assert_eq!(p.position, Vec2::new(UNIT, 0));
    assert_eq!(p.prev_position, Vec2::new(0, 0));
    assert_eq!(p.acceleration, Vec2::new(0, 0));
    assert_eq!(p.hue, 1);
}

#[test]
fn forces_accumulate_until_update() {
    let mut p = Particle::new(Vec2::new(5, 5), 4 * UNIT);
    p.apply_force(Vec2::new(3, -2));
    p.apply_force(Vec2::new(4, 7));
    assert_eq!(p.acceleration, Vec2::new(7, 5));
    p.update();
    assert_eq!(p.velocity, Vec2::new(7, 5));
    assert_eq!(p.position, Vec2::new(12, 10));
    p.update();
    assert_eq!(p.acceleration, Vec2::new(0, 0));
    assert_eq!(p.velocity, Vec2::new(7, 5));
    assert_eq!(p.prev_position, Vec2::new(12, 10));
    assert_eq!(p.position, Vec2::new(19, 15));
}

#[test]
fn large_force_is_capped() {
    let top = 4 * UNIT;
    let mut p = Particle::new(Vec2::new(0, 0), top);
    p.apply_force(Vec2::new(10 * UNIT, 10 * UNIT));
    p.update();
    assert_eq!(p.velocity, Vec2::new(2896, 2896));
    assert_eq!(p.position, Vec2::new(2896, 2896));
    assert!(speed_sq(&p) <= top * top);
}

#[test]
fn negative_components_keep_their_sign_when_capped() {
    let top = 4 * UNIT;
    let mut p = Particle::new(Vec2::new(0, 0), top);
    p.apply_force(Vec2::new(-10 * UNIT, 10 * UNIT));
    p.update();
    assert_eq!(p.velocity, Vec2::new(-2896, 2896));
    p.apply_force(Vec2::new(-8 * UNIT, 0));
    p.update();
    assert_eq!(p.velocity.y > 0, true);
    assert!(p.velocity.x < 0);
    assert!(speed_sq(&p) <= top * top);
}

#[test]
fn speed_stays_capped_under_many_forces() {
    let top = 4 * UNIT;
    let mut p = Particle::new(Vec2::new(0, 0), top);
    let mut i: i64 = 0;
    while i < 500 {
        let f = Vec2::new((i * 37) % 5000 - 2500, (i * 91) % 3000 - 1500);
        p.apply_force(f);
        p.update();
        assert!(speed_sq(&p) <= top * top);
        let b = Rect::from_w_h(1280 * UNIT, 720 * UNIT);
        p.check_edges(b);
        i += 1;
    }
}

#[test]
fn hue_wraps_to_zero_after_a_turn() {
    let mut p = Particle::new(Vec2::new(0, 0), UNIT);
    let mut i: u32 = 0;
    while i < HUE_STEPS - 1 {
        p.update();
        assert!(p.hue < HUE_STEPS);
        i += 1;
    }
    assert_eq!(p.hue, HUE_STEPS - 1);
    p.update();
    assert_eq!(p.hue, 0);
    p.update();
    assert_eq!(p.hue, 1);
}

#[test]
fn wraps_past_right_edge() {
    let b = Rect::from_w_h(100, 60);
    let mut p = Particle::new(Vec2::new(b.right + 1, 10), UNIT);
    p.prev_position = Vec2::new(b.right - 3, 8);
    p.check_edges(b);
    assert_eq!(p.position, Vec2::new(b.left, 10));
    assert_eq!(p.prev_position, Vec2::new(b.left, 8));
}

#[test]
fn wraps_each_axis_independently() {
    let b = Rect::from_w_h(100, 60);
    let mut p = Particle::new(Vec2::new(b.left - 2, b.bottom - 1), UNIT);
    p.check_edges(b);
    assert_eq!(p.position, Vec2::new(b.right, b.top));
    assert_eq!(p.prev_position, p.position);
    let mut q = Particle::new(Vec2::new(0, b.top + 5), UNIT);
    q.prev_position = Vec2::new(-4, b.top + 1);
    q.check_edges(b);
    assert_eq!(q.position, Vec2::new(0, b.bottom));
    assert_eq!(q.prev_position, Vec2::new(-4, b.bottom));
}

#[test]
fn edge_points_do_not_wrap() {
    let b = Rect::from_w_h(100, 60);
    let mut p = Particle::new(Vec2::new(b.right, b.bottom), UNIT);
    p.prev_position = Vec2::new(3, 4);
    p.check_edges(b);
    assert_eq!(p.position, Vec2::new(b.right, b.bottom));
    assert_eq!(p.prev_position, Vec2::new(3, 4));
}

#[test]
fn step_past_edge_wraps_to_left() {
    let b = Rect::from_w_h(100, 60);
    let mut p = Particle::new(Vec2::new(b.right, 0), UNIT);
    p.apply_force(Vec2::new(1, 0));
    p.update();
    assert_eq!(p.position.x, b.right + 1);
    p.check_edges(b);
    assert_eq!(p.position.x, b.left);
    assert_eq!(p.prev_position.x, p.position.x);
}

#[test]
fn draw_gives_trail_segment() {
    let mut p = Particle::new(Vec2::new(10, 20), UNIT);
    p.apply_force(Vec2::new(3, 4));
    p.update();
    let s = p.draw();
    assert_eq!(s.from, Vec2::new(10, 20));
    assert_eq!(s.to, Vec2::new(13, 24));
    assert_eq!(s.hue, 1);
}

#[test]
fn rect_centred_on_origin() {
    let b = Rect::from_w_h(1280, 720);
    assert_eq!((b.left, b.right, b.bottom, b.top), (-640, 640, -360, 360));
    assert_eq!(b.w(), 1280);
    assert_eq!(b.h(), 720);
    let odd = Rect::from_w_h(5, 3);
    assert_eq!((odd.left, odd.right, odd.bottom, odd.top), (-2, 3, -1, 2));
    assert!(b.contains_point(Vec2::new(640, -360)));
    assert!(!b.contains_point(Vec2::new(641, 0)));
}
