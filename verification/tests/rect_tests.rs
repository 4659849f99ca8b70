use plane_shooter::rect::{pixel_count, signed_coord};
use plane_shooter::{Player, Rect, Throttle, MAX_COORD, MAX_EXTENT, MIN_COORD};

#[test]
fn rect_new_keeps_ordinary_values() {
    let r = Rect::new(90, 90, 20, 20);
    assert_eq!(r, Rect { x: 90, y: 90, w: 20, h: 20 });
}

#[test]
fn rect_new_replaces_empty_sides_by_one() {
    let r = Rect::new(0, 0, 0, 0);
    assert_eq!((r.w, r.h), (1, 1));
}

#[test]
fn rect_new_clamps_long_sides() {
    let r = Rect::new(0, 0, u32::MAX, MAX_EXTENT + 1);
    assert_eq!((r.w, r.h), (1073741823, 1073741823));
}

#[test]
fn rect_new_clamps_far_corners() {
    let r = Rect::new(i32::MAX, i32::MIN, 5, 5);
    assert_eq!((r.x, r.y), (MAX_COORD, MIN_COORD));
    assert_eq!((r.x, r.y), (1073741823, -1073741824));
}

#[test]
fn rect_clamped_takes_wide_corners() {
    let r = Rect::clamped(5_000_000_000, -5_000_000_000, 3, 4);
    assert_eq!(r, Rect { x: 1073741823, y: -1073741824, w: 3, h: 4 });
    assert_eq!(Rect::clamped(-7, 9, 3, 4), Rect { x: -7, y: 9, w: 3, h: 4 });
}

#[test]
fn corner_in_includes_all_four_edges() {
    let outer = Rect::new(90, 90, 20, 20);
    assert!(Rect::new(90, 90, 1, 1).corner_in(&outer));
    assert!(Rect::new(110, 110, 1, 1).corner_in(&outer));
    assert!(Rect::new(90, 110, 1, 1).corner_in(&outer));
    assert!(Rect::new(110, 90, 1, 1).corner_in(&outer));
    assert!(Rect::new(100, 100, 1, 1).corner_in(&outer));
}

#[test]
fn corner_in_rejects_one_pixel_outside() {
    let outer = Rect::new(90, 90, 20, 20);
    assert!(!Rect::new(89, 100, 1, 1).corner_in(&outer));
    assert!(!Rect::new(111, 100, 1, 1).corner_in(&outer));
    assert!(!Rect::new(100, 89, 1, 1).corner_in(&outer));
    assert!(!Rect::new(100, 111, 1, 1).corner_in(&outer));
}

#[test]
fn corner_in_looks_at_the_corner_only() {
    // The boxes overlap, but the first one's corner lies left of the other.
    let outer = Rect::new(90, 90, 20, 20);
    let wide = Rect::new(80, 85, 50, 10);
    assert!(!wide.corner_in(&outer));
    assert!(outer.corner_in(&wide));
}

#[test]
fn corner_in_survives_extreme_coordinates() {
    let outer = Rect { x: i32::MAX, y: i32::MAX, w: MAX_EXTENT, h: MAX_EXTENT };
    let inner = Rect { x: i32::MAX, y: i32::MAX, w: 1, h: 1 };
    assert!(inner.corner_in(&outer));
    let far = Rect { x: i32::MIN, y: i32::MIN, w: 1, h: 1 };
    assert!(!far.corner_in(&outer));
}

#[test]
fn pixel_count_reads_signed_sizes() {
    assert_eq!(pixel_count(0), 0);
    assert_eq!(pixel_count(64), 64);
    assert_eq!(pixel_count(i32::MAX), 2147483647);
    assert_eq!(pixel_count(-1), u32::MAX);
    assert_eq!(pixel_count(i32::MIN), 2147483648);
}

#[test]
fn signed_coord_reads_unsigned_positions() {
    assert_eq!(signed_coord(0), 0);
    assert_eq!(signed_coord(479), 479);
    assert_eq!(signed_coord(2147483647), i32::MAX);
    assert_eq!(signed_coord(2147483648), i32::MIN);
    assert_eq!(signed_coord(u32::MAX), -1);
}

#[test]
fn throttle_fires_exactly_from_the_interval_on() {
    let mut t = Throttle::new(350, 1000);
    assert!(!t.is_due(1000));
    assert!(!t.is_due(1349));
    assert!(t.is_due(1350));
    assert!(!t.fire(1349));
    assert_eq!(t.last, 1000);
    assert!(t.fire(1350));
    assert_eq!(t.last, 1350);
}

#[test]
fn throttle_fires_once_after_a_long_wait() {
    let mut t = Throttle::new(350, 0);
    assert!(t.fire(5000));
    assert!(!t.fire(5000));
    assert!(!t.fire(5349));
    assert!(t.fire(5350));
}

#[test]
fn throttle_ignores_a_clock_that_runs_backwards() {
    let mut t = Throttle::new(350, 1000);
    assert!(!t.fire(10));
    assert_eq!(t.last, 1000);
}

#[test]
fn throttle_with_no_interval_always_fires() {
    let mut t = Throttle::new(0, 7);
    assert!(t.fire(7));
    assert!(t.fire(3));
    assert_eq!(t.last, 3);
}

#[test]
fn player_starts_at_the_origin() {
    let p = Player::new(40, 30);
    assert_eq!(p, Player { x: 0, y: 0, w: 40, h: 30 });
}

#[test]
fn player_move_centres_on_the_point() {
    let mut p = Player::new(40, 30);
    p.move_to(100, 100);
    assert_eq!((p.x, p.y), (80, 85));
    assert_eq!((p.w, p.h), (40, 30));
}

#[test]
fn player_move_rounds_half_sizes_toward_zero() {
    let mut p = Player::new(5, 7);
    p.move_to(10, 10);
    assert_eq!((p.x, p.y), (8, 7));
    let mut q = Player::new(-5, -7);
    q.move_to(10, 10);
    assert_eq!((q.x, q.y), (12, 13));
}

#[test]
fn player_may_leave_the_canvas() {
    let mut p = Player::new(40, 30);
    p.move_to(-500, 100000);
    assert_eq!((p.x, p.y), (-520, 99985));
}

#[test]
fn player_can_move_to_tells_when_the_corner_fits() {
    let p = Player::new(40, 30);
    assert!(p.can_move_to(0, 0));
    assert!(p.can_move_to(i32::MAX, i32::MAX));
    assert!(p.can_move_to(i32::MIN + 20, i32::MIN + 15));
    assert!(!p.can_move_to(i32::MIN + 19, 0));
    assert!(!p.can_move_to(0, i32::MIN + 14));
    let q = Player::new(-40, 30);
    assert!(!q.can_move_to(i32::MAX, 0));
    assert!(q.can_move_to(i32::MAX - 20, 0));
}

#[test]
fn player_rect_is_the_clamped_box() {
    let mut p = Player::new(40, 30);
    p.move_to(100, 100);
    assert_eq!(p.rect(), Rect { x: 80, y: 85, w: 40, h: 30 });
    let mut far = Player::new(40, 0);
    far.move_to(2_000_000_000, -2_000_000_000);
    assert_eq!(far.rect(), Rect { x: 1073741823, y: -1073741824, w: 40, h: 1 });
}
