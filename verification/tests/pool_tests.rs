use plane_shooter::{advance, Bullet, Enemy, Entry, Rect, Travel};
use plane_shooter::{BULLET_INTERVAL_MS, ENEMY_INTERVAL_MS};

fn entry(x: i32, y: i32, w: u32, h: u32, alive: bool) -> Entry {
    Entry { rect: Rect { x, y, w, h }, alive }
}

#[test]
fn intervals_are_as_configured() {
    assert_eq!(BULLET_INTERVAL_MS, 350);
    assert_eq!(ENEMY_INTERVAL_MS, 650);
}

#[test]
fn advance_up_moves_two_pixels() {
    let mut v = vec![entry(5, 100, 4, 10, true)];
    advance(&mut v, Travel::Up);
    assert_eq!(v, vec![entry(5, 98, 4, 10, true)]);
}

#[test]
fn advance_down_moves_one_pixel() {
    let mut v = vec![entry(5, 100, 4, 10, true)];
    advance(&mut v, Travel::Down { limit: 600 });
    assert_eq!(v, vec![entry(5, 101, 4, 10, true)]);
}

#[test]
fn advance_up_prunes_past_the_top_by_own_height() {
    // After the step the top edges are at -10 and -11; the height is 10.
    let mut v = vec![entry(0, -8, 4, 10, true), entry(1, -9, 4, 10, true)];
    advance(&mut v, Travel::Up);
    assert_eq!(v, vec![entry(0, -10, 4, 10, true)]);
}

#[test]
fn advance_down_prunes_past_the_limit() {
    // After the step the top edges are at 600 and 601; the limit is 600.
    let mut v = vec![entry(0, 599, 4, 10, true), entry(1, 600, 4, 10, true)];
    advance(&mut v, Travel::Down { limit: 600 });
    assert_eq!(v, vec![entry(0, 600, 4, 10, true)]);
}

#[test]
fn advance_prunes_the_dead_and_keeps_order() {
    let mut v = vec![
        entry(0, 50, 4, 10, true),
        entry(1, 50, 4, 10, false),
        entry(2, 50, 4, 10, true),
        entry(3, 50, 4, 10, false),
        entry(4, 50, 4, 10, true),
    ];
    advance(&mut v, Travel::Up);
    assert_eq!(
        v,
        vec![entry(0, 48, 4, 10, true), entry(2, 48, 4, 10, true), entry(4, 48, 4, 10, true)]
    );
}

#[test]
fn advance_accepts_an_empty_pool() {
    let mut v: Vec<Entry> = Vec::new();
    advance(&mut v, Travel::Up);
    assert!(v.is_empty());
    advance(&mut v, Travel::Down { limit: 0 });
    assert!(v.is_empty());
}

#[test]
fn advance_handles_the_ends_of_the_number_range() {
    let mut up = vec![entry(0, i32::MIN, 4, 10, true), entry(0, i32::MAX, 4, 10, true)];
    advance(&mut up, Travel::Up);
    assert_eq!(up, vec![entry(0, i32::MAX - 2, 4, 10, true)]);
    let mut down = vec![entry(0, i32::MAX, 4, 10, true), entry(0, i32::MAX - 1, 4, 10, true)];
    advance(&mut down, Travel::Down { limit: i32::MAX });
    assert_eq!(down, vec![entry(0, i32::MAX, 4, 10, true)]);
}

#[test]
fn entries_leave_exactly_when_dead_or_out_of_range() {
    // Bullets 10 high at 0, 3, 20 and a dead one: after n rounds the one
    // that started at y is present iff y - 2n >= -10.
    let start = vec![
        entry(0, 0, 4, 10, true),
        entry(1, 3, 4, 10, true),
        entry(2, 20, 4, 10, true),
        entry(3, 20, 4, 10, false),
    ];
    let mut v = start.clone();
    for n in 1..=20 {
        advance(&mut v, Travel::Up);
        let expected: Vec<Entry> = start
            .iter()
            .filter(|e| e.alive && e.rect.y - 2 * n >= -10)
            .map(|e| entry(e.rect.x, e.rect.y - 2 * n, 4, 10, true))
            .collect();
        assert_eq!(v, expected);
    }
    assert!(v.is_empty());
}

#[test]
fn enemies_leave_exactly_when_past_the_bottom() {
    let start = vec![entry(0, 95, 4, 10, true), entry(1, 99, 4, 10, true), entry(2, 100, 4, 10, true)];
    let mut v = start.clone();
    for n in 1..=6 {
        advance(&mut v, Travel::Down { limit: 100 });
        let expected: Vec<Entry> = start
            .iter()
            .filter(|e| e.rect.y + n <= 100)
            .map(|e| entry(e.rect.x, e.rect.y + n, 4, 10, true))
            .collect();
        assert_eq!(v, expected);
    }
    assert!(v.is_empty());
}

#[test]
fn bullet_pool_starts_empty() {
    let pool = Bullet::new(6, 14, 1000);
    assert!(pool.entries.is_empty());
    assert_eq!((pool.w, pool.h), (6, 14));
    assert_eq!((pool.throttle.last, pool.throttle.interval), (1000, 350));
}

#[test]
fn bullet_waits_for_the_interval() {
    let mut pool = Bullet::new(6, 14, 1000);
    let craft = Rect::new(80, 85, 40, 30);
    assert!(!pool.produce(1000, craft));
    assert!(!pool.produce(1349, craft));
    assert!(pool.entries.is_empty());
    assert!(pool.produce(1350, craft));
    assert_eq!(pool.entries.len(), 1);
    assert_eq!(pool.throttle.last, 1350);
}

#[test]
fn bullet_spawns_centred_above_the_craft_and_moves_at_once() {
    let mut pool = Bullet::new(6, 14, 0);
    let craft = Rect::new(80, 85, 40, 30);
    assert!(pool.produce(350, craft));
    // x = 80 + 40 / 2 - 6 / 2, y = 85 - 6, then one step of two pixels up.
    assert_eq!(pool.entries, vec![entry(97, 77, 6, 14, true)]);
}

#[test]
fn bullet_fires_once_however_long_the_wait() {
    let mut pool = Bullet::new(6, 14, 0);
    let craft = Rect::new(80, 85, 40, 30);
    assert!(pool.produce(10_000, craft));
    assert_eq!(pool.entries.len(), 1);
    assert!(!pool.produce(10_001, craft));
    assert_eq!(pool.entries.len(), 1);
    assert!(!pool.produce(10_349, craft));
    assert!(pool.produce(10_350, craft));
    assert_eq!(pool.entries.len(), 2);
}

#[test]
fn bullet_produce_moves_old_shots_and_drops_dead_ones() {
    let mut pool = Bullet::new(6, 14, 0);
    pool.entries.push(entry(10, 50, 6, 14, true));
    pool.entries.push(entry(20, 50, 6, 14, false));
    pool.entries.push(entry(30, -13, 6, 14, true));
    assert!(!pool.produce(1, Rect::new(0, 0, 40, 30)));
    assert_eq!(pool.entries, vec![entry(10, 48, 6, 14, true)]);
}

#[test]
fn bullet_spawned_far_above_the_canvas_is_pruned_at_once() {
    let mut pool = Bullet::new(6, 14, 0);
    let craft = Rect::new(0, -20, 40, 30);
    assert!(pool.produce(350, craft));
    assert!(pool.entries.is_empty());
}

#[test]
fn bullet_spawn_corner_is_clamped() {
    let mut pool = Bullet::new(6, 14, 0);
    let craft = Rect { x: i32::MAX, y: i32::MAX, w: 40, h: 30 };
    assert!(pool.produce(350, craft));
    assert_eq!(pool.entries, vec![entry(1073741823, 1073741821, 6, 14, true)]);
}

#[test]
fn bullet_sizes_are_read_as_pixel_counts() {
    let mut pool = Bullet::new(0, -1, 0);
    assert!(pool.produce(350, Rect::new(100, 100, 40, 30)));
    assert_eq!(pool.entries, vec![entry(120, 98, 1, 1073741823, true)]);
}

#[test]
fn enemy_pool_starts_empty() {
    let pool = Enemy::new(480, 700, 50, 40, 1000);
    assert!(pool.entries.is_empty());
    assert_eq!((pool.w, pool.h, pool.can_w, pool.can_h), (50, 40, 480, 700));
    assert_eq!((pool.throttle.last, pool.throttle.interval), (1000, 650));
}

#[test]
fn enemy_has_room_needs_a_wider_canvas() {
    assert!(Enemy::has_room(480, 50));
    assert!(Enemy::has_room(51, 50));
    assert!(!Enemy::has_room(50, 50));
    assert!(!Enemy::has_room(40, 50));
    assert!(!Enemy::has_room(480, -1));
    assert!(Enemy::has_room(-1, 50));
}

#[test]
fn enemy_waits_for_the_interval() {
    let mut pool = Enemy::new(480, 700, 50, 40, 1000);
    assert!(!pool.produce(1649, 7));
    assert!(pool.entries.is_empty());
    assert!(pool.produce(1650, 7));
    assert_eq!(pool.entries.len(), 1);
    assert_eq!(pool.throttle.last, 1650);
}

#[test]
fn enemy_spawns_at_the_top_where_the_draw_says() {
    let mut pool = Enemy::new(480, 700, 50, 40, 0);
    // 1000 % (480 - 50) = 140; y starts at 0 and moves one pixel down.
    assert!(pool.produce(650, 1000));
    assert_eq!(pool.entries, vec![entry(140, 1, 50, 40, true)]);
}

#[test]
fn enemy_position_stays_left_of_canvas_width_minus_own_width() {
    for draw in [0u32, 1, 429, 430, 431, 859, 860, u32::MAX] {
        let mut pool = Enemy::new(480, 700, 50, 40, 0);
        assert!(pool.produce(650, draw));
        let x = pool.entries[0].rect.x;
        assert_eq!(x as u32, draw % 430);
        assert!(x >= 0 && x < 430);
    }
}

#[test]
fn enemy_appears_once_however_long_the_wait() {
    let mut pool = Enemy::new(480, 700, 50, 40, 0);
    assert!(pool.produce(100_000, 3));
    assert!(!pool.produce(100_000, 3));
    assert!(!pool.produce(100_649, 3));
    assert_eq!(pool.entries.len(), 1);
    assert!(pool.produce(100_650, 4));
    assert_eq!(pool.entries.len(), 2);
}

#[test]
fn enemy_produce_moves_old_ones_and_drops_dead_and_passed() {
    let mut pool = Enemy::new(480, 700, 50, 40, 0);
    pool.entries.push(entry(10, 699, 50, 40, true));
    pool.entries.push(entry(20, 700, 50, 40, true));
    pool.entries.push(entry(30, 5, 50, 40, false));
    assert!(!pool.produce(1, 0));
    assert_eq!(pool.entries, vec![entry(10, 700, 50, 40, true)]);
}

#[test]
fn enemy_ignores_the_draw_when_none_is_due() {
    let mut a = Enemy::new(480, 700, 50, 40, 0);
    let mut b = Enemy::new(480, 700, 50, 40, 0);
    a.produce(10, 1);
    b.produce(10, 999);
    assert_eq!(a.entries, b.entries);
    assert_eq!(a.throttle, b.throttle);
}
