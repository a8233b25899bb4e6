use shooter_core::entities::{Bullet, Enemy};
use shooter_core::sim::{FrameInput, GameState, SimulationState};
use shooter_core::spawner::spawn_enemies;
use shooter_core::{
    BULLET_RADIUS, BULLET_SPEED, ENEMY_HEIGHT, ENEMY_WIDTH, MAX_SPEED, SAFE_DISTANCE,
};

#[test]
fn bullet_update_moves_along_fixed_direction() {
    // A three-four-five unit direction: one frame covers 50 units,
    // split 30 along x and -40 along y.
    let mut b = Bullet {
        x: 0,
        y: 0,
        radius: BULLET_RADIUS,
        speed: BULLET_SPEED,
        direction_x: 600,
        direction_y: -800,
    };
    b.update(100);
    assert_eq!((b.x, b.y), (30_000, -40_000));
    b.update(100);
    assert_eq!((b.x, b.y), (60_000, -80_000));
    assert_eq!((b.direction_x, b.direction_y), (600, -800));
}

#[test]
fn enemy_update_normalizes_direction() {
    // Three-four-five again: 10 units of travel split 6 along x and 8
    // along y.
    let mut e = Enemy { x: 0, y: 0, width: 40_000, height: 40_000, speed: 100_000 };
    e.update(300_000, 400_000, 100);
    assert_eq!((e.x, e.y), (6_000, 8_000));
}

#[test]
fn enemy_update_holds_inside_dead_zone() {
    // The target is a tenth of a unit away: inside the one-unit dead
    // zone, so the enemy holds position.
    let mut e = Enemy { x: 500, y: 500, width: 40_000, height: 40_000, speed: 100_000 };
    e.update(600, 500, 100);
    assert_eq!((e.x, e.y), (500, 500));
}

#[test]
fn spawn_enemies_places_wave_outside_view() {
    let mut enemies: Vec<Enemy> = Vec::new();
    spawn_enemies(35_000, 400_000, 300_000, 0, 0, 800_000, 600_000, &mut enemies);
    // Wave size at 35 time units: 1 + min(5, 3) = 4.
    assert_eq!(enemies.len(), 4);
    for e in &enemies {
        // Outside the visible viewport...
        let in_view_x = 0 <= e.x && e.x <= 800_000;
        let in_view_y = 0 <= e.y && e.y <= 600_000;
        assert!(!(in_view_x && in_view_y), "enemy at ({}, {})", e.x, e.y);
        // ...inside the margin-padded spawn rectangle...
        assert!(-100_000 <= e.x && e.x <= 900_000);
        assert!(-100_000 <= e.y && e.y <= 700_000);
        // ...and at least the safe distance from the player.
        let dx = (e.x - 400_000) as i128;
        let dy = (e.y - 300_000) as i128;
        let safe = SAFE_DISTANCE as i128;
        assert!(dx * dx + dy * dy >= safe * safe);
    }
}

/// A frame with the pointer at the screen center: no movement, no fire.
fn idle_input() -> FrameInput {
    FrameInput {
        dt: 100,
        screen_w: 800_000,
        screen_h: 600_000,
        mouse_x: 400_000,
        mouse_y: 300_000,
        fire: false,
        acknowledge: false,
    }
}

#[test]
fn new_session_is_initial() {
    let s = SimulationState::new();
    assert!(matches!(s.game_state, GameState::Playing));
    assert_eq!(s.elapsed_time, 0);
    assert_eq!(s.spawn_timer, 0);
    assert_eq!(s.world_offset_x, 0);
    assert_eq!(s.world_offset_y, 0);
    assert_eq!(s.vel_x, 0);
    assert_eq!(s.vel_y, 0);
    assert!(s.enemies.is_empty());
    assert!(s.bullets.is_empty());
    assert_eq!(s.arrow_angle, 0);
    assert_eq!(s.kills, 0);
}

#[test]
fn idle_two_seconds_spawns_one_wave_of_one() {
    // Player idle, dt = 0.1, no enemies: after 2.0 cumulative time units
    // exactly one wave fires, with exactly one enemy.
    let mut s = SimulationState::new();
    for _ in 0..19 {
        s.advance_frame(idle_input());
        assert!(s.enemies.is_empty());
        assert_eq!(s.vel_x, 0);
        assert_eq!(s.vel_y, 0);
        assert_eq!(s.world_offset_x, 0);
        assert_eq!(s.world_offset_y, 0);
    }
    s.advance_frame(idle_input());
    assert_eq!(s.enemies.len(), 1);
    assert_eq!(s.elapsed_time, 2_000);
    assert_eq!(s.spawn_timer, 0);
    assert!(matches!(s.game_state, GameState::Playing));
}

#[test]
fn spawned_enemies_keep_safe_distance() {
    let mut s = SimulationState::new();
    for _ in 0..20 {
        s.advance_frame(idle_input());
    }
    assert!(!s.enemies.is_empty());
    // Player world position: screen center plus a zero offset at spawn
    // time (the enemy may have homed in for one frame since, by at most
    // 10 fixed-point units at speed 100 and dt 0.1, so check with that
    // slack).
    let pwx: i64 = 400_000;
    let pwy: i64 = 300_000;
    for e in &s.enemies {
        let dx = (e.x - pwx) as i128;
        let dy = (e.y - pwy) as i128;
        let d2 = dx * dx + dy * dy;
        let safe = (SAFE_DISTANCE - 10_000) as i128;
        assert!(d2 >= safe * safe, "enemy at ({}, {})", e.x, e.y);
        assert_eq!(e.width, ENEMY_WIDTH);
        assert_eq!(e.height, ENEMY_HEIGHT);
    }
}

#[test]
fn velocity_is_clamped_to_max_speed() {
    let mut s = SimulationState::new();
    s.vel_x = MAX_SPEED - 100;
    // Pointer far to the right: full acceleration along x.
    let mut input = idle_input();
    input.mouse_x = 800_000;
    s.advance_frame(input);
    assert_eq!(s.vel_x, MAX_SPEED);
    assert!(s.vel_x.abs() <= MAX_SPEED && s.vel_y.abs() <= MAX_SPEED);
    // And it stays clamped over further frames.
    for _ in 0..50 {
        s.advance_frame(input);
        assert!(s.vel_x.abs() <= MAX_SPEED && s.vel_y.abs() <= MAX_SPEED);
    }
}

#[test]
fn friction_snaps_velocity_to_zero() {
    let mut s = SimulationState::new();
    s.vel_x = 500;
    // Pointer at the center: dead zone, friction only.
    s.advance_frame(idle_input());
    assert_eq!(s.vel_x, 300);
    s.advance_frame(idle_input());
    // 300 - 200 = 100, below the friction step: snapped to exactly zero.
    assert_eq!(s.vel_x, 0);
    s.advance_frame(idle_input());
    assert_eq!(s.vel_x, 0);
}

#[test]
fn world_offset_integrates_velocity() {
    let mut s = SimulationState::new();
    let mut input = idle_input();
    input.mouse_x = 800_000;
    s.advance_frame(input);
    // One frame of acceleration from rest: velocity 500, and the offset
    // moved by exactly that velocity.
    assert_eq!(s.vel_x, 500);
    assert_eq!(s.world_offset_x, 500);
    assert_eq!(s.world_offset_y, 0);
}

#[test]
fn bullet_flies_in_a_straight_line() {
    let mut s = SimulationState::new();
    // Pointer 0.9 units right of center: inside the movement dead zone,
    // so nothing scrolls, but firing still aims along +x.
    let mut input = idle_input();
    input.mouse_x = 400_900;
    input.fire = true;
    s.advance_frame(input);
    assert_eq!(s.bullets.len(), 1);
    let b = &s.bullets[0];
    assert_eq!((b.direction_x, b.direction_y), (1_000, 0));
    assert_eq!(b.speed, BULLET_SPEED);
    assert_eq!(b.radius, BULLET_RADIUS);
    // Fired from the player's world position (400_000, 300_000) and
    // advanced one frame: 500 units per time unit for 0.1 time units.
    assert_eq!((b.x, b.y), (450_000, 300_000));
    // Straight line: each further frame adds the same displacement.
    let mut cruise = idle_input();
    cruise.mouse_x = 400_900;
    for k in 2..=8 {
        s.advance_frame(cruise);
        assert_eq!(s.bullets.len(), 1);
        assert_eq!(s.bullets[0].x, 400_000 + k * 50_000);
        assert_eq!(s.bullets[0].y, 300_000);
    }
}

#[test]
fn bullet_culled_exactly_on_leaving_window() {
    let mut s = SimulationState::new();
    let mut input = idle_input();
    input.mouse_x = 400_900;
    input.fire = true;
    s.advance_frame(input);
    let mut cruise = idle_input();
    cruise.mouse_x = 400_900;
    // x climbs by 50_000 per frame; the window is [0, 800_000] on x,
    // boundary included, so the bullet survives at exactly 800_000 and
    // is removed on the next frame.
    for _ in 2..=8 {
        s.advance_frame(cruise);
    }
    assert_eq!(s.bullets.len(), 1);
    assert_eq!(s.bullets[0].x, 800_000);
    s.advance_frame(cruise);
    assert!(s.bullets.is_empty());
}

#[test]
fn firing_at_own_position_is_skipped() {
    let mut s = SimulationState::new();
    let mut input = idle_input();
    input.fire = true;
    // Pointer exactly on the player: a zero-length direction; the shot
    // is skipped rather than producing a degenerate bullet.
    s.advance_frame(input);
    assert!(s.bullets.is_empty());
}

#[test]
fn bullet_hit_credits_one_kill_and_removes_both() {
    let mut s = SimulationState::new();
    s.enemies.push(Enemy { x: 500_000, y: 280_000, width: 40_000, height: 40_000, speed: 0 });
    s.bullets.push(Bullet {
        x: 510_000,
        y: 300_000,
        radius: BULLET_RADIUS,
        speed: 0,
        direction_x: 0,
        direction_y: 0,
    });
    s.advance_frame(idle_input());
    assert_eq!(s.kills, 1);
    assert!(s.bullets.is_empty());
    assert!(s.enemies.is_empty());
    assert!(matches!(s.game_state, GameState::Playing));
}

#[test]
fn missed_bullet_leaves_enemy_alone() {
    let mut s = SimulationState::new();
    s.enemies.push(Enemy { x: 700_000, y: 500_000, width: 40_000, height: 40_000, speed: 0 });
    s.bullets.push(Bullet {
        x: 100_000,
        y: 100_000,
        radius: BULLET_RADIUS,
        speed: 0,
        direction_x: 0,
        direction_y: 0,
    });
    s.advance_frame(idle_input());
    assert_eq!(s.kills, 0);
    assert_eq!(s.bullets.len(), 1);
    assert_eq!(s.enemies.len(), 1);
}

#[test]
fn player_collision_ends_session_that_frame() {
    let mut s = SimulationState::new();
    // Enemy rectangle right on the player's hitbox at the screen center.
    s.enemies.push(Enemy { x: 390_000, y: 290_000, width: 40_000, height: 40_000, speed: 0 });
    s.advance_frame(idle_input());
    assert!(matches!(s.game_state, GameState::GameOver));
}

#[test]
fn distant_enemy_does_not_end_session() {
    let mut s = SimulationState::new();
    s.enemies.push(Enemy { x: 700_000, y: 500_000, width: 40_000, height: 40_000, speed: 0 });
    s.advance_frame(idle_input());
    assert!(matches!(s.game_state, GameState::Playing));
}

#[test]
fn enemy_homes_toward_player() {
    let mut s = SimulationState::new();
    // Enemy one hundred units right of the player, full speed.
    s.enemies.push(Enemy { x: 500_000, y: 300_000, width: 40_000, height: 40_000, speed: 100_000 });
    s.advance_frame(idle_input());
    // It moved 10 units straight toward the player: 100 units per time
    // unit for 0.1 time units.
    assert_eq!(s.enemies.len(), 1);
    assert_eq!((s.enemies[0].x, s.enemies[0].y), (490_000, 300_000));
}

#[test]
fn restart_resets_every_session_value() {
    let mut s = SimulationState::new();
    // Put the session in a thoroughly non-initial state, then collide.
    s.enemies.push(Enemy { x: 390_000, y: 290_000, width: 40_000, height: 40_000, speed: 0 });
    s.bullets.push(Bullet {
        x: 100_000,
        y: 100_000,
        radius: BULLET_RADIUS,
        speed: BULLET_SPEED,
        direction_x: 1_000,
        direction_y: 0,
    });
    s.kills = 7;
    s.arrow_angle = 123;
    s.vel_x = 4_000;
    s.world_offset_y = 999;
    s.elapsed_time = 5_000;
    s.spawn_timer = 1_500;
    s.advance_frame(idle_input());
    assert!(matches!(s.game_state, GameState::GameOver));
    // Without an acknowledgment nothing changes.
    s.advance_frame(idle_input());
    assert!(matches!(s.game_state, GameState::GameOver));
    // Any acknowledgment resets everything to the initial values.
    let mut ack = idle_input();
    ack.acknowledge = true;
    s.advance_frame(ack);
    assert!(matches!(s.game_state, GameState::Playing));
    assert_eq!(s.elapsed_time, 0);
    assert_eq!(s.spawn_timer, 0);
    assert_eq!(s.world_offset_x, 0);
    assert_eq!(s.world_offset_y, 0);
    assert_eq!(s.vel_x, 0);
    assert_eq!(s.vel_y, 0);
    assert!(s.enemies.is_empty());
    assert!(s.bullets.is_empty());
    assert_eq!(s.arrow_angle, 0);
    assert_eq!(s.kills, 0);
}

#[test]
fn game_over_freezes_simulation() {
    let mut s = SimulationState::new();
    s.enemies.push(Enemy { x: 390_000, y: 290_000, width: 40_000, height: 40_000, speed: 0 });
    s.advance_frame(idle_input());
    assert!(matches!(s.game_state, GameState::GameOver));
    let elapsed = s.elapsed_time;
    let enemies = s.enemies.len();
    for _ in 0..10 {
        s.advance_frame(idle_input());
    }
    assert_eq!(s.elapsed_time, elapsed);
    assert_eq!(s.enemies.len(), enemies);
}

#[test]
fn nearest_enemy_picks_closest_first() {
    let mut s = SimulationState::new();
    s.enemies.push(Enemy { x: 700_000, y: 300_000, width: 40_000, height: 40_000, speed: 0 });
    s.enemies.push(Enemy { x: 450_000, y: 300_000, width: 40_000, height: 40_000, speed: 0 });
    s.enemies.push(Enemy { x: 450_000, y: 300_000, width: 40_000, height: 40_000, speed: 0 });
    // Player world position is the screen center with a zero offset.
    assert_eq!(s.nearest_enemy(400_000, 300_000), Some(1));
    s.enemies.clear();
    assert_eq!(s.nearest_enemy(400_000, 300_000), None);
}

#[test]
fn arrow_turns_a_tenth_of_the_way() {
    let mut s = SimulationState::new();
    s.update_arrow(3_141_593);
    assert_eq!(s.arrow_angle, 314_159);
    // Turning toward what it already points at changes nothing.
    let mut t = SimulationState::new();
    t.arrow_angle = 42;
    t.update_arrow(42);
    assert_eq!(t.arrow_angle, 42);
}

#[test]
fn wave_grows_with_elapsed_time() {
    // At 35 time units of play a wave holds 1 + min(5, 3) = 4 enemies.
    let mut s = SimulationState::new();
    s.elapsed_time = 34_900;
    s.spawn_timer = 1_900;
    s.advance_frame(idle_input());
    assert_eq!(s.elapsed_time, 35_000);
    assert_eq!(s.enemies.len(), 4);
}
