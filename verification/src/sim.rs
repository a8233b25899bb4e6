//! The per-frame simulation: movement integration with acceleration and
//! friction, world scrolling, spawning, bullet flight and culling,
//! collision resolution, the targeting indicator, and the
//! Playing/GameOver state machine.
use vstd::prelude::*;

use crate::angle::{lerp_angle, lerp_angle_spec, wrap_angle, wrap_angle_spec, PI_FP, TAU_FP};
use crate::collision::{remove_marked, resolve_bullet_hits, resolve_spec};
use crate::entities::{Bullet, Enemy};
use crate::fixed::{
    abs_i64, abs_spec, clamp_i64, clamp_spec, isqrt, lemma_sqrt_floor_bounds,
    lemma_tdiv_ratio_bound, signum_i64, signum_spec, sqrt_floor, tdiv,
};
use crate::geometry::{dist_sq, dist_sq_spec, rects_overlap, rects_overlap_spec};
use crate::spawner::{spawn_enemies, spawned_enemy_ok, wave_size_spec};
use crate::{
    ACCELERATION, BULLET_RADIUS, BULLET_SPEED, COORD_LIMIT, DT_LIMIT, ENEMY_SPAWN_INTERVAL,
    FRICTION, MAX_SPEED, MOVE_LIMIT, OFFSET_LIMIT, PLAYER_HEIGHT, PLAYER_WIDTH, SCALE, TIME_LIMIT,
    VIEW_LIMIT,
};

verus! {

/// Fraction of the remaining angular difference the targeting indicator
/// covers each frame, in fixed point (`SCALE` meaning one).
pub const ARROW_SMOOTHING: i64 = 100;

/// The session's mode: running, or ended by a player-enemy collision.
#[derive(Clone, Copy, PartialEq, Eq, Structural, Debug)]
pub enum GameState {
    Playing,
    GameOver,
}

/// What the input and timing backends hand the simulation each frame.
#[derive(Clone, Copy, PartialEq, Eq, Structural, Debug)]
pub struct FrameInput {
    /// Time units since the last frame.
    pub dt: i64,
    /// Current viewport width; re-read every frame, never cached.
    pub screen_w: i64,
    /// Current viewport height.
    pub screen_h: i64,
    /// Pointer position in screen space.
    pub mouse_x: i64,
    /// Pointer position in screen space.
    pub mouse_y: i64,
    /// Whether the fire button was pressed this frame.
    pub fire: bool,
    /// Whether any restart acknowledgment arrived this frame.
    pub acknowledge: bool,
}

impl FrameInput {
    /// The ranges a frame input must lie in.
    pub open spec fn wf(self) -> bool {
        &&& 0 <= self.dt <= DT_LIMIT
        &&& 0 <= self.screen_w <= VIEW_LIMIT
        &&& 0 <= self.screen_h <= VIEW_LIMIT
        &&& abs_spec(self.mouse_x as int) <= VIEW_LIMIT
        &&& abs_spec(self.mouse_y as int) <= VIEW_LIMIT
    }
}

/// All mutable session state, owned by the frame loop.
pub struct SimulationState {
    pub game_state: GameState,
    pub elapsed_time: i64,
    pub spawn_timer: i64,
    pub world_offset_x: i64,
    pub world_offset_y: i64,
    pub vel_x: i64,
    pub vel_y: i64,
    pub enemies: Vec<Enemy>,
    pub bullets: Vec<Bullet>,
    pub arrow_angle: i64,
    pub kills: u32,
}

/// The distance factor movement is normalized by: the rounded-down
/// length of the direction vector.
pub open spec fn move_dist(dx: int, dy: int) -> int {
    sqrt_floor((dx * dx + dy * dy) as nat) as int
}

/// Whether the target direction is outside the one-unit dead zone, so
/// acceleration applies this frame.
pub open spec fn movement_active(dx: int, dy: int) -> bool {
    dx * dx + dy * dy > SCALE as int * SCALE as int
}

/// One velocity axis after a frame of movement: acceleration along the
/// direction component while the target is outside the dead zone, then a
/// clamp to the speed limit; inside the dead zone, friction pulls the
/// axis toward zero and snaps it to exactly zero once below the friction
/// step.
pub open spec fn vel_axis_step(v: int, d: int, dist: int, moving: bool) -> int {
    let accelerated = if moving {
        v + tdiv(d * ACCELERATION, dist)
    } else {
        v
    };
    let clamped = clamp_spec(accelerated, -MAX_SPEED as int, MAX_SPEED as int);
    if moving {
        clamped
    } else {
        let slowed = clamp_spec(
            clamped - signum_spec(clamped) * FRICTION,
            -MAX_SPEED as int,
            MAX_SPEED as int,
        );
        if abs_spec(slowed) < FRICTION {
            0
        } else {
            slowed
        }
    }
}

/// The bullet fired from the player's world position toward the pointer.
pub open spec fn new_bullet(pwx: int, pwy: int, dx: int, dy: int) -> Bullet {
    let dist = move_dist(dx, dy);
    Bullet {
        x: pwx as i64,
        y: pwy as i64,
        radius: BULLET_RADIUS,
        speed: BULLET_SPEED,
        direction_x: tdiv(dx * SCALE, dist) as i64,
        direction_y: tdiv(dy * SCALE, dist) as i64,
    }
}

/// A bullet after one frame of flight.
pub open spec fn bullet_stepped(b: Bullet, dt: int) -> Bullet {
    Bullet {
        x: b.step_x(dt) as i64,
        y: b.step_y(dt) as i64,
        radius: b.radius,
        speed: b.speed,
        direction_x: b.direction_x,
        direction_y: b.direction_y,
    }
}

/// An enemy after one frame of homing toward `(tx, ty)`.
pub open spec fn enemy_stepped(e: Enemy, tx: int, ty: int, dt: int) -> Enemy {
    Enemy {
        x: e.step_x(tx, ty, dt) as i64,
        y: e.step_y(tx, ty, dt) as i64,
        width: e.width,
        height: e.height,
        speed: e.speed,
    }
}

/// Whether a bullet is inside the screen-sized window anchored at the
/// world offset; bullets outside it are culled.
pub open spec fn in_window(b: Bullet, ox: int, oy: int, w: int, h: int) -> bool {
    &&& ox <= b.x <= ox + w
    &&& oy <= b.y <= oy + h
}

/// The bullets that survive the visibility cull, in order.
pub open spec fn cull_spec(s: Seq<Bullet>, ox: int, oy: int, w: int, h: int) -> Seq<Bullet>
    decreases s.len(),
{
    if s.len() == 0 {
        Seq::empty()
    } else {
        let rest = cull_spec(s.drop_last(), ox, oy, w, h);
        if in_window(s.last(), ox, oy, w, h) {
            rest.push(s.last())
        } else {
            rest
        }
    }
}

/// Culling never grows the list.
pub proof fn lemma_cull_len(s: Seq<Bullet>, ox: int, oy: int, w: int, h: int)
    ensures
        cull_spec(s, ox, oy, w, h).len() <= s.len(),
    decreases s.len(),
{
    if s.len() > 0 {
        lemma_cull_len(s.drop_last(), ox, oy, w, h);
    }
}

/// A bullet stands in the culled list exactly when it stood in the
/// original list and its position lies inside the window.
pub proof fn lemma_cull_membership(s: Seq<Bullet>, ox: int, oy: int, w: int, h: int)
    ensures
        forall|b: Bullet|
            #![trigger cull_spec(s, ox, oy, w, h).contains(b)]
            #![trigger s.contains(b)]
            cull_spec(s, ox, oy, w, h).contains(b) <==> (s.contains(b) && in_window(
                b,
                ox,
                oy,
                w,
                h,
            )),
    decreases s.len(),
{
    if s.len() > 0 {
        lemma_cull_membership(s.drop_last(), ox, oy, w, h);
        let r = cull_spec(s, ox, oy, w, h);
        let rest = cull_spec(s.drop_last(), ox, oy, w, h);
        assert forall|b: Bullet| r.contains(b) implies (s.contains(b) && in_window(
            b,
            ox,
            oy,
            w,
            h,
        )) by {
            let k = choose|k: int| 0 <= k < r.len() && r[k] == b;
            if in_window(s.last(), ox, oy, w, h) && k == r.len() - 1 {
                assert(r == rest.push(s.last()));
                assert(b == s.last());
                assert(s[s.len() - 1] == b);
                assert(s.contains(b));
            } else {
                assert(rest[k] == b);
                assert(rest.contains(b));
                assert(s.drop_last().contains(b) && in_window(b, ox, oy, w, h));
                let i = choose|i: int| 0 <= i < s.drop_last().len() && s.drop_last()[i] == b;
                assert(s.drop_last()[i] == s[i]);
                assert(s.contains(b));
            }
        }
        assert forall|b: Bullet| s.contains(b) && in_window(b, ox, oy, w, h) implies r.contains(
            b,
        ) by {
            let i = choose|i: int| 0 <= i < s.len() && s[i] == b;
            if i < s.len() - 1 {
                assert(s.drop_last()[i] == b);
                assert(s.drop_last().contains(b));
                assert(rest.contains(b));
                let k = choose|k: int| 0 <= k < rest.len() && rest[k] == b;
                if in_window(s.last(), ox, oy, w, h) {
                    assert(r == rest.push(s.last()));
                    assert(r[k] == b);
                } else {
                    assert(r[k] == b);
                }
            } else {
                assert(s.last() == b);
                assert(r == rest.push(b));
                assert(r[r.len() - 1] == b);
            }
        }
    }
}

/// Whether any enemy's rectangle, brought into screen space, overlaps
/// the player's fixed hitbox centered at the screen center.
pub open spec fn any_enemy_overlaps_player(
    enemies: Seq<Enemy>,
    px: int,
    py: int,
    ox: int,
    oy: int,
) -> bool {
    exists|i: int|
        0 <= i < enemies.len() && rects_overlap_spec(
            px - PLAYER_WIDTH as int / 2,
            py - PLAYER_HEIGHT as int / 2,
            PLAYER_WIDTH as int,
            PLAYER_HEIGHT as int,
            (#[trigger] enemies[i]).x - ox,
            enemies[i].y - oy,
            enemies[i].width as int,
            enemies[i].height as int,
        )
}

/// What a spawn wave must satisfy: the wave size follows the difficulty
/// ramp, and every spawned enemy qualifies around the player's world
/// position.
pub open spec fn spawn_wave_ok(
    spawned: Seq<Enemy>,
    elapsed: int,
    pwx: int,
    pwy: int,
    w: int,
    h: int,
) -> bool {
    &&& spawned.len() == wave_size_spec(elapsed)
    &&& forall|i: int|
        0 <= i < spawned.len() ==> spawned_enemy_ok(#[trigger] spawned[i], pwx, pwy, w, h)
}

/// The full relation between the state before and after one Playing
/// frame, with `spawned` the wave the frame spawned (empty when the
/// spawn timer had not elapsed). Everything but the spawn positions is
/// an exact function of the old state and the input.
pub open spec fn playing_step_ok(
    s0: SimulationState,
    input: FrameInput,
    spawned: Seq<Enemy>,
    s1: SimulationState,
) -> bool {
    let elapsed1 = s0.elapsed_time + input.dt;
    let timer1 = s0.spawn_timer + input.dt;
    let px = input.screen_w as int / 2;
    let py = input.screen_h as int / 2;
    let dx = input.mouse_x - px;
    let dy = input.mouse_y - py;
    let dist = move_dist(dx, dy);
    let moving = movement_active(dx, dy);
    let vx = vel_axis_step(s0.vel_x as int, dx, dist, moving);
    let vy = vel_axis_step(s0.vel_y as int, dy, dist, moving);
    let ox = s0.world_offset_x + vx;
    let oy = s0.world_offset_y + vy;
    let spawning = timer1 >= ENEMY_SPAWN_INTERVAL;
    let enemies1 = s0.enemies@ + spawned;
    let firing = input.fire && (dx != 0 || dy != 0);
    let bullets1 = if firing {
        s0.bullets@.push(new_bullet(px + ox, py + oy, dx, dy))
    } else {
        s0.bullets@
    };
    let bullets2 = bullets1.map_values(|b: Bullet| bullet_stepped(b, input.dt as int));
    let bullets3 = cull_spec(bullets2, ox, oy, input.screen_w as int, input.screen_h as int);
    let out = resolve_spec(bullets3, enemies1);
    let bullets4 = remove_marked(bullets3, out.bullets_hit);
    let enemies2 = remove_marked(enemies1, out.enemies_hit);
    let hit = any_enemy_overlaps_player(enemies2, px, py, ox, oy);
    &&& s1.elapsed_time == elapsed1
    &&& s1.spawn_timer == (if spawning {
        0
    } else {
        timer1
    })
    &&& (if spawning {
        spawn_wave_ok(
            spawned,
            elapsed1,
            px + ox,
            py + oy,
            input.screen_w as int,
            input.screen_h as int,
        )
    } else {
        spawned == Seq::<Enemy>::empty()
    })
    &&& s1.vel_x == vx
    &&& s1.vel_y == vy
    &&& s1.world_offset_x == ox
    &&& s1.world_offset_y == oy
    &&& s1.bullets@ == bullets4
    &&& s1.kills == s0.kills + out.kills
    &&& s1.enemies@.len() == enemies2.len()
    &&& (forall|i: int|
        0 <= i < enemies2.len() ==> s1.enemies@[i] == enemy_stepped(
            #[trigger] enemies2[i],
            px + ox,
            py + oy,
            input.dt as int,
        ))
    &&& s1.game_state == (if hit {
        GameState::GameOver
    } else {
        GameState::Playing
    })
    &&& s1.arrow_angle == s0.arrow_angle
}

/// A velocity axis never leaves the speed limit, whatever it was and
/// whatever direction pulls on it: every path through the step ends in a
/// clamp or a snap to zero.
pub proof fn lemma_vel_axis_step_clamped(v: int, d: int, dist: int, moving: bool)
    ensures
        abs_spec(vel_axis_step(v, d, dist, moving)) <= MAX_SPEED,
{
}

/// On every Playing frame both velocity components end within the speed
/// limit.
pub proof fn lemma_velocity_clamped_every_frame(
    s0: SimulationState,
    input: FrameInput,
    spawned: Seq<Enemy>,
    s1: SimulationState,
)
    requires
        playing_step_ok(s0, input, spawned, s1),
    ensures
        abs_spec(s1.vel_x as int) <= MAX_SPEED,
        abs_spec(s1.vel_y as int) <= MAX_SPEED,
{
    let px = input.screen_w as int / 2;
    let py = input.screen_h as int / 2;
    let dx = input.mouse_x - px;
    let dy = input.mouse_y - py;
    lemma_vel_axis_step_clamped(
        s0.vel_x as int,
        dx,
        move_dist(dx, dy),
        movement_active(dx, dy),
    );
    lemma_vel_axis_step_clamped(
        s0.vel_y as int,
        dy,
        move_dist(dx, dy),
        movement_active(dx, dy),
    );
}

/// When the player's hitbox overlaps an enemy after this frame's
/// collision resolution, the session is in GameOver on that exact
/// frame, and only then.
pub proof fn lemma_player_hit_ends_session(
    s0: SimulationState,
    input: FrameInput,
    spawned: Seq<Enemy>,
    s1: SimulationState,
)
    requires
        playing_step_ok(s0, input, spawned, s1),
    ensures
        ({
            let px = input.screen_w as int / 2;
            let py = input.screen_h as int / 2;
            let dx = input.mouse_x - px;
            let dy = input.mouse_y - py;
            let vx = vel_axis_step(s0.vel_x as int, dx, move_dist(dx, dy), movement_active(dx, dy));
            let vy = vel_axis_step(s0.vel_y as int, dy, move_dist(dx, dy), movement_active(dx, dy));
            let ox = s0.world_offset_x + vx;
            let oy = s0.world_offset_y + vy;
            let enemies1 = s0.enemies@ + spawned;
            let bullets1 = if input.fire && (dx != 0 || dy != 0) {
                s0.bullets@.push(new_bullet(px + ox, py + oy, dx, dy))
            } else {
                s0.bullets@
            };
            let bullets2 = bullets1.map_values(|b: Bullet| bullet_stepped(b, input.dt as int));
            let bullets3 = cull_spec(
                bullets2,
                ox,
                oy,
                input.screen_w as int,
                input.screen_h as int,
            );
            let enemies2 = remove_marked(enemies1, resolve_spec(bullets3, enemies1).enemies_hit);
            s1.game_state == GameState::GameOver <==> any_enemy_overlaps_player(
                enemies2,
                px,
                py,
                ox,
                oy,
            )
        }),
{
}

/// One velocity axis advanced by a frame of movement.
fn step_axis(v: i64, d: i64, dist: i64, moving: bool) -> (r: i64)
    requires
        abs_spec(v as int) <= MAX_SPEED,
        moving ==> SCALE <= dist <= 1_000_000_000,
        moving ==> abs_spec(d as int) <= dist,
    ensures
        r == vel_axis_step(v as int, d as int, dist as int, moving),
        abs_spec(r as int) <= MAX_SPEED,
{
    let mut v = v;
    if moving {
        proof {
            lemma_tdiv_ratio_bound(d as int, dist as int, ACCELERATION as int, 1);
            assert(dist as int * 1 == dist as int);
            assert(d as int * ACCELERATION as int == d as int * (ACCELERATION as int * 1));
            vstd::arithmetic::div_mod::lemma_div_pos_is_pos(ACCELERATION as int, 1);
            assert(ACCELERATION as int / 1 == ACCELERATION as int);
        }
        v = v + d * ACCELERATION / dist;
    }
    v = clamp_i64(v, -MAX_SPEED, MAX_SPEED);
    if !moving {
        let sign = signum_i64(v);
        v = clamp_i64(v - sign * FRICTION, -MAX_SPEED, MAX_SPEED);
        if abs_i64(v) < FRICTION {
            v = 0;
        }
    }
    v
}

/// Advance every bullet one frame of flight, in place.
fn update_all_bullets(bullets: &mut Vec<Bullet>, dt: i64)
    requires
        0 <= dt <= DT_LIMIT,
        forall|i: int| 0 <= i < old(bullets)@.len() ==> (#[trigger] old(bullets)@[i]).wf(),
    ensures
        final(bullets)@.len() == old(bullets)@.len(),
        forall|i: int|
            0 <= i < old(bullets)@.len() ==> final(bullets)@[i] == bullet_stepped(
                #[trigger] old(bullets)@[i],
                dt as int,
            ),
{
    let n = bullets.len();
    let mut out: Vec<Bullet> = Vec::new();
    let mut i: usize = 0;
    while i < n
        invariant
            n == old(bullets)@.len(),
            bullets@ == old(bullets)@,
            0 <= i <= n,
            0 <= dt <= DT_LIMIT,
            forall|j: int| 0 <= j < n ==> (#[trigger] old(bullets)@[j]).wf(),
            out@.len() == i,
            forall|j: int|
                0 <= j < i ==> out@[j] == bullet_stepped(#[trigger] old(bullets)@[j], dt as int),
        decreases n - i,
    {
        let mut b = bullets[i];
        b.update(dt);
        out.push(b);
        i = i + 1;
    }
    *bullets = out;
}

/// Remove every bullet whose position has left the screen-sized window
/// anchored at the world offset.
fn cull_vec(bullets: &mut Vec<Bullet>, ox: i64, oy: i64, w: i64, h: i64)
    requires
        abs_spec(ox as int) <= OFFSET_LIMIT + MAX_SPEED,
        abs_spec(oy as int) <= OFFSET_LIMIT + MAX_SPEED,
        0 <= w <= VIEW_LIMIT,
        0 <= h <= VIEW_LIMIT,
    ensures
        final(bullets)@ == cull_spec(old(bullets)@, ox as int, oy as int, w as int, h as int),
{
    let n = bullets.len();
    let mut out: Vec<Bullet> = Vec::new();
    let mut i: usize = 0;
    while i < n
        invariant
            n == old(bullets)@.len(),
            bullets@ == old(bullets)@,
            0 <= i <= n,
            abs_spec(ox as int) <= OFFSET_LIMIT + MAX_SPEED,
            abs_spec(oy as int) <= OFFSET_LIMIT + MAX_SPEED,
            0 <= w <= VIEW_LIMIT,
            0 <= h <= VIEW_LIMIT,
            out@ == cull_spec(old(bullets)@.subrange(0, i as int), ox as int, oy as int, w as int, h as int),
        decreases n - i,
    {
        proof {
            assert(bullets@.subrange(0, i as int + 1).drop_last() =~= bullets@.subrange(
                0,
                i as int,
            ));
            assert(bullets@.subrange(0, i as int + 1).last() == bullets@[i as int]);
        }
        let b = bullets[i];
        if ox <= b.x && b.x <= ox + w && oy <= b.y && b.y <= oy + h {
            out.push(b);
        }
        i = i + 1;
    }
    proof {
        assert(bullets@.subrange(0, n as int) =~= bullets@);
    }
    *bullets = out;
}

/// Whether any enemy, in screen space, overlaps the player's hitbox.
fn check_player_hit(enemies: &Vec<Enemy>, px: i64, py: i64, ox: i64, oy: i64) -> (r: bool)
    requires
        0 <= px <= VIEW_LIMIT,
        0 <= py <= VIEW_LIMIT,
        abs_spec(ox as int) <= OFFSET_LIMIT + MAX_SPEED,
        abs_spec(oy as int) <= OFFSET_LIMIT + MAX_SPEED,
        forall|i: int| 0 <= i < enemies@.len() ==> (#[trigger] enemies@[i]).wf(),
    ensures
        r == any_enemy_overlaps_player(enemies@, px as int, py as int, ox as int, oy as int),
{
    let n = enemies.len();
    let mut i: usize = 0;
    while i < n
        invariant
            n == enemies@.len(),
            0 <= i <= n,
            0 <= px <= VIEW_LIMIT,
            0 <= py <= VIEW_LIMIT,
            abs_spec(ox as int) <= OFFSET_LIMIT + MAX_SPEED,
            abs_spec(oy as int) <= OFFSET_LIMIT + MAX_SPEED,
            forall|j: int| 0 <= j < enemies@.len() ==> (#[trigger] enemies@[j]).wf(),
            forall|j: int|
                0 <= j < i ==> !rects_overlap_spec(
                    px - PLAYER_WIDTH as int / 2,
                    py - PLAYER_HEIGHT as int / 2,
                    PLAYER_WIDTH as int,
                    PLAYER_HEIGHT as int,
                    (#[trigger] enemies@[j]).x - ox,
                    enemies@[j].y - oy,
                    enemies@[j].width as int,
                    enemies@[j].height as int,
                ),
        decreases n - i,
    {
        let e = &enemies[i];
        if rects_overlap(
            px - PLAYER_WIDTH / 2,
            py - PLAYER_HEIGHT / 2,
            PLAYER_WIDTH,
            PLAYER_HEIGHT,
            e.x - ox,
            e.y - oy,
            e.width,
            e.height,
        ) {
            return true;
        }
        i = i + 1;
    }
    false
}

/// Advance every enemy one frame of homing toward the player's world
/// position, in place.
fn update_all_enemies(enemies: &mut Vec<Enemy>, tx: i64, ty: i64, dt: i64)
    requires
        0 <= dt <= DT_LIMIT,
        abs_spec(tx as int) <= COORD_LIMIT,
        abs_spec(ty as int) <= COORD_LIMIT,
        forall|i: int| 0 <= i < old(enemies)@.len() ==> (#[trigger] old(enemies)@[i]).wf(),
    ensures
        final(enemies)@.len() == old(enemies)@.len(),
        forall|i: int|
            0 <= i < old(enemies)@.len() ==> final(enemies)@[i] == enemy_stepped(
                #[trigger] old(enemies)@[i],
                tx as int,
                ty as int,
                dt as int,
            ),
{
    let n = enemies.len();
    let mut out: Vec<Enemy> = Vec::new();
    let mut i: usize = 0;
    while i < n
        invariant
            n == old(enemies)@.len(),
            enemies@ == old(enemies)@,
            0 <= i <= n,
            0 <= dt <= DT_LIMIT,
            abs_spec(tx as int) <= COORD_LIMIT,
            abs_spec(ty as int) <= COORD_LIMIT,
            forall|j: int| 0 <= j < n ==> (#[trigger] old(enemies)@[j]).wf(),
            out@.len() == i,
            forall|j: int|
                0 <= j < i ==> out@[j] == enemy_stepped(
                    #[trigger] old(enemies)@[j],
                    tx as int,
                    ty as int,
                    dt as int,
                ),
        decreases n - i,
    {
        let mut e = enemies[i];
        e.update(tx, ty, dt);
        out.push(e);
        i = i + 1;
    }
    *enemies = out;
}

impl SimulationState {
    /// The ranges the session state stays in; the machine bounds are far
    /// beyond anything a session reaches.
    pub open spec fn wf(self) -> bool {
        &&& abs_spec(self.world_offset_x as int) <= OFFSET_LIMIT
        &&& abs_spec(self.world_offset_y as int) <= OFFSET_LIMIT
        &&& abs_spec(self.vel_x as int) <= MAX_SPEED
        &&& abs_spec(self.vel_y as int) <= MAX_SPEED
        &&& 0 <= self.spawn_timer <= TIME_LIMIT
        &&& 0 <= self.elapsed_time <= TIME_LIMIT
        &&& abs_spec(self.arrow_angle as int) <= PI_FP
        &&& self.enemies@.len() <= 1_000_000_000
        &&& self.bullets@.len() <= 1_000_000_000
        &&& self.kills <= 1_000_000_000
        &&& (forall|i: int| 0 <= i < self.enemies@.len() ==> (#[trigger] self.enemies@[i]).wf())
        &&& (forall|i: int| 0 <= i < self.bullets@.len() ==> (#[trigger] self.bullets@[i]).wf())
    }

    /// The documented initial values: Playing, everything zero, both
    /// entity lists empty.
    pub open spec fn is_initial(self) -> bool {
        &&& self.game_state == GameState::Playing
        &&& self.elapsed_time == 0
        &&& self.spawn_timer == 0
        &&& self.world_offset_x == 0
        &&& self.world_offset_y == 0
        &&& self.vel_x == 0
        &&& self.vel_y == 0
        &&& self.enemies@ == Seq::<Enemy>::empty()
        &&& self.bullets@ == Seq::<Bullet>::empty()
        &&& self.arrow_angle == 0
        &&& self.kills == 0
    }

    /// A fresh session.
    pub fn new() -> (s: Self)
        ensures
            s.is_initial(),
            s.wf(),
    {
        SimulationState {
            game_state: GameState::Playing,
            elapsed_time: 0,
            spawn_timer: 0,
            world_offset_x: 0,
            world_offset_y: 0,
            vel_x: 0,
            vel_y: 0,
            enemies: Vec::new(),
            bullets: Vec::new(),
            arrow_angle: 0,
            kills: 0,
        }
    }

    /// Reset every mutable session value to its initial value: world
    /// offset, velocity, both entity lists, timers, kill count and
    /// indicator angle, and return to Playing.
    pub fn restart(&mut self)
        ensures
            final(self).is_initial(),
            final(self).wf(),
    {
        self.game_state = GameState::Playing;
        self.elapsed_time = 0;
        self.spawn_timer = 0;
        self.world_offset_x = 0;
        self.world_offset_y = 0;
        self.vel_x = 0;
        self.vel_y = 0;
        self.enemies = Vec::new();
        self.bullets = Vec::new();
        self.arrow_angle = 0;
        self.kills = 0;
    }

    /// Apply one frame of movement to the velocity: accelerate toward
    /// the target direction outside the dead zone, clamp each axis to
    /// the speed limit, and apply friction with a snap to zero inside
    /// the dead zone. Both components stay within the speed limit.
    pub fn apply_movement(&mut self, dir_x: i64, dir_y: i64)
        requires
            abs_spec(old(self).vel_x as int) <= MAX_SPEED,
            abs_spec(old(self).vel_y as int) <= MAX_SPEED,
            abs_spec(dir_x as int) <= 2 * VIEW_LIMIT,
            abs_spec(dir_y as int) <= 2 * VIEW_LIMIT,
        ensures
            final(self).vel_x == vel_axis_step(
                old(self).vel_x as int,
                dir_x as int,
                move_dist(dir_x as int, dir_y as int),
                movement_active(dir_x as int, dir_y as int),
            ),
            final(self).vel_y == vel_axis_step(
                old(self).vel_y as int,
                dir_y as int,
                move_dist(dir_x as int, dir_y as int),
                movement_active(dir_x as int, dir_y as int),
            ),
            abs_spec(final(self).vel_x as int) <= MAX_SPEED,
            abs_spec(final(self).vel_y as int) <= MAX_SPEED,
            final(self).game_state == old(self).game_state,
            final(self).elapsed_time == old(self).elapsed_time,
            final(self).spawn_timer == old(self).spawn_timer,
            final(self).world_offset_x == old(self).world_offset_x,
            final(self).world_offset_y == old(self).world_offset_y,
            final(self).enemies@ == old(self).enemies@,
            final(self).bullets@ == old(self).bullets@,
            final(self).arrow_angle == old(self).arrow_angle,
            final(self).kills == old(self).kills,
    {
        let d2 = dist_sq(0, 0, dir_x, dir_y);
        let moving = d2 > (SCALE * SCALE) as i128;
        let mut dist: i64 = SCALE;
        if moving {
            let dist128 = isqrt(d2 as u128);
            proof {
                lemma_sqrt_floor_bounds(d2 as nat);
                let d = sqrt_floor(d2 as nat) as int;
                assert(d >= SCALE && -d <= dir_x as int <= d && -d <= dir_y as int <= d && d
                    <= 1_000_000_000) by (nonlinear_arith)
                    requires
                        d >= 0,
                        d * d <= d2 as int,
                        (d2 as int) < (d + 1) * (d + 1),
                        d2 as int == dir_x as int * dir_x as int + dir_y as int * dir_y as int,
                        (d2 as int) > SCALE as int * SCALE as int,
                        SCALE as int > 0,
                        -400_000_000 <= dir_x as int <= 400_000_000,
                        -400_000_000 <= dir_y as int <= 400_000_000,
                ;
            }
            dist = dist128 as i64;
        }
        let vx = step_axis(self.vel_x, dir_x, dist, moving);
        let vy = step_axis(self.vel_y, dir_y, dist, moving);
        self.vel_x = vx;
        self.vel_y = vy;
    }

    /// The index of the enemy nearest the player, first in list order
    /// among equals; the neutral answer when no enemies exist.
    pub fn nearest_enemy(&self, px: i64, py: i64) -> (r: Option<usize>)
        requires
            self.wf(),
            0 <= px <= VIEW_LIMIT,
            0 <= py <= VIEW_LIMIT,
        ensures
            r == Option::<usize>::None <==> self.enemies@.len() == 0,
            (match r {
                Option::Some(j) => {
                    let pwx = px + self.world_offset_x;
                    let pwy = py + self.world_offset_y;
                    &&& j < self.enemies@.len()
                    &&& (forall|k: int|
                        0 <= k < self.enemies@.len() ==> dist_sq_spec(
                            self.enemies@[j as int].x as int,
                            self.enemies@[j as int].y as int,
                            pwx,
                            pwy,
                        ) <= dist_sq_spec(
                            (#[trigger] self.enemies@[k]).x as int,
                            self.enemies@[k].y as int,
                            pwx,
                            pwy,
                        ))
                    &&& (forall|k: int|
                        0 <= k < j ==> dist_sq_spec(
                            (#[trigger] self.enemies@[k]).x as int,
                            self.enemies@[k].y as int,
                            pwx,
                            pwy,
                        ) > dist_sq_spec(
                            self.enemies@[j as int].x as int,
                            self.enemies@[j as int].y as int,
                            pwx,
                            pwy,
                        ))
                },
                Option::None => true,
            }),
    {
        let n = self.enemies.len();
        if n == 0 {
            return None;
        }
        let pwx = px + self.world_offset_x;
        let pwy = py + self.world_offset_y;
        let mut best: usize = 0;
        let e0 = &self.enemies[0];
        let mut best_d = dist_sq(e0.x, e0.y, pwx, pwy);
        let mut i: usize = 1;
        while i < n
            invariant
                n == self.enemies@.len(),
                0 < n,
                0 <= best < i <= n,
                self.wf(),
                0 <= px <= VIEW_LIMIT,
                0 <= py <= VIEW_LIMIT,
                pwx == px + self.world_offset_x,
                pwy == py + self.world_offset_y,
                best_d == dist_sq_spec(
                    self.enemies@[best as int].x as int,
                    self.enemies@[best as int].y as int,
                    pwx as int,
                    pwy as int,
                ),
                forall|k: int|
                    0 <= k < i ==> best_d <= dist_sq_spec(
                        (#[trigger] self.enemies@[k]).x as int,
                        self.enemies@[k].y as int,
                        pwx as int,
                        pwy as int,
                    ),
                forall|k: int|
                    0 <= k < best ==> dist_sq_spec(
                        (#[trigger] self.enemies@[k]).x as int,
                        self.enemies@[k].y as int,
                        pwx as int,
                        pwy as int,
                    ) > best_d,
            decreases n - i,
        {
            let e = &self.enemies[i];
            let d = dist_sq(e.x, e.y, pwx, pwy);
            if d < best_d {
                best = i;
                best_d = d;
            }
            i = i + 1;
        }
        Some(best)
    }

    /// Rotate the targeting indicator one smoothing step along the
    /// shorter arc toward the target angle; the stored angle is kept in
    /// the principal range `(-PI_FP, PI_FP]`, which the periodic
    /// rendering of the indicator cannot distinguish from the raw sum.
    pub fn update_arrow(&mut self, target_angle: i64)
        requires
            abs_spec(old(self).arrow_angle as int) <= PI_FP,
            abs_spec(target_angle as int) <= TAU_FP,
        ensures
            final(self).arrow_angle == wrap_angle_spec(
                lerp_angle_spec(
                    old(self).arrow_angle as int,
                    target_angle as int,
                    ARROW_SMOOTHING as int,
                ),
            ),
            abs_spec(final(self).arrow_angle as int) <= PI_FP,
            final(self).game_state == old(self).game_state,
            final(self).elapsed_time == old(self).elapsed_time,
            final(self).spawn_timer == old(self).spawn_timer,
            final(self).world_offset_x == old(self).world_offset_x,
            final(self).world_offset_y == old(self).world_offset_y,
            final(self).vel_x == old(self).vel_x,
            final(self).vel_y == old(self).vel_y,
            final(self).enemies@ == old(self).enemies@,
            final(self).bullets@ == old(self).bullets@,
            final(self).kills == old(self).kills,
    {
        let a = lerp_angle(self.arrow_angle, target_angle, ARROW_SMOOTHING);
        self.arrow_angle = wrap_angle(a);
    }

    /// One Playing frame: timers, movement, world scroll, a spawn wave
    /// when the timer elapses, firing, bullet flight and culling,
    /// bullet-enemy collision resolution, the player-enemy check that
    /// may end the session, and enemy homing, in that order.
    fn step_playing(&mut self, input: FrameInput)
        requires
            old(self).wf(),
            input.wf(),
            old(self).game_state == GameState::Playing,
        ensures
            exists|spawned: Seq<Enemy>| playing_step_ok(*old(self), input, spawned, *final(self)),
    {
        let ghost s0 = *old(self);
        self.spawn_timer = self.spawn_timer + input.dt;
        self.elapsed_time = self.elapsed_time + input.dt;
        let px = input.screen_w / 2;
        let py = input.screen_h / 2;
        let dx = input.mouse_x - px;
        let dy = input.mouse_y - py;
        self.apply_movement(dx, dy);
        self.world_offset_x = self.world_offset_x + self.vel_x;
        self.world_offset_y = self.world_offset_y + self.vel_y;
        let ox = self.world_offset_x;
        let oy = self.world_offset_y;
        let ghost mut spawned: Seq<Enemy> = Seq::empty();
        let spawning = self.spawn_timer >= ENEMY_SPAWN_INTERVAL;
        if spawning {
            self.spawn_timer = 0;
            let ghost pre_len = self.enemies@.len();
            spawn_enemies(
                self.elapsed_time,
                px,
                py,
                ox,
                oy,
                input.screen_w,
                input.screen_h,
                &mut self.enemies,
            );
            proof {
                spawned = self.enemies@.subrange(pre_len as int, self.enemies@.len() as int);
                assert(self.enemies@ =~= s0.enemies@ + spawned);
            }
        } else {
            proof {
                assert(self.enemies@ =~= s0.enemies@ + spawned);
            }
        }
        let ghost enemies1 = self.enemies@;
        let firing = input.fire && (dx != 0 || dy != 0);
        if firing {
            let d2 = dist_sq(0, 0, dx, dy);
            proof {
                assert(d2 >= 1) by (nonlinear_arith)
                    requires
                        d2 as int == dx as int * dx as int + dy as int * dy as int,
                        dx != 0 || dy != 0,
                ;
                lemma_sqrt_floor_bounds(d2 as nat);
                let d = sqrt_floor(d2 as nat) as int;
                assert(d >= 1 && -d <= dx as int <= d && -d <= dy as int <= d && d
                    <= 1_000_000_000) by (nonlinear_arith)
                    requires
                        d >= 0,
                        d * d <= d2 as int,
                        (d2 as int) < (d + 1) * (d + 1),
                        d2 as int == dx as int * dx as int + dy as int * dy as int,
                        d2 as int >= 1,
                        -400_000_000 <= dx as int <= 400_000_000,
                        -400_000_000 <= dy as int <= 400_000_000,
                ;
            }
            let dist = isqrt(d2 as u128) as i64;
            proof {
                lemma_tdiv_ratio_bound(dx as int, dist as int, SCALE as int, 1);
                lemma_tdiv_ratio_bound(dy as int, dist as int, SCALE as int, 1);
                assert(dist as int * 1 == dist as int);
                assert(SCALE as int / 1 == SCALE as int);
                assert(dx as int * SCALE as int == dx as int * (SCALE as int * 1));
                assert(dy as int * SCALE as int == dy as int * (SCALE as int * 1));
            }
            let bdx = dx * SCALE / dist;
            let bdy = dy * SCALE / dist;
            self.bullets.push(
                Bullet {
                    x: px + ox,
                    y: py + oy,
                    radius: BULLET_RADIUS,
                    speed: BULLET_SPEED,
                    direction_x: bdx,
                    direction_y: bdy,
                },
            );
            proof {
                assert(self.bullets@ =~= s0.bullets@.push(
                    new_bullet(px as int + ox as int, py as int + oy as int, dx as int, dy as int),
                ));
            }
        }
        let ghost bullets1 = self.bullets@;
        proof {
            assert forall|i: int| 0 <= i < bullets1.len() implies (#[trigger] bullets1[i]).wf() by {
                if i < s0.bullets@.len() {
                    assert(s0.bullets@[i].wf());
                }
            }
        }
        update_all_bullets(&mut self.bullets, input.dt);
        proof {
            assert(self.bullets@ =~= bullets1.map_values(
                |b: Bullet| bullet_stepped(b, input.dt as int),
            ));
        }
        let ghost bullets2 = self.bullets@;
        cull_vec(&mut self.bullets, ox, oy, input.screen_w, input.screen_h);
        let ghost bullets3 = self.bullets@;
        proof {
            lemma_cull_len(bullets2, ox as int, oy as int, input.screen_w as int,
            input.screen_h as int);
            assert forall|i: int| 0 <= i < enemies1.len() implies (
            #[trigger] enemies1[i]).wf() by {
                if i < s0.enemies@.len() {
                    assert(s0.enemies@[i].wf());
                } else {
                    assert(spawned_enemy_ok(
                        enemies1[i],
                        px as int + ox as int,
                        py as int + oy as int,
                        input.screen_w as int,
                        input.screen_h as int,
                    ));
                }
            }
        }
        let hits = resolve_bullet_hits(&mut self.bullets, &mut self.enemies);
        self.kills = self.kills + hits as u32;
        proof {
            crate::collision::lemma_remove_marked_membership(
                enemies1,
                resolve_spec(bullets3, enemies1).enemies_hit,
            );
            assert forall|i: int| 0 <= i < self.enemies@.len() implies (
            #[trigger] self.enemies@[i]).wf() by {
                assert(self.enemies@.contains(self.enemies@[i]));
                assert(enemies1.contains(self.enemies@[i]));
                let k = choose|k: int|
                    0 <= k < enemies1.len() && enemies1[k] == self.enemies@[i];
                assert(enemies1[k].wf());
            }
        }
        let hit = check_player_hit(&self.enemies, px, py, ox, oy);
        if hit {
            self.game_state = GameState::GameOver;
        }
        update_all_enemies(&mut self.enemies, px + ox, py + oy, input.dt);
        proof {
            assert(playing_step_ok(s0, input, spawned, *self));
        }
    }

    /// Advance the session one frame. In Playing, the whole simulation
    /// pipeline runs; in GameOver, any acknowledgment resets the session
    /// to its initial values, and nothing changes otherwise.
    pub fn advance_frame(&mut self, input: FrameInput)
        requires
            old(self).wf(),
            input.wf(),
        ensures
            old(self).game_state == GameState::GameOver && input.acknowledge ==> final(self).is_initial()
                && final(self).wf(),
            old(self).game_state == GameState::GameOver && !input.acknowledge ==> *final(self)
                == *old(self),
            old(self).game_state == GameState::Playing ==> exists|spawned: Seq<Enemy>|
                playing_step_ok(*old(self), input, spawned, *final(self)),
    {
        let playing = self.game_state == GameState::Playing;
        if playing {
            self.step_playing(input);
        } else {
            if input.acknowledge {
                self.restart();
            }
        }
    }
}

} // verus!
