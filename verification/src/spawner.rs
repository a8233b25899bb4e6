//! Procedural enemy placement: difficulty scaling with elapsed time, and
//! rejection-sampled spawn positions that keep a safe distance from the
//! player while staying just outside the visible viewport.
use vstd::prelude::*;

use crate::entities::Enemy;
use crate::fixed::abs_spec;
use crate::geometry::{dist_sq, dist_sq_spec};
use crate::rng::random_in_range;
use crate::{
    DT_LIMIT, ENEMY_HEIGHT, ENEMY_SPEED, ENEMY_WIDTH, OFFSET_LIMIT, SAFE_DISTANCE, SCALE,
    SPAWN_MARGIN, TIME_LIMIT, VIEW_LIMIT,
};

verus! {

/// Number of enemies in a spawn wave after `elapsed` fixed-point time
/// units of play: one enemy, plus one more for every ten time units,
/// capped at six per wave.
pub open spec fn wave_size_spec(elapsed: int) -> int {
    let extra = elapsed / (10 * SCALE as int);
    1 + if extra <= 5 {
        extra
    } else {
        5
    }
}

/// Difficulty ramp: the number of enemies a spawn wave contains.
pub fn wave_size(elapsed: i64) -> (n: usize)
    requires
        0 <= elapsed,
    ensures
        n == wave_size_spec(elapsed as int),
        1 <= n <= 6,
{
    proof {
        vstd::arithmetic::div_mod::lemma_div_pos_is_pos(elapsed as int, 10 * SCALE as int);
    }
    let extra = elapsed / (10 * SCALE);
    let extra = if extra <= 5 {
        extra
    } else {
        5
    };
    1 + extra as usize
}

/// The wave size never shrinks as time passes, and always stays between
/// one and six.
pub proof fn lemma_wave_size_monotone(e1: int, e2: int)
    requires
        0 <= e1 <= e2,
    ensures
        wave_size_spec(e1) <= wave_size_spec(e2),
        1 <= wave_size_spec(e1) <= 6,
{
    vstd::arithmetic::div_mod::lemma_div_is_ordered(e1, e2, 10 * SCALE as int);
    vstd::arithmetic::div_mod::lemma_div_pos_is_pos(e1, 10 * SCALE as int);
}

/// What holds of every spawn position around the player at world
/// position `(pwx, pwy)` with a viewport `w` by `h`: the position lies
/// in the margin-padded spawn rectangle, outside the visible viewport,
/// and at least the safe distance from the player.
pub open spec fn spawn_position_ok(x: int, y: int, pwx: int, pwy: int, w: int, h: int) -> bool {
    &&& pwx - w / 2 - SPAWN_MARGIN <= x <= pwx + w / 2 + SPAWN_MARGIN
    &&& pwy - h / 2 - SPAWN_MARGIN <= y <= pwy + h / 2 + SPAWN_MARGIN
    &&& !(pwx - w / 2 <= x <= pwx + w / 2 && pwy - h / 2 <= y <= pwy + h / 2)
    &&& dist_sq_spec(x, y, pwx, pwy) >= SAFE_DISTANCE as int * SAFE_DISTANCE as int
}

/// What holds of every enemy a wave spawns: fixed dimensions and speed,
/// and a spawn position as above.
pub open spec fn spawned_enemy_ok(e: Enemy, pwx: int, pwy: int, w: int, h: int) -> bool {
    &&& e.width == ENEMY_WIDTH
    &&& e.height == ENEMY_HEIGHT
    &&& e.speed == ENEMY_SPEED
    &&& spawn_position_ok(e.x as int, e.y as int, pwx, pwy, w, h)
}

/// Every enemy a wave spawns sits at least the safe distance from the
/// player at spawn time.
pub proof fn lemma_spawn_wave_keeps_safe_distance(e: Enemy, pwx: int, pwy: int, w: int, h: int)
    requires
        spawned_enemy_ok(e, pwx, pwy, w, h),
    ensures
        dist_sq_spec(e.x as int, e.y as int, pwx, pwy) >= SAFE_DISTANCE as int
            * SAFE_DISTANCE as int,
{
}

/// How often a rejected candidate is redrawn before the sampler settles
/// for the spawn rectangle's far corner, which always qualifies.
const SAMPLE_TRIES: u32 = 64;

/// Draw one candidate position in the margin-padded spawn rectangle,
/// redrawing while it falls inside the visible viewport; after the retry
/// budget the far corner of the spawn rectangle stands in, which lies
/// outside the viewport as well.
fn sample_outside_view(pwx: i64, pwy: i64, w: i64, h: i64) -> (p: (i64, i64))
    requires
        abs_spec(pwx as int) <= OFFSET_LIMIT + 2 * VIEW_LIMIT,
        abs_spec(pwy as int) <= OFFSET_LIMIT + 2 * VIEW_LIMIT,
        0 <= w <= VIEW_LIMIT,
        0 <= h <= VIEW_LIMIT,
    ensures
        pwx - w / 2 - SPAWN_MARGIN <= p.0 <= pwx + w / 2 + SPAWN_MARGIN,
        pwy - h / 2 - SPAWN_MARGIN <= p.1 <= pwy + h / 2 + SPAWN_MARGIN,
        !(pwx - w / 2 <= p.0 <= pwx + w / 2 && pwy - h / 2 <= p.1 <= pwy + h / 2),
{
    let min_x = pwx - w / 2 - SPAWN_MARGIN;
    let max_x = pwx + w / 2 + SPAWN_MARGIN;
    let min_y = pwy - h / 2 - SPAWN_MARGIN;
    let max_y = pwy + h / 2 + SPAWN_MARGIN;
    let mut x = random_in_range(min_x, max_x);
    let mut y = random_in_range(min_y, max_y);
    let mut tries: u32 = SAMPLE_TRIES;
    while tries > 0 && pwx - w / 2 <= x && x <= pwx + w / 2 && pwy - h / 2 <= y && y <= pwy + h
        / 2
        invariant
            abs_spec(pwx as int) <= OFFSET_LIMIT + 2 * VIEW_LIMIT,
            abs_spec(pwy as int) <= OFFSET_LIMIT + 2 * VIEW_LIMIT,
            0 <= w <= VIEW_LIMIT,
            0 <= h <= VIEW_LIMIT,
            min_x == pwx - w / 2 - SPAWN_MARGIN,
            max_x == pwx + w / 2 + SPAWN_MARGIN,
            min_y == pwy - h / 2 - SPAWN_MARGIN,
            max_y == pwy + h / 2 + SPAWN_MARGIN,
            min_x <= x < max_x,
            min_y <= y < max_y,
            min_x < max_x,
            min_y < max_y,
        decreases tries,
    {
        x = random_in_range(min_x, max_x);
        y = random_in_range(min_y, max_y);
        tries = tries - 1;
    }
    if pwx - w / 2 <= x && x <= pwx + w / 2 && pwy - h / 2 <= y && y <= pwy + h / 2 {
        x = max_x;
        y = max_y;
    }
    (x, y)
}

/// Draw a spawn position: a candidate outside the viewport, redrawn
/// while it is closer to the player than the safe distance; after the
/// retry budget the far corner of the spawn rectangle stands in, whose
/// distance from the player is at least the spawn margin and so at
/// least the safe distance.
fn sample_spawn_position(pwx: i64, pwy: i64, w: i64, h: i64) -> (p: (i64, i64))
    requires
        abs_spec(pwx as int) <= OFFSET_LIMIT + 2 * VIEW_LIMIT,
        abs_spec(pwy as int) <= OFFSET_LIMIT + 2 * VIEW_LIMIT,
        0 <= w <= VIEW_LIMIT,
        0 <= h <= VIEW_LIMIT,
    ensures
        spawn_position_ok(p.0 as int, p.1 as int, pwx as int, pwy as int, w as int, h as int),
{
    let safe_sq: i128 = SAFE_DISTANCE as i128 * SAFE_DISTANCE as i128;
    let (mut x, mut y) = sample_outside_view(pwx, pwy, w, h);
    let mut tries: u32 = SAMPLE_TRIES;
    while tries > 0 && dist_sq(x, y, pwx, pwy) < safe_sq
        invariant
            abs_spec(pwx as int) <= OFFSET_LIMIT + 2 * VIEW_LIMIT,
            abs_spec(pwy as int) <= OFFSET_LIMIT + 2 * VIEW_LIMIT,
            0 <= w <= VIEW_LIMIT,
            0 <= h <= VIEW_LIMIT,
            safe_sq == SAFE_DISTANCE as int * SAFE_DISTANCE as int,
            pwx - w / 2 - SPAWN_MARGIN <= x <= pwx + w / 2 + SPAWN_MARGIN,
            pwy - h / 2 - SPAWN_MARGIN <= y <= pwy + h / 2 + SPAWN_MARGIN,
            !(pwx - w / 2 <= x <= pwx + w / 2 && pwy - h / 2 <= y <= pwy + h / 2),
        decreases tries,
    {
        let p = sample_outside_view(pwx, pwy, w, h);
        x = p.0;
        y = p.1;
        tries = tries - 1;
    }
    if dist_sq(x, y, pwx, pwy) < safe_sq {
        x = pwx + w / 2 + SPAWN_MARGIN;
        y = pwy + h / 2 + SPAWN_MARGIN;
        proof {
            let a = w as int / 2 + SPAWN_MARGIN as int;
            let b = h as int / 2 + SPAWN_MARGIN as int;
            assert(a * a + b * b >= SAFE_DISTANCE as int * SAFE_DISTANCE as int && (-a) * (-a)
                == a * a && (-b) * (-b) == b * b) by (nonlinear_arith)
                requires
                    SPAWN_MARGIN as int <= a,
                    SPAWN_MARGIN as int <= b,
                    SPAWN_MARGIN as int == SAFE_DISTANCE as int,
                    0 < SAFE_DISTANCE as int,
            ;
            assert(dist_sq_spec(x as int, y as int, pwx as int, pwy as int) == (-a) * (-a) + (-b)
                * (-b));
        }
    }
    (x, y)
}

/// Spawn one wave of enemies around the player: the wave's size follows
/// the difficulty ramp, the earlier enemies are untouched, and every new
/// enemy sits in the spawn rectangle, outside the viewport, and at least
/// the safe distance from the player.
pub fn spawn_enemies(
    elapsed_time: i64,
    player_x: i64,
    player_y: i64,
    world_offset_x: i64,
    world_offset_y: i64,
    screen_w: i64,
    screen_h: i64,
    enemies: &mut Vec<Enemy>,
)
    requires
        0 <= elapsed_time <= TIME_LIMIT + DT_LIMIT,
        0 <= player_x <= VIEW_LIMIT,
        0 <= player_y <= VIEW_LIMIT,
        abs_spec(world_offset_x as int) <= OFFSET_LIMIT + VIEW_LIMIT,
        abs_spec(world_offset_y as int) <= OFFSET_LIMIT + VIEW_LIMIT,
        0 <= screen_w <= VIEW_LIMIT,
        0 <= screen_h <= VIEW_LIMIT,
        old(enemies)@.len() <= usize::MAX - 6,
    ensures
        final(enemies)@.len() == old(enemies)@.len() + wave_size_spec(elapsed_time as int),
        forall|i: int|
            0 <= i < old(enemies)@.len() ==> final(enemies)@[i] == old(enemies)@[i],
        forall|i: int|
            old(enemies)@.len() <= i < final(enemies)@.len() ==> spawned_enemy_ok(
                #[trigger] final(enemies)@[i],
                player_x + world_offset_x,
                player_y + world_offset_y,
                screen_w as int,
                screen_h as int,
            ),
{
    let n = wave_size(elapsed_time);
    let pwx = player_x + world_offset_x;
    let pwy = player_y + world_offset_y;
    let mut spawned: usize = 0;
    while spawned < n
        invariant
            spawned <= n,
            n <= 6,
            enemies@.len() == old(enemies)@.len() + spawned,
            old(enemies)@.len() <= usize::MAX - 6,
            abs_spec(pwx as int) <= OFFSET_LIMIT + 2 * VIEW_LIMIT,
            abs_spec(pwy as int) <= OFFSET_LIMIT + 2 * VIEW_LIMIT,
            pwx == player_x + world_offset_x,
            pwy == player_y + world_offset_y,
            0 <= screen_w <= VIEW_LIMIT,
            0 <= screen_h <= VIEW_LIMIT,
            forall|i: int|
                0 <= i < old(enemies)@.len() ==> enemies@[i] == old(enemies)@[i],
            forall|i: int|
                old(enemies)@.len() <= i < enemies@.len() ==> spawned_enemy_ok(
                    #[trigger] enemies@[i],
                    pwx as int,
                    pwy as int,
                    screen_w as int,
                    screen_h as int,
                ),
        decreases n - spawned,
    {
        let p = sample_spawn_position(pwx, pwy, screen_w, screen_h);
        enemies.push(
            Enemy {
                x: p.0,
                y: p.1,
                width: ENEMY_WIDTH,
                height: ENEMY_HEIGHT,
                speed: ENEMY_SPEED,
            },
        );
        spawned = spawned + 1;
    }
}

} // verus!
