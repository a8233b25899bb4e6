//! Bullet-enemy collision resolution: every bullet is tested against the
//! enemies in list order, the first still-live enemy containing the
//! bullet's position is credited as a kill, and both parties are marked;
//! the marked entries are removed after the full scan, so no index is
//! invalidated while scanning.
use vstd::prelude::*;

use crate::entities::{Bullet, Enemy};
use crate::geometry::{point_in_rect, point_in_rect_spec};

verus! {

/// Whether a bullet's position lies inside an enemy's rectangle; the
/// bullet's radius plays no part in hit detection.
pub open spec fn bullet_hits_enemy(b: Bullet, e: Enemy) -> bool {
    point_in_rect_spec(
        b.x as int,
        b.y as int,
        e.x as int,
        e.y as int,
        e.width as int,
        e.height as int,
    )
}

/// The indices marked in a row of flags.
pub open spec fn marks(flags: Seq<bool>) -> Set<int> {
    Set::new(|i: int| 0 <= i < flags.len() && flags[i])
}

/// The first enemy at index `j` or later that is not yet marked dead and
/// contains the bullet, if any.
pub open spec fn first_hit(b: Bullet, enemies: Seq<Enemy>, dead: Set<int>, j: int) -> Option<int>
    decreases enemies.len() - j,
{
    if j < 0 || j >= enemies.len() {
        None
    } else if !dead.contains(j) && bullet_hits_enemy(b, enemies[j]) {
        Some(j)
    } else {
        first_hit(b, enemies, dead, j + 1)
    }
}

/// What a full collision scan produces: the sets of bullet and enemy
/// indices to remove, and the number of kills credited.
pub ghost struct CollisionOutcome {
    pub bullets_hit: Set<int>,
    pub enemies_hit: Set<int>,
    pub kills: int,
}

/// The scan from bullet `i` on, with the enemies in `dead` already
/// claimed by earlier bullets: each bullet claims at most its first live
/// hit, and a claimed enemy is dead for every later bullet.
pub open spec fn resolve_from(
    bullets: Seq<Bullet>,
    enemies: Seq<Enemy>,
    i: int,
    dead: Set<int>,
) -> CollisionOutcome
    decreases bullets.len() - i,
{
    if i < 0 || i >= bullets.len() {
        CollisionOutcome { bullets_hit: Set::empty(), enemies_hit: dead, kills: 0 }
    } else {
        match first_hit(bullets[i], enemies, dead, 0) {
            Option::Some(j) => {
                let rest = resolve_from(bullets, enemies, i + 1, dead.insert(j));
                CollisionOutcome {
                    bullets_hit: rest.bullets_hit.insert(i),
                    enemies_hit: rest.enemies_hit,
                    kills: rest.kills + 1,
                }
            },
            Option::None => resolve_from(bullets, enemies, i + 1, dead),
        }
    }
}

/// The outcome of one full collision scan.
pub open spec fn resolve_spec(bullets: Seq<Bullet>, enemies: Seq<Enemy>) -> CollisionOutcome {
    resolve_from(bullets, enemies, 0, Set::empty())
}

/// The sequence with the entries at the marked indices removed; the
/// order of the survivors is kept.
pub open spec fn remove_marked<T>(s: Seq<T>, dead: Set<int>) -> Seq<T>
    decreases s.len(),
{
    if s.len() == 0 {
        Seq::empty()
    } else {
        let rest = remove_marked(s.drop_last(), dead);
        if dead.contains(s.len() - 1) {
            rest
        } else {
            rest.push(s.last())
        }
    }
}

/// Everything that survives the removal pass stood in the original list.
pub proof fn lemma_remove_marked_membership<T>(s: Seq<T>, dead: Set<int>)
    ensures
        forall|x: T| remove_marked(s, dead).contains(x) ==> s.contains(x),
    decreases s.len(),
{
    if s.len() > 0 {
        lemma_remove_marked_membership(s.drop_last(), dead);
        assert forall|x: T| remove_marked(s, dead).contains(x) implies s.contains(x) by {
            let r = remove_marked(s, dead);
            let rest = remove_marked(s.drop_last(), dead);
            let k = choose|k: int| 0 <= k < r.len() && r[k] == x;
            if dead.contains(s.len() - 1) {
                assert(rest.contains(x));
            } else {
                if k < rest.len() {
                    assert(rest[k] == x);
                    assert(rest.contains(x));
                } else {
                    assert(s[s.len() - 1] == x);
                }
            }
            if rest.contains(x) {
                assert(s.drop_last().contains(x));
                let i = choose|i: int| 0 <= i < s.drop_last().len() && s.drop_last()[i] == x;
                assert(s[i] == x);
            }
        }
    }
}

/// What a found hit means: the index is in range, the enemy there is
/// still live, and the bullet lies inside it.
pub proof fn lemma_first_hit_props(b: Bullet, enemies: Seq<Enemy>, dead: Set<int>, j: int)
    ensures
        (match first_hit(b, enemies, dead, j) {
            Option::Some(k) => j <= k < enemies.len() && !dead.contains(k) && bullet_hits_enemy(
                b,
                enemies[k],
            ),
            Option::None => true,
        }),
    decreases enemies.len() - j,
{
    if 0 <= j < enemies.len() {
        if !(!dead.contains(j) && bullet_hits_enemy(b, enemies[j])) {
            lemma_first_hit_props(b, enemies, dead, j + 1);
        }
    }
}

/// Each credited kill pairs one bullet with one enemy, counted from the
/// scan at bullet `i` with the enemies in `dead` already claimed: the
/// kill count equals the number of bullets marked, and the enemies
/// marked grow by exactly that number.
pub proof fn lemma_resolve_counts_from(
    bullets: Seq<Bullet>,
    enemies: Seq<Enemy>,
    i: int,
    dead: Set<int>,
)
    requires
        dead.finite(),
    ensures
        ({
            let out = resolve_from(bullets, enemies, i, dead);
            &&& out.bullets_hit.finite()
            &&& out.enemies_hit.finite()
            &&& out.kills == out.bullets_hit.len()
            &&& out.enemies_hit.len() == dead.len() + out.kills
            &&& forall|t: int| out.bullets_hit.contains(t) ==> i <= t < bullets.len()
        }),
    decreases bullets.len() - i,
{
    if 0 <= i < bullets.len() {
        match first_hit(bullets[i], enemies, dead, 0) {
            Option::Some(j) => {
                lemma_first_hit_props(bullets[i], enemies, dead, 0);
                lemma_resolve_counts_from(bullets, enemies, i + 1, dead.insert(j));
                let rest = resolve_from(bullets, enemies, i + 1, dead.insert(j));
                assert(!rest.bullets_hit.contains(i));
                vstd::set::axiom_set_insert_len(rest.bullets_hit, i);
                vstd::set::axiom_set_insert_len(dead, j);
            },
            Option::None => {
                lemma_resolve_counts_from(bullets, enemies, i + 1, dead);
            },
        }
    }
}

/// On each frame the kill count grows by exactly the number of bullets
/// removed by hits, which equals the number of enemies removed by hits:
/// every kill pairs one bullet with one enemy.
pub proof fn lemma_kills_match_marks(bullets: Seq<Bullet>, enemies: Seq<Enemy>)
    ensures
        resolve_spec(bullets, enemies).bullets_hit.finite(),
        resolve_spec(bullets, enemies).enemies_hit.finite(),
        resolve_spec(bullets, enemies).kills == resolve_spec(bullets, enemies).bullets_hit.len(),
        resolve_spec(bullets, enemies).kills == resolve_spec(bullets, enemies).enemies_hit.len(),
{
    broadcast use vstd::set::axiom_set_empty_len;

    lemma_resolve_counts_from(bullets, enemies, 0, Set::empty());
}

/// On a bullet-enemy overlap, the kill count is credited exactly once
/// and both parties are removed: with one bullet inside one enemy, the
/// scan yields one kill and leaves both lists empty.
pub proof fn lemma_overlap_consumes_both(b: Bullet, e: Enemy)
    requires
        bullet_hits_enemy(b, e),
    ensures
        resolve_spec(seq![b], seq![e]).kills == 1,
        remove_marked(seq![b], resolve_spec(seq![b], seq![e]).bullets_hit) == Seq::<
            Bullet,
        >::empty(),
        remove_marked(seq![e], resolve_spec(seq![b], seq![e]).enemies_hit) == Seq::<
            Enemy,
        >::empty(),
{
    let bs = seq![b];
    let es = seq![e];
    assert(first_hit(b, es, Set::empty(), 0) == Some(0int));
    let rest = resolve_from(bs, es, 1, Set::empty().insert(0int));
    assert(rest.kills == 0 && rest.bullets_hit =~= Set::<int>::empty() && rest.enemies_hit
        == Set::empty().insert(0int));
    let out = resolve_spec(bs, es);
    assert(out.kills == 1);
    assert(out.bullets_hit.contains(0int) && out.enemies_hit.contains(0int));
    assert(bs.drop_last() =~= Seq::<Bullet>::empty());
    assert(es.drop_last() =~= Seq::<Enemy>::empty());
    assert(remove_marked(Seq::<Bullet>::empty(), out.bullets_hit) == Seq::<Bullet>::empty());
    assert(remove_marked(Seq::<Enemy>::empty(), out.enemies_hit) == Seq::<Enemy>::empty());
    assert(remove_marked(bs, out.bullets_hit) == remove_marked(bs.drop_last(), out.bullets_hit));
    assert(remove_marked(es, out.enemies_hit) == remove_marked(es.drop_last(), out.enemies_hit));
}

/// Without an overlap nothing happens: with one bullet outside one
/// enemy, the scan yields no kill and leaves both lists as they were.
pub proof fn lemma_no_overlap_leaves_both(b: Bullet, e: Enemy)
    requires
        !bullet_hits_enemy(b, e),
    ensures
        resolve_spec(seq![b], seq![e]).kills == 0,
        remove_marked(seq![b], resolve_spec(seq![b], seq![e]).bullets_hit) == seq![b],
        remove_marked(seq![e], resolve_spec(seq![b], seq![e]).enemies_hit) == seq![e],
{
    let bs = seq![b];
    let es = seq![e];
    assert(first_hit(b, es, Set::empty(), 1) == None::<int>);
    assert(first_hit(b, es, Set::empty(), 0) == None::<int>);
    let base = resolve_from(bs, es, 1, Set::empty());
    assert(base.kills == 0 && base.bullets_hit == Set::<int>::empty() && base.enemies_hit
        == Set::<int>::empty());
    let out = resolve_spec(bs, es);
    assert(out == base);
    assert(bs.drop_last() =~= Seq::<Bullet>::empty());
    assert(es.drop_last() =~= Seq::<Enemy>::empty());
    assert(remove_marked(Seq::<Bullet>::empty(), out.bullets_hit) == Seq::<Bullet>::empty());
    assert(remove_marked(Seq::<Enemy>::empty(), out.enemies_hit) == Seq::<Enemy>::empty());
    assert(remove_marked(bs, out.bullets_hit) == remove_marked(bs.drop_last(),
    out.bullets_hit).push(b));
    assert(remove_marked(es, out.enemies_hit) == remove_marked(es.drop_last(),
    out.enemies_hit).push(e));
    assert(Seq::<Bullet>::empty().push(b) =~= bs);
    assert(Seq::<Enemy>::empty().push(e) =~= es);
}

/// The first still-live enemy containing the bullet, by scanning in list
/// order past the already-marked ones.
fn first_live_hit(b: &Bullet, enemies: &Vec<Enemy>, hit: &Vec<bool>) -> (r: Option<usize>)
    requires
        hit@.len() == enemies@.len(),
        forall|j: int| 0 <= j < enemies@.len() ==> (#[trigger] enemies@[j]).wf(),
    ensures
        first_hit(*b, enemies@, marks(hit@), 0) == (match r {
            Option::Some(j) => Option::Some(j as int),
            Option::None => Option::None::<int>,
        }),
        (match r {
            Option::Some(j) => j < enemies@.len(),
            Option::None => true,
        }),
{
    let n = enemies.len();
    let mut j: usize = 0;
    while j < n
        invariant
            n == enemies@.len(),
            hit@.len() == enemies@.len(),
            0 <= j <= n,
            forall|k: int| 0 <= k < enemies@.len() ==> (#[trigger] enemies@[k]).wf(),
            first_hit(*b, enemies@, marks(hit@), 0) == first_hit(*b, enemies@, marks(hit@), j as int),
        decreases n - j,
    {
        let e = &enemies[j];
        if !hit[j] && point_in_rect(b.x, b.y, e.x, e.y, e.width, e.height) {
            return Some(j);
        }
        j = j + 1;
    }
    None
}

/// Keep the entries whose flag is clear, in order.
fn filter_unmarked<T: Copy>(v: &Vec<T>, dead: &Vec<bool>) -> (r: Vec<T>)
    requires
        dead@.len() == v@.len(),
    ensures
        r@ == remove_marked(v@, marks(dead@)),
{
    let n = v.len();
    let mut r: Vec<T> = Vec::new();
    let mut k: usize = 0;
    while k < n
        invariant
            n == v@.len(),
            dead@.len() == v@.len(),
            0 <= k <= n,
            r@ == remove_marked(v@.subrange(0, k as int), marks(dead@)),
        decreases n - k,
    {
        proof {
            assert(v@.subrange(0, k as int + 1).drop_last() =~= v@.subrange(0, k as int));
            assert(v@.subrange(0, k as int + 1).last() == v@[k as int]);
        }
        if !dead[k] {
            r.push(v[k]);
        }
        k = k + 1;
    }
    proof {
        assert(v@.subrange(0, n as int) =~= v@);
    }
    r
}

/// One full bullet-enemy collision pass: scan every bullet against the
/// enemies in list order, credit one kill per bullet on its first live
/// hit, and remove all marked parties after the scan.
pub fn resolve_bullet_hits(bullets: &mut Vec<Bullet>, enemies: &mut Vec<Enemy>) -> (hits: usize)
    requires
        forall|j: int| 0 <= j < old(enemies)@.len() ==> (#[trigger] old(enemies)@[j]).wf(),
    ensures
        ({
            let out = resolve_spec(old(bullets)@, old(enemies)@);
            &&& final(bullets)@ == remove_marked(old(bullets)@, out.bullets_hit)
            &&& final(enemies)@ == remove_marked(old(enemies)@, out.enemies_hit)
            &&& hits == out.kills
            &&& hits <= old(bullets)@.len()
        }),
{
    let ghost orig_b = bullets@;
    let ghost orig_e = enemies@;
    let ghost out = resolve_spec(orig_b, orig_e);
    let nb = bullets.len();
    let ne = enemies.len();
    let mut bullet_hit: Vec<bool> = Vec::new();
    let mut enemy_hit: Vec<bool> = Vec::new();
    let mut k: usize = 0;
    while k < nb
        invariant
            0 <= k <= nb,
            bullet_hit@.len() == k,
            forall|i: int| 0 <= i < k ==> !(#[trigger] bullet_hit@[i]),
        decreases nb - k,
    {
        bullet_hit.push(false);
        k = k + 1;
    }
    let mut k: usize = 0;
    while k < ne
        invariant
            0 <= k <= ne,
            enemy_hit@.len() == k,
            forall|i: int| 0 <= i < k ==> !(#[trigger] enemy_hit@[i]),
        decreases ne - k,
    {
        enemy_hit.push(false);
        k = k + 1;
    }
    proof {
        assert(marks(enemy_hit@) =~= Set::<int>::empty());
        assert(marks(bullet_hit@) =~= Set::<int>::empty());
        assert(Set::<int>::empty().union(out.bullets_hit) =~= out.bullets_hit);
    }
    let mut hits: usize = 0;
    let mut i: usize = 0;
    while i < nb
        invariant
            0 <= i <= nb,
            nb == orig_b.len(),
            ne == orig_e.len(),
            bullets@ == orig_b,
            enemies@ == orig_e,
            out == resolve_spec(orig_b, orig_e),
            bullet_hit@.len() == nb,
            enemy_hit@.len() == ne,
            forall|j: int| 0 <= j < orig_e.len() ==> (#[trigger] orig_e[j]).wf(),
            hits <= i,
            forall|j: int| i <= j < nb ==> !(#[trigger] bullet_hit@[j]),
            ({
                let rest = resolve_from(orig_b, orig_e, i as int, marks(enemy_hit@));
                &&& out.bullets_hit == marks(bullet_hit@).union(rest.bullets_hit)
                &&& out.enemies_hit == rest.enemies_hit
                &&& out.kills == hits + rest.kills
            }),
        decreases nb - i,
    {
        let ghost dead_before = marks(enemy_hit@);
        let ghost bh_before = marks(bullet_hit@);
        let ghost rest = resolve_from(orig_b, orig_e, i as int, dead_before);
        let b = bullets[i];
        let r = first_live_hit(&b, enemies, &enemy_hit);
        match r {
            Option::Some(j) => {
                bullet_hit[i] = true;
                enemy_hit[j] = true;
                hits = hits + 1;
                proof {
                    let rest2 = resolve_from(
                        orig_b,
                        orig_e,
                        i as int + 1,
                        dead_before.insert(j as int),
                    );
                    assert(rest.bullets_hit == rest2.bullets_hit.insert(i as int));
                    assert(marks(enemy_hit@) =~= dead_before.insert(j as int));
                    assert(marks(bullet_hit@) =~= bh_before.insert(i as int));
                    assert(bh_before.union(rest2.bullets_hit.insert(i as int)) =~= marks(
                        bullet_hit@,
                    ).union(rest2.bullets_hit));
                }
            },
            Option::None => {
                proof {
                    assert(resolve_from(orig_b, orig_e, i as int + 1, dead_before) == rest);
                }
            },
        }
        i = i + 1;
    }
    proof {
        let rest = resolve_from(orig_b, orig_e, nb as int, marks(enemy_hit@));
        assert(rest.bullets_hit =~= Set::<int>::empty());
        assert(out.bullets_hit =~= marks(bullet_hit@));
        assert(out.enemies_hit == marks(enemy_hit@));
    }
    let new_bullets = filter_unmarked(bullets, &bullet_hit);
    let new_enemies = filter_unmarked(enemies, &enemy_hit);
    *bullets = new_bullets;
    *enemies = new_enemies;
    hits
}

} // verus!
