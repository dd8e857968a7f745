//! The collision passes: deadly contact, pushing overlapping bodies apart,
//! and blasts destroying monsters.

use vstd::prelude::*;
use crate::geometry::{
    Vec2, clamp_coord, is_zero_vec, collide_circles, collide_circles_along, circles_collide,
    push_of, scale_to, floor_sqrt, overlap_of, random_unit, valid_direction,
};
use crate::components::{
    Body, Collision, Entity, Position, Role, div_trunc, div_toward_zero, vec_add,
    COLLISION_DISPLACEMENT_NUMERATOR, COLLISION_DISPLACEMENT_DENOMINATOR,
};
use crate::world::{World, entities_wf, lemma_filter_step};

verus! {

/// `-v`, each coordinate pinned to the range of `i32`.
pub open spec fn vec_neg(v: Vec2) -> Vec2 {
    Vec2 { x: clamp_coord(-v.x) as i32, y: clamp_coord(-v.y) as i32 }
}

/// The share of `c` that goes with weight `w` out of `total`, rounded toward zero.
pub open spec fn share(c: int, w: int, total: int) -> int {
    div_trunc(c * w, total)
}

proof fn lemma_share_bounds(c: int, w: int, total: int)
    requires
        0 < w < total,
    ensures
        c >= 0 ==> 0 <= share(c, w, total) <= c,
        c < 0 ==> c < share(c, w, total) <= 0,
{
    let a = if c >= 0 { c } else { -c };
    assert(0 <= (a * w) / total <= a) by (nonlinear_arith)
        requires
            0 <= a,
            0 < w < total,
    ;
    if c < 0 {
        assert((a * w) / total < a) by (nonlinear_arith)
            requires
                0 < a,
                0 < w < total,
        ;
        assert((-c) * w == -(c * w)) by (nonlinear_arith);
    }
}

fn share_of(c: i32, w: u32, total: i128) -> (r: i32)
    requires
        0 < w < total,
    ensures
        r == share(c as int, w as int, total as int),
        c >= 0 ==> 0 <= r <= c,
        c < 0 ==> c < r <= 0,
{
    proof {
        lemma_share_bounds(c as int, w as int, total as int);
    }
    assert(-0x8000_0000_0000_0000 <= c * w <= 0x8000_0000_0000_0000) by (nonlinear_arith)
        requires
            -0x8000_0000 <= c < 0x8000_0000,
            0 <= w < 0x1_0000_0000,
    ;
    div_toward_zero(c as i128 * w as i128, total) as i32
}

/// Splits `push` between two movable bodies of masses `mass_a` and
/// `mass_b`: `a` moves along it by the share `mass_b / (mass_a + mass_b)`,
/// `b` against it by the share `mass_a / (mass_a + mass_b)`, so the heavier
/// body moves less.
pub fn split_push(push: Vec2, mass_a: u32, mass_b: u32) -> (r: (Vec2, Vec2))
    requires
        mass_a > 0,
        mass_b > 0,
    ensures
        r.0.x == share(push.x as int, mass_b as int, mass_a + mass_b),
        r.0.y == share(push.y as int, mass_b as int, mass_a + mass_b),
        r.1.x == -share(push.x as int, mass_a as int, mass_a + mass_b),
        r.1.y == -share(push.y as int, mass_a as int, mass_a + mass_b),
{
    let total: i128 = mass_a as i128 + mass_b as i128;
    proof {
        lemma_share_bounds(push.x as int, mass_b as int, total as int);
        lemma_share_bounds(push.y as int, mass_b as int, total as int);
        lemma_share_bounds(push.x as int, mass_a as int, total as int);
        lemma_share_bounds(push.y as int, mass_a as int, total as int);
    }
    let ax = share_of(push.x, mass_b, total);
    let ay = share_of(push.y, mass_b, total);
    let bx = share_of(push.x, mass_a, total);
    let by = share_of(push.y, mass_a, total);
    (Vec2 { x: ax, y: ay }, Vec2 { x: -bx, y: -by })
}

/// How one overlapping pair updates the two bodies' scratch states, given
/// the push that moves `a` out of `b`. An immovable body is never pushed; a
/// body pinned by an immovable or firm one takes the whole push and becomes
/// firm; two free movable bodies share the push by mass.
pub open spec fn resolved(a: Body, ca: Collision, b: Body, cb: Collision, push: Vec2) -> (
    Collision,
    Collision,
) {
    if a.mass is None && b.mass is None {
        (ca, cb)
    } else if a.mass is None {
        (ca, Collision { displacement: vec_neg(push), is_firm: true })
    } else if b.mass is None {
        (Collision { displacement: push, is_firm: true }, cb)
    } else if ca.is_firm {
        (ca, Collision { displacement: vec_neg(push), is_firm: true })
    } else if cb.is_firm {
        (Collision { displacement: push, is_firm: true }, cb)
    } else {
        let ma = a.mass->Some_0 as int;
        let mb = b.mass->Some_0 as int;
        let sa = Vec2 {
            x: share(push.x as int, mb, ma + mb) as i32,
            y: share(push.y as int, mb, ma + mb) as i32,
        };
        let sb = Vec2 {
            x: -share(push.x as int, ma, ma + mb) as i32,
            y: -share(push.y as int, ma, ma + mb) as i32,
        };
        (
            Collision { displacement: vec_add(ca.displacement, sa), is_firm: ca.is_firm },
            Collision { displacement: vec_add(cb.displacement, sb), is_firm: cb.is_firm },
        )
    }
}

/// Resolves one overlapping pair into the two scratch states.
pub fn resolve_pair(a: &Body, ca: Collision, b: &Body, cb: Collision, push: Vec2) -> (r: (
    Collision,
    Collision,
))
    requires
        a.wf(),
        b.wf(),
    ensures
        r == resolved(*a, ca, *b, cb, push),
        a.mass is None ==> r.0 == ca,
        b.mass is None ==> r.1 == cb,
{
    match (a.mass, b.mass) {
        (None, None) => (ca, cb),
        (None, Some(_)) => (ca, Collision { displacement: push.neg(), is_firm: true }),
        (Some(_), None) => (Collision { displacement: push, is_firm: true }, cb),
        (Some(ma), Some(mb)) => {
            if ca.is_firm {
                (ca, Collision { displacement: push.neg(), is_firm: true })
            } else if cb.is_firm {
                (Collision { displacement: push, is_firm: true }, cb)
            } else {
                let (sa, sb) = split_push(push, ma, mb);
                (
                    Collision { displacement: ca.displacement.add(sa), is_firm: ca.is_firm },
                    Collision { displacement: cb.displacement.add(sb), is_firm: cb.is_firm },
                )
            }
        },
    }
}

/// Whether an entity has a body that nothing can push.
pub open spec fn is_immovable(e: Entity) -> bool {
    e.body matches Some(b) && b.mass is None
}

/// Entity `m` has a body that overlaps no other body of `s`.
pub open spec fn isolated(s: Seq<Entity>, m: int) -> bool {
    s[m].body is Some && forall|j: int|
        0 <= j < s.len() && j != m && (#[trigger] s[j]).body is Some ==> !circles_collide(
            s[m].body->Some_0.circle,
            s[m].position.current,
            s[j].body->Some_0.circle,
            s[j].position.current,
        ) && !circles_collide(
            s[j].body->Some_0.circle,
            s[j].position.current,
            s[m].body->Some_0.circle,
            s[m].position.current,
        )
}

/// A fresh scratch buffer for `n` bodies.
pub open spec fn zero_scratch(n: int) -> Seq<Collision> {
    Seq::new(n as nat, |k: int| Collision { displacement: Vec2 { x: 0, y: 0 }, is_firm: false })
}

/// The push that moves entity `i` out of entity `j`. Where their centres
/// coincide it points along `spread`.
pub open spec fn pair_push(s: Seq<Entity>, i: int, j: int, spread: Vec2) -> Vec2 {
    let a = s[i].body->Some_0.circle;
    let b = s[j].body->Some_0.circle;
    let ac = s[i].position.current;
    let bc = s[j].position.current;
    if ac != bc {
        push_of(a, ac, b, bc)
    } else {
        scale_to(spread.x as int, spread.y as int, floor_sqrt(overlap_of(a, ac, b, bc)))
    }
}

/// Scratch `c` after the pair `(i, j)` is resolved, if their bodies overlap.
pub open spec fn pair_step(s: Seq<Entity>, c: Seq<Collision>, i: int, j: int, spread: Vec2) -> Seq<
    Collision,
> {
    if s[i].body is Some && s[j].body is Some && circles_collide(
        s[i].body->Some_0.circle,
        s[i].position.current,
        s[j].body->Some_0.circle,
        s[j].position.current,
    ) {
        let r = resolved(
            s[i].body->Some_0,
            c[i],
            s[j].body->Some_0,
            c[j],
            pair_push(s, i, j, spread),
        );
        c.update(i, r.0).update(j, r.1)
    } else {
        c
    }
}

/// Scratch `c` after the pairs `(i, i + 1)` up to `(i, k - 1)` are resolved in order.
pub open spec fn row_scratch(s: Seq<Entity>, c: Seq<Collision>, i: int, k: int, spread: Vec2) -> Seq<
    Collision,
>
    decreases k - i,
{
    if k <= i + 1 {
        c
    } else {
        pair_step(s, row_scratch(s, c, i, k - 1, spread), i, k - 1, spread)
    }
}

/// The scratch after every pair whose first index is below `i` is resolved.
pub open spec fn rows_scratch(s: Seq<Entity>, i: int, spread: Vec2) -> Seq<Collision>
    decreases i,
{
    if i <= 0 {
        zero_scratch(s.len() as int)
    } else {
        row_scratch(s, rows_scratch(s, i - 1, spread), i - 1, s.len() as int, spread)
    }
}

/// What each body is owed once every unordered pair has been resolved, in
/// index order.
pub open spec fn accumulated(s: Seq<Entity>, spread: Vec2) -> Seq<Collision> {
    rows_scratch(s, s.len() as int, spread)
}

/// The entities after overlap resolution: each moves by the damped part of
/// what it is owed.
pub open spec fn spread_result(s: Seq<Entity>, spread: Vec2) -> Seq<Entity> {
    Seq::new(s.len(), |i: int| displaced(s[i], accumulated(s, spread)[i]))
}

/// Visits every unordered pair of bodies once, in index order, and gathers
/// the displacement each body is owed. Entities without a body and immovable
/// bodies are owed nothing, nor is a body that overlaps no other. Pairs
/// whose centres coincide are pushed along `spread`.
pub fn accumulate_displacements(entities: &Vec<Entity>, spread: Vec2) -> (r: Vec<Collision>)
    requires
        entities_wf(entities@),
        valid_direction(spread),
    ensures
        r@ == accumulated(entities@, spread),
        r@.len() == entities@.len(),
        forall|i: int|
            0 <= i < entities@.len() && (is_immovable(entities@[i]) || entities@[i].body is None
                || isolated(entities@, i)) ==> is_zero_vec(#[trigger] r@[i].displacement),
{
    let n = entities.len();
    let mut scratch: Vec<Collision> = Vec::new();
    let mut k: usize = 0;
    while k < n
        invariant
            n == entities@.len(),
            k <= n,
            scratch@.len() == k,
            forall|m: int|
                0 <= m < k ==> #[trigger] scratch@[m] == (Collision {
                    displacement: Vec2 { x: 0, y: 0 },
                    is_firm: false,
                }),
        decreases n - k,
    {
        scratch.push(Collision::new());
        k = k + 1;
    }
    assert(scratch@ =~= zero_scratch(n as int));
    let mut i: usize = 0;
    while i < n
        invariant
            n == entities@.len(),
            entities_wf(entities@),
            valid_direction(spread),
            i <= n,
            scratch@ == rows_scratch(entities@, i as int, spread),
            scratch@.len() == n,
            forall|m: int|
                0 <= m < n && (is_immovable(entities@[m]) || entities@[m].body is None
                    || isolated(entities@, m)) ==> is_zero_vec(#[trigger] scratch@[m].displacement),
        decreases n - i,
    {
        let mut j: usize = i + 1;
        while j < n
            invariant
                n == entities@.len(),
                i < n,
                i < j,
                j <= n,
                entities_wf(entities@),
                valid_direction(spread),
                scratch@ == row_scratch(
                    entities@,
                    rows_scratch(entities@, i as int, spread),
                    i as int,
                    j as int,
                    spread,
                ),
                scratch@.len() == n,
                forall|m: int|
                    0 <= m < n && (is_immovable(entities@[m]) || entities@[m].body is None
                        || isolated(entities@, m)) ==> is_zero_vec(
                        #[trigger] scratch@[m].displacement,
                    ),
            decreases n - j,
        {
            let ghost prev = scratch@;
            let ei = entities[i];
            let ej = entities[j];
            assert(entities@[i as int].wf());
            assert(entities@[j as int].wf());
            match (ei.body, ej.body) {
                (Some(bi), Some(bj)) => {
                    let (hit, push) = collide_circles_along(
                        &bi.circle,
                        ei.position.current,
                        &bj.circle,
                        ej.position.current,
                        spread,
                    );
                    if hit {
                        proof {
                            let s = entities@;
                            assert(s[i as int].body == Some(bi) && s[j as int].body == Some(bj));
                            assert(circles_collide(
                                s[i as int].body->Some_0.circle,
                                s[i as int].position.current,
                                s[j as int].body->Some_0.circle,
                                s[j as int].position.current,
                            ));
                            assert(!isolated(s, i as int)) by {
                                assert(s[j as int].body is Some && j != i);
                            }
                            assert(!isolated(s, j as int)) by {
                                assert(s[i as int].body is Some && j != i);
                            }
                        }
                        let (ci, cj) = resolve_pair(&bi, scratch[i], &bj, scratch[j], push);
                        scratch.set(i, ci);
                        scratch.set(j, cj);
                    }
                },
                _ => {},
            }
            assert(scratch@ =~= pair_step(entities@, prev, i as int, j as int, spread));
            assert(row_scratch(
                entities@,
                rows_scratch(entities@, i as int, spread),
                i as int,
                j as int + 1,
                spread,
            ) == pair_step(entities@, prev, i as int, j as int, spread));
            j = j + 1;
        }
        assert(rows_scratch(entities@, i as int + 1, spread) == row_scratch(
            entities@,
            rows_scratch(entities@, i as int, spread),
            i as int,
            n as int,
            spread,
        ));
        i = i + 1;
    }
    scratch
}

/// The damped part of an accumulated displacement that is applied in one tick.
pub open spec fn damped(v: Vec2) -> Vec2 {
    Vec2 {
        x: share(
            v.x as int,
            COLLISION_DISPLACEMENT_NUMERATOR as int,
            COLLISION_DISPLACEMENT_DENOMINATOR as int,
        ) as i32,
        y: share(
            v.y as int,
            COLLISION_DISPLACEMENT_NUMERATOR as int,
            COLLISION_DISPLACEMENT_DENOMINATOR as int,
        ) as i32,
    }
}

fn damp(v: Vec2) -> (r: Vec2)
    ensures
        r == damped(v),
{
    let total = COLLISION_DISPLACEMENT_DENOMINATOR as i128;
    Vec2 {
        x: share_of(v.x, COLLISION_DISPLACEMENT_NUMERATOR, total),
        y: share_of(v.y, COLLISION_DISPLACEMENT_NUMERATOR, total),
    }
}

/// An entity after its owed displacement is applied: a body with a non-zero
/// displacement moves by its damped part, added to the recorded change.
pub open spec fn displaced(e: Entity, c: Collision) -> Entity {
    if e.body is Some && !is_zero_vec(c.displacement) {
        let d = damped(c.displacement);
        Entity {
            position: Position {
                current: vec_add(e.position.current, d),
                change: vec_add(e.position.change, d),
            },
            ..e
        }
    } else {
        e
    }
}

/// Applies each body's owed displacement.
pub fn apply_displacements(entities: &mut Vec<Entity>, scratch: &Vec<Collision>)
    requires
        old(entities)@.len() == scratch@.len(),
    ensures
        final(entities)@.len() == old(entities)@.len(),
        forall|i: int|
            0 <= i < old(entities)@.len() ==> #[trigger] final(entities)@[i] == displaced(
                old(entities)@[i],
                scratch@[i],
            ),
{
    let n = entities.len();
    let mut i: usize = 0;
    while i < n
        invariant
            n == entities@.len(),
            n == old(entities)@.len(),
            n == scratch@.len(),
            i <= n,
            forall|k: int|
                0 <= k < i ==> #[trigger] entities@[k] == displaced(old(entities)@[k], scratch@[k]),
            forall|k: int| i <= k < n ==> #[trigger] entities@[k] == old(entities)@[k],
        decreases n - i,
    {
        let c = scratch[i];
        let mut e = entities[i];
        if e.body.is_some() && !c.displacement.is_zero() {
            e.position.apply_add(damp(c.displacement));
            entities.set(i, e);
        }
        i = i + 1;
    }
}

/// Pushes overlapping bodies apart: every unordered pair of bodies is
/// resolved once, in index order, and each body then moves by the damped
/// part of what it is owed. Pairs whose centres coincide are pushed along one
/// random direction drawn for the pass. Nothing but positions changes, entities
/// without a body stay where they are, an immovable body is never moved, and
/// neither is a body that overlaps no other.
pub fn spread_collision(world: &mut World)
    requires
        old(world).wf(),
    ensures
        final(world).wf(),
        final(world).entities@.len() == old(world).entities@.len(),
        forall|i: int|
            0 <= i < old(world).entities@.len() ==> (#[trigger] final(world).entities@[i]).id
                == old(world).entities@[i].id && final(world).entities@[i].role
                == old(world).entities@[i].role && final(world).entities@[i].velocity
                == old(world).entities@[i].velocity && final(world).entities@[i].body
                == old(world).entities@[i].body && final(world).entities@[i].blast
                == old(world).entities@[i].blast,
        forall|i: int|
            0 <= i < old(world).entities@.len() && (is_immovable(old(world).entities@[i])
                || old(world).entities@[i].body is None || isolated(old(world).entities@, i))
                ==> #[trigger] final(world).entities@[i] == old(world).entities@[i],
        final(world).stats == old(world).stats,
        final(world).next_id == old(world).next_id,
        final(world).monster_spawn_timer == old(world).monster_spawn_timer,
        final(world).blast_spawn_timer == old(world).blast_spawn_timer,
        final(world).new_game_requested == old(world).new_game_requested,
        exists|d: Vec2|
            valid_direction(d) && #[trigger] spread_result(old(world).entities@, d)
                == final(world).entities@,
        exists|d: Vec2| #[trigger] crate::systems::overlap_step(*old(world), *final(world), d),
{
    let spread = random_unit();
    let scratch = accumulate_displacements(&world.entities, spread);
    apply_displacements(&mut world.entities, &scratch);
    assert(spread_result(old(world).entities@, spread) =~= world.entities@);
    assert(crate::systems::overlap_step(*old(world), *world, spread));
    assert forall|i: int| 0 <= i < world.entities@.len() implies #[trigger] world.entities@[i].wf() by {
        assert(world.entities@[i] == displaced(old(world).entities@[i], scratch@[i]));
        assert(old(world).entities@[i].wf());
    }
}


/// Entity `i` is a player and entity `j` a monster whose bodies overlap.
pub open spec fn deadly_contact(s: Seq<Entity>, i: int, j: int) -> bool {
    &&& s[i].role == Role::Player
    &&& s[j].role == Role::Monster
    &&& s[i].body is Some
    &&& s[j].body is Some
    &&& circles_collide(
        s[i].body->Some_0.circle,
        s[i].position.current,
        s[j].body->Some_0.circle,
        s[j].position.current,
    )
}

pub open spec fn any_deadly_contact(s: Seq<Entity>) -> bool {
    exists|i: int, j: int| 0 <= i < s.len() && 0 <= j < s.len() && #[trigger] deadly_contact(s, i, j)
}

/// Asks for a new game when a player touches a monster; returns whether it did.
pub fn damage_collision(world: &mut World) -> (r: bool)
    requires
        old(world).wf(),
    ensures
        r == any_deadly_contact(old(world).entities@),
        final(world).new_game_requested == (old(world).new_game_requested || r),
        final(world).entities@ == old(world).entities@,
        final(world).stats == old(world).stats,
        final(world).next_id == old(world).next_id,
        final(world).monster_spawn_timer == old(world).monster_spawn_timer,
        final(world).blast_spawn_timer == old(world).blast_spawn_timer,
        crate::systems::contact_step(*old(world), *final(world)),
{
    let n = world.entities.len();
    let mut i: usize = 0;
    while i < n
        invariant
            n == world.entities@.len(),
            world.entities@ == old(world).entities@,
            *world == *old(world),
            entities_wf(world.entities@),
            i <= n,
            forall|a: int, b: int| 0 <= a < i && 0 <= b < n ==> !#[trigger] deadly_contact(world.entities@, a, b),
        decreases n - i,
    {
        let p = world.entities[i];
        assert(world.entities@[i as int].wf());
        let mut j: usize = 0;
        while j < n
            invariant
                n == world.entities@.len(),
                *world == *old(world),
                entities_wf(world.entities@),
                i < n,
                j <= n,
                p == world.entities@[i as int],
                p.wf(),
                forall|a: int, b: int| 0 <= a < i && 0 <= b < n ==> !#[trigger] deadly_contact(world.entities@, a, b),
                forall|b: int| 0 <= b < j ==> !#[trigger] deadly_contact(world.entities@, i as int, b),
            decreases n - j,
        {
            let m = world.entities[j];
            assert(world.entities@[j as int].wf());
            if p.role == Role::Player && m.role == Role::Monster {
                match (p.body, m.body) {
                    (Some(pb), Some(mb)) => {
                        let (hit, _) = collide_circles(
                            &pb.circle,
                            p.position.current,
                            &mb.circle,
                            m.position.current,
                        );
                        if hit {
                            assert(deadly_contact(world.entities@, i as int, j as int));
                            world.new_game_requested = true;
                            return true;
                        }
                    },
                    _ => {},
                }
            }
            j = j + 1;
        }
        i = i + 1;
    }
    false
}

/// Some blast in `s` overlaps the body of `e`.
pub open spec fn blasted(s: Seq<Entity>, e: Entity) -> bool {
    exists|k: int|
        0 <= k < s.len() && #[trigger] s[k].blast is Some && e.body is Some && circles_collide(
            s[k].blast->Some_0.circle,
            s[k].position.current,
            e.body->Some_0.circle,
            e.position.current,
        )
}

/// `e` is a monster that a blast of `s` destroys.
pub open spec fn doomed(s: Seq<Entity>, e: Entity) -> bool {
    e.role == Role::Monster && blasted(s, e)
}

/// What survives the blasts of `s`.
pub open spec fn survivors(s: Seq<Entity>) -> Seq<Entity> {
    s.filter(|e: Entity| !doomed(s, e))
}

fn is_blasted(entities: &Vec<Entity>, e: Entity) -> (r: bool)
    requires
        entities_wf(entities@),
        e.wf(),
    ensures
        r == blasted(entities@, e),
{
    let body = match e.body {
        Some(b) => b,
        None => {
            return false;
        },
    };
    let mut k: usize = 0;
    while k < entities.len()
        invariant
            k <= entities@.len(),
            entities_wf(entities@),
            e.body == Some(body),
            body.wf(),
            forall|q: int|
                0 <= q < k ==> !(#[trigger] entities@[q].blast is Some && circles_collide(
                    entities@[q].blast->Some_0.circle,
                    entities@[q].position.current,
                    body.circle,
                    e.position.current,
                )),
        decreases entities@.len() - k,
    {
        let b = entities[k];
        assert(entities@[k as int].wf());
        if let Some(blast) = b.blast {
            let (hit, _) = collide_circles(
                &blast.circle,
                b.position.current,
                &body.circle,
                e.position.current,
            );
            if hit {
                return true;
            }
        }
        k = k + 1;
    }
    false
}

/// Destroys every monster that some blast overlaps, each once, and counts it
/// as killed (the counter stops at its largest value).
pub fn blast_collision(world: &mut World)
    requires
        old(world).wf(),
    ensures
        final(world).wf(),
        final(world).entities@ == survivors(old(world).entities@),
        final(world).stats.spawned == old(world).stats.spawned,
        final(world).stats.killed == if old(world).stats.killed + (old(world).entities@.len()
            - survivors(old(world).entities@).len()) > u32::MAX {
            u32::MAX as int
        } else {
            old(world).stats.killed + (old(world).entities@.len() - survivors(
                old(world).entities@,
            ).len())
        },
        final(world).next_id == old(world).next_id,
        final(world).monster_spawn_timer == old(world).monster_spawn_timer,
        final(world).blast_spawn_timer == old(world).blast_spawn_timer,
        final(world).new_game_requested == old(world).new_game_requested,
        crate::systems::blast_damage_step(*old(world), *final(world)),
{
    let ghost s = world.entities@;
    let ghost pred = |e: Entity| !doomed(s, e);
    let n = world.entities.len();
    let mut kept: Vec<Entity> = Vec::new();
    let mut killed = world.stats.killed;
    let mut i: usize = 0;
    while i < n
        invariant
            n == s.len(),
            world.entities@ == s,
            *world == *old(world),
            s == old(world).entities@,
            entities_wf(s),
            i <= n,
            pred == (|e: Entity| !doomed(s, e)),
            kept@ == s.subrange(0, i as int).filter(pred),
            kept@.len() <= i,
            killed == if old(world).stats.killed + (i - kept@.len()) > u32::MAX {
                u32::MAX as int
            } else {
                old(world).stats.killed + (i - kept@.len())
            },
        decreases n - i,
    {
        proof {
            lemma_filter_step(s, i as int, pred);
        }
        let e = world.entities[i];
        assert(s[i as int].wf());
        if e.role == Role::Monster && is_blasted(&world.entities, e) {
            if killed < u32::MAX {
                killed = killed + 1;
            }
        } else {
            kept.push(e);
        }
        i = i + 1;
    }
    proof {
        assert(s.subrange(0, n as int) == s);
        assert forall|k: int| 0 <= k < kept@.len() implies #[trigger] kept@[k].wf() by {
            assert(kept@.contains(kept@[k]));
            s.lemma_filter_contains_rev(pred, kept@[k]);
            let j = choose|j: int| 0 <= j < s.len() && s[j] == kept@[k];
            assert(s[j].wf());
        }
    }
    world.entities = kept;
    world.stats.killed = killed;
}

} // verus!
