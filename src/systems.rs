//! The per-tick stages: lifecycle, spawning, movement and steering.

use vstd::prelude::*;
use crate::geometry::{Vec2, valid_direction, Circle, is_zero_vec, scale_to, scale_vector, normalized, random_unit, DIRECTION_SCALE};
use crate::components::{
    Blast, Body, Entity, Position, Role, Velocity, vec_add, BLAST_RADIUS, BLAST_LIFETIME,
    MONSTER_BODY_MASS, MONSTER_BODY_RADIUS, MONSTER_SPAWN_DISTANCE, MONSTER_SPAWN_LIMIT,
    MONSTER_SPEED, PLAYER_BODY_RADIUS, PLAYER_SPEED,
};
use crate::timer::Timer;
use crate::world::{World, entities_wf, find_role, first_with_role};
use crate::collision::{any_deadly_contact, spread_result, survivors};

verus! {

/// The player as a new game creates it.
pub open spec fn fresh_player() -> Entity {
    Entity {
        id: 0,
        role: Role::Player,
        position: Position { current: Vec2 { x: 0, y: 0 }, change: Vec2 { x: 0, y: 0 } },
        velocity: Some(Velocity { direction: Vec2 { x: 0, y: 0 }, speed: PLAYER_SPEED }),
        body: Some(Body { circle: Circle { radius: PLAYER_BODY_RADIUS }, mass: None }),
        blast: None,
    }
}

/// Timer `t` reset and running.
pub open spec fn restarted(t: Timer) -> Timer {
    Timer { elapsed: 0, finished: false, just_finished: false, paused: false, ..t }
}

/// Starts a new game if one was asked for: every entity goes, the counters
/// are zeroed, one player stands at the origin and both spawn timers restart.
/// Any number of requests give one new game. Returns whether it started one.
pub fn new_game(world: &mut World) -> (r: bool)
    requires
        old(world).wf(),
    ensures
        final(world).wf(),
        r == old(world).new_game_requested,
        r ==> final(world).entities@ == seq![fresh_player()],
        r ==> final(world).stats.spawned == 0 && final(world).stats.killed == 0,
        r ==> final(world).next_id == 1,
        r ==> final(world).monster_spawn_timer == restarted(old(world).monster_spawn_timer),
        r ==> final(world).blast_spawn_timer == restarted(old(world).blast_spawn_timer),
        !final(world).new_game_requested,
        !r ==> final(world).entities@ == old(world).entities@ && final(world).stats == old(
            world,
        ).stats && final(world).next_id == old(world).next_id
            && final(world).monster_spawn_timer == old(world).monster_spawn_timer
            && final(world).blast_spawn_timer == old(world).blast_spawn_timer,
        lifecycle_step(*old(world), *final(world)),
{
    if !world.new_game_requested {
        return false;
    }
    world.new_game_requested = false;
    world.entities.clear();
    world.stats.clear();
    let player = Entity {
        id: 0,
        role: Role::Player,
        position: Position::new(Vec2::zero()),
        velocity: Some(Velocity::new(Vec2::zero(), PLAYER_SPEED)),
        body: Some(Body::new(Circle::new(PLAYER_BODY_RADIUS), None)),
        blast: None,
    };
    world.entities.push(player);
    world.next_id = 1;
    world.monster_spawn_timer.reset();
    world.monster_spawn_timer.unpause();
    world.blast_spawn_timer.reset();
    world.blast_spawn_timer.unpause();
    assert(world.entities@ =~= seq![fresh_player()]);
    true
}

/// The id counter after one id is handed out; it stops at its largest value.
pub open spec fn next_id_after(id: u64) -> u64 {
    if id < u64::MAX {
        (id + 1) as u64
    } else {
        id
    }
}

impl World {
    /// Hands out the next entity id.
    fn take_id(&mut self) -> (r: u64)
        ensures
            r == old(self).next_id,
            final(self).next_id == if old(self).next_id < u64::MAX {
                old(self).next_id + 1
            } else {
                old(self).next_id as int
            },
            final(self).entities == old(self).entities,
            final(self).stats == old(self).stats,
            final(self).monster_spawn_timer == old(self).monster_spawn_timer,
            final(self).blast_spawn_timer == old(self).blast_spawn_timer,
            final(self).new_game_requested == old(self).new_game_requested,
    {
        let id = self.next_id;
        if self.next_id < u64::MAX {
            self.next_id = self.next_id + 1;
        }
        id
    }
}

/// A monster as it spawns.
pub open spec fn new_monster(id: u64, at: Vec2) -> Entity {
    Entity {
        id,
        role: Role::Monster,
        position: Position { current: at, change: Vec2 { x: 0, y: 0 } },
        velocity: Some(Velocity { direction: Vec2 { x: 0, y: 0 }, speed: MONSTER_SPEED }),
        body: Some(
            Body { circle: Circle { radius: MONSTER_BODY_RADIUS }, mass: Some(MONSTER_BODY_MASS) },
        ),
        blast: None,
    }
}

/// Whether the monster spawn goes ahead after its timer was ticked by `delta`.
pub open spec fn monster_spawn_due(w: &World, delta: int) -> bool {
    &&& w.monster_spawn_timer.ticked(delta).just_finished
    &&& w.stats.alive() < MONSTER_SPAWN_LIMIT
    &&& first_with_role(w.entities@, Role::Player) is Some
}

/// Where a monster appears for the given spawn direction: at the spawn
/// distance from the player.
pub open spec fn monster_spawn_point(w: &World, direction: Vec2) -> Vec2 {
    let p = w.entities@[first_with_role(w.entities@, Role::Player)->Some_0];
    vec_add(
        p.position.current,
        scale_to(direction.x as int, direction.y as int, MONSTER_SPAWN_DISTANCE as int),
    )
}

/// Ticks the monster spawn timer; when it runs out, fewer than the limit are
/// alive and there is a player, spawns one monster at the spawn distance
/// from the player along `direction`, and counts it. Returns whether it did.
pub fn spawn_monster_along(world: &mut World, delta: u64, direction: Vec2) -> (r: bool)
    requires
        old(world).wf(),
        !is_zero_vec(direction),
        -(DIRECTION_SCALE as int) <= direction.x <= DIRECTION_SCALE,
        -(DIRECTION_SCALE as int) <= direction.y <= DIRECTION_SCALE,
    ensures
        final(world).wf(),
        r == monster_spawn_due(old(world), delta as int),
        final(world).monster_spawn_timer == old(world).monster_spawn_timer.ticked(delta as int),
        final(world).blast_spawn_timer == old(world).blast_spawn_timer,
        final(world).new_game_requested == old(world).new_game_requested,
        r ==> final(world).entities@ == old(world).entities@.push(
            new_monster(old(world).next_id, monster_spawn_point(old(world), direction)),
        ),
        r ==> final(world).stats.spawned == if old(world).stats.spawned < u32::MAX {
            old(world).stats.spawned + 1
        } else {
            old(world).stats.spawned as int
        },
        r ==> final(world).stats.killed == old(world).stats.killed,
        r ==> final(world).next_id == next_id_after(old(world).next_id),
        !r ==> final(world).entities@ == old(world).entities@ && final(world).stats == old(
            world,
        ).stats && final(world).next_id == old(world).next_id,
{
    world.monster_spawn_timer.tick(delta);
    if !world.monster_spawn_timer.just_finished() {
        return false;
    }
    if world.stats.count() >= MONSTER_SPAWN_LIMIT {
        return false;
    }
    let p = match find_role(&world.entities, Role::Player) {
        Some(i) => world.entities[i],
        None => {
            return false;
        },
    };
    let offset = scale_vector(direction.x as i64, direction.y as i64, MONSTER_SPAWN_DISTANCE);
    let at = p.position.current.add(offset);
    let id = world.take_id();
    let monster = Entity {
        id,
        role: Role::Monster,
        position: Position::new(at),
        velocity: Some(Velocity::new(Vec2::zero(), MONSTER_SPEED)),
        body: Some(Body::new(Circle::new(MONSTER_BODY_RADIUS), Some(MONSTER_BODY_MASS))),
        blast: None,
    };
    world.entities.push(monster);
    if world.stats.spawned < u32::MAX {
        world.stats.spawned = world.stats.spawned + 1;
    }
    assert(world.entities@.last().wf());
    assert(entities_wf(world.entities@)) by {
        assert forall|i: int| 0 <= i < world.entities@.len() implies #[trigger] world.entities@[i].wf() by {
            if i < old(world).entities@.len() {
                assert(old(world).entities@[i].wf());
            }
        }
    }
    true
}

/// Like `spawn_monster_along`, in a random direction: it adds at most one
/// entity, a monster, and counts it.
pub fn spawn_monster(world: &mut World, delta: u64) -> (r: bool)
    requires
        old(world).wf(),
    ensures
        final(world).wf(),
        r == monster_spawn_due(old(world), delta as int),
        final(world).monster_spawn_timer == old(world).monster_spawn_timer.ticked(delta as int),
        final(world).blast_spawn_timer == old(world).blast_spawn_timer,
        final(world).new_game_requested == old(world).new_game_requested,
        final(world).entities@.len() <= old(world).entities@.len() + 1,
        r ==> final(world).entities@.drop_last() == old(world).entities@,
        r ==> final(world).entities@.len() == old(world).entities@.len() + 1,
        r ==> exists|d: Vec2|
            valid_direction(d) && final(world).entities@.last() == #[trigger] new_monster(
                old(world).next_id,
                monster_spawn_point(old(world), d),
            ),
        r ==> final(world).stats.spawned == if old(world).stats.spawned < u32::MAX {
            old(world).stats.spawned + 1
        } else {
            old(world).stats.spawned as int
        },
        r ==> final(world).stats.killed == old(world).stats.killed,
        r ==> final(world).next_id == next_id_after(old(world).next_id),
        !r ==> final(world).entities@ == old(world).entities@ && final(world).stats == old(
            world,
        ).stats && final(world).next_id == old(world).next_id,
        exists|d: Vec2| #[trigger] monster_spawn_step(*old(world), *final(world), delta as int, d),
{
    let direction = random_unit();
    let r = spawn_monster_along(world, delta, direction);
    proof {
        if r {
            assert(world.entities@.drop_last() =~= old(world).entities@);
        }
        assert(monster_spawn_step(*old(world), *world, delta as int, direction));
    }
    r
}

/// A blast as it appears at `at`.
pub open spec fn new_blast(id: u64, at: Vec2) -> Entity {
    Entity {
        id,
        role: Role::Blast,
        position: Position { current: at, change: Vec2 { x: 0, y: 0 } },
        velocity: None,
        body: None,
        blast: Some(
            Blast {
                lifetime: Timer::started(BLAST_LIFETIME, false),
                circle: Circle { radius: BLAST_RADIUS },
            },
        ),
    }
}

/// Whether a blast appears after the blast timer was ticked by `delta`.
pub open spec fn blast_spawn_due(w: &World, delta: int) -> bool {
    &&& w.blast_spawn_timer.ticked(delta).just_finished
    &&& first_with_role(w.entities@, Role::Player) is Some
}

/// Ticks the blast timer; when it runs out and there is a player, a blast
/// appears where the player stands. Returns whether one did.
pub fn spawn_blast(world: &mut World, delta: u64) -> (r: bool)
    requires
        old(world).wf(),
    ensures
        final(world).wf(),
        r == blast_spawn_due(old(world), delta as int),
        final(world).blast_spawn_timer == old(world).blast_spawn_timer.ticked(delta as int),
        final(world).monster_spawn_timer == old(world).monster_spawn_timer,
        final(world).stats == old(world).stats,
        final(world).new_game_requested == old(world).new_game_requested,
        final(world).entities@.len() <= old(world).entities@.len() + 1,
        r ==> final(world).entities@ == old(world).entities@.push(
            new_blast(
                old(world).next_id,
                old(world).entities@[first_with_role(
                    old(world).entities@,
                    Role::Player,
                )->Some_0].position.current,
            ),
        ),
        r ==> final(world).next_id == next_id_after(old(world).next_id),
        !r ==> final(world).entities@ == old(world).entities@ && final(world).next_id == old(
            world,
        ).next_id,
        blast_spawn_step(*old(world), *final(world), delta as int),
{
    world.blast_spawn_timer.tick(delta);
    if !world.blast_spawn_timer.just_finished() {
        return false;
    }
    let target = match find_role(&world.entities, Role::Player) {
        Some(i) => world.entities[i].position.current,
        None => {
            return false;
        },
    };
    let id = world.take_id();
    let blast = Entity {
        id,
        role: Role::Blast,
        position: Position::new(target),
        velocity: None,
        body: None,
        blast: Some(Blast::new()),
    };
    world.entities.push(blast);
    assert(entities_wf(world.entities@)) by {
        assert forall|i: int| 0 <= i < world.entities@.len() implies #[trigger] world.entities@[i].wf() by {
            if i < old(world).entities@.len() {
                assert(old(world).entities@[i].wf());
            }
        }
    }
    true
}


/// Whether the blast carried by `e` runs out within the next `delta`.
pub open spec fn expires(e: Entity, delta: int) -> bool {
    e.blast matches Some(b) && b.lifetime.ticked(delta).just_finished
}

/// `e` with its blast lifetime ticked by `delta`.
pub open spec fn aged(e: Entity, delta: int) -> Entity {
    match e.blast {
        Some(b) => Entity { blast: Some(Blast { lifetime: b.lifetime.ticked(delta), ..b }), ..e },
        None => e,
    }
}

/// Ticks every blast's lifetime and removes the blasts that run out.
pub fn blast_lifetime(world: &mut World, delta: u64)
    requires
        old(world).wf(),
    ensures
        final(world).wf(),
        final(world).entities@ == old(world).entities@.filter(|e: Entity| !expires(e, delta as int)).map_values(
            |e: Entity| aged(e, delta as int),
        ),
        final(world).stats == old(world).stats,
        final(world).next_id == old(world).next_id,
        final(world).monster_spawn_timer == old(world).monster_spawn_timer,
        final(world).blast_spawn_timer == old(world).blast_spawn_timer,
        final(world).new_game_requested == old(world).new_game_requested,
        expiry_step(*old(world), *final(world), delta as int),
{
    let ghost s = world.entities@;
    let ghost pred = |e: Entity| !expires(e, delta as int);
    let ghost f = |e: Entity| aged(e, delta as int);
    let n = world.entities.len();
    let mut kept: Vec<Entity> = Vec::new();
    let mut i: usize = 0;
    while i < n
        invariant
            n == s.len(),
            world.entities@ == s,
            *world == *old(world),
            s == old(world).entities@,
            entities_wf(s),
            i <= n,
            pred == (|e: Entity| !expires(e, delta as int)),
            f == (|e: Entity| aged(e, delta as int)),
            kept@ == s.subrange(0, i as int).filter(pred).map_values(f),
            forall|k: int| 0 <= k < kept@.len() ==> #[trigger] kept@[k].wf(),
        decreases n - i,
    {
        proof {
            crate::world::lemma_filter_step(s, i as int, pred);
        }
        let mut e = world.entities[i];
        assert(s[i as int].wf());
        let ghost before = kept@;
        match e.blast {
            Some(mut b) => {
                b.lifetime.tick(delta);
                if !b.lifetime.just_finished() {
                    e.blast = Some(b);
                    kept.push(e);
                    assert(kept@ =~= s.subrange(0, i as int + 1).filter(pred).map_values(f));
                }
            },
            None => {
                kept.push(e);
                assert(kept@ =~= s.subrange(0, i as int + 1).filter(pred).map_values(f));
            },
        }
        i = i + 1;
    }
    proof {
        assert(s.subrange(0, n as int) == s);
    }
    world.entities = kept;
}

/// `e` after moving with its velocity for `delta` microseconds; the move
/// replaces the recorded change. Entities at rest are untouched.
pub open spec fn moved(e: Entity, delta: int) -> Entity {
    match e.velocity {
        Some(v) => if v.zero_spec() {
            e
        } else {
            Entity {
                position: Position {
                    current: vec_add(e.position.current, v.change_spec(delta)),
                    change: v.change_spec(delta),
                },
                ..e
            }
        },
        None => e,
    }
}

/// Moves every entity that has a non-zero velocity.
pub fn movement(world: &mut World, delta: u64)
    requires
        old(world).wf(),
    ensures
        final(world).wf(),
        final(world).entities@.len() == old(world).entities@.len(),
        forall|i: int|
            0 <= i < old(world).entities@.len() ==> #[trigger] final(world).entities@[i] == moved(
                old(world).entities@[i],
                delta as int,
            ),
        final(world).stats == old(world).stats,
        final(world).next_id == old(world).next_id,
        final(world).monster_spawn_timer == old(world).monster_spawn_timer,
        final(world).blast_spawn_timer == old(world).blast_spawn_timer,
        final(world).new_game_requested == old(world).new_game_requested,
        move_step(*old(world), *final(world), delta as int),
{
    let n = world.entities.len();
    let mut i: usize = 0;
    while i < n
        invariant
            n == world.entities@.len(),
            n == old(world).entities@.len(),
            i <= n,
            world.stats == old(world).stats,
            world.next_id == old(world).next_id,
            world.monster_spawn_timer == old(world).monster_spawn_timer,
            world.blast_spawn_timer == old(world).blast_spawn_timer,
            world.new_game_requested == old(world).new_game_requested,
            forall|k: int|
                0 <= k < i ==> #[trigger] world.entities@[k] == moved(old(world).entities@[k], delta as int),
            forall|k: int| i <= k < n ==> #[trigger] world.entities@[k] == old(world).entities@[k],
        decreases n - i,
    {
        let mut e = world.entities[i];
        if let Some(v) = e.velocity {
            if !v.is_zero() {
                e.position.apply(v.change_for_micros(delta));
                world.entities.set(i, e);
            }
        }
        i = i + 1;
    }
    assert forall|k: int| 0 <= k < n implies #[trigger] world.entities@[k].wf() by {
        assert(old(world).entities@[k].wf());
    }
    assert(world.entities@ =~= old(world).entities@.map_values(|e: Entity| moved(e, delta as int)));
}

/// The heading from `from` to `to`, of length `DIRECTION_SCALE`, or zero
/// where they coincide.
pub fn direction_toward(from: Vec2, to: Vec2) -> (r: Vec2)
    ensures
        r == normalized(to.x - from.x, to.y - from.y),
{
    let dx: i64 = to.x as i64 - from.x as i64;
    let dy: i64 = to.y as i64 - from.y as i64;
    if dx == 0 && dy == 0 {
        Vec2::zero()
    } else {
        scale_vector(dx, dy, DIRECTION_SCALE)
    }
}

/// `e` steered toward `target` if it is a monster with a velocity.
pub open spec fn aimed(e: Entity, target: Vec2) -> Entity {
    if e.role == Role::Monster && e.velocity is Some {
        Entity {
            velocity: Some(
                Velocity {
                    direction: normalized(
                        target.x - e.position.current.x,
                        target.y - e.position.current.y,
                    ),
                    ..e.velocity->Some_0
                },
            ),
            ..e
        }
    } else {
        e
    }
}

/// Points every monster straight at the first player; does nothing when
/// there is no player.
pub fn monster_direction(world: &mut World)
    requires
        old(world).wf(),
    ensures
        final(world).wf(),
        final(world).entities@.len() == old(world).entities@.len(),
        first_with_role(old(world).entities@, Role::Player) is None ==> final(world).entities@
            == old(world).entities@,
        first_with_role(old(world).entities@, Role::Player) matches Some(p) ==> forall|i: int|
            0 <= i < old(world).entities@.len() ==> #[trigger] final(world).entities@[i] == aimed(
                old(world).entities@[i],
                old(world).entities@[p].position.current,
            ),
        final(world).stats == old(world).stats,
        final(world).next_id == old(world).next_id,
        final(world).monster_spawn_timer == old(world).monster_spawn_timer,
        final(world).blast_spawn_timer == old(world).blast_spawn_timer,
        final(world).new_game_requested == old(world).new_game_requested,
        aim_step(*old(world), *final(world)),
{
    let target = match find_role(&world.entities, Role::Player) {
        Some(p) => world.entities[p].position.current,
        None => {
            return;
        },
    };
    let n = world.entities.len();
    let mut i: usize = 0;
    while i < n
        invariant
            n == world.entities@.len(),
            n == old(world).entities@.len(),
            i <= n,
            world.stats == old(world).stats,
            world.next_id == old(world).next_id,
            world.monster_spawn_timer == old(world).monster_spawn_timer,
            world.blast_spawn_timer == old(world).blast_spawn_timer,
            world.new_game_requested == old(world).new_game_requested,
            forall|k: int|
                0 <= k < i ==> #[trigger] world.entities@[k] == aimed(old(world).entities@[k], target),
            forall|k: int| i <= k < n ==> #[trigger] world.entities@[k] == old(world).entities@[k],
        decreases n - i,
    {
        let mut e = world.entities[i];
        if e.role == Role::Monster {
            if let Some(mut v) = e.velocity {
                v.direction = direction_toward(e.position.current, target);
                e.velocity = Some(v);
                world.entities.set(i, e);
            }
        }
        i = i + 1;
    }
    assert forall|k: int| 0 <= k < n implies #[trigger] world.entities@[k].wf() by {
        assert(old(world).entities@[k].wf());
    }
    assert(world.entities@ =~= aimed_all(old(world).entities@));
}

/// Which of the four direction keys are held this tick.
#[derive(Clone, Copy, Debug, PartialEq, Eq, Structural)]
pub struct Intent {
    pub up: bool,
    pub down: bool,
    pub left: bool,
    pub right: bool,
}

/// The heading an intent asks for: right wins over left and up over down.
pub open spec fn intent_direction(i: Intent) -> Vec2 {
    let x: int = if i.right { 1 } else if i.left { -1 } else { 0 };
    let y: int = if i.up { 1 } else if i.down { -1 } else { 0 };
    normalized(x, y)
}

/// `s` with the first player's heading set from the intent.
pub open spec fn steered(s: Seq<Entity>, intent: Intent) -> Seq<Entity> {
    match first_with_role(s, Role::Player) {
        Some(p) => match s[p].velocity {
            Some(v) => s.update(
                p,
                Entity {
                    velocity: Some(Velocity { direction: intent_direction(intent), ..v }),
                    ..s[p]
                },
            ),
            None => s,
        },
        None => s,
    }
}

/// Sets the first player's heading from the intent alone; does nothing when
/// there is no player.
pub fn player_direction(world: &mut World, intent: Intent)
    requires
        old(world).wf(),
    ensures
        final(world).wf(),
        first_with_role(old(world).entities@, Role::Player) is None ==> final(world).entities@
            == old(world).entities@,
        final(world).entities@ == steered(old(world).entities@, intent),
        final(world).stats == old(world).stats,
        final(world).next_id == old(world).next_id,
        final(world).monster_spawn_timer == old(world).monster_spawn_timer,
        final(world).blast_spawn_timer == old(world).blast_spawn_timer,
        final(world).new_game_requested == old(world).new_game_requested,
        steer_step(*old(world), *final(world), intent),
{
    let p = match find_role(&world.entities, Role::Player) {
        Some(p) => p,
        None => {
            return;
        },
    };
    let mut e = world.entities[p];
    if let Some(mut v) = e.velocity {
        let x: i32 = if intent.right {
            1
        } else if intent.left {
            -1
        } else {
            0
        };
        let y: i32 = if intent.up {
            1
        } else if intent.down {
            -1
        } else {
            0
        };
        v.direction = Vec2::new(x, y).normalize_or_zero();
        e.velocity = Some(v);
        world.entities.set(p, e);
        assert forall|k: int| 0 <= k < world.entities@.len() implies #[trigger] world.entities@[k].wf() by {
            assert(old(world).entities@[k].wf());
        }
    }
}

/// Each entity's position relative to the first player's, in entity order;
/// `None` when there is no player.
pub fn position_translation(world: &World) -> (r: Option<Vec<Vec2>>)
    ensures
        first_with_role(world.entities@, Role::Player) is None <==> r is None,
        r matches Some(v) ==> v@.len() == world.entities@.len() && forall|i: int|
            0 <= i < v@.len() ==> #[trigger] v@[i] == crate::geometry::vec_sub(
                world.entities@[i].position.current,
                world.entities@[first_with_role(world.entities@, Role::Player)->Some_0].position.current,
            ),
{
    let offset = match find_role(&world.entities, Role::Player) {
        Some(p) => world.entities[p].position.current,
        None => {
            return None;
        },
    };
    let mut out: Vec<Vec2> = Vec::new();
    let mut i: usize = 0;
    while i < world.entities.len()
        invariant
            i <= world.entities@.len(),
            out@.len() == i,
            forall|k: int|
                0 <= k < i ==> #[trigger] out@[k] == crate::geometry::vec_sub(
                    world.entities@[k].position.current,
                    offset,
                ),
        decreases world.entities@.len() - i,
    {
        out.push(world.entities[i].position.current.sub(offset));
        i = i + 1;
    }
    Some(out)
}

/// A world before its first tick: no entities and a new game asked for.
pub fn setup() -> (r: World)
    ensures
        r.wf(),
        r.entities@.len() == 0,
        r.new_game_requested,
{
    World::new()
}

/// `a` and `b` agree on everything but the entities.
pub open spec fn same_state(a: World, b: World) -> bool {
    &&& a.stats == b.stats
    &&& a.next_id == b.next_id
    &&& a.monster_spawn_timer == b.monster_spawn_timer
    &&& a.blast_spawn_timer == b.blast_spawn_timer
    &&& a.new_game_requested == b.new_game_requested
}

/// Every monster of `s` steered toward the first player, if there is one.
pub open spec fn aimed_all(s: Seq<Entity>) -> Seq<Entity> {
    match first_with_role(s, Role::Player) {
        Some(p) => s.map_values(|e: Entity| aimed(e, s[p].position.current)),
        None => s,
    }
}

/// The steering stage.
pub open spec fn steer_step(a: World, b: World, intent: Intent) -> bool {
    b.entities@ == steered(a.entities@, intent) && same_state(a, b)
}

/// The movement stage.
pub open spec fn move_step(a: World, b: World, delta: int) -> bool {
    b.entities@ == a.entities@.map_values(|e: Entity| moved(e, delta)) && same_state(a, b)
}

/// The pursuit stage.
pub open spec fn aim_step(a: World, b: World) -> bool {
    b.entities@ == aimed_all(a.entities@) && same_state(a, b)
}

/// The deadly-contact stage.
pub open spec fn contact_step(a: World, b: World) -> bool {
    &&& b.entities@ == a.entities@
    &&& b.new_game_requested == (a.new_game_requested || any_deadly_contact(a.entities@))
    &&& b.stats == a.stats
    &&& b.next_id == a.next_id
    &&& b.monster_spawn_timer == a.monster_spawn_timer
    &&& b.blast_spawn_timer == a.blast_spawn_timer
}

/// The overlap stage, with `d` the direction drawn for coinciding centres.
pub open spec fn overlap_step(a: World, b: World, d: Vec2) -> bool {
    valid_direction(d) && b.entities@ == spread_result(a.entities@, d) && same_state(a, b)
}

/// Kills counted when `removed` monsters are destroyed; the counter stops at
/// its largest value.
pub open spec fn killed_after(killed: u32, removed: int) -> int {
    if killed + removed > u32::MAX {
        u32::MAX as int
    } else {
        killed + removed
    }
}

/// The blast-damage stage.
pub open spec fn blast_damage_step(a: World, b: World) -> bool {
    &&& b.entities@ == survivors(a.entities@)
    &&& b.stats.spawned == a.stats.spawned
    &&& b.stats.killed == killed_after(
        a.stats.killed,
        a.entities@.len() - survivors(a.entities@).len(),
    )
    &&& b.next_id == a.next_id
    &&& b.monster_spawn_timer == a.monster_spawn_timer
    &&& b.blast_spawn_timer == a.blast_spawn_timer
    &&& b.new_game_requested == a.new_game_requested
}

/// The monster-spawn stage, with `d` the direction drawn for the new monster.
pub open spec fn monster_spawn_step(a: World, b: World, delta: int, d: Vec2) -> bool {
    &&& b.monster_spawn_timer == a.monster_spawn_timer.ticked(delta)
    &&& b.blast_spawn_timer == a.blast_spawn_timer
    &&& b.new_game_requested == a.new_game_requested
    &&& monster_spawn_due(&a, delta) ==> {
        &&& b.entities@ == a.entities@.push(new_monster(a.next_id, monster_spawn_point(&a, d)))
        &&& b.stats.spawned == if a.stats.spawned < u32::MAX {
            a.stats.spawned + 1
        } else {
            a.stats.spawned as int
        }
        &&& b.stats.killed == a.stats.killed
        &&& b.next_id == next_id_after(a.next_id)
    }
    &&& !monster_spawn_due(&a, delta) ==> b.entities@ == a.entities@ && b.stats == a.stats
        && b.next_id == a.next_id
}

/// However long a frame is, the monster-spawn stage spawns at most one
/// monster; with a running repeating timer, a frame of at least one period,
/// a player, room under the population limit and room in the counter, it
/// spawns exactly one.
pub proof fn lemma_one_spawn_per_tick(a: World, b: World, delta: int, d: Vec2)
    requires
        monster_spawn_step(a, b, delta, d),
        a.monster_spawn_timer.wf(),
        !a.monster_spawn_timer.paused,
        a.monster_spawn_timer.repeating,
        delta >= a.monster_spawn_timer.period,
        a.stats.alive() < MONSTER_SPAWN_LIMIT,
        first_with_role(a.entities@, Role::Player) is Some,
        a.stats.spawned < u32::MAX,
    ensures
        b.entities@.len() == a.entities@.len() + 1,
        b.entities@.drop_last() == a.entities@,
        b.entities@.last().role == Role::Monster,
        b.stats.spawned == a.stats.spawned + 1,
        b.stats.killed == a.stats.killed,
{
    assert(a.monster_spawn_timer.ticked(delta).just_finished);
    assert(monster_spawn_due(&a, delta));
    assert(b.entities@.drop_last() =~= a.entities@);
}

/// The blast-spawn stage.
pub open spec fn blast_spawn_step(a: World, b: World, delta: int) -> bool {
    &&& b.blast_spawn_timer == a.blast_spawn_timer.ticked(delta)
    &&& b.monster_spawn_timer == a.monster_spawn_timer
    &&& b.stats == a.stats
    &&& b.new_game_requested == a.new_game_requested
    &&& blast_spawn_due(&a, delta) ==> b.entities@ == a.entities@.push(
        new_blast(
            a.next_id,
            a.entities@[first_with_role(a.entities@, Role::Player)->Some_0].position.current,
        ),
    ) && b.next_id == next_id_after(a.next_id)
    &&& !blast_spawn_due(&a, delta) ==> b.entities@ == a.entities@ && b.next_id == a.next_id
}

/// The blast-expiry stage.
pub open spec fn expiry_step(a: World, b: World, delta: int) -> bool {
    &&& b.entities@ == a.entities@.filter(|e: Entity| !expires(e, delta)).map_values(
        |e: Entity| aged(e, delta),
    )
    &&& same_state(a, b)
}

/// The lifecycle stage.
pub open spec fn lifecycle_step(a: World, b: World) -> bool {
    &&& !b.new_game_requested
    &&& a.new_game_requested ==> {
        &&& b.entities@ == seq![fresh_player()]
        &&& b.stats.spawned == 0 && b.stats.killed == 0
        &&& b.next_id == 1
        &&& b.monster_spawn_timer == restarted(a.monster_spawn_timer)
        &&& b.blast_spawn_timer == restarted(a.blast_spawn_timer)
    }
    &&& !a.new_game_requested ==> b.entities@ == a.entities@ && b.stats == a.stats && b.next_id
        == a.next_id && b.monster_spawn_timer == a.monster_spawn_timer && b.blast_spawn_timer
        == a.blast_spawn_timer
}

/// One tick from `w0` to `w10` through the intermediate worlds, stage by
/// stage in pipeline order; `d1` is the direction drawn for coinciding
/// centres and `d2` the one drawn for a new monster.
pub open spec fn tick_steps(
    w0: World,
    w1: World,
    w2: World,
    w3: World,
    w4: World,
    w5: World,
    w6: World,
    w7: World,
    w8: World,
    w9: World,
    w10: World,
    delta: int,
    intent: Intent,
    d1: Vec2,
    d2: Vec2,
) -> bool {
    &&& steer_step(w0, w1, intent)
    &&& move_step(w1, w2, delta)
    &&& aim_step(w2, w3)
    &&& contact_step(w3, w4)
    &&& overlap_step(w4, w5, d1)
    &&& blast_damage_step(w5, w6)
    &&& monster_spawn_step(w6, w7, delta, d2)
    &&& blast_spawn_step(w7, w8, delta)
    &&& expiry_step(w8, w9, delta)
    &&& lifecycle_step(w9, w10)
}

/// Runs one tick of `delta` microseconds: steering from the intent,
/// movement, monster pursuit, deadly contact, overlap resolution, blast
/// damage, spawning, blast expiry and finally the lifecycle. The result is
/// the composition of those stages, for some random directions.
pub fn tick(world: &mut World, delta: u64, intent: Intent)
    requires
        old(world).wf(),
    ensures
        final(world).wf(),
        !final(world).new_game_requested,
        final(world).stats.spawned <= old(world).stats.spawned + 1,
        exists|
            w1: World,
            w2: World,
            w3: World,
            w4: World,
            w5: World,
            w6: World,
            w7: World,
            w8: World,
            w9: World,
            d1: Vec2,
            d2: Vec2,
        |
            #[trigger] tick_steps(
                *old(world),
                w1,
                w2,
                w3,
                w4,
                w5,
                w6,
                w7,
                w8,
                w9,
                *final(world),
                delta as int,
                intent,
                d1,
                d2,
            ),
{
    let ghost w0 = *world;
    player_direction(world, intent);
    let ghost w1 = *world;
    movement(world, delta);
    let ghost w2 = *world;
    monster_direction(world);
    let ghost w3 = *world;
    crate::collision::damage_collision(world);
    let ghost w4 = *world;
    crate::collision::spread_collision(world);
    let ghost w5 = *world;
    let ghost d1 = choose|d: Vec2| #[trigger] overlap_step(w4, w5, d);
    crate::collision::blast_collision(world);
    let ghost w6 = *world;
    spawn_monster(world, delta);
    let ghost w7 = *world;
    let ghost d2 = choose|d: Vec2| #[trigger] monster_spawn_step(w6, w7, delta as int, d);
    spawn_blast(world, delta);
    let ghost w8 = *world;
    blast_lifetime(world, delta);
    let ghost w9 = *world;
    new_game(world);
    assert(tick_steps(
        w0,
        w1,
        w2,
        w3,
        w4,
        w5,
        w6,
        w7,
        w8,
        w9,
        *world,
        delta as int,
        intent,
        d1,
        d2,
    ));
}

} // verus!
