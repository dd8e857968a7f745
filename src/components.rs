//! The data attached to simulated entities, the tunable constants, and the
//! population counters.

use vstd::prelude::*;
use crate::geometry::{Vec2, Circle, clamp_coord, clamp_to_coord, is_zero_vec, DIRECTION_SCALE};
use crate::timer::Timer;

verus! {

/// Speed of the player, in sub-units per second.
pub const PLAYER_SPEED: u32 = 100000;
/// Body radius of the player, in sub-units.
pub const PLAYER_BODY_RADIUS: u32 = 18000;
/// Speed of a monster, in sub-units per second.
pub const MONSTER_SPEED: u32 = 50000;
/// Body radius of a monster, in sub-units.
pub const MONSTER_BODY_RADIUS: u32 = 10000;
/// Body mass of a monster.
pub const MONSTER_BODY_MASS: u32 = 10;
/// How far from the player monsters appear, in sub-units.
pub const MONSTER_SPAWN_DISTANCE: u32 = 300000;
/// No monster spawns while this many are alive.
pub const MONSTER_SPAWN_LIMIT: u32 = 300;
/// Time between monster spawns, in microseconds.
pub const MONSTER_SPAWN_PERIOD: u64 = 600000;
/// Radius of a blast, in sub-units.
pub const BLAST_RADIUS: u32 = 50000;
/// How long a blast lasts, in microseconds.
pub const BLAST_LIFETIME: u64 = 300000;
/// Time between blasts, in microseconds.
pub const BLAST_SPAWN_PERIOD: u64 = 3000000;
/// The share of the accumulated push that a body moves by in one tick is
/// `COLLISION_DISPLACEMENT_NUMERATOR / COLLISION_DISPLACEMENT_DENOMINATOR`.
pub const COLLISION_DISPLACEMENT_NUMERATOR: u32 = 1;
pub const COLLISION_DISPLACEMENT_DENOMINATOR: u32 = 5;
/// Microseconds in a second.
pub const MICROS_PER_SECOND: u64 = 1000000;

/// `a / b` rounded toward zero, for `b > 0`.
pub open spec fn div_trunc(a: int, b: int) -> int {
    if a >= 0 {
        a / b
    } else {
        -((-a) / b)
    }
}

pub fn div_toward_zero(a: i128, b: i128) -> (r: i128)
    requires
        b > 0,
        a > i128::MIN,
    ensures
        r == div_trunc(a as int, b as int),
{
    if a >= 0 {
        a / b
    } else {
        -((-a) / b)
    }
}

/// Counts of monsters spawned and killed since the last new game.
#[derive(Clone, Copy, Debug, PartialEq, Eq, Structural)]
pub struct MonsterStats {
    pub spawned: u32,
    pub killed: u32,
}

impl MonsterStats {
    pub open spec fn alive(self) -> int {
        if self.spawned > self.killed {
            self.spawned - self.killed
        } else {
            0
        }
    }

    pub fn new() -> (r: MonsterStats)
        ensures
            r.spawned == 0 && r.killed == 0,
    {
        MonsterStats { spawned: 0, killed: 0 }
    }

    pub fn clear(&mut self)
        ensures
            final(self).spawned == 0,
            final(self).killed == 0,
    {
        self.spawned = 0;
        self.killed = 0;
    }

    /// Monsters alive: spawned minus killed, never below zero.
    pub fn count(&self) -> (r: u32)
        ensures
            r == self.alive(),
            r >= 0,
            r == (if self.spawned >= self.killed { self.spawned - self.killed } else { 0 }),
    {
        if self.spawned > self.killed {
            self.spawned - self.killed
        } else {
            0
        }
    }
}

/// A paused repeating timer that gates monster spawns.
pub fn monster_spawn_timer() -> (r: Timer)
    ensures
        r.wf(),
        r.period == MONSTER_SPAWN_PERIOD,
        r.repeating && r.paused && !r.finished && !r.just_finished && r.elapsed == 0,
{
    let mut timer = Timer::new(MONSTER_SPAWN_PERIOD, true);
    timer.pause();
    timer
}

/// A paused repeating timer that gates blasts.
pub fn blast_spawn_timer() -> (r: Timer)
    ensures
        r.wf(),
        r.period == BLAST_SPAWN_PERIOD,
        r.repeating && r.paused && !r.finished && !r.just_finished && r.elapsed == 0,
{
    let mut timer = Timer::new(BLAST_SPAWN_PERIOD, true);
    timer.pause();
    timer
}

/// A short-lived area that destroys the monsters it overlaps.
#[derive(Clone, Copy, Debug, PartialEq, Eq, Structural)]
pub struct Blast {
    pub lifetime: Timer,
    pub circle: Circle,
}

impl Blast {
    pub open spec fn wf(self) -> bool {
        self.lifetime.wf() && self.circle.wf()
    }

    pub fn new() -> (r: Blast)
        ensures
            r.wf(),
            r.lifetime == Timer::started(BLAST_LIFETIME, false),
            r.circle.radius == BLAST_RADIUS,
    {
        Blast { lifetime: Timer::new(BLAST_LIFETIME, false), circle: Circle::new(BLAST_RADIUS) }
    }
}

/// Where an entity is, and the displacement of its latest update.
#[derive(Clone, Copy, Debug, PartialEq, Eq, Structural)]
pub struct Position {
    pub current: Vec2,
    pub change: Vec2,
}

/// `a + b`, each coordinate pinned to the range of `i32`.
pub open spec fn vec_add(a: Vec2, b: Vec2) -> Vec2 {
    Vec2 { x: clamp_coord(a.x + b.x) as i32, y: clamp_coord(a.y + b.y) as i32 }
}

impl Position {
    pub fn new(current: Vec2) -> (r: Position)
        ensures
            r.current == current,
            is_zero_vec(r.change),
    {
        Position { current, change: Vec2::zero() }
    }

    /// Moves by `change`, which replaces the recorded change.
    pub fn apply(&mut self, change: Vec2)
        ensures
            final(self).current == vec_add(old(self).current, change),
            final(self).change == change,
    {
        self.current = self.current.add(change);
        self.change = change;
    }

    /// Moves by `change`, which is added to the recorded change.
    pub fn apply_add(&mut self, change: Vec2)
        ensures
            final(self).current == vec_add(old(self).current, change),
            final(self).change == vec_add(old(self).change, change),
    {
        self.current = self.current.add(change);
        self.change = self.change.add(change);
    }
}

/// A heading and a speed in sub-units per second.
#[derive(Clone, Copy, Debug, PartialEq, Eq, Structural)]
pub struct Velocity {
    pub direction: Vec2,
    pub speed: u32,
}

/// One coordinate of the motion along `dir` at `speed` for `micros`.
pub open spec fn motion_axis(dir: int, speed: int, micros: int) -> int {
    clamp_coord(div_trunc(dir * speed * micros, DIRECTION_SCALE * MICROS_PER_SECOND))
}

impl Velocity {
    pub open spec fn zero_spec(self) -> bool {
        is_zero_vec(self.direction) || self.speed == 0
    }

    /// The displacement of moving with this velocity for `micros`.
    pub open spec fn change_spec(self, micros: int) -> Vec2 {
        if self.zero_spec() {
            Vec2 { x: 0, y: 0 }
        } else {
            Vec2 {
                x: motion_axis(self.direction.x as int, self.speed as int, micros) as i32,
                y: motion_axis(self.direction.y as int, self.speed as int, micros) as i32,
            }
        }
    }

    pub fn new(direction: Vec2, speed: u32) -> (r: Velocity)
        ensures
            r.direction == direction && r.speed == speed,
    {
        Velocity { direction, speed }
    }

    pub fn is_zero(&self) -> (r: bool)
        ensures
            r == self.zero_spec(),
    {
        self.direction.is_zero() || self.speed == 0
    }

    /// The displacement for `micros` microseconds: direction times speed
    /// times time, rounded toward zero.
    pub fn change_for_micros(&self, micros: u64) -> (r: Vec2)
        ensures
            r == self.change_spec(micros as int),
    {
        if self.is_zero() {
            Vec2::zero()
        } else {
            Vec2 {
                x: motion_component(self.direction.x, self.speed, micros),
                y: motion_component(self.direction.y, self.speed, micros),
            }
        }
    }
}

fn motion_component(dir: i32, speed: u32, micros: u64) -> (r: i32)
    ensures
        r == motion_axis(dir as int, speed as int, micros as int),
{
    let d = dir as i128;
    let s = speed as i128;
    let t = micros as i128;
    assert(-0x8000_0000_0000_0000_0000_0000_0000_0000 < d * s * t < 0x8000_0000_0000_0000_0000_0000_0000_0000) by (nonlinear_arith)
        requires
            -0x8000_0000 <= d < 0x8000_0000,
            0 <= s < 0x1_0000_0000,
            0 <= t < 0x1_0000_0000_0000_0000,
    ;
    assert(-0x8000_0000_0000_0000_0000_0000_0000_0000 < d * s < 0x8000_0000_0000_0000_0000_0000_0000_0000) by (nonlinear_arith)
        requires
            -0x8000_0000 <= d < 0x8000_0000,
            0 <= s < 0x1_0000_0000,
    ;
    let divisor: i128 = 65536000000;
    assert(divisor == DIRECTION_SCALE * MICROS_PER_SECOND);
    let q = div_toward_zero(d * s * t, divisor);
    clamp_to_coord(q)
}

/// The scratch state of one body during overlap resolution.
#[derive(Clone, Copy, Debug, PartialEq, Eq, Structural)]
pub struct Collision {
    pub displacement: Vec2,
    pub is_firm: bool,
}

impl Collision {
    pub fn new() -> (r: Collision)
        ensures
            is_zero_vec(r.displacement) && !r.is_firm,
    {
        Collision { displacement: Vec2::zero(), is_firm: false }
    }

    pub fn clear(&mut self)
        ensures
            is_zero_vec(final(self).displacement) && !final(self).is_firm,
    {
        self.displacement = Vec2::zero();
        self.is_firm = false;
    }
}

/// The physical side of an entity: its shape and its mass, where no mass
/// means immovable.
#[derive(Clone, Copy, Debug, PartialEq, Eq, Structural)]
pub struct Body {
    pub circle: Circle,
    pub mass: Option<u32>,
}

impl Body {
    pub open spec fn wf(self) -> bool {
        &&& self.circle.wf()
        &&& self.mass matches Some(m) ==> m > 0
    }

    pub fn new(circle: Circle, mass: Option<u32>) -> (r: Body)
        requires
            circle.wf(),
            mass matches Some(m) ==> m > 0,
        ensures
            r.circle == circle && r.mass == mass,
            r.wf(),
    {
        Body { circle, mass }
    }
}

/// The role of an entity; it never changes while the entity lives.
#[derive(Clone, Copy, Debug, PartialEq, Eq, Structural)]
pub enum Role {
    Player,
    Monster,
    Blast,
}

/// A simulated entity with the components it carries.
#[derive(Clone, Copy, Debug, PartialEq, Eq, Structural)]
pub struct Entity {
    pub id: u64,
    pub role: Role,
    pub position: Position,
    pub velocity: Option<Velocity>,
    pub body: Option<Body>,
    pub blast: Option<Blast>,
}

impl Entity {
    pub open spec fn wf(self) -> bool {
        &&& self.body matches Some(b) ==> b.wf()
        &&& self.blast matches Some(b) ==> b.wf()
    }
}

} // verus!
