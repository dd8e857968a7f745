use survival_core::collision::{blast_collision, damage_collision, resolve_pair, spread_collision, split_push};
use survival_core::components::{
    Blast, Body, Collision, Entity, MonsterStats, Position, Role, Velocity, BLAST_RADIUS,
    MONSTER_BODY_MASS, MONSTER_BODY_RADIUS, MONSTER_SPAWN_DISTANCE, MONSTER_SPAWN_PERIOD,
    MONSTER_SPEED, PLAYER_BODY_RADIUS, PLAYER_SPEED,
};
use survival_core::geometry::{
    collide_circles, collide_circles_along, isqrt, random_unit, unit_from_sample, Circle, Vec2,
    DIRECTION_SCALE,
};
use survival_core::systems::{
    blast_lifetime, direction_toward, monster_direction, movement, new_game, player_direction,
    position_translation, setup, spawn_blast, spawn_monster, spawn_monster_along, tick, Intent,
};
use survival_core::timer::Timer;
use survival_core::world::World;

fn started_world() -> World {
    let mut world = setup();
    assert!(new_game(&mut world));
    world
}

fn monster_at(id: u64, x: i32, y: i32) -> Entity {
    Entity {
        id,
        role: Role::Monster,
        position: Position::new(Vec2::new(x, y)),
        velocity: Some(Velocity::new(Vec2::zero(), MONSTER_SPEED)),
        body: Some(Body::new(Circle::new(MONSTER_BODY_RADIUS), Some(MONSTER_BODY_MASS))),
        blast: None,
    }
}

fn blast_at(id: u64, x: i32, y: i32) -> Entity {
    Entity {
        id,
        role: Role::Blast,
        position: Position::new(Vec2::new(x, y)),
        velocity: None,
        body: None,
        blast: Some(Blast::new()),
    }
}

fn count(world: &World, role: Role) -> usize {
    world.count_role(role)
}

#[test]
fn isqrt_rounds_down() {
    assert_eq!(isqrt(0), 0);
    assert_eq!(isqrt(1), 1);
    assert_eq!(isqrt(24), 4);
    assert_eq!(isqrt(25), 5);
    assert_eq!(isqrt(91_000_000), 9539);
    assert_eq!(isqrt(u128::MAX), u64::MAX as u128);
}

#[test]
fn normalize_gives_scaled_direction() {
    assert_eq!(Vec2::new(3, 4).normalize_or_zero(), Vec2::new(39322, 52429));
    assert_eq!(Vec2::new(1, 1).normalize_or_zero(), Vec2::new(46342, 46342));
    assert_eq!(Vec2::zero().normalize_or_zero(), Vec2::zero());
    assert_eq!(Vec2::new(0, -7).normalize_or_zero(), Vec2::new(0, -(DIRECTION_SCALE as i32)));
}

#[test]
fn vector_arithmetic_saturates() {
    assert_eq!(Vec2::new(1, 2).add(Vec2::new(3, -5)), Vec2::new(4, -3));
    assert_eq!(Vec2::new(i32::MAX, 0).add(Vec2::new(1, 0)), Vec2::new(i32::MAX, 0));
    assert_eq!(Vec2::new(i32::MIN, 5).sub(Vec2::new(1, 2)), Vec2::new(i32::MIN, 3));
    assert_eq!(Vec2::new(i32::MIN, 5).neg(), Vec2::new(i32::MAX, -5));
}

#[test]
fn overlap_push_is_antisymmetric() {
    let a = Circle::new(5000);
    let b = Circle::new(7000);
    let ac = Vec2::new(1000, 2000);
    let bc = Vec2::new(4000, -3000);
    let (hit_ab, push_ab) = collide_circles(&a, ac, &b, bc);
    let (hit_ba, push_ba) = collide_circles(&b, bc, &a, ac);
    assert!(hit_ab && hit_ba);
    assert_eq!(push_ab, push_ba.neg());
    assert!(push_ab.x < 0 && push_ab.y > 0);
}

#[test]
fn close_circles_push_by_root_of_overlap() {
    let c = Circle::new(5000);
    let (hit, push) = collide_circles(&c, Vec2::new(3000, 0), &c, Vec2::new(0, 0));
    assert!(hit);
    assert_eq!(push, Vec2::new(9539, 0));
    let magnitude = ((push.x as f64).powi(2) + (push.y as f64).powi(2)).sqrt();
    assert!((magnitude - 91f64.sqrt() * 1000.0).abs() < 1.0);
}

#[test]
fn touching_circles_do_not_collide() {
    let c = Circle::new(5000);
    let (hit, push) = collide_circles(&c, Vec2::new(10000, 0), &c, Vec2::new(0, 0));
    assert!(!hit);
    assert_eq!(push, Vec2::zero());
    let (hit, push) = collide_circles(&c, Vec2::new(0, 20000), &c, Vec2::new(0, 0));
    assert!(!hit);
    assert_eq!(push, Vec2::zero());
}

#[test]
fn coincident_circles_push_apart() {
    let a = Circle::new(6000);
    let b = Circle::new(4000);
    for _ in 0..50 {
        let (hit, push) = collide_circles(&a, Vec2::new(7, -3), &b, Vec2::new(7, -3));
        assert!(hit);
        assert!(!push.is_zero());
        let magnitude = ((push.x as f64).powi(2) + (push.y as f64).powi(2)).sqrt();
        assert!((magnitude - 10000.0).abs() < 5.0);
    }
    let tiny = Circle::new(1);
    let (hit, push) = collide_circles(&tiny, Vec2::zero(), &Circle::new(0), Vec2::zero());
    assert!(hit);
    assert!(!push.is_zero());
}

#[test]
fn coincident_circles_follow_given_spread() {
    let c = Circle::new(5000);
    let (hit, push) = collide_circles_along(&c, Vec2::zero(), &c, Vec2::zero(), Vec2::new(0, -65536));
    assert!(hit);
    assert_eq!(push, Vec2::new(0, -10000));
}

#[test]
fn random_unit_is_never_zero() {
    for _ in 0..100 {
        let u = random_unit();
        assert!(!u.is_zero());
        let magnitude = ((u.x as f64).powi(2) + (u.y as f64).powi(2)).sqrt();
        assert!((magnitude - DIRECTION_SCALE as f64).abs() < 4.0);
    }
    assert_eq!(unit_from_sample(0, 0), Vec2::new(DIRECTION_SCALE as i32, 0));
    assert_eq!(unit_from_sample(-3, 4), Vec2::new(-39322, 52429));
}

#[test]
fn push_is_split_by_mass() {
    let (a, b) = split_push(Vec2::new(4000, -800), 10, 30);
    assert_eq!(a, Vec2::new(3000, -600));
    assert_eq!(b, Vec2::new(-1000, 200));
    let (a, b) = split_push(Vec2::new(7, 0), 1, 1);
    assert_eq!(a, Vec2::new(3, 0));
    assert_eq!(b, Vec2::new(-3, 0));
}

#[test]
fn resolve_pair_rules() {
    let circle = Circle::new(1000);
    let fixed = Body::new(circle, None);
    let light = Body::new(circle, Some(10));
    let heavy = Body::new(circle, Some(30));
    let free = Collision::new();
    let push = Vec2::new(400, 0);

    let (ca, cb) = resolve_pair(&fixed, free, &fixed, free, push);
    assert_eq!((ca, cb), (free, free));

    let (ca, cb) = resolve_pair(&fixed, free, &light, free, push);
    assert_eq!(ca, free);
    assert_eq!(cb, Collision { displacement: Vec2::new(-400, 0), is_firm: true });

    let (ca, cb) = resolve_pair(&light, free, &fixed, free, push);
    assert_eq!(ca, Collision { displacement: Vec2::new(400, 0), is_firm: true });
    assert_eq!(cb, free);

    let firm = Collision { displacement: Vec2::new(5, 5), is_firm: true };
    let (ca, cb) = resolve_pair(&light, firm, &heavy, free, push);
    assert_eq!(ca, firm);
    assert_eq!(cb, Collision { displacement: Vec2::new(-400, 0), is_firm: true });

    let (ca, cb) = resolve_pair(&light, firm, &fixed, free, push);
    assert_eq!(ca, Collision { displacement: Vec2::new(400, 0), is_firm: true });
    assert_eq!(cb, free);

    let (ca, cb) = resolve_pair(&light, free, &heavy, free, push);
    assert_eq!(ca, Collision { displacement: Vec2::new(300, 0), is_firm: false });
    assert_eq!(cb, Collision { displacement: Vec2::new(-100, 0), is_firm: false });
}

#[test]
fn spread_never_moves_immovable_body() {
    let mut world = started_world();
    world.entities.push(monster_at(1, 5000, 0));
    world.entities.push(monster_at(2, -90_000, 0));
    world.entities.push(blast_at(3, 0, 0));
    let player_before = world.entities[0];
    let loner = world.entities[2];
    let blast = world.entities[3];
    spread_collision(&mut world);
    assert_eq!(world.entities[0], player_before);
    assert_eq!(world.entities[2], loner);
    assert_eq!(world.entities[3], blast);
    let m = world.entities[1];
    // overlap 28000^2 - 5000^2, root 27549; a fifth, rounded toward zero, of it moves the monster
    assert_eq!(m.position.current, Vec2::new(5000 + 5509, 0));
    assert_eq!(m.position.change, Vec2::new(5509, 0));
}

#[test]
fn spread_splits_between_monsters() {
    let mut world = World::new();
    world.entities.push(monster_at(0, 0, 0));
    world.entities.push(monster_at(1, 10000, 0));
    spread_collision(&mut world);
    // overlap 20000^2 - 10000^2, root 17320, each takes half, a fifth applied
    assert_eq!(world.entities[0].position.current, Vec2::new(-1732, 0));
    assert_eq!(world.entities[1].position.current, Vec2::new(10000 + 1732, 0));
}

#[test]
fn alive_count_floors_at_zero() {
    let mut stats = MonsterStats::new();
    assert_eq!(stats.count(), 0);
    stats.spawned = 5;
    stats.killed = 3;
    assert_eq!(stats.count(), 2);
    stats.killed = 8;
    assert_eq!(stats.count(), 0);
    stats.clear();
    assert_eq!((stats.spawned, stats.killed), (0, 0));
}

#[test]
fn timer_ticks_and_wraps() {
    let mut t = Timer::new(600_000, true);
    t.tick(500_000);
    assert!(!t.just_finished());
    assert_eq!(t.elapsed, 500_000);
    t.tick(200_000);
    assert!(t.just_finished());
    assert_eq!(t.elapsed, 100_000);
    t.tick(10_000_000);
    assert!(t.just_finished());
    assert_eq!(t.elapsed, 10_100_000 % 600_000);
    t.pause();
    t.tick(10_000_000);
    assert!(!t.just_finished());
    assert_eq!(t.elapsed, 10_100_000 % 600_000);
    t.unpause();
    t.reset();
    assert_eq!(t.elapsed, 0);
    assert!(!t.paused);
}

#[test]
fn single_shot_timer_finishes_once() {
    let mut t = Timer::new(300_000, false);
    t.tick(400_000);
    assert!(t.just_finished());
    assert_eq!(t.elapsed, 300_000);
    t.tick(400_000);
    assert!(!t.just_finished());
    assert!(t.finished);
}

#[test]
fn spawn_is_once_per_tick_for_long_frames() {
    let mut world = started_world();
    assert!(spawn_monster(&mut world, 10_000_000));
    assert_eq!(count(&world, Role::Monster), 1);
    assert_eq!(world.stats.spawned, 1);
    assert!(spawn_blast(&mut world, 10_000_000));
    assert_eq!(count(&world, Role::Blast), 1);
    assert_eq!(world.entities.len(), 3);
}

#[test]
fn paused_timers_spawn_nothing() {
    let mut world = setup();
    world.entities.push(Entity {
        id: 9,
        role: Role::Player,
        position: Position::new(Vec2::zero()),
        velocity: Some(Velocity::new(Vec2::zero(), PLAYER_SPEED)),
        body: Some(Body::new(Circle::new(PLAYER_BODY_RADIUS), None)),
        blast: None,
    });
    assert!(!spawn_monster(&mut world, 10_000_000));
    assert!(!spawn_blast(&mut world, 10_000_000));
    assert_eq!(world.entities.len(), 1);
}

#[test]
fn monster_spawns_at_distance_along_direction() {
    let mut world = started_world();
    world.entities[0].position.current = Vec2::new(1000, -2000);
    assert!(!spawn_monster_along(&mut world, MONSTER_SPAWN_PERIOD - 1, Vec2::new(0, 65536)));
    assert!(spawn_monster_along(&mut world, 1, Vec2::new(0, 65536)));
    let m = world.entities[1];
    assert_eq!(m.role, Role::Monster);
    assert_eq!(m.position.current, Vec2::new(1000, -2000 + MONSTER_SPAWN_DISTANCE as i32));
    assert_eq!(m.id, 1);
}

#[test]
fn spawn_respects_population_limit() {
    let mut world = started_world();
    world.stats.spawned = 300;
    assert!(!spawn_monster_along(&mut world, MONSTER_SPAWN_PERIOD, Vec2::new(65536, 0)));
    world.stats.killed = 1;
    assert!(spawn_monster_along(&mut world, MONSTER_SPAWN_PERIOD, Vec2::new(65536, 0)));
    assert_eq!(world.stats.spawned, 301);
}

#[test]
fn blast_appears_at_player() {
    let mut world = started_world();
    world.entities[0].position.current = Vec2::new(-4000, 12000);
    assert!(spawn_blast(&mut world, 3_000_000));
    let b = world.entities[1];
    assert_eq!(b.role, Role::Blast);
    assert_eq!(b.position.current, Vec2::new(-4000, 12000));
    assert_eq!(b.blast.unwrap().circle.radius, BLAST_RADIUS);
}

#[test]
fn blasts_expire_after_lifetime() {
    let mut world = started_world();
    world.entities.push(blast_at(1, 0, 0));
    blast_lifetime(&mut world, 200_000);
    assert_eq!(count(&world, Role::Blast), 1);
    blast_lifetime(&mut world, 100_000);
    assert_eq!(count(&world, Role::Blast), 0);
    assert_eq!(world.entities.len(), 1);
}

#[test]
fn movement_integrates_velocity() {
    let mut world = started_world();
    world.entities[0].velocity = Some(Velocity::new(Vec2::new(65536, 0), 100_000));
    world.entities.push(monster_at(1, 500, 500));
    movement(&mut world, 1_000_000);
    assert_eq!(world.entities[0].position.current, Vec2::new(100_000, 0));
    assert_eq!(world.entities[0].position.change, Vec2::new(100_000, 0));
    assert_eq!(world.entities[1].position.current, Vec2::new(500, 500));
    let v = Velocity::new(Vec2::new(46342, 46342), 100_000);
    assert_eq!(v.change_for_micros(16_000), Vec2::new(1131, 1131));
    assert_eq!(Velocity::new(Vec2::new(46342, 0), 0).change_for_micros(16_000), Vec2::zero());
}

#[test]
fn monsters_turn_toward_player() {
    let mut world = started_world();
    world.entities.push(monster_at(1, 3000, 4000));
    world.entities.push(monster_at(2, 0, 0));
    monster_direction(&mut world);
    assert_eq!(world.entities[1].velocity.unwrap().direction, Vec2::new(-39322, -52429));
    assert_eq!(world.entities[2].velocity.unwrap().direction, Vec2::zero());
    assert_eq!(direction_toward(Vec2::new(0, 0), Vec2::new(0, 5)), Vec2::new(0, 65536));
}

#[test]
fn no_player_means_no_steering() {
    let mut world = World::new();
    world.entities.push(monster_at(1, 3000, 4000));
    monster_direction(&mut world);
    player_direction(&mut world, Intent { up: true, down: false, left: false, right: false });
    assert_eq!(world.entities[0].velocity.unwrap().direction, Vec2::zero());
    assert!(position_translation(&world).is_none());
}

#[test]
fn player_direction_from_intent() {
    let mut world = started_world();
    player_direction(&mut world, Intent { up: true, down: true, left: true, right: true });
    assert_eq!(world.entities[0].velocity.unwrap().direction, Vec2::new(46342, 46342));
    player_direction(&mut world, Intent { up: false, down: true, left: true, right: false });
    assert_eq!(world.entities[0].velocity.unwrap().direction, Vec2::new(-46342, -46342));
    player_direction(&mut world, Intent { up: false, down: false, left: false, right: false });
    assert_eq!(world.entities[0].velocity.unwrap().direction, Vec2::zero());
}

#[test]
fn view_offsets_center_player() {
    let mut world = started_world();
    world.entities[0].position.current = Vec2::new(100, 200);
    world.entities.push(monster_at(1, 150, 150));
    let offsets = position_translation(&world).unwrap();
    assert_eq!(offsets, vec![Vec2::new(0, 0), Vec2::new(50, -50)]);
}

#[test]
fn contact_with_monster_restarts_game() {
    let mut world = started_world();
    world.entities[0].position.current = Vec2::new(2500, 2500);
    world.entities.push(monster_at(1, 2500, 2500));
    world.entities.push(blast_at(2, 900_000, 900_000));
    world.stats.spawned = 1;
    world.stats.killed = 0;
    world.next_id = 3;
    tick(&mut world, 0, Intent { up: false, down: false, left: false, right: false });
    assert_eq!(count(&world, Role::Monster), 0);
    assert_eq!(count(&world, Role::Blast), 0);
    assert_eq!(count(&world, Role::Player), 1);
    assert_eq!((world.stats.spawned, world.stats.killed), (0, 0));
    assert_eq!(world.entities[0].position.current, Vec2::zero());
    assert!(!world.new_game_requested);
}

#[test]
fn damage_collision_reports_contact() {
    let mut world = started_world();
    world.entities.push(monster_at(1, 40_000, 0));
    assert!(!damage_collision(&mut world));
    assert!(!world.new_game_requested);
    world.entities.push(monster_at(2, 27_999, 0));
    assert!(damage_collision(&mut world));
    assert!(world.new_game_requested);
}

#[test]
fn blast_kills_monster_once() {
    let mut world = started_world();
    world.entities.push(blast_at(1, 0, 0));
    world.entities.push(blast_at(2, 1000, 0));
    world.entities.push(monster_at(3, 30_000, 0));
    world.entities.push(monster_at(4, 70_000, 0));
    world.stats.spawned = 2;
    blast_collision(&mut world);
    assert_eq!(world.stats.killed, 1);
    assert_eq!(count(&world, Role::Monster), 1);
    assert_eq!(world.entities.len(), 4);
    assert_eq!(world.entities[3].id, 4);
    assert_eq!(world.stats.count(), 1);
}

#[test]
fn new_game_is_idempotent() {
    let mut empty = setup();
    assert!(new_game(&mut empty));
    let mut busy = started_world();
    busy.entities.push(monster_at(1, 5, 5));
    busy.stats.spawned = 7;
    busy.new_game_requested = true;
    assert!(new_game(&mut busy));
    assert_eq!(empty.entities, busy.entities);
    assert_eq!(empty.stats, busy.stats);
    assert_eq!(empty.monster_spawn_timer, busy.monster_spawn_timer);
    assert!(!new_game(&mut busy));
}

#[test]
fn first_ticks_start_and_run_a_game() {
    let mut world = setup();
    let idle = Intent { up: false, down: false, left: false, right: true };
    tick(&mut world, 16_000, idle);
    assert_eq!(count(&world, Role::Player), 1);
    assert!(!world.monster_spawn_timer.paused);
    for _ in 0..40 {
        tick(&mut world, 16_000, idle);
    }
    assert_eq!(count(&world, Role::Monster), 1);
    assert!(world.entities[0].position.current.x > 0);
}

#[test]
fn firmness_passes_along_a_chain() {
    let mut world = started_world();
    world.entities.push(monster_at(1, 20_000, 0));
    world.entities.push(monster_at(2, 35_000, 0));
    spread_collision(&mut world);
    // the player pins the first monster, which then pins the second
    assert_eq!(world.entities[0].position.current, Vec2::zero());
    assert_eq!(world.entities[1].position.current, Vec2::new(20_000 + 19_595 / 5, 0));
    assert_eq!(world.entities[2].position.current, Vec2::new(35_000 + 13_228 / 5, 0));
}

#[test]
fn shares_from_several_pairs_are_summed() {
    let mut world = World::new();
    world.entities.push(monster_at(0, 0, 0));
    world.entities.push(monster_at(1, 15_000, 0));
    world.entities.push(monster_at(2, 30_000, 0));
    spread_collision(&mut world);
    assert_eq!(world.entities[0].position.current, Vec2::new(-(6614 / 5), 0));
    assert_eq!(world.entities[1].position.current, Vec2::new(15_000, 0));
    assert_eq!(world.entities[2].position.current, Vec2::new(30_000 + 6614 / 5, 0));
}
