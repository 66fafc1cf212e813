use townskeep::collision::{apply_hit, CanHitTeam, HitBoxEvent, Hurtbox, Team};
use townskeep::geom::Vec2;
use townskeep::mouse::{Controls, MouseState};
use townskeep::player::{player_system, Player, PlayerAction, PlayerBundle};
use townskeep::skeleton::{skeleton_system, SkeletonAction, SkeletonBundle};
use townskeep::world::{die_system, find_player, physics_system, take_damage, Actor, ActorKind};

fn v(x: i64, y: i64) -> Vec2 {
    Vec2::new(x, y)
}

fn hurtbox(team: Team, health: u64) -> Hurtbox {
    Hurtbox {
        team,
        size: v(30_000, 50_000),
        health,
        is_hit: false,
        invincible: false,
        vel: v(0, 0),
    }
}

fn event(position: Vec2, damage: u64, can_hit: CanHitTeam) -> HitBoxEvent {
    HitBoxEvent { position, size: v(60_000, 60_000), damage, knockback: 30_000, can_hit }
}

fn player_actor(id: u64, position: Vec2) -> Actor {
    let b = PlayerBundle::new();
    Actor { id, position, hurtbox: b.hurtbox, kind: ActorKind::Player(b.player) }
}

fn skeleton_actor(id: u64, position: Vec2) -> Actor {
    let b = SkeletonBundle::new(position);
    Actor { id, position, hurtbox: b.hurtbox, kind: ActorKind::Skeleton(b.skeleton) }
}

fn player_of(a: &Actor) -> Player {
    match a.kind {
        ActorKind::Player(p) => p,
        _ => panic!("not a player"),
    }
}

#[test]
fn can_hit_matches_only_its_team() {
    assert!(CanHitTeam::Enemy.can_hit(&Team::Enemy));
    assert!(!CanHitTeam::Enemy.can_hit(&Team::Player));
    assert!(CanHitTeam::Player.can_hit(&Team::Player));
    assert!(!CanHitTeam::Player.can_hit(&Team::Enemy));
}

#[test]
fn hit_takes_damage_and_knocks_back() {
    let mut hb = hurtbox(Team::Enemy, 10);
    let landed = apply_hit(&mut hb, v(100_000, 0), &event(v(80_000, 0), 3, CanHitTeam::Enemy));
    assert!(landed);
    assert_eq!(hb.health, 7);
    assert!(hb.is_hit);
    assert!(hb.invincible);
    assert_eq!(hb.vel, v(30_000, 0));
}

#[test]
fn health_saturates_at_zero() {
    let mut hb = hurtbox(Team::Enemy, 1);
    assert!(apply_hit(&mut hb, v(0, 0), &event(v(0, 10_000), 5, CanHitTeam::Enemy)));
    assert_eq!(hb.health, 0);
    assert_eq!(hb.vel, v(0, -30_000));
    let mut full = hurtbox(Team::Enemy, u64::MAX);
    assert!(apply_hit(&mut full, v(0, 0), &event(v(0, 0), u64::MAX, CanHitTeam::Enemy)));
    assert_eq!(full.health, 0);
}

#[test]
fn knockback_from_same_position_uses_positive_x() {
    let mut hb = hurtbox(Team::Enemy, 10);
    assert!(apply_hit(&mut hb, v(5_000, 5_000), &event(v(5_000, 5_000), 1, CanHitTeam::Enemy)));
    assert_eq!(hb.vel, v(30_000, 0));
}

#[test]
fn invincible_hurtbox_is_not_hit() {
    let mut hb = hurtbox(Team::Enemy, 10);
    hb.invincible = true;
    let before = hb;
    assert!(!apply_hit(&mut hb, v(0, 0), &event(v(0, 0), 3, CanHitTeam::Enemy)));
    assert_eq!(hb, before);
}

#[test]
fn wrong_team_or_no_overlap_is_not_hit() {
    let mut hb = hurtbox(Team::Player, 10);
    assert!(!apply_hit(&mut hb, v(0, 0), &event(v(0, 0), 3, CanHitTeam::Enemy)));
    assert_eq!(hb.health, 10);
    assert!(!apply_hit(&mut hb, v(0, 0), &event(v(500_000, 0), 3, CanHitTeam::Player)));
    assert_eq!(hb.health, 10);
    assert!(!hb.is_hit);
}

#[test]
fn first_event_of_a_tick_wins() {
    let mut actors = vec![skeleton_actor(0, v(0, 0))];
    let events = vec![event(v(-10_000, 0), 2, CanHitTeam::Enemy), event(v(10_000, 0), 5, CanHitTeam::Enemy)];
    take_damage(&mut actors, &events);
    assert_eq!(actors[0].hurtbox.health, 8);
    assert_eq!(actors[0].hurtbox.vel, v(30_000, 0));
}

#[test]
fn invincible_actor_survives_a_whole_tick_of_events() {
    let mut actors = vec![skeleton_actor(0, v(0, 0)), skeleton_actor(1, v(0, 0))];
    actors[0].hurtbox.invincible = true;
    let before = actors[0];
    let events = vec![event(v(0, 0), 2, CanHitTeam::Enemy), event(v(1_000, 0), 2, CanHitTeam::Enemy)];
    take_damage(&mut actors, &events);
    assert_eq!(actors[0], before);
    assert_eq!(actors[1].hurtbox.health, 8);
}

#[test]
fn physics_moves_then_slows() {
    let mut actors = vec![skeleton_actor(0, v(1_000, 1_000))];
    actors[0].hurtbox.vel = v(10_000, -3);
    physics_system(&mut actors);
    assert_eq!(actors[0].position, v(11_000, 997));
    assert_eq!(actors[0].hurtbox.vel, v(8_000, -2));
    physics_system(&mut actors);
    assert_eq!(actors[0].position, v(19_000, 995));
    assert_eq!(actors[0].hurtbox.vel, v(6_400, -1));
}

#[test]
fn death_pass_rewards_each_kill() {
    let mut actors = vec![
        skeleton_actor(0, v(0, 0)),
        player_actor(1, v(0, 0)),
        skeleton_actor(2, v(0, 0)),
        skeleton_actor(3, v(0, 0)),
    ];
    actors[0].hurtbox.health = 0;
    actors[3].hurtbox.health = 0;
    die_system(&mut actors);
    assert_eq!(actors.len(), 2);
    assert_eq!(actors[0].id, 1);
    assert_eq!(actors[1].id, 2);
    let p = player_of(&actors[0]);
    assert_eq!(p.exp, 200);
    assert_eq!(p.money, 400);
}

#[test]
fn dead_player_is_removed_without_reward() {
    let mut actors = vec![player_actor(0, v(0, 0)), skeleton_actor(1, v(0, 0))];
    actors[0].hurtbox.health = 0;
    die_system(&mut actors);
    assert_eq!(actors.len(), 1);
    assert_eq!(actors[0].id, 1);
    assert_eq!(find_player(&actors), None);
}

#[test]
fn death_pass_is_idempotent() {
    let mut actors = vec![player_actor(0, v(0, 0)), skeleton_actor(1, v(0, 0))];
    actors[1].hurtbox.health = 0;
    die_system(&mut actors);
    die_system(&mut actors);
    assert_eq!(actors.len(), 1);
    let p = player_of(&actors[0]);
    assert_eq!(p.exp, 100);
    assert_eq!(p.money, 200);
}

#[test]
fn player_singleton_lookup() {
    let none = vec![skeleton_actor(0, v(0, 0))];
    assert_eq!(find_player(&none), None);
    let one = vec![skeleton_actor(0, v(0, 0)), player_actor(1, v(0, 0))];
    assert_eq!(find_player(&one), Some(1));
    let two = vec![player_actor(0, v(0, 0)), player_actor(1, v(0, 0))];
    assert_eq!(find_player(&two), None);
}

#[test]
fn grunt_killed_by_five_hits_rewards_once() {
    let mut actors = vec![player_actor(0, v(0, 0)), skeleton_actor(1, v(100_000, 0))];
    let slash = vec![event(v(100_000, 0), 2, CanHitTeam::Enemy)];
    for hit in 0..5 {
        let mut waited = 0;
        while actors[1].hurtbox.invincible || actors[1].hurtbox.is_hit {
            let mut ignored = Vec::new();
            skeleton_system(&mut actors, Some(v(0, 0)), &mut ignored);
            waited += 1;
            assert!(waited < 40);
        }
        take_damage(&mut actors, &slash);
        assert_eq!(actors[1].hurtbox.health, 10 - 2 * (hit + 1));
    }
    assert_eq!(actors[1].hurtbox.health, 0);
    die_system(&mut actors);
    assert_eq!(actors.len(), 1);
    die_system(&mut actors);
    let p = player_of(&actors[0]);
    assert_eq!(p.exp, 100);
    assert_eq!(p.money, 200);
}

#[test]
fn invincible_player_ignores_second_hit() {
    let mut actors = vec![player_actor(0, v(0, 0))];
    let contact = vec![HitBoxEvent {
        position: v(10_000, 0),
        size: v(50_000, 90_000),
        damage: 2,
        knockback: 30_000,
        can_hit: CanHitTeam::Player,
    }];
    take_damage(&mut actors, &contact);
    assert_eq!(actors[0].hurtbox.health, 18);
    assert!(actors[0].hurtbox.is_hit);
    let mut events = Vec::new();
    player_system(&mut actors, &Controls::none(), &MouseState { world_position: None }, &mut events);
    assert_eq!(player_of(&actors[0]).action, PlayerAction::Damaged);
    assert!(!actors[0].hurtbox.is_hit);
    assert!(actors[0].hurtbox.invincible);
    let vel = actors[0].hurtbox.vel;
    take_damage(&mut actors, &contact);
    assert_eq!(actors[0].hurtbox.health, 18);
    assert!(!actors[0].hurtbox.is_hit);
    assert_eq!(actors[0].hurtbox.vel, vel);
}

#[test]
fn skeleton_chases_and_hits_with_its_body() {
    let mut actors = vec![skeleton_actor(0, v(100_000, 0))];
    let mut events = Vec::new();
    skeleton_system(&mut actors, Some(v(0, 0)), &mut events);
    assert_eq!(actors[0].hurtbox.vel, v(-1_500, 0));
    assert_eq!(events.len(), 1);
    assert_eq!(events[0].position, v(100_000, 0));
    assert_eq!(events[0].size, v(50_000, 90_000));
    assert_eq!(events[0].damage, 2);
    assert_eq!(events[0].can_hit, CanHitTeam::Player);
}

#[test]
fn skeleton_without_player_does_nothing() {
    let mut actors = vec![skeleton_actor(0, v(100_000, 0))];
    let before = actors.clone();
    let mut events = Vec::new();
    skeleton_system(&mut actors, None, &mut events);
    assert_eq!(actors, before);
    assert!(events.is_empty());
}

#[test]
fn skeleton_recovers_after_its_window() {
    let mut actors = vec![skeleton_actor(0, v(100_000, 0))];
    actors[0].hurtbox.is_hit = true;
    actors[0].hurtbox.invincible = true;
    let mut events = Vec::new();
    for _ in 0..16 {
        skeleton_system(&mut actors, Some(v(0, 0)), &mut events);
        match actors[0].kind {
            ActorKind::Skeleton(s) => assert_eq!(s.action, SkeletonAction::Damaged),
            _ => panic!("not a skeleton"),
        }
        assert!(actors[0].hurtbox.invincible);
    }
    assert!(events.is_empty());
    skeleton_system(&mut actors, Some(v(0, 0)), &mut events);
    match actors[0].kind {
        ActorKind::Skeleton(s) => assert_eq!(s.action, SkeletonAction::Walk),
        _ => panic!("not a skeleton"),
    }
    skeleton_system(&mut actors, Some(v(0, 0)), &mut events);
    assert!(!actors[0].hurtbox.invincible);
    assert_eq!(events.len(), 1);
}
