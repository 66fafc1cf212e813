use townskeep::collision::{CanHitTeam, Hurtbox, Team};
use townskeep::geom::Vec2;
use townskeep::mouse::{Controls, MouseState};
use townskeep::shopkeeper::{
    roll_ability, shopkeeper_system, Ability, Shopkeeper, ShopkeeperAction, ShopkeeperBundle,
};
use townskeep::skeleton::{SkeletonAction, SkeletonBundle};
use townskeep::world::{debug_hurtboxes, Actor, ActorKind, Hud, Notice, World};

fn v(x: i64, y: i64) -> Vec2 {
    Vec2::new(x, y)
}

fn no_cursor() -> MouseState {
    MouseState { world_position: None }
}

fn boss(action: ShopkeeperAction, frame: u64, since: u64) -> (Shopkeeper, Hurtbox) {
    let b = ShopkeeperBundle::new(v(0, 0));
    let k = Shopkeeper { action, frame, frames_since_last_ability: since };
    (k, b.hurtbox)
}

fn boss_actor(id: u64, position: Vec2, action: ShopkeeperAction, frame: u64, since: u64) -> Actor {
    let (k, hb) = boss(action, frame, since);
    Actor { id, position, hurtbox: hb, kind: ActorKind::Shopkeeper(k) }
}

fn new_game() -> World {
    let mut w = World::new();
    w.spawn_entities();
    w
}

#[test]
fn new_game_has_boss_then_player() {
    let w = new_game();
    assert_eq!(w.actors.len(), 2);
    assert_eq!(w.next_id, 2);
    assert_eq!(w.actors[0].id, 0);
    assert_eq!(w.actors[0].position, v(400_000, 0));
    assert!(matches!(w.actors[0].kind, ActorKind::Shopkeeper(_)));
    assert_eq!(w.actors[0].hurtbox.health, 50);
    assert_eq!(w.actors[1].id, 1);
    assert_eq!(w.actors[1].position, v(0, 0));
    assert!(matches!(w.actors[1].kind, ActorKind::Player(_)));
    assert_eq!(w.actors[1].hurtbox.team, Team::Player);
}

#[test]
fn spawn_hands_out_fresh_ids() {
    let mut w = World::new();
    assert_eq!(w.spawn_skeleton(v(1, 2)), Some(0));
    assert_eq!(w.spawn_skeleton(v(3, 4)), Some(1));
    assert_eq!(w.actors[1].position, v(3, 4));
    assert_eq!(w.actors[1].hurtbox.health, 10);
    w.next_id = u64::MAX;
    assert_eq!(w.spawn_skeleton(v(5, 6)), None);
    assert_eq!(w.actors.len(), 2);
}

#[test]
fn despawn_twice_is_a_no_op() {
    let mut w = World::new();
    w.spawn_skeleton(v(0, 0));
    w.spawn_skeleton(v(1, 0));
    w.spawn_skeleton(v(2, 0));
    assert!(w.despawn(1));
    assert_eq!(w.actors.len(), 2);
    assert_eq!(w.actors[0].id, 0);
    assert_eq!(w.actors[1].id, 2);
    assert!(!w.despawn(1));
    assert_eq!(w.actors.len(), 2);
    assert_eq!(w.spawn_skeleton(v(0, 0)), Some(3));
}

#[test]
fn clear_keeps_ids_fresh() {
    let mut w = new_game();
    w.clear();
    assert!(w.actors.is_empty());
    assert_eq!(w.spawn_skeleton(v(0, 0)), Some(2));
}

#[test]
fn summoning_places_six_minions() {
    let (mut k, mut hb) = boss(ShopkeeperAction::SpawnMinions, 50, 0);
    let mut events = Vec::new();
    let mut spawns = Vec::new();
    k.step(&mut hb, v(0, 0), v(100_000, 0), Ability::Blast, &mut events, &mut spawns);
    assert_eq!(
        spawns,
        vec![
            v(0, 500_000),
            v(0, 300_000),
            v(0, 100_000),
            v(0, -100_000),
            v(0, -300_000),
            v(0, -500_000),
        ]
    );
    assert!(events.is_empty());
    assert!(hb.invincible);
    assert_eq!(hb.vel, v(0, 20_000));
}

#[test]
fn summoning_in_a_tick_adds_six_grunts() {
    let mut w = World::new();
    w.spawn(boss_actor(0, v(0, 0), ShopkeeperAction::SpawnMinions, 50, 0));
    let player = townskeep::player::PlayerBundle::new();
    w.spawn(Actor {
        id: 0,
        position: v(100_000, 0),
        hurtbox: player.hurtbox,
        kind: ActorKind::Player(player.player),
    });
    w.tick_with(&Controls::none(), &no_cursor(), Ability::Blast);
    assert_eq!(w.actors.len(), 8);
    let offsets = [500_000, 300_000, 100_000, -100_000, -300_000, -500_000];
    for (n, dy) in offsets.iter().enumerate() {
        let a = &w.actors[2 + n];
        assert_eq!(a.id, 2 + n as u64);
        assert_eq!(a.position, v(0, *dy));
        assert!(matches!(
            a.kind,
            ActorKind::Skeleton(s) if s.action == SkeletonAction::Walk && s.frame == 0
        ));
    }
    assert_eq!(w.next_id, 8);
}

#[test]
fn ability_triggers_after_cooldown() {
    let (mut k, mut hb) = boss(ShopkeeperAction::Walk, 5, 301);
    let mut events = Vec::new();
    let mut spawns = Vec::new();
    k.step(&mut hb, v(0, 0), v(0, 200_000), Ability::SpawnMinions, &mut events, &mut spawns);
    assert_eq!(k.action, ShopkeeperAction::SpawnMinions);
    assert_eq!(k.frame, 1);
    assert_eq!(hb.vel, v(0, 1_500));
    let (mut k, mut hb) = boss(ShopkeeperAction::Walk, 5, 300);
    k.step(&mut hb, v(0, 0), v(0, 200_000), Ability::Blast, &mut events, &mut spawns);
    assert_eq!(k.action, ShopkeeperAction::Walk);
    assert_eq!(k.frames_since_last_ability, 301);
}

#[test]
fn boss_wakes_only_when_player_is_close() {
    let (mut k, mut hb) = boss(ShopkeeperAction::Idle, 3, 77);
    let mut events = Vec::new();
    let mut spawns = Vec::new();
    k.step(&mut hb, v(0, 0), v(100_000, 0), Ability::Blast, &mut events, &mut spawns);
    assert_eq!(k.action, ShopkeeperAction::Idle);
    k.step(&mut hb, v(0, 0), v(60_000, 79_999), Ability::Blast, &mut events, &mut spawns);
    assert_eq!(k.action, ShopkeeperAction::Walk);
    assert_eq!(k.frames_since_last_ability, 1);
}

#[test]
fn blast_recoils_then_strikes() {
    let (mut k, mut hb) = boss(ShopkeeperAction::Blast, 0, 0);
    let mut events = Vec::new();
    let mut spawns = Vec::new();
    k.step(&mut hb, v(0, 0), v(100_000, 0), Ability::Blast, &mut events, &mut spawns);
    assert_eq!(hb.vel, v(-10_000, 0));
    assert!(hb.invincible);
    let (mut k, mut hb) = boss(ShopkeeperAction::Blast, 56, 0);
    k.step(&mut hb, v(0, 0), v(0, -100_000), Ability::Blast, &mut events, &mut spawns);
    assert_eq!(events.len(), 1);
    assert_eq!(events[0].position, v(0, -150_000));
    assert_eq!(events[0].size, v(300_000, 300_000));
    assert_eq!(events[0].damage, 5);
    assert_eq!(events[0].knockback, 70_000);
    assert_eq!(events[0].can_hit, CanHitTeam::Player);
    let (mut k, mut hb) = boss(ShopkeeperAction::Blast, 106, 400);
    k.step(&mut hb, v(0, 0), v(0, -100_000), Ability::Blast, &mut events, &mut spawns);
    assert_eq!(k.action, ShopkeeperAction::Walk);
    assert_eq!(k.frames_since_last_ability, 1);
    assert!(!hb.invincible);
}

#[test]
fn boss_system_needs_a_player() {
    let mut actors = vec![boss_actor(0, v(0, 0), ShopkeeperAction::SpawnMinions, 50, 0)];
    let before = actors.clone();
    let mut events = Vec::new();
    let mut spawns = Vec::new();
    shopkeeper_system(&mut actors, None, Ability::Blast, &mut events, &mut spawns);
    assert_eq!(actors, before);
    assert!(spawns.is_empty());
    shopkeeper_system(&mut actors, Some(v(100_000, 0)), Ability::Blast, &mut events, &mut spawns);
    assert_eq!(spawns.len(), 6);
}

#[test]
fn random_pick_yields_both_abilities() {
    let mut seen_blast = false;
    let mut seen_summon = false;
    for _ in 0..400 {
        match roll_ability() {
            Ability::Blast => seen_blast = true,
            Ability::SpawnMinions => seen_summon = true,
        }
    }
    assert!(seen_blast && seen_summon);
}

#[test]
fn game_over_and_restart() {
    let mut w = World::new();
    w.spawn_skeleton(v(0, 0));
    let mut keys = Controls::none();
    assert_eq!(w.game_over(&keys), Some(Notice::GameOver));
    assert_eq!(w.actors.len(), 1);
    keys.restart = true;
    assert_eq!(w.game_over(&keys), Some(Notice::GameOver));
    assert_eq!(w.actors.len(), 2);
    assert_eq!(w.actors[0].id, 1);
    assert_eq!(w.actors[1].id, 2);
    assert!(matches!(w.actors[1].kind, ActorKind::Player(_)));
    let mut keys = Controls::none();
    assert_eq!(w.game_over(&keys), None);
    keys.any_pressed = true;
    assert_eq!(w.game_over(&keys), Some(Notice::Blank));
}

#[test]
fn victory_when_no_enemy_left() {
    let mut w = new_game();
    assert_eq!(w.victory(), None);
    assert!(w.despawn(0));
    assert_eq!(w.victory(), Some(Notice::Victory));
}

#[test]
fn hud_reports_the_player() {
    let mut w = new_game();
    if let ActorKind::Player(mut p) = w.actors[1].kind {
        p.exp = 250;
        p.money = 40;
        w.actors[1].kind = ActorKind::Player(p);
    }
    assert_eq!(
        w.update_hud(),
        Some(Hud { health: 20, money: 40, exp: 250, exp_per_level: 100, level: 2 })
    );
    w.despawn(1);
    assert_eq!(w.update_hud(), None);
}

#[test]
fn tick_with_no_player_only_moves() {
    let mut w = World::new();
    let b = SkeletonBundle::new(v(0, 0));
    let mut hb = b.hurtbox;
    hb.vel = v(5_000, 0);
    w.spawn(Actor { id: 0, position: v(0, 0), hurtbox: hb, kind: ActorKind::Skeleton(b.skeleton) });
    w.tick(&Controls::none(), &no_cursor());
    assert_eq!(w.actors[0].position, v(5_000, 0));
    assert_eq!(w.actors[0].hurtbox.vel, v(4_000, 0));
    assert!(matches!(w.actors[0].kind, ActorKind::Skeleton(s) if s.frame == 0));
}

#[test]
fn grunt_touching_player_hurts_it_in_a_tick() {
    let mut w = World::new();
    let player = townskeep::player::PlayerBundle::new();
    w.spawn(Actor {
        id: 0,
        position: v(0, 0),
        hurtbox: player.hurtbox,
        kind: ActorKind::Player(player.player),
    });
    w.spawn_skeleton(v(20_000, 0));
    let events = w.tick_with(&Controls::none(), &no_cursor(), Ability::Blast);
    assert_eq!(events.len(), 1);
    assert_eq!(events[0].position, v(20_000, 0));
    assert_eq!(w.actors[0].hurtbox.health, 18);
    assert!(w.actors[0].hurtbox.is_hit);
    assert!(w.actors[0].hurtbox.invincible);
    assert_eq!(w.actors[0].hurtbox.vel, v(-30_000, 0));
    assert_eq!(w.actors[1].position, v(18_500, 0));
}

#[test]
fn hurtbox_outlines_follow_arena_order() {
    let w = new_game();
    let lines = debug_hurtboxes(&w.actors);
    assert_eq!(lines.len(), 8);
    assert_eq!(lines[0].from, v(385_000, -25_000));
    assert_eq!(lines[4].from, v(-15_000, -25_000));
}

#[test]
fn blast_cast_strikes_exactly_once() {
    let (mut k, mut hb) = boss(ShopkeeperAction::Blast, 0, 0);
    let mut events = Vec::new();
    let mut spawns = Vec::new();
    for frame in 0..=105u64 {
        k.step(&mut hb, v(0, 0), v(100_000, 0), Ability::Blast, &mut events, &mut spawns);
        assert_eq!(k.action, ShopkeeperAction::Blast, "frame {}", frame);
        assert!(hb.invincible);
        assert_eq!(events.len(), if frame >= 56 { 1 } else { 0 });
    }
    k.step(&mut hb, v(0, 0), v(100_000, 0), Ability::Blast, &mut events, &mut spawns);
    assert_eq!(k.action, ShopkeeperAction::Walk);
    assert!(!hb.invincible);
    assert_eq!(events.len(), 1);
    assert_eq!(events[0].position, v(150_000, 0));
}
