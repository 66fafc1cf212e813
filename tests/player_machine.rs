use townskeep::collision::{CanHitTeam, HitBoxEvent, Hurtbox};
use townskeep::geom::Vec2;
use townskeep::mouse::{Controls, MouseState};
use townskeep::player::{Facing, Player, PlayerAction, PlayerBundle};

fn v(x: i64, y: i64) -> Vec2 {
    Vec2::new(x, y)
}

fn fresh() -> (Player, Hurtbox) {
    let b = PlayerBundle::new();
    (b.player, b.hurtbox)
}

fn cursor(x: i64, y: i64) -> MouseState {
    MouseState { world_position: Some(v(x, y)) }
}

fn no_cursor() -> MouseState {
    MouseState { world_position: None }
}

fn step(p: &mut Player, hb: &mut Hurtbox, keys: &Controls, m: &MouseState) -> Vec<HitBoxEvent> {
    let mut events = Vec::new();
    p.step(hb, v(0, 0), keys, m, &mut events);
    events
}

#[test]
fn new_player_defaults() {
    let (p, hb) = fresh();
    assert_eq!(p.action, PlayerAction::Idle);
    assert_eq!(p.facing, Facing::Right);
    assert_eq!(p.frame, 0);
    assert_eq!(p.exp, 0);
    assert_eq!(hb.health, 20);
    assert_eq!(hb.size, v(30_000, 50_000));
    assert_eq!(Player::new(), p);
}

#[test]
fn level_is_exp_over_a_hundred() {
    let mut p = Player::new();
    p.exp = 250;
    assert_eq!(p.level(), 2);
    p.exp = 99;
    assert_eq!(p.level(), 0);
}

#[test]
fn set_action_restarts_frame() {
    let mut p = Player::new();
    p.frame = 12;
    p.set_action(PlayerAction::Walk);
    assert_eq!(p.frame, 0);
    assert_eq!(p.action, PlayerAction::Walk);
}

#[test]
fn facing_follows_the_larger_axis() {
    let mut p = Player::new();
    p.set_facing_by_angle(v(1, 5));
    assert_eq!(p.facing, Facing::Up);
    p.set_facing_by_angle(v(-1, -5));
    assert_eq!(p.facing, Facing::Down);
    p.set_facing_by_angle(v(-5, 0));
    assert_eq!(p.facing, Facing::Left);
    p.set_facing_by_angle(v(3, -3));
    assert_eq!(p.facing, Facing::Right);
    p.set_facing_by_angle(v(0, 0));
    assert_eq!(p.facing, Facing::Right);
}

#[test]
fn walk_entry_and_exit() {
    let mut p = Player::new();
    let mut keys = Controls::none();
    assert!(p.check_enter_walk(&keys));
    assert_eq!(p.action, PlayerAction::Idle);
    keys.left = true;
    assert!(!p.check_enter_walk(&keys));
    assert_eq!(p.action, PlayerAction::Walk);
    assert!(p.check_leave_walk(&keys));
    keys.left = false;
    assert!(!p.check_leave_walk(&keys));
    assert_eq!(p.action, PlayerAction::Idle);
}

#[test]
fn walking_diagonally_keeps_speed() {
    let (mut p, mut hb) = fresh();
    let mut keys = Controls::none();
    keys.up = true;
    keys.left = true;
    step(&mut p, &mut hb, &keys, &no_cursor());
    assert_eq!(p.action, PlayerAction::Walk);
    step(&mut p, &mut hb, &keys, &no_cursor());
    assert_eq!(hb.vel, v(-4_243, 4_243));
    assert_eq!(p.facing, Facing::Left);
    keys.left = false;
    step(&mut p, &mut hb, &keys, &no_cursor());
    assert_eq!(hb.vel, v(0, 6_000));
    assert_eq!(p.facing, Facing::Up);
    let released = Controls::none();
    step(&mut p, &mut hb, &released, &no_cursor());
    assert_eq!(p.action, PlayerAction::Idle);
}

#[test]
fn slash_lunges_and_strikes_once() {
    let (mut p, mut hb) = fresh();
    let mut keys = Controls::none();
    keys.slash = true;
    let m = cursor(100_000, 0);
    let events = step(&mut p, &mut hb, &keys, &m);
    assert!(events.is_empty());
    assert_eq!(p.action, PlayerAction::Slash { aim: v(100_000, 0) });
    assert_eq!(p.facing, Facing::Right);
    assert_eq!(hb.vel, v(4_000, 0));
    let quiet = Controls::none();
    let mut all = Vec::new();
    for _ in 0..17 {
        all.extend(step(&mut p, &mut hb, &quiet, &m));
        assert!(matches!(p.action, PlayerAction::Slash { .. }));
    }
    assert_eq!(all.len(), 1);
    assert_eq!(
        all[0],
        HitBoxEvent {
            position: v(70_000, 0),
            size: v(60_000, 60_000),
            damage: 2,
            knockback: 30_000,
            can_hit: CanHitTeam::Enemy,
        }
    );
    step(&mut p, &mut hb, &quiet, &m);
    assert_eq!(p.action, PlayerAction::Idle);
}

#[test]
fn slash_without_cursor_does_nothing() {
    let (mut p, mut hb) = fresh();
    let mut keys = Controls::none();
    keys.slash = true;
    keys.right = true;
    step(&mut p, &mut hb, &keys, &no_cursor());
    assert_eq!(p.action, PlayerAction::Idle);
    assert_eq!(hb.vel, v(0, 0));
}

#[test]
fn dash_ignored_during_cooldown() {
    let (mut p, mut hb) = fresh();
    p.frame_since_last_cooldown = 60;
    let mut keys = Controls::none();
    keys.dash = true;
    step(&mut p, &mut hb, &keys, &cursor(0, 100_000));
    assert_eq!(p.action, PlayerAction::Idle);
    assert_eq!(p.frame_since_last_cooldown, 61);
    assert!(!hb.invincible);
}

#[test]
fn dash_after_cooldown_resets_counter() {
    let (mut p, mut hb) = fresh();
    p.frame_since_last_cooldown = 61;
    let mut keys = Controls::none();
    keys.dash = true;
    let m = cursor(0, 100_000);
    assert!(!p.check_actions(&keys, &m, &mut hb, v(0, 0)));
    assert_eq!(p.action, PlayerAction::Dash { aim: v(0, 100_000) });
    assert_eq!(p.frame_since_last_cooldown, 0);
    assert_eq!(p.facing, Facing::Up);
    assert!(hb.invincible);
}

#[test]
fn dash_runs_its_course() {
    let (mut p, mut hb) = fresh();
    p.frame_since_last_cooldown = 100;
    let mut keys = Controls::none();
    keys.dash = true;
    let m = cursor(0, -100_000);
    step(&mut p, &mut hb, &keys, &m);
    assert_eq!(p.frame_since_last_cooldown, 1);
    let quiet = Controls::none();
    step(&mut p, &mut hb, &quiet, &m);
    assert_eq!(hb.vel, v(0, -50_000));
    assert!(hb.invincible);
    for _ in 0..5 {
        step(&mut p, &mut hb, &quiet, &m);
        assert!(hb.invincible);
    }
    assert!(matches!(p.action, PlayerAction::Dash { .. }));
    step(&mut p, &mut hb, &quiet, &m);
    assert!(!hb.invincible);
    assert_eq!(p.action, PlayerAction::Idle);
}

#[test]
fn damaged_window_then_idle() {
    let (mut p, mut hb) = fresh();
    hb.is_hit = true;
    hb.invincible = true;
    let quiet = Controls::none();
    for pass in 0..6 {
        step(&mut p, &mut hb, &quiet, &no_cursor());
        assert_eq!(p.action, PlayerAction::Damaged, "pass {}", pass);
        assert!(hb.invincible);
        assert!(!hb.is_hit);
    }
    step(&mut p, &mut hb, &quiet, &no_cursor());
    assert!(!hb.invincible);
    assert_eq!(p.action, PlayerAction::Idle);
}

#[test]
fn hit_interrupts_any_action() {
    let (mut p, mut hb) = fresh();
    p.set_action(PlayerAction::Slash { aim: v(1, 0) });
    hb.is_hit = true;
    let events = step(&mut p, &mut hb, &Controls::none(), &no_cursor());
    assert!(events.is_empty());
    assert_eq!(p.action, PlayerAction::Damaged);
    assert_eq!(p.frame, 1);
}

#[test]
fn idle_restarts_after_timeout() {
    let (mut p, mut hb) = fresh();
    p.frame = 91;
    p.idle_action(&Controls::none(), &no_cursor(), &mut hb, v(0, 0));
    assert_eq!(p.frame, 0);
    assert_eq!(p.action, PlayerAction::Idle);
}

#[test]
fn sprite_cells() {
    let mut p = Player::new();
    assert_eq!(p.sprite_index(), 2);
    p.frame = 45;
    assert_eq!(p.sprite_index(), 3);
    p.set_action(PlayerAction::Walk);
    assert_eq!(p.sprite_index(), 0);
    p.frame = 20;
    assert_eq!(p.sprite_index(), 1);
    assert!(!p.sprite_flip());
    p.facing = Facing::Left;
    assert!(p.sprite_flip());
}

#[test]
fn dash_end_does_not_chain_into_another() {
    let (mut p, mut hb) = fresh();
    p.frame_since_last_cooldown = 100;
    let mut keys = Controls::none();
    keys.dash = true;
    let m = cursor(100_000, 0);
    for _ in 0..8 {
        step(&mut p, &mut hb, &keys, &m);
        if let PlayerAction::Dash { .. } = p.action {
            assert_eq!(p.frame_since_last_cooldown, p.frame);
        }
    }
    assert_eq!(p.action, PlayerAction::Idle);
    assert!(!hb.invincible);
    assert_eq!(p.frame_since_last_cooldown, 8);
}
