//! The boss: waits until the player comes close, then chases, and every so
//! often casts one of two abilities picked at random.
use vstd::prelude::*;

use rand::seq::SliceRandom;

use crate::collision::{CanHitTeam, HitBoxEvent, Hurtbox, Team};
use crate::geom::{
    clamp_to_world, clamped, diff, heading, minus, negate, negated, plus, quarter_turn, sum,
    toward, turn_quarter, vec_of, Vec2, UNIT, WORLD_LIMIT,
};
use crate::player::opt_seq;
use crate::world::{all_wf, same_ids, Actor, ActorKind};

verus! {

/// The boss wakes when the player comes closer than this.
pub const AGGRO_RADIUS: i64 = 100 * UNIT;

/// Chasing speed: one and a half pixels a tick.
pub const SHOPKEEPER_SPEED: i64 = 1500;

/// An ability is cast once more than this many frames have passed since the
/// last one.
pub const ABILITY_COOLDOWN: u64 = 300;

/// Frames at the start of a blast that push the boss away from the player.
pub const BLAST_RECOIL_FRAMES: u64 = 8;

pub const BLAST_RECOIL_SPEED: i64 = 10 * UNIT;

/// The blast's single hitbox comes out on this frame, in the middle of the
/// cast.
pub const BLAST_ACTIVE_FRAME: u64 = 56;

/// A blast ends on the first frame after this one.
pub const BLAST_END: u64 = 105;

/// Distance from the boss to the centre of the blast.
pub const BLAST_REACH: i64 = 150 * UNIT;

/// Side of the blast's square hitbox.
pub const BLAST_SIZE: i64 = 300 * UNIT;

pub const BLAST_DAMAGE: u64 = 5;

pub const BLAST_KNOCKBACK: i64 = 70 * UNIT;

/// Speed of the side-to-side sway while summoning.
pub const SWAY_SPEED: i64 = 20 * UNIT;

/// The minions appear on this frame of the summoning.
pub const SPAWN_FRAME: u64 = 50;

/// A summoning ends on the first frame after this one.
pub const SPAWN_END: u64 = 60;

/// Distances from the boss, across the line to the player, at which minions
/// appear, on both sides.
pub const MINION_FAR: i64 = 500 * UNIT;

pub const MINION_MID: i64 = 300 * UNIT;

pub const MINION_NEAR: i64 = 100 * UNIT;

/// Damaged ends on the first frame after this one.
pub const SHOPKEEPER_RECOVERY: u64 = 10;

pub const SHOPKEEPER_WIDTH: i64 = 30 * UNIT;

pub const SHOPKEEPER_HEIGHT: i64 = 50 * UNIT;

pub const SHOPKEEPER_HEALTH: u64 = 50;

#[derive(Clone, Copy, Debug, PartialEq, Eq, Structural)]
pub enum ShopkeeperAction {
    Idle,
    Walk,
    SpawnMinions,
    Blast,
    Damaged,
}

/// The abilities the boss picks between.
#[derive(Clone, Copy, Debug, PartialEq, Eq, Structural)]
pub enum Ability {
    SpawnMinions,
    Blast,
}

impl Ability {
    pub open spec fn action(self) -> ShopkeeperAction {
        match self {
            Ability::SpawnMinions => ShopkeeperAction::SpawnMinions,
            Ability::Blast => ShopkeeperAction::Blast,
        }
    }
}

#[derive(Clone, Copy, Debug, PartialEq, Eq, Structural)]
pub struct Shopkeeper {
    pub action: ShopkeeperAction,
    /// Ticks spent in the current action.
    pub frame: u64,
    /// Ticks since the last ability ended, or since the boss woke.
    pub frames_since_last_ability: u64,
}

/// The player at offset `d` is within the aggro radius.
pub open spec fn in_aggro(d: Vec2) -> bool {
    d.x * d.x + d.y * d.y < AGGRO_RADIUS * AGGRO_RADIUS
}

/// The blast's hitbox for a boss at `pos` with the player at offset `d`.
pub open spec fn blast_hitbox(pos: Vec2, d: Vec2) -> HitBoxEvent {
    HitBoxEvent {
        position: sum(pos, heading(d, BLAST_REACH as int)),
        size: vec_of(BLAST_SIZE as int, BLAST_SIZE as int),
        damage: BLAST_DAMAGE,
        knockback: BLAST_KNOCKBACK,
        can_hit: CanHitTeam::Player,
    }
}

/// The point `dist` along `perp` from `pos` (against it when `back`), kept on
/// the play field.
pub open spec fn minion_spot(pos: Vec2, perp: Vec2, dist: int, back: bool) -> Vec2 {
    clamped(
        sum(
            pos,
            if back {
                negated(heading(perp, dist))
            } else {
                heading(perp, dist)
            },
        ),
    )
}

/// The six places where minions appear, along the line through the boss
/// across the direction to the player, farthest on the one side first.
pub open spec fn minion_spots(pos: Vec2, perp: Vec2) -> Seq<Vec2> {
    seq![
        minion_spot(pos, perp, MINION_FAR as int, false),
        minion_spot(pos, perp, MINION_MID as int, false),
        minion_spot(pos, perp, MINION_NEAR as int, false),
        minion_spot(pos, perp, MINION_NEAR as int, true),
        minion_spot(pos, perp, MINION_MID as int, true),
        minion_spot(pos, perp, MINION_FAR as int, true),
    ]
}

/// One Blast pass with the player at offset `d`: invincible; pushed away
/// from the player early on; one hitbox on the active frame; at the end
/// vulnerable again, the cooldown restarted, and back to Walk.
pub open spec fn blast_next(k: Shopkeeper, hb: Hurtbox, pos: Vec2, d: Vec2) -> (
    Shopkeeper,
    Hurtbox,
    Option<HitBoxEvent>,
) {
    let hb1 = Hurtbox {
        invincible: true,
        vel: if k.frame < BLAST_RECOIL_FRAMES {
            negated(heading(d, BLAST_RECOIL_SPEED as int))
        } else {
            hb.vel
        },
        ..hb
    };
    let ev = if k.frame == BLAST_ACTIVE_FRAME {
        Some(blast_hitbox(pos, d))
    } else {
        None
    };
    if k.frame > BLAST_END {
        (
            Shopkeeper { frames_since_last_ability: 0, ..k.with_action(ShopkeeperAction::Walk) },
            Hurtbox { invincible: false, ..hb1 },
            ev,
        )
    } else {
        (k, hb1, ev)
    }
}

/// One SpawnMinions pass with the player at offset `d`: invincible, swaying
/// across the line to the player; the minions placed on the spawn frame; at
/// the end vulnerable again, the cooldown restarted, and back to Walk.
pub open spec fn summon_next(k: Shopkeeper, hb: Hurtbox, pos: Vec2, d: Vec2) -> (
    Shopkeeper,
    Hurtbox,
    Seq<Vec2>,
) {
    let sway = heading(quarter_turn(d), SWAY_SPEED as int);
    let hb1 = Hurtbox {
        invincible: true,
        vel: if k.frame % 2 == 0 {
            sway
        } else {
            negated(sway)
        },
        ..hb
    };
    let spawns = if k.frame == SPAWN_FRAME {
        minion_spots(pos, quarter_turn(d))
    } else {
        Seq::empty()
    };
    if k.frame > SPAWN_END {
        (
            Shopkeeper { frames_since_last_ability: 0, ..k.with_action(ShopkeeperAction::Walk) },
            Hurtbox { invincible: false, ..hb1 },
            spawns,
        )
    } else {
        (k, hb1, spawns)
    }
}

/// The boss's pass for one tick with the player at `target`; `pick` is the
/// ability cast if the cooldown runs out this tick. Returns the new state,
/// any hitbox, and where minions are to appear. A fresh hit forces Damaged;
/// both frame counters then advance (saturating).
pub open spec fn shopkeeper_pass(
    k: Shopkeeper,
    hb: Hurtbox,
    pos: Vec2,
    target: Vec2,
    pick: Ability,
) -> (Shopkeeper, Hurtbox, Option<HitBoxEvent>, Seq<Vec2>) {
    let k0 = if hb.is_hit {
        k.with_action(ShopkeeperAction::Damaged)
    } else {
        k
    };
    let hb0 = if hb.is_hit {
        Hurtbox { is_hit: false, ..hb }
    } else {
        hb
    };
    let d = diff(target, pos);
    let none = Seq::<Vec2>::empty();
    let r = match k0.action {
        ShopkeeperAction::Idle => if in_aggro(d) {
            (
                Shopkeeper {
                    frames_since_last_ability: 0,
                    ..k0.with_action(ShopkeeperAction::Walk)
                },
                hb0,
                None,
                none,
            )
        } else {
            (k0, hb0, None, none)
        },
        ShopkeeperAction::Walk => {
            let hb1 = Hurtbox { vel: heading(d, SHOPKEEPER_SPEED as int), ..hb0 };
            if k0.frames_since_last_ability > ABILITY_COOLDOWN {
                (k0.with_action(pick.action()), hb1, None, none)
            } else {
                (k0, hb1, None, none)
            }
        },
        ShopkeeperAction::Blast => {
            let n = blast_next(k0, hb0, pos, d);
            (n.0, n.1, n.2, none)
        },
        ShopkeeperAction::SpawnMinions => {
            let n = summon_next(k0, hb0, pos, d);
            (n.0, n.1, None, n.2)
        },
        ShopkeeperAction::Damaged => if k0.frame > SHOPKEEPER_RECOVERY {
            (k0.with_action(ShopkeeperAction::Walk), Hurtbox { invincible: false, ..hb0 }, None, none)
        } else {
            (k0, hb0, None, none)
        },
    };
    (r.0.ticked(), r.1, r.2, r.3)
}

/// Relies on rand's `SliceRandom::choose` with `rand::thread_rng()`: on a
/// non-empty slice it returns one of the slice's elements.
#[verifier::external_body]
fn choose_ability(options: &[Ability]) -> (r: Ability)
    requires
        options@.len() > 0,
    ensures
        options@.contains(r),
{
    *options.choose(&mut rand::thread_rng()).unwrap()
}

/// Picks one of the two abilities at random, evenly.
pub fn roll_ability() -> (r: Ability)
    ensures
        r == Ability::SpawnMinions || r == Ability::Blast,
{
    let options = vec![Ability::SpawnMinions, Ability::Blast];
    let r = choose_ability(options.as_slice());
    proof {
        let i = choose|i: int| 0 <= i < options@.len() && options@[i] == r;
        assert(i == 0 || i == 1);
    }
    r
}

/// Pushes the place `dist` along `perp` from `pos` (against it when `back`).
fn push_spot(spawns: &mut Vec<Vec2>, pos: Vec2, perp: Vec2, dist: i64, back: bool)
    requires
        pos.bounded(WORLD_LIMIT as int),
        perp.bounded(2 * WORLD_LIMIT),
        0 <= dist <= MINION_FAR,
    ensures
        final(spawns)@ == old(spawns)@.push(minion_spot(pos, perp, dist as int, back)),
{
    let along = toward(perp, dist);
    let offset = if back {
        negate(along)
    } else {
        along
    };
    spawns.push(clamp_to_world(plus(pos, offset)));
}

/// Whether the player at offset `d` is within the aggro radius.
fn near(d: Vec2) -> (r: bool)
    requires
        d.bounded(2 * WORLD_LIMIT),
    ensures
        r == in_aggro(d),
{
    let dx = d.x as i128;
    let dy = d.y as i128;
    let r = AGGRO_RADIUS as i128;
    assert(0 <= dx * dx <= 4_000_000_000_000_000_000_000_000) by (nonlinear_arith)
        requires
            -2_000_000_000_000 <= dx <= 2_000_000_000_000,
    ;
    assert(0 <= dy * dy <= 4_000_000_000_000_000_000_000_000) by (nonlinear_arith)
        requires
            -2_000_000_000_000 <= dy <= 2_000_000_000_000,
    ;
    assert(r * r == 10_000_000_000) by (nonlinear_arith)
        requires
            r == 100_000,
    ;
    dx * dx + dy * dy < r * r
}

impl Shopkeeper {
    /// One Blast pass (see `blast_next`); the hitbox, if any, is appended to
    /// `events`.
    fn blast_action(
        &mut self,
        hurtbox: &mut Hurtbox,
        position: Vec2,
        difference: Vec2,
        events: &mut Vec<HitBoxEvent>,
    )
        requires
            old(hurtbox).wf(),
            position.bounded(WORLD_LIMIT as int),
            difference.bounded(2 * WORLD_LIMIT),
        ensures
            ({
                let n = blast_next(*old(self), *old(hurtbox), position, difference);
                &&& *final(self) == n.0
                &&& *final(hurtbox) == n.1
                &&& final(events)@ == old(events)@ + opt_seq(n.2)
            }),
            final(hurtbox).wf(),
            forall|i: int|
                old(events).len() <= i < final(events).len() ==> (#[trigger] final(events)[i]).wf(),
    {
        hurtbox.invincible = true;
        if self.frame < BLAST_RECOIL_FRAMES {
            hurtbox.vel = negate(toward(difference, BLAST_RECOIL_SPEED));
        }
        if self.frame == BLAST_ACTIVE_FRAME {
            let reach = toward(difference, BLAST_REACH);
            events.push(
                HitBoxEvent {
                    position: plus(position, reach),
                    size: Vec2 { x: BLAST_SIZE, y: BLAST_SIZE },
                    damage: BLAST_DAMAGE,
                    knockback: BLAST_KNOCKBACK,
                    can_hit: CanHitTeam::Player,
                },
            );
        } else {
            assert(old(events)@ + Seq::<HitBoxEvent>::empty() =~= old(events)@);
        }
        if self.frame > BLAST_END {
            hurtbox.invincible = false;
            self.frames_since_last_ability = 0;
            self.set_action(ShopkeeperAction::Walk);
        }
    }

    /// One SpawnMinions pass (see `summon_next`); the places for new minions
    /// are appended to `spawns`.
    fn summon_action(
        &mut self,
        hurtbox: &mut Hurtbox,
        position: Vec2,
        difference: Vec2,
        spawns: &mut Vec<Vec2>,
    )
        requires
            old(hurtbox).wf(),
            position.bounded(WORLD_LIMIT as int),
            difference.bounded(2 * WORLD_LIMIT),
        ensures
            ({
                let n = summon_next(*old(self), *old(hurtbox), position, difference);
                &&& *final(self) == n.0
                &&& *final(hurtbox) == n.1
                &&& final(spawns)@ == old(spawns)@ + n.2
            }),
            final(hurtbox).wf(),
            forall|i: int|
                old(spawns).len() <= i < final(spawns).len()
                    ==> (#[trigger] final(spawns)[i]).bounded(WORLD_LIMIT as int),
    {
        hurtbox.invincible = true;
        let perpendicular = turn_quarter(difference);
        let sway = toward(perpendicular, SWAY_SPEED);
        if self.frame % 2 == 0 {
            hurtbox.vel = sway;
        } else {
            hurtbox.vel = negate(sway);
        }
        if self.frame == SPAWN_FRAME {
            push_spot(spawns, position, perpendicular, MINION_FAR, false);
            push_spot(spawns, position, perpendicular, MINION_MID, false);
            push_spot(spawns, position, perpendicular, MINION_NEAR, false);
            push_spot(spawns, position, perpendicular, MINION_NEAR, true);
            push_spot(spawns, position, perpendicular, MINION_MID, true);
            push_spot(spawns, position, perpendicular, MINION_FAR, true);
            assert(final(spawns)@ =~= old(spawns)@ + minion_spots(position, perpendicular));
        } else {
            assert(old(spawns)@ + Seq::<Vec2>::empty() =~= old(spawns)@);
        }
        if self.frame > SPAWN_END {
            hurtbox.invincible = false;
            self.frames_since_last_ability = 0;
            self.set_action(ShopkeeperAction::Walk);
        }
    }
}

impl Shopkeeper {
    pub open spec fn with_action(self, a: ShopkeeperAction) -> Shopkeeper {
        Shopkeeper { frame: 0, action: a, ..self }
    }

    /// Both frame counters advanced by one, saturating.
    pub open spec fn ticked(self) -> Shopkeeper {
        Shopkeeper {
            frame: self.frame.saturating_add(1),
            frames_since_last_ability: self.frames_since_last_ability.saturating_add(1),
            ..self
        }
    }

    pub fn set_action(&mut self, action: ShopkeeperAction)
        ensures
            *final(self) == old(self).with_action(action),
    {
        self.frame = 0;
        self.action = action;
    }

    /// The boss's pass for one tick (see `shopkeeper_pass`); its hitbox, if
    /// any, is appended to `events`, and the places for new minions to
    /// `spawns`.
    pub fn step(
        &mut self,
        hurtbox: &mut Hurtbox,
        position: Vec2,
        target: Vec2,
        pick: Ability,
        events: &mut Vec<HitBoxEvent>,
        spawns: &mut Vec<Vec2>,
    )
        requires
            old(hurtbox).wf(),
            position.bounded(WORLD_LIMIT as int),
            target.bounded(WORLD_LIMIT as int),
        ensures
            ({
                let n = shopkeeper_pass(*old(self), *old(hurtbox), position, target, pick);
                &&& *final(self) == n.0
                &&& *final(hurtbox) == n.1
                &&& final(events)@ == old(events)@ + opt_seq(n.2)
                &&& final(spawns)@ == old(spawns)@ + n.3
            }),
            final(hurtbox).wf(),
            forall|i: int|
                old(events).len() <= i < final(events).len() ==> (#[trigger] final(events)[i]).wf(),
            forall|i: int|
                old(spawns).len() <= i < final(spawns).len()
                    ==> (#[trigger] final(spawns)[i]).bounded(WORLD_LIMIT as int),
    {
        if hurtbox.is_hit {
            self.set_action(ShopkeeperAction::Damaged);
            hurtbox.is_hit = false;
        }
        let difference = minus(target, position);
        match self.action {
            ShopkeeperAction::Idle => {
                if near(difference) {
                    self.set_action(ShopkeeperAction::Walk);
                    self.frames_since_last_ability = 0;
                }
            },
            ShopkeeperAction::Walk => {
                hurtbox.vel = toward(difference, SHOPKEEPER_SPEED);
                if self.frames_since_last_ability > ABILITY_COOLDOWN {
                    match pick {
                        Ability::SpawnMinions => self.set_action(ShopkeeperAction::SpawnMinions),
                        Ability::Blast => self.set_action(ShopkeeperAction::Blast),
                    }
                }
            },
            ShopkeeperAction::Blast => {
                self.blast_action(hurtbox, position, difference, events);
            },
            ShopkeeperAction::SpawnMinions => {
                self.summon_action(hurtbox, position, difference, spawns);
            },
            ShopkeeperAction::Damaged => {
                if self.frame > SHOPKEEPER_RECOVERY {
                    hurtbox.invincible = false;
                    self.set_action(ShopkeeperAction::Walk);
                }
            },
        }
        proof {
            if !(old(self).action is Blast) || old(hurtbox).is_hit {
                assert(old(events)@ + Seq::<HitBoxEvent>::empty() =~= old(events)@);
            }
            if !(old(self).action is SpawnMinions) || old(hurtbox).is_hit {
                assert(old(spawns)@ + Seq::<Vec2>::empty() =~= old(spawns)@);
            }
        }
        self.frame = self.frame.saturating_add(1);
        self.frames_since_last_ability = self.frames_since_last_ability.saturating_add(1);
    }
}

/// A boss ready to be placed in the world, with its hurtbox.
#[derive(Clone, Copy, Debug, PartialEq, Eq, Structural)]
pub struct ShopkeeperBundle {
    pub shopkeeper: Shopkeeper,
    pub hurtbox: Hurtbox,
    pub position: Vec2,
}

impl ShopkeeperBundle {
    /// A fresh boss: idle, at full health, at `position`.
    pub open spec fn new_spec(position: Vec2) -> ShopkeeperBundle {
        ShopkeeperBundle {
            shopkeeper: Shopkeeper {
                action: ShopkeeperAction::Idle,
                frame: 0,
                frames_since_last_ability: 0,
            },
            hurtbox: Hurtbox {
                team: Team::Enemy,
                size: vec_of(SHOPKEEPER_WIDTH as int, SHOPKEEPER_HEIGHT as int),
                health: SHOPKEEPER_HEALTH,
                is_hit: false,
                invincible: false,
                vel: vec_of(0, 0),
            },
            position,
        }
    }

    pub fn new(position: Vec2) -> (r: ShopkeeperBundle)
        ensures
            r == Self::new_spec(position),
            r.hurtbox.wf(),
    {
        ShopkeeperBundle {
            shopkeeper: Shopkeeper {
                action: ShopkeeperAction::Idle,
                frame: 0,
                frames_since_last_ability: 0,
            },
            hurtbox: Hurtbox {
                team: Team::Enemy,
                size: Vec2 { x: SHOPKEEPER_WIDTH, y: SHOPKEEPER_HEIGHT },
                health: SHOPKEEPER_HEALTH,
                is_hit: false,
                invincible: false,
                vel: Vec2 { x: 0, y: 0 },
            },
            position,
        }
    }
}

/// A boss actor after its pass; any other actor is left as it is.
pub open spec fn shopkeeper_actor_pass(a: Actor, target: Vec2, pick: Ability) -> (
    Actor,
    Option<HitBoxEvent>,
    Seq<Vec2>,
) {
    match a.kind {
        ActorKind::Shopkeeper(k) => {
            let n = shopkeeper_pass(k, a.hurtbox, a.position, target, pick);
            (Actor { hurtbox: n.1, kind: ActorKind::Shopkeeper(n.0), ..a }, n.2, n.3)
        },
        _ => (a, None, Seq::empty()),
    }
}

/// The hitboxes that the bosses among `s` emit, in arena order.
pub open spec fn shopkeeper_events(s: Seq<Actor>, target: Vec2, pick: Ability) -> Seq<HitBoxEvent>
    decreases s.len(),
{
    if s.len() == 0 {
        Seq::empty()
    } else {
        shopkeeper_events(s.drop_last(), target, pick) + opt_seq(
            shopkeeper_actor_pass(s.last(), target, pick).1,
        )
    }
}

/// The places where the bosses among `s` call up minions, in arena order.
pub open spec fn shopkeeper_spawns(s: Seq<Actor>, target: Vec2, pick: Ability) -> Seq<Vec2>
    decreases s.len(),
{
    if s.len() == 0 {
        Seq::empty()
    } else {
        shopkeeper_spawns(s.drop_last(), target, pick) + shopkeeper_actor_pass(
            s.last(),
            target,
            pick,
        ).2
    }
}

/// The arena after every boss's pass, with the hitboxes emitted and the
/// places for new minions. Without a player nothing happens.
pub open spec fn shopkeeper_stage(s: Seq<Actor>, target: Option<Vec2>, pick: Ability) -> (
    Seq<Actor>,
    Seq<HitBoxEvent>,
    Seq<Vec2>,
) {
    match target {
        Some(t) => (
            s.map_values(|a: Actor| shopkeeper_actor_pass(a, t, pick).0),
            shopkeeper_events(s, t, pick),
            shopkeeper_spawns(s, t, pick),
        ),
        None => (s, Seq::empty(), Seq::empty()),
    }
}

/// Runs every boss's pass against the player at `target`, casting `pick`
/// when an ability is due (see `shopkeeper_stage`); hitboxes are appended to
/// `events` and places for new minions to `spawns`.
pub fn shopkeeper_system(
    actors: &mut Vec<Actor>,
    target: Option<Vec2>,
    pick: Ability,
    events: &mut Vec<HitBoxEvent>,
    spawns: &mut Vec<Vec2>,
)
    requires
        all_wf(old(actors)@),
        target matches Some(t) ==> t.bounded(WORLD_LIMIT as int),
    ensures
        final(actors)@ == shopkeeper_stage(old(actors)@, target, pick).0,
        final(events)@ == old(events)@ + shopkeeper_stage(old(actors)@, target, pick).1,
        final(spawns)@ == old(spawns)@ + shopkeeper_stage(old(actors)@, target, pick).2,
        all_wf(final(actors)@),
        same_ids(old(actors)@, final(actors)@),
        forall|i: int|
            old(events).len() <= i < final(events).len() ==> (#[trigger] final(events)[i]).wf(),
        forall|i: int|
            old(spawns).len() <= i < final(spawns).len()
                ==> (#[trigger] final(spawns)[i]).bounded(WORLD_LIMIT as int),
{
    let t = match target {
        Some(t) => t,
        None => {
            assert(old(events)@ + Seq::<HitBoxEvent>::empty() =~= old(events)@);
            assert(old(spawns)@ + Seq::<Vec2>::empty() =~= old(spawns)@);
            return ;
        },
    };
    let ghost start = actors@;
    let ghost first = events@;
    let ghost first_spawns = spawns@;
    let mut i: usize = 0;
    while i < actors.len()
        invariant
            actors.len() == start.len(),
            0 <= i <= actors.len(),
            all_wf(start),
            t.bounded(WORLD_LIMIT as int),
            forall|j: int|
                0 <= j < i ==> actors@[j] == (#[trigger] shopkeeper_actor_pass(
                    start[j],
                    t,
                    pick,
                )).0,
            forall|j: int| i <= j < actors.len() ==> actors@[j] == start[j],
            all_wf(actors@),
            events@ == first + shopkeeper_events(start.subrange(0, i as int), t, pick),
            spawns@ == first_spawns + shopkeeper_spawns(start.subrange(0, i as int), t, pick),
            forall|k: int| first.len() <= k < events.len() ==> (#[trigger] events@[k]).wf(),
            forall|k: int|
                first_spawns.len() <= k < spawns.len() ==> (#[trigger] spawns@[k]).bounded(
                    WORLD_LIMIT as int,
                ),
        decreases actors.len() - i,
    {
        assert(start.subrange(0, i + 1).drop_last() =~= start.subrange(0, i as int));
        let mut a = actors[i];
        assert(a.wf());
        if let ActorKind::Shopkeeper(mut k) = a.kind {
            k.step(&mut a.hurtbox, a.position, t, pick, events, spawns);
            a.kind = ActorKind::Shopkeeper(k);
        } else {
            assert(events@ + Seq::<HitBoxEvent>::empty() =~= events@);
            assert(spawns@ + Seq::<Vec2>::empty() =~= spawns@);
        }
        actors.set(i, a);
        proof {
            assert(first + shopkeeper_events(start.subrange(0, i + 1), t, pick) =~= first
                + shopkeeper_events(start.subrange(0, i as int), t, pick) + opt_seq(
                shopkeeper_actor_pass(start[i as int], t, pick).1,
            ));
            assert(first_spawns + shopkeeper_spawns(start.subrange(0, i + 1), t, pick)
                =~= first_spawns + shopkeeper_spawns(start.subrange(0, i as int), t, pick)
                + shopkeeper_actor_pass(start[i as int], t, pick).2);
        }
        i = i + 1;
    }
    assert(start.subrange(0, start.len() as int) =~= start);
    assert(actors@ =~= start.map_values(|a: Actor| shopkeeper_actor_pass(a, t, pick).0));
}

} // verus!
