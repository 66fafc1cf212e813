//! The melee chaser: walks at the player with a damaging body, and reels
//! for a while after each hit.
use vstd::prelude::*;

use crate::collision::{CanHitTeam, HitBoxEvent, Hurtbox, Team};
use crate::geom::{diff, heading, minus, toward, vec_of, Vec2, UNIT, WORLD_LIMIT};
use crate::player::opt_seq;
use crate::world::{all_wf, same_ids, Actor, ActorKind};

verus! {

/// Chasing speed: one and a half pixels a tick.
pub const SKELETON_SPEED: i64 = 1500;

/// Damaged ends on the first frame after this one.
pub const SKELETON_RECOVERY: u64 = 15;

pub const SKELETON_WIDTH: i64 = 60 * UNIT;

pub const SKELETON_HEIGHT: i64 = 100 * UNIT;

pub const SKELETON_HEALTH: u64 = 10;

pub const CONTACT_WIDTH: i64 = 50 * UNIT;

pub const CONTACT_HEIGHT: i64 = 90 * UNIT;

pub const CONTACT_DAMAGE: u64 = 2;

pub const CONTACT_KNOCKBACK: i64 = 30 * UNIT;

#[derive(Clone, Copy, Debug, PartialEq, Eq, Structural)]
pub enum SkeletonAction {
    Walk,
    Damaged,
}

#[derive(Clone, Copy, Debug, PartialEq, Eq, Structural)]
pub struct Skeleton {
    pub action: SkeletonAction,
    /// Ticks spent in the current action.
    pub frame: u64,
}

/// The body hitbox of a skeleton standing at `pos`, aimed at the player.
pub open spec fn contact_hitbox(pos: Vec2) -> HitBoxEvent {
    HitBoxEvent {
        position: pos,
        size: vec_of(CONTACT_WIDTH as int, CONTACT_HEIGHT as int),
        damage: CONTACT_DAMAGE,
        knockback: CONTACT_KNOCKBACK,
        can_hit: CanHitTeam::Player,
    }
}

/// A skeleton's pass for one tick, chasing a player at `target`. A fresh hit
/// forces Damaged. Walk drops invincibility, heads for the player and hits
/// with its body; Damaged returns to Walk after its recovery. The frame
/// counter then advances (saturating).
pub open spec fn skeleton_pass(s: Skeleton, hb: Hurtbox, pos: Vec2, target: Vec2) -> (
    Skeleton,
    Hurtbox,
    Option<HitBoxEvent>,
) {
    let s0 = if hb.is_hit {
        s.with_action(SkeletonAction::Damaged)
    } else {
        s
    };
    let hb0 = if hb.is_hit {
        Hurtbox { is_hit: false, ..hb }
    } else {
        hb
    };
    let r = match s0.action {
        SkeletonAction::Walk => (
            s0,
            Hurtbox {
                invincible: false,
                vel: heading(diff(target, pos), SKELETON_SPEED as int),
                ..hb0
            },
            Some(contact_hitbox(pos)),
        ),
        SkeletonAction::Damaged => (
            if s0.frame > SKELETON_RECOVERY {
                s0.with_action(SkeletonAction::Walk)
            } else {
                s0
            },
            hb0,
            None,
        ),
    };
    (Skeleton { frame: r.0.frame.saturating_add(1), ..r.0 }, r.1, r.2)
}

impl Skeleton {
    pub open spec fn with_action(self, a: SkeletonAction) -> Skeleton {
        Skeleton { frame: 0, action: a }
    }

    pub fn set_action(&mut self, action: SkeletonAction)
        ensures
            *final(self) == old(self).with_action(action),
    {
        self.frame = 0;
        self.action = action;
    }

    /// The skeleton's pass for one tick (see `skeleton_pass`); its body
    /// hitbox, if any, is appended to `events`.
    pub fn step(
        &mut self,
        hurtbox: &mut Hurtbox,
        position: Vec2,
        target: Vec2,
        events: &mut Vec<HitBoxEvent>,
    )
        requires
            old(hurtbox).wf(),
            position.bounded(WORLD_LIMIT as int),
            target.bounded(WORLD_LIMIT as int),
        ensures
            ({
                let n = skeleton_pass(*old(self), *old(hurtbox), position, target);
                &&& *final(self) == n.0
                &&& *final(hurtbox) == n.1
                &&& final(events)@ == old(events)@ + opt_seq(n.2)
            }),
            final(hurtbox).wf(),
            forall|i: int|
                old(events).len() <= i < final(events).len() ==> (#[trigger] final(events)[i]).wf(),
    {
        if hurtbox.is_hit {
            self.set_action(SkeletonAction::Damaged);
            hurtbox.is_hit = false;
        }
        match self.action {
            SkeletonAction::Walk => {
                hurtbox.invincible = false;
                let difference = minus(target, position);
                hurtbox.vel = toward(difference, SKELETON_SPEED);
                events.push(
                    HitBoxEvent {
                        position,
                        size: Vec2 { x: CONTACT_WIDTH, y: CONTACT_HEIGHT },
                        damage: CONTACT_DAMAGE,
                        knockback: CONTACT_KNOCKBACK,
                        can_hit: CanHitTeam::Player,
                    },
                );
            },
            SkeletonAction::Damaged => {
                if self.frame > SKELETON_RECOVERY {
                    self.set_action(SkeletonAction::Walk);
                }
                assert(old(events)@ + Seq::<HitBoxEvent>::empty() =~= old(events)@);
            },
        }
        self.frame = self.frame.saturating_add(1);
    }
}

/// A skeleton ready to be placed in the world, with its hurtbox.
#[derive(Clone, Copy, Debug, PartialEq, Eq, Structural)]
pub struct SkeletonBundle {
    pub skeleton: Skeleton,
    pub hurtbox: Hurtbox,
    pub position: Vec2,
}

impl SkeletonBundle {
    /// A fresh skeleton: walking, at full health, at `position`.
    pub open spec fn new_spec(position: Vec2) -> SkeletonBundle {
        SkeletonBundle {
            skeleton: Skeleton { action: SkeletonAction::Walk, frame: 0 },
            hurtbox: Hurtbox {
                team: Team::Enemy,
                size: vec_of(SKELETON_WIDTH as int, SKELETON_HEIGHT as int),
                health: SKELETON_HEALTH,
                is_hit: false,
                invincible: false,
                vel: vec_of(0, 0),
            },
            position,
        }
    }

    pub fn new(position: Vec2) -> (r: SkeletonBundle)
        ensures
            r == Self::new_spec(position),
            r.hurtbox.wf(),
    {
        SkeletonBundle {
            skeleton: Skeleton { action: SkeletonAction::Walk, frame: 0 },
            hurtbox: Hurtbox {
                team: Team::Enemy,
                size: Vec2 { x: SKELETON_WIDTH, y: SKELETON_HEIGHT },
                health: SKELETON_HEALTH,
                is_hit: false,
                invincible: false,
                vel: Vec2 { x: 0, y: 0 },
            },
            position,
        }
    }
}

/// A skeleton actor after its pass; any other actor is left as it is.
pub open spec fn skeleton_actor_pass(a: Actor, target: Vec2) -> (Actor, Option<HitBoxEvent>) {
    match a.kind {
        ActorKind::Skeleton(k) => {
            let n = skeleton_pass(k, a.hurtbox, a.position, target);
            (Actor { hurtbox: n.1, kind: ActorKind::Skeleton(n.0), ..a }, n.2)
        },
        _ => (a, None),
    }
}

/// The hitboxes that the skeletons among `s` emit, in arena order.
pub open spec fn skeleton_events(s: Seq<Actor>, target: Vec2) -> Seq<HitBoxEvent>
    decreases s.len(),
{
    if s.len() == 0 {
        Seq::empty()
    } else {
        skeleton_events(s.drop_last(), target) + opt_seq(skeleton_actor_pass(s.last(), target).1)
    }
}

/// The arena after every skeleton's pass, with the hitboxes emitted. Without
/// a player to chase nothing happens.
pub open spec fn skeleton_stage(s: Seq<Actor>, target: Option<Vec2>) -> (
    Seq<Actor>,
    Seq<HitBoxEvent>,
) {
    match target {
        Some(t) => (s.map_values(|a: Actor| skeleton_actor_pass(a, t).0), skeleton_events(s, t)),
        None => (s, Seq::empty()),
    }
}

/// Runs every skeleton's pass, chasing the player at `target` (see
/// `skeleton_stage`); their hitboxes are appended to `events`.
pub fn skeleton_system(
    actors: &mut Vec<Actor>,
    target: Option<Vec2>,
    events: &mut Vec<HitBoxEvent>,
)
    requires
        all_wf(old(actors)@),
        target matches Some(t) ==> t.bounded(WORLD_LIMIT as int),
    ensures
        final(actors)@ == skeleton_stage(old(actors)@, target).0,
        final(events)@ == old(events)@ + skeleton_stage(old(actors)@, target).1,
        all_wf(final(actors)@),
        same_ids(old(actors)@, final(actors)@),
        forall|i: int|
            old(events).len() <= i < final(events).len() ==> (#[trigger] final(events)[i]).wf(),
{
    let t = match target {
        Some(t) => t,
        None => {
            assert(old(events)@ + Seq::<HitBoxEvent>::empty() =~= old(events)@);
            return ;
        },
    };
    let ghost start = actors@;
    let ghost first = events@;
    let mut i: usize = 0;
    while i < actors.len()
        invariant
            actors.len() == start.len(),
            0 <= i <= actors.len(),
            all_wf(start),
            t.bounded(WORLD_LIMIT as int),
            forall|j: int|
                0 <= j < i ==> actors@[j] == (#[trigger] skeleton_actor_pass(start[j], t)).0,
            forall|j: int| i <= j < actors.len() ==> actors@[j] == start[j],
            all_wf(actors@),
            events@ == first + skeleton_events(start.subrange(0, i as int), t),
            forall|k: int| first.len() <= k < events.len() ==> (#[trigger] events@[k]).wf(),
        decreases actors.len() - i,
    {
        assert(start.subrange(0, i + 1).drop_last() =~= start.subrange(0, i as int));
        let mut a = actors[i];
        assert(a.wf());
        if let ActorKind::Skeleton(mut k) = a.kind {
            k.step(&mut a.hurtbox, a.position, t, events);
            a.kind = ActorKind::Skeleton(k);
        } else {
            assert(events@ + Seq::<HitBoxEvent>::empty() =~= events@);
        }
        actors.set(i, a);
        proof {
            assert(first + skeleton_events(start.subrange(0, i + 1), t) =~= first
                + skeleton_events(start.subrange(0, i as int), t) + opt_seq(
                skeleton_actor_pass(start[i as int], t).1,
            ));
        }
        i = i + 1;
    }
    assert(start.subrange(0, start.len() as int) =~= start);
    assert(actors@ =~= start.map_values(|a: Actor| skeleton_actor_pass(a, t).0));
}

} // verus!
