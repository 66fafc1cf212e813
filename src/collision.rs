//! Hurtboxes, hitbox events, and the rule that turns an overlap into damage.
use vstd::prelude::*;

use crate::geom::{
    boxes_overlap, diff, heading, minus, overlap, toward, valid_size, vec_of, Vec2, REACH_LIMIT,
    SPEED_LIMIT, WORLD_LIMIT,
};

verus! {

/// The side an actor fights on.
#[derive(Clone, Copy, Debug, PartialEq, Eq, Structural)]
pub enum Team {
    Player,
    Enemy,
}

/// The damageable box of an actor, with its health and motion.
#[derive(Clone, Copy, Debug, PartialEq, Eq, Structural)]
pub struct Hurtbox {
    pub team: Team,
    pub size: Vec2,
    pub health: u64,
    /// Set when a hit lands; cleared by the owner's state machine on its next pass.
    pub is_hit: bool,
    pub invincible: bool,
    pub vel: Vec2,
}

impl Hurtbox {
    /// Extents are valid and the velocity is within the speed bound.
    pub open spec fn wf(self) -> bool {
        valid_size(self.size) && self.vel.bounded(SPEED_LIMIT as int)
    }
}

/// Which team a hitbox may damage.
#[derive(Clone, Copy, Debug, PartialEq, Eq, Structural)]
pub enum CanHitTeam {
    Player,
    Enemy,
}

impl CanHitTeam {
    pub open spec fn hits(self, team: Team) -> bool {
        match self {
            CanHitTeam::Player => team == Team::Player,
            CanHitTeam::Enemy => team == Team::Enemy,
        }
    }

    pub fn can_hit(&self, team: &Team) -> (r: bool)
        ensures
            r == self.hits(*team),
    {
        match (self, team) {
            (CanHitTeam::Player, Team::Player) => true,
            (CanHitTeam::Enemy, Team::Enemy) => true,
            _ => false,
        }
    }
}

/// An attack's area and effect, alive for one tick.
#[derive(Clone, Copy, Debug, PartialEq, Eq, Structural)]
pub struct HitBoxEvent {
    /// Centre of the box.
    pub position: Vec2,
    pub size: Vec2,
    pub damage: u64,
    /// Speed given to a hurtbox that this event strikes.
    pub knockback: i64,
    pub can_hit: CanHitTeam,
}

impl HitBoxEvent {
    pub open spec fn wf(self) -> bool {
        &&& self.position.bounded(REACH_LIMIT as int)
        &&& valid_size(self.size)
        &&& 0 <= self.knockback <= SPEED_LIMIT
    }
}

/// The event strikes a hurtbox whose owner stands at `pos`: the team matches,
/// the hurtbox is not invincible, and the boxes overlap.
pub open spec fn lands(e: HitBoxEvent, hb: Hurtbox, pos: Vec2) -> bool {
    &&& e.can_hit.hits(hb.team)
    &&& !hb.invincible
    &&& overlap(e.position, e.size, pos, hb.size)
}

/// The hurtbox after `e` strikes it: health drops by the damage, saturating
/// at zero; it is marked hit and invincible; and it is knocked away from the
/// event's centre at the event's knockback speed.
pub open spec fn struck(hb: Hurtbox, pos: Vec2, e: HitBoxEvent) -> Hurtbox {
    Hurtbox {
        health: hb.health.saturating_sub(e.damage),
        is_hit: true,
        invincible: true,
        vel: heading(diff(pos, e.position), e.knockback as int),
        ..hb
    }
}

/// The hurtbox after `e` has been tested against it.
pub open spec fn after_hit(hb: Hurtbox, pos: Vec2, e: HitBoxEvent) -> Hurtbox {
    if lands(e, hb, pos) {
        struck(hb, pos, e)
    } else {
        hb
    }
}

/// Tests one event against one hurtbox whose owner stands at `position`, and
/// applies the hit if it lands. Returns whether it landed.
pub fn apply_hit(hurtbox: &mut Hurtbox, position: Vec2, event: &HitBoxEvent) -> (r: bool)
    requires
        old(hurtbox).wf(),
        position.bounded(WORLD_LIMIT as int),
        event.wf(),
    ensures
        r == lands(*event, *old(hurtbox), position),
        *final(hurtbox) == after_hit(*old(hurtbox), position, *event),
        final(hurtbox).wf(),
{
    if event.can_hit.can_hit(&hurtbox.team) && !hurtbox.invincible && boxes_overlap(
        event.position,
        event.size,
        position,
        hurtbox.size,
    ) {
        hurtbox.health = hurtbox.health.saturating_sub(event.damage);
        hurtbox.is_hit = true;
        hurtbox.invincible = true;
        let away = minus(position, event.position);
        hurtbox.vel = toward(away, event.knockback);
        true
    } else {
        false
    }
}

/// A line segment of a debug outline.
#[derive(Clone, Copy, Debug, PartialEq, Eq, Structural)]
pub struct Segment {
    pub from: Vec2,
    pub to: Vec2,
}

/// The four edges of the box centred at `pos` with extents `size`: bottom,
/// right, left, top.
pub open spec fn outline(pos: Vec2, size: Vec2) -> Seq<Segment> {
    let x0 = pos.x - size.x / 2;
    let y0 = pos.y - size.y / 2;
    let x1 = x0 + size.x;
    let y1 = y0 + size.y;
    seq![
        Segment { from: vec_of(x0, y0), to: vec_of(x1, y0) },
        Segment { from: vec_of(x1, y0), to: vec_of(x1, y1) },
        Segment { from: vec_of(x0, y0), to: vec_of(x0, y1) },
        Segment { from: vec_of(x0, y1), to: vec_of(x1, y1) },
    ]
}

/// Appends the edges of a box (see `outline`) to `lines`.
pub fn draw_box(lines: &mut Vec<Segment>, pos: Vec2, size: Vec2)
    requires
        pos.bounded(REACH_LIMIT as int),
        valid_size(size),
    ensures
        final(lines)@ == old(lines)@ + outline(pos, size),
{
    let x0 = pos.x - size.x / 2;
    let y0 = pos.y - size.y / 2;
    let x1 = x0 + size.x;
    let y1 = y0 + size.y;
    let a = Vec2 { x: x0, y: y0 };
    let b = Vec2 { x: x1, y: y0 };
    let c = Vec2 { x: x0, y: y1 };
    let d = Vec2 { x: x1, y: y1 };
    lines.push(Segment { from: a, to: b });
    lines.push(Segment { from: b, to: d });
    lines.push(Segment { from: a, to: c });
    lines.push(Segment { from: c, to: d });
    assert(final(lines)@ =~= old(lines)@ + outline(pos, size));
}

/// The outlines of every hitbox, in order.
pub open spec fn hitbox_lines(events: Seq<HitBoxEvent>) -> Seq<Segment>
    decreases events.len(),
{
    if events.len() == 0 {
        Seq::empty()
    } else {
        hitbox_lines(events.drop_last()) + outline(events.last().position, events.last().size)
    }
}

/// The debug outlines of a tick's hitboxes.
pub fn debug_hitboxes(events: &Vec<HitBoxEvent>) -> (r: Vec<Segment>)
    requires
        forall|i: int| 0 <= i < events.len() ==> (#[trigger] events@[i]).wf(),
    ensures
        r@ == hitbox_lines(events@),
{
    let mut lines: Vec<Segment> = Vec::new();
    let mut i: usize = 0;
    while i < events.len()
        invariant
            0 <= i <= events.len(),
            forall|j: int| 0 <= j < events.len() ==> (#[trigger] events@[j]).wf(),
            lines@ == hitbox_lines(events@.subrange(0, i as int)),
        decreases events.len() - i,
    {
        assert(events@.subrange(0, i + 1).drop_last() =~= events@.subrange(0, i as int));
        assert(events@[i as int].wf());
        draw_box(&mut lines, events[i].position, events[i].size);
        i = i + 1;
    }
    assert(events@.subrange(0, events.len() as int) =~= events@);
    lines
}

} // verus!
