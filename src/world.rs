//! The arena of actors, and the passes that move, hurt and remove them.
use vstd::prelude::*;

use crate::collision::{after_hit, apply_hit, draw_box, outline, HitBoxEvent, Hurtbox, Segment};
use crate::geom::{clamp_to_world, clamped, sum, vec_of, Vec2, WORLD_LIMIT};
use crate::mouse::{Controls, MouseState};
use crate::player::{player_stage, player_system, Player, PlayerBundle, EXP_PER_LEVEL};
use crate::shopkeeper::{
    roll_ability, shopkeeper_stage, shopkeeper_system, Ability, Shopkeeper, ShopkeeperBundle,
};
use crate::skeleton::{skeleton_stage, skeleton_system, Skeleton, SkeletonBundle};
use crate::geom::UNIT;

verus! {

/// Experience the player earns for each enemy that dies.
pub const KILL_EXP: u64 = EXP_PER_LEVEL;

/// Money the player earns for each enemy that dies.
pub const KILL_MONEY: u64 = 200;

/// Velocity keeps this fraction of itself after each tick.
pub const FRICTION_NUM: i64 = 4;

pub const FRICTION_DEN: i64 = 5;

/// The state machine that drives an actor.
#[derive(Clone, Copy, Debug, PartialEq, Eq, Structural)]
pub enum ActorKind {
    Player(Player),
    Skeleton(Skeleton),
    Shopkeeper(Shopkeeper),
}

/// One record of the arena: identity, position, hurtbox and state machine,
/// created and removed together.
#[derive(Clone, Copy, Debug, PartialEq, Eq, Structural)]
pub struct Actor {
    pub id: u64,
    pub position: Vec2,
    pub hurtbox: Hurtbox,
    pub kind: ActorKind,
}

impl Actor {
    pub open spec fn wf(self) -> bool {
        &&& self.position.bounded(WORLD_LIMIT as int)
        &&& self.hurtbox.wf()
        &&& match self.kind {
            ActorKind::Player(p) => p.wf(),
            _ => true,
        }
    }
}

pub open spec fn is_player(a: Actor) -> bool {
    a.kind is Player
}

pub open spec fn all_wf(s: Seq<Actor>) -> bool {
    forall|i: int| 0 <= i < s.len() ==> (#[trigger] s[i]).wf()
}

/// Identities rise strictly along the arena, so no two actors share one.
pub open spec fn ids_increasing(s: Seq<Actor>) -> bool {
    forall|i: int, j: int| #![trigger s[i], s[j]] 0 <= i < j < s.len() ==> s[i].id < s[j].id
}

/// Two arenas hold the same identities at the same places.
pub open spec fn same_ids(a: Seq<Actor>, b: Seq<Actor>) -> bool {
    &&& a.len() == b.len()
    &&& forall|i: int| 0 <= i < a.len() ==> (#[trigger] a[i]).id == b[i].id
}

pub proof fn lemma_same_ids_increasing(a: Seq<Actor>, b: Seq<Actor>)
    requires
        same_ids(a, b),
        ids_increasing(a),
    ensures
        ids_increasing(b),
{
    assert forall|i: int, j: int| #![trigger b[i], b[j]] 0 <= i < j < b.len() implies b[i].id
        < b[j].id by {
        assert(a[i].id == b[i].id && a[j].id == b[j].id);
        assert(a[i].id < a[j].id);
    }
}

pub open spec fn events_wf(s: Seq<HitBoxEvent>) -> bool {
    forall|i: int| 0 <= i < s.len() ==> (#[trigger] s[i]).wf()
}

/// How many actors are players.
pub open spec fn player_count(s: Seq<Actor>) -> nat
    decreases s.len(),
{
    if s.len() == 0 {
        0
    } else {
        player_count(s.drop_last()) + if is_player(s.last()) {
            1nat
        } else {
            0nat
        }
    }
}

/// Index of the last player, or -1.
pub open spec fn last_player(s: Seq<Actor>) -> int
    decreases s.len(),
{
    if s.len() == 0 {
        -1
    } else if is_player(s.last()) {
        s.len() - 1
    } else {
        last_player(s.drop_last())
    }
}

/// Where the player singleton stands in `s`: only when exactly one actor is
/// a player.
pub open spec fn player_index(s: Seq<Actor>) -> Option<int> {
    if player_count(s) == 1 {
        Some(last_player(s))
    } else {
        None
    }
}

/// The player singleton's position, if there is exactly one player.
pub open spec fn player_position(s: Seq<Actor>) -> Option<Vec2> {
    match player_index(s) {
        Some(i) => Some(s[i].position),
        None => None,
    }
}

pub proof fn lemma_last_player(s: Seq<Actor>)
    ensures
        -1 <= last_player(s) < s.len(),
        last_player(s) >= 0 ==> is_player(s[last_player(s)]),
        player_count(s) > 0 <==> last_player(s) >= 0,
    decreases s.len(),
{
    if s.len() > 0 {
        lemma_last_player(s.drop_last());
    }
}

/// Finds the player singleton (see `player_index`).
pub fn find_player(actors: &Vec<Actor>) -> (r: Option<usize>)
    ensures
        match r {
            Some(i) => player_index(actors@) == Some(i as int),
            None => player_index(actors@) is None,
        },
        r matches Some(i) ==> i < actors.len() && is_player(actors@[i as int]),
{
    let mut count: usize = 0;
    let mut last: usize = 0;
    let mut i: usize = 0;
    while i < actors.len()
        invariant
            0 <= i <= actors.len(),
            count == player_count(actors@.subrange(0, i as int)),
            count <= i,
            count > 0 ==> last == last_player(actors@.subrange(0, i as int)),
        decreases actors.len() - i,
    {
        assert(actors@.subrange(0, i + 1).drop_last() =~= actors@.subrange(0, i as int));
        if let ActorKind::Player(_) = actors[i].kind {
            count = count + 1;
            last = i;
        }
        i = i + 1;
    }
    assert(actors@.subrange(0, actors.len() as int) =~= actors@);
    proof {
        lemma_last_player(actors@);
    }
    if count == 1 {
        Some(last)
    } else {
        None
    }
}

/// Friction on one velocity component, rounded toward zero.
pub open spec fn slowed_part(c: int) -> int {
    if c >= 0 {
        c * FRICTION_NUM as int / FRICTION_DEN as int
    } else {
        -((-c) * FRICTION_NUM as int / FRICTION_DEN as int)
    }
}

/// The actor after one tick of motion: moved by its velocity (kept on the
/// play field), then slowed by friction.
pub open spec fn integrated(a: Actor) -> Actor {
    Actor {
        position: clamped(sum(a.position, a.hurtbox.vel)),
        hurtbox: Hurtbox {
            vel: vec_of(slowed_part(a.hurtbox.vel.x as int), slowed_part(a.hurtbox.vel.y as int)),
            ..a.hurtbox
        },
        ..a
    }
}

fn slow_part(c: i64) -> (r: i64)
    requires
        -WORLD_LIMIT <= c <= WORLD_LIMIT,
    ensures
        r == slowed_part(c as int),
        -(c as int) <= r <= c || c <= r <= -(c as int),
{
    if c >= 0 {
        c * FRICTION_NUM / FRICTION_DEN
    } else {
        -((-c) * FRICTION_NUM / FRICTION_DEN)
    }
}

/// Moves every actor by its velocity, then slows it by friction.
pub fn physics_system(actors: &mut Vec<Actor>)
    requires
        all_wf(old(actors)@),
    ensures
        final(actors)@ == old(actors)@.map_values(|a: Actor| integrated(a)),
        all_wf(final(actors)@),
        same_ids(old(actors)@, final(actors)@),
{
    let ghost start = actors@;
    let mut i: usize = 0;
    while i < actors.len()
        invariant
            actors.len() == start.len(),
            0 <= i <= actors.len(),
            all_wf(start),
            forall|j: int| 0 <= j < i ==> actors@[j] == integrated(#[trigger] start[j]),
            forall|j: int| i <= j < actors.len() ==> actors@[j] == start[j],
            all_wf(actors@),
        decreases actors.len() - i,
    {
        let mut a = actors[i];
        assert(a.wf());
        let moved = Vec2 { x: a.position.x + a.hurtbox.vel.x, y: a.position.y + a.hurtbox.vel.y };
        a.position = clamp_to_world(moved);
        a.hurtbox.vel = Vec2 { x: slow_part(a.hurtbox.vel.x), y: slow_part(a.hurtbox.vel.y) };
        actors.set(i, a);
        i = i + 1;
    }
    assert(actors@ =~= start.map_values(|a: Actor| integrated(a)));
}

/// Every actor after `e` has been tested against it.
pub open spec fn hit_all(s: Seq<Actor>, e: HitBoxEvent) -> Seq<Actor> {
    s.map_values(|a: Actor| Actor { hurtbox: after_hit(a.hurtbox, a.position, e), ..a })
}

/// Every actor after the events have been tested against it, in order.
pub open spec fn resolve(s: Seq<Actor>, events: Seq<HitBoxEvent>) -> Seq<Actor>
    decreases events.len(),
{
    if events.len() == 0 {
        s
    } else {
        hit_all(resolve(s, events.drop_last()), events.last())
    }
}

/// Tests every event, in the order given, against every actor's hurtbox, and
/// applies each hit that lands (see `after_hit`). A hit makes its target
/// invincible at once, so later events of the tick pass it by.
pub fn take_damage(actors: &mut Vec<Actor>, events: &Vec<HitBoxEvent>)
    requires
        all_wf(old(actors)@),
        events_wf(events@),
    ensures
        final(actors)@ == resolve(old(actors)@, events@),
        all_wf(final(actors)@),
        same_ids(old(actors)@, final(actors)@),
{
    let ghost start = actors@;
    let mut k: usize = 0;
    while k < events.len()
        invariant
            0 <= k <= events.len(),
            events_wf(events@),
            actors@ == resolve(start, events@.subrange(0, k as int)),
            all_wf(actors@),
            same_ids(start, actors@),
        decreases events.len() - k,
    {
        let event = &events[k];
        assert(event.wf());
        let ghost before = actors@;
        let mut i: usize = 0;
        while i < actors.len()
            invariant
                actors.len() == before.len(),
                0 <= i <= actors.len(),
                all_wf(before),
                event.wf(),
                forall|j: int|
                    0 <= j < i ==> actors@[j] == (Actor {
                        hurtbox: after_hit(before[j].hurtbox, before[j].position, *event),
                        ..before[j]
                    }),
                forall|j: int| i <= j < actors.len() ==> actors@[j] == before[j],
                all_wf(actors@),
                same_ids(start, before),
                same_ids(start, actors@),
            decreases actors.len() - i,
        {
            let mut a = actors[i];
            assert(a.wf());
            apply_hit(&mut a.hurtbox, a.position, event);
            actors.set(i, a);
            i = i + 1;
        }
        assert(events@.subrange(0, k + 1).drop_last() =~= events@.subrange(0, k as int));
        assert(actors@ =~= hit_all(before, *event));
        k = k + 1;
    }
    assert(events@.subrange(0, events.len() as int) =~= events@);
}

/// Adds `n` copies of `amount` to `v`, saturating.
pub open spec fn earned(v: u64, amount: u64, n: nat) -> u64 {
    if v + amount * n > u64::MAX {
        u64::MAX
    } else {
        (v + amount * n) as u64
    }
}

/// The number of enemies (actors that are not players) out of health.
pub open spec fn kills(s: Seq<Actor>) -> nat
    decreases s.len(),
{
    if s.len() == 0 {
        0
    } else {
        kills(s.drop_last()) + if s.last().hurtbox.health == 0 && !is_player(s.last()) {
            1nat
        } else {
            0nat
        }
    }
}

/// The actor, if a player, with the reward for `n` kills added.
pub open spec fn rewarded(a: Actor, n: nat) -> Actor {
    match a.kind {
        ActorKind::Player(p) => Actor {
            kind: ActorKind::Player(
                Player {
                    exp: earned(p.exp, KILL_EXP, n),
                    money: earned(p.money, KILL_MONEY, n),
                    ..p
                },
            ),
            ..a
        },
        _ => a,
    }
}

pub open spec fn alive(a: Actor) -> bool {
    a.hurtbox.health > 0
}

/// The arena after the death pass: the player singleton, if there is one,
/// earns the reward once for each enemy out of health; then every actor out
/// of health is removed, the rest keeping their order.
pub open spec fn after_deaths(s: Seq<Actor>) -> Seq<Actor> {
    let paid = match player_index(s) {
        Some(i) => s.update(i, rewarded(s[i], kills(s))),
        None => s,
    };
    paid.filter(|a: Actor| alive(a))
}

/// Counts the enemies out of health.
fn count_kills(actors: &Vec<Actor>) -> (r: usize)
    ensures
        r == kills(actors@),
        r <= actors.len(),
{
    let mut n: usize = 0;
    let mut i: usize = 0;
    while i < actors.len()
        invariant
            0 <= i <= actors.len(),
            n == kills(actors@.subrange(0, i as int)),
            n <= i,
        decreases actors.len() - i,
    {
        assert(actors@.subrange(0, i + 1).drop_last() =~= actors@.subrange(0, i as int));
        let dead_enemy = actors[i].hurtbox.health == 0 && match actors[i].kind {
            ActorKind::Player(_) => false,
            _ => true,
        };
        if dead_enemy {
            n = n + 1;
        }
        i = i + 1;
    }
    assert(actors@.subrange(0, actors.len() as int) =~= actors@);
    n
}

/// `v` plus `n` times `amount`, saturating.
fn earn(v: u64, amount: u64, n: usize) -> (r: u64)
    requires
        amount <= 1000,
    ensures
        r == earned(v, amount, n as nat),
{
    let a = amount as u128;
    let m = n as u128;
    assert(a * m <= 1000 * 0x1_0000_0000_0000_0000) by (nonlinear_arith)
        requires
            a <= 1000,
            m < 0x1_0000_0000_0000_0000,
    ;
    let total = v as u128 + a * m;
    if total > u64::MAX as u128 {
        u64::MAX
    } else {
        total as u64
    }
}

/// Removes every actor out of health; the player singleton, if there is one,
/// earns experience and money once for each enemy removed (see
/// `after_deaths`). A player out of health is removed and earns nothing for
/// itself.
pub fn die_system(actors: &mut Vec<Actor>)
    requires
        all_wf(old(actors)@),
    ensures
        final(actors)@ == after_deaths(old(actors)@),
        all_wf(final(actors)@),
        ids_increasing(old(actors)@) ==> ids_increasing(final(actors)@),
        ids_increasing(old(actors)@) && final(actors).len() > 0 ==> old(actors).len() > 0
            && final(actors)@.last().id <= old(actors)@.last().id,
{
    let ghost start = actors@;
    let n = count_kills(actors);
    if let Some(i) = find_player(actors) {
        let mut a = actors[i];
        if let ActorKind::Player(mut p) = a.kind {
            p.exp = earn(p.exp, KILL_EXP, n);
            p.money = earn(p.money, KILL_MONEY, n);
            a.kind = ActorKind::Player(p);
        }
        actors.set(i, a);
    }
    let ghost paid = actors@;
    assert(all_wf(paid));
    assert(same_ids(start, paid));
    let mut kept: Vec<Actor> = Vec::new();
    let mut i: usize = 0;
    while i < actors.len()
        invariant
            actors@ == paid,
            0 <= i <= actors.len(),
            kept@ == paid.subrange(0, i as int).filter(|a: Actor| alive(a)),
            all_wf(paid),
            all_wf(kept@),
            same_ids(start, paid),
            ids_increasing(start) ==> ids_increasing(kept@),
            ids_increasing(start) && kept.len() > 0 ==> i > 0 && kept@.last().id <= paid[i - 1].id,
        decreases actors.len() - i,
    {
        proof {
            reveal(Seq::filter);
            assert(paid.subrange(0, i + 1).drop_last() =~= paid.subrange(0, i as int));
        }
        let ghost before = kept@;
        if actors[i].hurtbox.health > 0 {
            kept.push(actors[i]);
            proof {
                if ids_increasing(start) {
                    lemma_same_ids_increasing(start, paid);
                    if before.len() > 0 {
                        assert(paid[i - 1].id < paid[i as int].id);
                        assert forall|a: int, b: int|
                            #![trigger kept@[a], kept@[b]]
                            0 <= a < b < kept.len() implies kept@[a].id < kept@[b].id by {
                            if b == kept.len() - 1 && a < b {
                                assert(before[a].id <= before.last().id);
                            }
                        }
                    }
                }
            }
        } else {
            proof {
                if ids_increasing(start) && before.len() > 0 {
                    lemma_same_ids_increasing(start, paid);
                    assert(paid[i - 1].id < paid[i as int].id);
                }
            }
        }
        i = i + 1;
    }
    assert(paid.subrange(0, actors.len() as int) =~= paid);
    *actors = kept;
}

/// The outlines of every actor's hurtbox, in arena order.
pub open spec fn hurtbox_lines(s: Seq<Actor>) -> Seq<Segment>
    decreases s.len(),
{
    if s.len() == 0 {
        Seq::empty()
    } else {
        hurtbox_lines(s.drop_last()) + outline(s.last().position, s.last().hurtbox.size)
    }
}

/// The debug outlines of every actor's hurtbox.
pub fn debug_hurtboxes(actors: &Vec<Actor>) -> (r: Vec<Segment>)
    requires
        all_wf(actors@),
    ensures
        r@ == hurtbox_lines(actors@),
{
    let mut lines: Vec<Segment> = Vec::new();
    let mut i: usize = 0;
    while i < actors.len()
        invariant
            0 <= i <= actors.len(),
            all_wf(actors@),
            lines@ == hurtbox_lines(actors@.subrange(0, i as int)),
        decreases actors.len() - i,
    {
        assert(actors@.subrange(0, i + 1).drop_last() =~= actors@.subrange(0, i as int));
        assert(actors@[i as int].wf());
        draw_box(&mut lines, actors[i].position, actors[i].hurtbox.size);
        i = i + 1;
    }
    assert(actors@.subrange(0, actors.len() as int) =~= actors@);
    lines
}

/// Where the boss stands when the world is set up.
pub const SHOPKEEPER_START_X: i64 = 400 * UNIT;

/// The arena after `a` is added under identity `next`, and the next free
/// identity; when identities have run out nothing is added.
pub open spec fn added(s: Seq<Actor>, next: u64, a: Actor) -> (Seq<Actor>, u64) {
    if next < u64::MAX {
        (s.push(Actor { id: next, ..a }), (next + 1) as u64)
    } else {
        (s, next)
    }
}

/// A fresh skeleton at `pos` (its identity is set when it is added).
pub open spec fn skeleton_at(pos: Vec2) -> Actor {
    Actor {
        id: 0,
        position: pos,
        hurtbox: SkeletonBundle::new_spec(pos).hurtbox,
        kind: ActorKind::Skeleton(SkeletonBundle::new_spec(pos).skeleton),
    }
}

/// The arena after a fresh skeleton is added at each place, in order.
pub open spec fn add_skeletons(s: Seq<Actor>, next: u64, spots: Seq<Vec2>) -> (Seq<Actor>, u64)
    decreases spots.len(),
{
    if spots.len() == 0 {
        (s, next)
    } else {
        let r = add_skeletons(s, next, spots.drop_last());
        added(r.0, r.1, skeleton_at(spots.last()))
    }
}

/// The arena at the start of a game, added after `s`: the boss to the right
/// of the origin, then the player at the origin.
pub open spec fn add_entities(s: Seq<Actor>, next: u64) -> (Seq<Actor>, u64) {
    let boss = ShopkeeperBundle::new_spec(vec_of(SHOPKEEPER_START_X as int, 0));
    let r = added(
        s,
        next,
        Actor {
            id: 0,
            position: boss.position,
            hurtbox: boss.hurtbox,
            kind: ActorKind::Shopkeeper(boss.shopkeeper),
        },
    );
    added(
        r.0,
        r.1,
        Actor {
            id: 0,
            position: vec_of(0, 0),
            hurtbox: PlayerBundle::new_spec().hurtbox,
            kind: ActorKind::Player(PlayerBundle::new_spec().player),
        },
    )
}

/// One whole tick, with `pick` as the ability of any boss whose cooldown runs
/// out: the player, skeleton and boss passes (each chasing the player's
/// position at the start of the tick), new minions added, motion, damage
/// from every hitbox of the tick in the order emitted, then deaths. Returns
/// the arena and the next free identity.
pub open spec fn tick_result(
    s: Seq<Actor>,
    next: u64,
    c: Controls,
    m: MouseState,
    pick: Ability,
) -> (Seq<Actor>, u64) {
    let target = player_position(s);
    let p = player_stage(s, m, c);
    let k = skeleton_stage(p.0, target);
    let b = shopkeeper_stage(k.0, target, pick);
    let grown = add_skeletons(b.0, next, b.2);
    let moved = grown.0.map_values(|a: Actor| integrated(a));
    (after_deaths(resolve(moved, p.1 + k.1 + b.1)), grown.1)
}

/// The hitboxes of one tick, in the order emitted: the player's, then the
/// skeletons', then the bosses'.
pub open spec fn tick_events(s: Seq<Actor>, c: Controls, m: MouseState, pick: Ability) -> Seq<
    HitBoxEvent,
> {
    let target = player_position(s);
    let p = player_stage(s, m, c);
    let k = skeleton_stage(p.0, target);
    let b = shopkeeper_stage(k.0, target, pick);
    p.1 + k.1 + b.1
}

/// What the message box should show.
#[derive(Clone, Copy, Debug, PartialEq, Eq, Structural)]
pub enum Notice {
    /// The player is gone; a key restarts.
    GameOver,
    /// No enemy is left.
    Victory,
    /// Nothing.
    Blank,
}

/// The figures the HUD shows.
#[derive(Clone, Copy, Debug, PartialEq, Eq, Structural)]
pub struct Hud {
    pub health: u64,
    pub money: u64,
    pub exp: u64,
    pub exp_per_level: u64,
    pub level: u64,
}

/// The simulation: every live actor, and the identity the next one gets.
pub struct World {
    pub actors: Vec<Actor>,
    pub next_id: u64,
}

pub proof fn lemma_same_ids_below(a: Seq<Actor>, b: Seq<Actor>, next: u64)
    requires
        same_ids(a, b),
        forall|i: int| 0 <= i < a.len() ==> (#[trigger] a[i]).id < next,
    ensures
        forall|i: int| 0 <= i < b.len() ==> (#[trigger] b[i]).id < next,
{
    assert forall|i: int| 0 <= i < b.len() implies (#[trigger] b[i]).id < next by {
        assert(a[i].id == b[i].id);
    }
}

impl World {
    /// Every actor is valid, identities rise along the arena, and all lie
    /// below `next_id`.
    pub open spec fn wf(&self) -> bool {
        &&& all_wf(self.actors@)
        &&& ids_increasing(self.actors@)
        &&& forall|i: int| 0 <= i < self.actors@.len() ==> (#[trigger] self.actors@[i]).id < self.next_id
    }

    /// An empty world.
    pub fn new() -> (r: World)
        ensures
            r.wf(),
            r.actors@.len() == 0,
            r.next_id == 0,
    {
        World { actors: Vec::new(), next_id: 0 }
    }

    /// Adds an actor under a fresh identity and returns it; `None` once
    /// identities have run out (see `added`).
    pub fn spawn(&mut self, actor: Actor) -> (r: Option<u64>)
        requires
            old(self).wf(),
            actor.wf(),
        ensures
            final(self).wf(),
            (final(self).actors@, final(self).next_id) == added(
                old(self).actors@,
                old(self).next_id,
                actor,
            ),
            r == if old(self).next_id < u64::MAX {
                Some(old(self).next_id)
            } else {
                None::<u64>
            },
    {
        if self.next_id == u64::MAX {
            return None;
        }
        let id = self.next_id;
        self.actors.push(Actor { id, ..actor });
        self.next_id = id + 1;
        proof {
            assert forall|i: int, j: int|
                #![trigger self.actors@[i], self.actors@[j]]
                0 <= i < j < self.actors@.len() implies self.actors@[i].id
                < self.actors@[j].id by {
                if j == self.actors@.len() - 1 {
                    assert(old(self).actors@[i].id < id);
                } else {
                    assert(old(self).actors@[i] == self.actors@[i]);
                    assert(old(self).actors@[j] == self.actors@[j]);
                }
            }
        }
        Some(id)
    }

    /// Adds a fresh skeleton at `position`.
    pub fn spawn_skeleton(&mut self, position: Vec2) -> (r: Option<u64>)
        requires
            old(self).wf(),
            position.bounded(WORLD_LIMIT as int),
        ensures
            final(self).wf(),
            (final(self).actors@, final(self).next_id) == added(
                old(self).actors@,
                old(self).next_id,
                skeleton_at(position),
            ),
            r == if old(self).next_id < u64::MAX {
                Some(old(self).next_id)
            } else {
                None::<u64>
            },
    {
        let b = SkeletonBundle::new(position);
        self.spawn(
            Actor { id: 0, position, hurtbox: b.hurtbox, kind: ActorKind::Skeleton(b.skeleton) },
        )
    }

    /// Adds a fresh skeleton at each place, in order (see `add_skeletons`).
    pub fn spawn_skeletons(&mut self, spots: &Vec<Vec2>)
        requires
            old(self).wf(),
            forall|i: int| 0 <= i < spots.len() ==> (#[trigger] spots@[i]).bounded(WORLD_LIMIT as int),
        ensures
            final(self).wf(),
            (final(self).actors@, final(self).next_id) == add_skeletons(
                old(self).actors@,
                old(self).next_id,
                spots@,
            ),
    {
        let mut i: usize = 0;
        while i < spots.len()
            invariant
                0 <= i <= spots.len(),
                self.wf(),
                forall|j: int| 0 <= j < spots.len() ==> (#[trigger] spots@[j]).bounded(WORLD_LIMIT as int),
                (self.actors@, self.next_id) == add_skeletons(
                    old(self).actors@,
                    old(self).next_id,
                    spots@.subrange(0, i as int),
                ),
            decreases spots.len() - i,
        {
            assert(spots@.subrange(0, i + 1).drop_last() =~= spots@.subrange(0, i as int));
            self.spawn_skeleton(spots[i]);
            i = i + 1;
        }
        assert(spots@.subrange(0, spots.len() as int) =~= spots@);
    }

    /// Adds the actors a game starts with (see `add_entities`).
    pub fn spawn_entities(&mut self)
        requires
            old(self).wf(),
        ensures
            final(self).wf(),
            (final(self).actors@, final(self).next_id) == add_entities(
                old(self).actors@,
                old(self).next_id,
            ),
    {
        let boss = ShopkeeperBundle::new(Vec2 { x: SHOPKEEPER_START_X, y: 0 });
        self.spawn(
            Actor {
                id: 0,
                position: boss.position,
                hurtbox: boss.hurtbox,
                kind: ActorKind::Shopkeeper(boss.shopkeeper),
            },
        );
        let hero = PlayerBundle::new();
        self.spawn(
            Actor {
                id: 0,
                position: Vec2 { x: 0, y: 0 },
                hurtbox: hero.hurtbox,
                kind: ActorKind::Player(hero.player),
            },
        );
    }

    /// Removes the actor with identity `id`, if there is one; otherwise
    /// nothing changes. Returns whether one was removed.
    pub fn despawn(&mut self, id: u64) -> (r: bool)
        requires
            old(self).wf(),
        ensures
            final(self).wf(),
            final(self).actors@ == old(self).actors@.filter(|a: Actor| a.id != id),
            final(self).next_id == old(self).next_id,
            r == exists|i: int| 0 <= i < old(self).actors@.len() && (#[trigger] old(self).actors@[i]).id == id,
    {
        let ghost start = self.actors@;
        let mut kept: Vec<Actor> = Vec::new();
        let mut found = false;
        let mut i: usize = 0;
        while i < self.actors.len()
            invariant
                self.actors@ == start,
                0 <= i <= start.len(),
                kept@ == start.subrange(0, i as int).filter(|a: Actor| a.id != id),
                all_wf(start),
                all_wf(kept@),
                ids_increasing(start),
                ids_increasing(kept@),
                forall|k: int| 0 <= k < kept.len() ==> (#[trigger] kept@[k]).id < self.next_id,
                forall|k: int| 0 <= k < start.len() ==> (#[trigger] start[k]).id < self.next_id,
                kept.len() > 0 ==> i > 0 && kept@.last().id <= start[i - 1].id,
                found == exists|k: int| 0 <= k < i && (#[trigger] start[k]).id == id,
            decreases start.len() - i,
        {
            proof {
                reveal(Seq::filter);
                assert(start.subrange(0, i + 1).drop_last() =~= start.subrange(0, i as int));
            }
            let ghost before = kept@;
            let a = self.actors[i];
            if a.id != id {
                kept.push(a);
                proof {
                    if before.len() > 0 {
                        assert(start[i - 1].id < start[i as int].id);
                        assert forall|x: int, y: int|
                            #![trigger kept@[x], kept@[y]]
                            0 <= x < y < kept.len() implies kept@[x].id < kept@[y].id by {
                            if y == kept.len() - 1 {
                                assert(before[x].id <= before.last().id);
                            }
                        }
                    }
                }
            } else {
                found = true;
                proof {
                    if before.len() > 0 {
                        assert(start[i - 1].id < start[i as int].id);
                    }
                }
            }
            i = i + 1;
        }
        assert(start.subrange(0, start.len() as int) =~= start);
        self.actors = kept;
        found
    }

    /// Removes every actor; identities are not handed out again.
    pub fn clear(&mut self)
        requires
            old(self).wf(),
        ensures
            final(self).wf(),
            final(self).actors@.len() == 0,
            final(self).next_id == old(self).next_id,
    {
        self.actors = Vec::new();
    }

    /// Runs one tick with `pick` as the ability any boss casts if its
    /// cooldown runs out (see `tick_result`). Returns the tick's hitboxes in
    /// the order they were emitted.
    pub fn tick_with(&mut self, keys: &Controls, mouse: &MouseState, pick: Ability) -> (r: Vec<
        HitBoxEvent,
    >)
        requires
            old(self).wf(),
            mouse.wf(),
        ensures
            final(self).wf(),
            r@ == tick_events(old(self).actors@, *keys, *mouse, pick),
            forall|i: int| 0 <= i < r.len() ==> (#[trigger] r@[i]).wf(),
            (final(self).actors@, final(self).next_id) == tick_result(
                old(self).actors@,
                old(self).next_id,
                *keys,
                *mouse,
                pick,
            ),
    {
        let ghost s = self.actors@;
        let target = match find_player(&self.actors) {
            Some(i) => Some(self.actors[i].position),
            None => None,
        };
        assert(target == player_position(s));
        let mut events: Vec<HitBoxEvent> = Vec::new();
        let mut spawns: Vec<Vec2> = Vec::new();
        player_system(&mut self.actors, keys, mouse, &mut events);
        let ghost s1 = self.actors@;
        skeleton_system(&mut self.actors, target, &mut events);
        let ghost s2 = self.actors@;
        shopkeeper_system(&mut self.actors, target, pick, &mut events, &mut spawns);
        let ghost s3 = self.actors@;
        proof {
            lemma_same_ids_increasing(s, s1);
            lemma_same_ids_increasing(s1, s2);
            lemma_same_ids_increasing(s2, s3);
            lemma_same_ids_below(s, s1, self.next_id);
            lemma_same_ids_below(s1, s2, self.next_id);
            lemma_same_ids_below(s2, s3, self.next_id);
            assert(spawns@ =~= Seq::<Vec2>::empty() + shopkeeper_stage(s2, target, pick).2);
        }
        self.spawn_skeletons(&spawns);
        let ghost s4 = self.actors@;
        physics_system(&mut self.actors);
        let ghost s5 = self.actors@;
        proof {
            lemma_same_ids_increasing(s4, s5);
            lemma_same_ids_below(s4, s5, self.next_id);
            assert(events@ =~= player_stage(s, *mouse, *keys).1 + skeleton_stage(s1, target).1
                + shopkeeper_stage(s2, target, pick).1);
            assert(events_wf(events@));
        }
        take_damage(&mut self.actors, &events);
        let ghost s6 = self.actors@;
        proof {
            lemma_same_ids_increasing(s5, s6);
            lemma_same_ids_below(s5, s6, self.next_id);
        }
        die_system(&mut self.actors);
        proof {
            let f = self.actors@;
            if f.len() > 0 {
                assert forall|i: int| 0 <= i < f.len() implies (#[trigger] f[i]).id < self.next_id by {
                    if i < f.len() - 1 {
                        assert(f[i].id < f.last().id);
                    }
                    assert(s6[s6.len() - 1].id < self.next_id);
                }
            }
        }
        events
    }

    /// Runs one tick; a boss whose cooldown runs out casts an ability picked
    /// at random (see `tick_with`). Returns the tick's hitboxes.
    pub fn tick(&mut self, keys: &Controls, mouse: &MouseState) -> (r: Vec<HitBoxEvent>)
        requires
            old(self).wf(),
            mouse.wf(),
        ensures
            final(self).wf(),
            exists|pick: Ability|
                (final(self).actors@, final(self).next_id) == #[trigger] tick_result(
                    old(self).actors@,
                    old(self).next_id,
                    *keys,
                    *mouse,
                    pick,
                ) && r@ == tick_events(old(self).actors@, *keys, *mouse, pick),
            forall|i: int| 0 <= i < r.len() ==> (#[trigger] r@[i]).wf(),
    {
        let pick = roll_ability();
        self.tick_with(keys, mouse, pick)
    }

    /// With no player left: shows Game Over, and on the restart key clears
    /// the world and sets up a new game. With a player: blanks the message
    /// once any key is held. Otherwise leaves the message as it is (`None`).
    pub fn game_over(&mut self, keys: &Controls) -> (r: Option<Notice>)
        requires
            old(self).wf(),
        ensures
            final(self).wf(),
            r == if player_index(old(self).actors@) is None {
                Some(Notice::GameOver)
            } else if keys.any_pressed {
                Some(Notice::Blank)
            } else {
                None::<Notice>
            },
            player_index(old(self).actors@) is None && keys.restart ==> (final(self).actors@,
            final(self).next_id) == add_entities(Seq::empty(), old(self).next_id),
            !(player_index(old(self).actors@) is None && keys.restart) ==> final(self).actors@
                == old(self).actors@ && final(self).next_id == old(self).next_id,
    {
        if find_player(&self.actors).is_none() {
            if keys.restart {
                self.clear();
                self.spawn_entities();
            }
            Some(Notice::GameOver)
        } else if keys.any_pressed {
            Some(Notice::Blank)
        } else {
            None
        }
    }

    /// Victory is shown once no enemy is left.
    pub fn victory(&self) -> (r: Option<Notice>)
        ensures
            r == if forall|i: int| 0 <= i < self.actors@.len() ==> is_player(#[trigger] self.actors@[i]) {
                Some(Notice::Victory)
            } else {
                None::<Notice>
            },
    {
        let mut i: usize = 0;
        while i < self.actors.len()
            invariant
                0 <= i <= self.actors.len(),
                forall|j: int| 0 <= j < i ==> is_player(#[trigger] self.actors@[j]),
            decreases self.actors.len() - i,
        {
            match self.actors[i].kind {
                ActorKind::Player(_) => {},
                _ => {
                    return None;
                },
            }
            i = i + 1;
        }
        Some(Notice::Victory)
    }

    /// The player singleton's health, money, experience and level, if there
    /// is a player.
    pub fn update_hud(&self) -> (r: Option<Hud>)
        ensures
            match player_index(self.actors@) {
                Some(i) => match self.actors@[i].kind {
                    ActorKind::Player(p) => r == Some(
                        Hud {
                            health: self.actors@[i].hurtbox.health,
                            money: p.money,
                            exp: p.exp,
                            exp_per_level: EXP_PER_LEVEL,
                            level: p.exp / EXP_PER_LEVEL,
                        },
                    ),
                    _ => false,
                },
                None => r is None,
            },
    {
        match find_player(&self.actors) {
            Some(i) => {
                let a = self.actors[i];
                match a.kind {
                    ActorKind::Player(p) => Some(
                        Hud {
                            health: a.hurtbox.health,
                            money: p.money,
                            exp: p.exp,
                            exp_per_level: EXP_PER_LEVEL,
                            level: p.level(),
                        },
                    ),
                    _ => None,
                }
            },
            None => None,
        }
    }
}

} // verus!
