//! Properties of the combat rules that hold for every input.
use vstd::prelude::*;

use crate::collision::{after_hit, lands, HitBoxEvent, Hurtbox};
use crate::geom::{abs, diff, overlap, Vec2};
use crate::mouse::{Controls, MouseState};
use crate::player::{
    dash_ready, idle_next, opt_seq, player_pass, walk_next, Player, PlayerAction,
    DAMAGED_INVINCIBILITY_FRAMES, DASH_COOLDOWN_TIME, DASH_DURATION,
};
use crate::shopkeeper::{
    shopkeeper_pass, Ability, Shopkeeper, ShopkeeperAction, BLAST_ACTIVE_FRAME, BLAST_END,
};
use crate::world::{
    after_deaths, alive, earned, kills, player_index, resolve, rewarded, Actor,
    ActorKind,
};

verus! {

/// A hit takes exactly the damage off the health, stopping at zero; a miss
/// leaves the health alone.
pub proof fn lemma_health_saturates(hb: Hurtbox, pos: Vec2, e: HitBoxEvent)
    ensures
        after_hit(hb, pos, e).health == if lands(e, hb, pos) {
            if hb.health >= e.damage {
                (hb.health - e.damage) as u64
            } else {
                0u64
            }
        } else {
            hb.health
        },
{
}

/// An invincible hurtbox comes through every event of a tick untouched,
/// whatever overlaps it.
pub proof fn lemma_invincible_untouched(s: Seq<Actor>, events: Seq<HitBoxEvent>, i: int)
    requires
        0 <= i < s.len(),
        s[i].hurtbox.invincible,
    ensures
        resolve(s, events).len() == s.len(),
        resolve(s, events)[i] == s[i],
    decreases events.len(),
{
    if events.len() > 0 {
        lemma_invincible_untouched(s, events.drop_last(), i);
    }
}

/// The three laws of the box overlap test: it is symmetric; two boxes of
/// positive size at the same centre overlap; and boxes farther apart on an
/// axis than their half-extents together never overlap.
pub proof fn lemma_overlap_laws(p1: Vec2, s1: Vec2, p2: Vec2, s2: Vec2)
    ensures
        overlap(p1, s1, p2, s2) == overlap(p2, s2, p1, s1),
        p1 == p2 && s1.x > 0 && s1.y > 0 && s2.x > 0 && s2.y > 0 ==> overlap(p1, s1, p2, s2),
        2 * abs(p1.x - p2.x) > s1.x + s2.x || 2 * abs(p1.y - p2.y) > s1.y + s2.y ==> !overlap(
            p1,
            s1,
            p2,
            s2,
        ),
{
}

/// The player's state and hurtbox after `n` passes with the same input and
/// no further hit.
pub open spec fn passes(p: Player, hb: Hurtbox, pos: Vec2, m: MouseState, c: Controls, n: nat) -> (
    Player,
    Hurtbox,
)
    decreases n,
{
    if n == 0 {
        (p, hb)
    } else {
        let r = passes(p, hb, pos, m, c, (n - 1) as nat);
        let q = player_pass(r.0, r.1, pos, m, c);
        (q.0, q.1)
    }
}

proof fn lemma_damaged_holds(p: Player, hb: Hurtbox, pos: Vec2, m: MouseState, c: Controls, n: nat)
    requires
        hb.is_hit,
        c.quiet(),
        1 <= n <= DAMAGED_INVINCIBILITY_FRAMES + 1,
    ensures
        passes(p, hb, pos, m, c, n).0.action == PlayerAction::Damaged,
        passes(p, hb, pos, m, c, n).0.frame == n,
        passes(p, hb, pos, m, c, n).1.invincible,
        !passes(p, hb, pos, m, c, n).1.is_hit,
    decreases n,
{
    let r = passes(p, hb, pos, m, c, (n - 1) as nat);
    if n > 1 {
        lemma_damaged_holds(p, hb, pos, m, c, (n - 1) as nat);
        assert(!r.1.is_hit && r.0.action == PlayerAction::Damaged);
        assert(player_pass(r.0, r.1, pos, m, c).0 == r.0.ticked());
    } else {
        assert(r == (p, hb));
        let p0 = p.with_action(PlayerAction::Damaged);
        let hb0 = Hurtbox { is_hit: false, invincible: true, ..hb };
        assert(player_pass(p, hb, pos, m, c).0 == p0.ticked());
        assert(player_pass(p, hb, pos, m, c).1 == hb0);
    }
}

/// After a hit, with no further input, the player is Damaged and invincible
/// on the pass that sees the hit and on each pass through frame
/// `DAMAGED_INVINCIBILITY_FRAMES`; on the next pass it is vulnerable again
/// and back in Idle.
pub proof fn lemma_damaged_window(p: Player, hb: Hurtbox, pos: Vec2, m: MouseState, c: Controls)
    requires
        hb.is_hit,
        c.quiet(),
    ensures
        forall|n: nat|
            1 <= n <= DAMAGED_INVINCIBILITY_FRAMES + 1 ==> (#[trigger] passes(
                p,
                hb,
                pos,
                m,
                c,
                n,
            )).1.invincible && passes(p, hb, pos, m, c, n).0.action == PlayerAction::Damaged,
        !passes(p, hb, pos, m, c, DAMAGED_INVINCIBILITY_FRAMES as nat + 2).1.invincible,
        passes(p, hb, pos, m, c, DAMAGED_INVINCIBILITY_FRAMES as nat + 2).0.action
            == PlayerAction::Idle,
{
    assert forall|n: nat| 1 <= n <= DAMAGED_INVINCIBILITY_FRAMES + 1 implies (#[trigger] passes(
        p,
        hb,
        pos,
        m,
        c,
        n,
    )).1.invincible && passes(p, hb, pos, m, c, n).0.action == PlayerAction::Damaged by {
        lemma_damaged_holds(p, hb, pos, m, c, n);
    }
    lemma_damaged_holds(p, hb, pos, m, c, DAMAGED_INVINCIBILITY_FRAMES as nat + 1);
}

/// A dash asked for while the cooldown runs is ignored: Idle and Walk behave
/// as if it had not been asked for. Once the cooldown is over, and with a
/// cursor, it starts a dash toward the cursor and restarts the cooldown.
pub proof fn lemma_dash_gating(p: Player, hb: Hurtbox, pos: Vec2, m: MouseState, c: Controls)
    requires
        c.dash,
        !c.slash,
    ensures
        p.frame_since_last_cooldown <= DASH_COOLDOWN_TIME ==> idle_next(p, hb, pos, m, c)
            == idle_next(p, hb, pos, m, Controls { dash: false, ..c }) && walk_next(
            p,
            hb,
            pos,
            m,
            c,
        ) == walk_next(p, hb, pos, m, Controls { dash: false, ..c }),
        dash_ready(p) && m.world_position is Some ==> ({
            let aim = diff(m.world_position->Some_0, pos);
            &&& idle_next(p, hb, pos, m, c).0.action == PlayerAction::Dash { aim }
            &&& idle_next(p, hb, pos, m, c).0.frame_since_last_cooldown == 0
            &&& walk_next(p, hb, pos, m, c).0.action == PlayerAction::Dash { aim }
            &&& walk_next(p, hb, pos, m, c).0.frame_since_last_cooldown == 0
        }),
{
}

proof fn lemma_all_alive_no_kills(s: Seq<Actor>)
    requires
        forall|i: int| 0 <= i < s.len() ==> alive(#[trigger] s[i]),
    ensures
        kills(s) == 0,
    decreases s.len(),
{
    if s.len() > 0 {
        lemma_all_alive_no_kills(s.drop_last());
    }
}

proof fn lemma_filter_all_alive(s: Seq<Actor>)
    requires
        forall|i: int| 0 <= i < s.len() ==> alive(#[trigger] s[i]),
    ensures
        s.filter(|a: Actor| alive(a)) == s,
    decreases s.len(),
{
    reveal(Seq::filter);
    if s.len() > 0 {
        lemma_filter_all_alive(s.drop_last());
        assert(s.drop_last().push(s.last()) =~= s);
    }
}

/// The death pass settles at once: every actor it leaves is alive, so a
/// second pass removes nobody and pays no reward again.
pub proof fn lemma_deaths_settle(s: Seq<Actor>)
    ensures
        forall|i: int|
            0 <= i < after_deaths(s).len() ==> (#[trigger] after_deaths(s)[i]).hurtbox.health > 0,
        kills(after_deaths(s)) == 0,
        after_deaths(after_deaths(s)) == after_deaths(s),
{
    let t = after_deaths(s);
    let paid = match player_index(s) {
        Some(i) => s.update(i, rewarded(s[i], kills(s))),
        None => s,
    };
    assert forall|i: int| 0 <= i < t.len() implies alive(#[trigger] t[i]) by {
        paid.lemma_filter_pred(|a: Actor| alive(a), i);
    }
    lemma_all_alive_no_kills(t);
    lemma_filter_all_alive(t);
    crate::world::lemma_last_player(t);
    if let Some(i) = player_index(t) {
        let a = t[i];
        assert(rewarded(a, 0) == a) by {
            if let ActorKind::Player(p) = a.kind {
                assert(earned(p.exp, crate::world::KILL_EXP, 0) == p.exp);
                assert(earned(p.money, crate::world::KILL_MONEY, 0) == p.money);
            }
        }
        assert(t.update(i, rewarded(t[i], kills(t))) =~= t);
    }
}

/// A dash that has run its course ends vulnerable and out of Dash, whatever
/// is pressed: the cooldown restarted when it began, so it cannot chain
/// into another dash.
pub proof fn lemma_dash_does_not_chain(p: Player, hb: Hurtbox, pos: Vec2, m: MouseState, c: Controls)
    requires
        p.wf(),
        p.action is Dash,
        p.frame > DASH_DURATION,
        !hb.is_hit,
    ensures
        !(player_pass(p, hb, pos, m, c).0.action is Dash),
        !player_pass(p, hb, pos, m, c).1.invincible,
{
}

/// The boss's state, hurtbox and emitted hitboxes after `n` passes with the
/// same player position and no hit.
pub open spec fn boss_passes(
    k: Shopkeeper,
    hb: Hurtbox,
    pos: Vec2,
    target: Vec2,
    pick: Ability,
    n: nat,
) -> (Shopkeeper, Hurtbox, Seq<HitBoxEvent>)
    decreases n,
{
    if n == 0 {
        (k, hb, Seq::empty())
    } else {
        let r = boss_passes(k, hb, pos, target, pick, (n - 1) as nat);
        let q = shopkeeper_pass(r.0, r.1, pos, target, pick);
        (q.0, q.1, r.2 + opt_seq(q.2))
    }
}

proof fn lemma_blast_progress(
    k: Shopkeeper,
    hb: Hurtbox,
    pos: Vec2,
    target: Vec2,
    pick: Ability,
    n: nat,
)
    requires
        k.action == ShopkeeperAction::Blast,
        k.frame == 0,
        !hb.is_hit,
        n <= BLAST_END + 1,
    ensures
        boss_passes(k, hb, pos, target, pick, n).0.action == ShopkeeperAction::Blast,
        boss_passes(k, hb, pos, target, pick, n).0.frame == n,
        !boss_passes(k, hb, pos, target, pick, n).1.is_hit,
        boss_passes(k, hb, pos, target, pick, n).2.len() == if n > BLAST_ACTIVE_FRAME {
            1int
        } else {
            0int
        },
    decreases n,
{
    if n > 0 {
        lemma_blast_progress(k, hb, pos, target, pick, (n - 1) as nat);
    }
}

/// A whole Blast cast, from its first frame until the boss walks again,
/// emits exactly one hitbox.
pub proof fn lemma_blast_strikes_once(
    k: Shopkeeper,
    hb: Hurtbox,
    pos: Vec2,
    target: Vec2,
    pick: Ability,
)
    requires
        k.action == ShopkeeperAction::Blast,
        k.frame == 0,
        !hb.is_hit,
    ensures
        boss_passes(k, hb, pos, target, pick, BLAST_END as nat + 2).0.action
            == ShopkeeperAction::Walk,
        boss_passes(k, hb, pos, target, pick, BLAST_END as nat + 2).2.len() == 1,
{
    lemma_blast_progress(k, hb, pos, target, pick, BLAST_END as nat + 1);
}

} // verus!
