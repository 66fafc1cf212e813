//! The player's action state machine: Idle, Walk, Slash, Dash and Damaged.
use vstd::prelude::*;

use crate::collision::{CanHitTeam, HitBoxEvent, Hurtbox, Team};
use crate::geom::{
    abs, heading, plus, sum, toward, vec_of, Vec2, UNIT, WORLD_LIMIT,
};
use crate::mouse::{Controls, MouseState};
use crate::world::{all_wf, find_player, player_index, same_ids, Actor, ActorKind};

verus! {

/// Walking speed.
pub const MOVEMENT_SPEED: i64 = 6 * UNIT;

/// Speed during the first frames of a dash.
pub const DASH_SPEED: i64 = 50 * UNIT;

/// A dash ends on the first frame after this one.
pub const DASH_DURATION: u64 = 6;

/// Frames at the start of a dash that drive the player at `DASH_SPEED`.
pub const DASH_BURST_FRAMES: u64 = 4;

/// Frames that must pass after a dash starts before the next one.
pub const DASH_COOLDOWN_TIME: u64 = 60;

/// After a hit the player stays invincible through this frame of Damaged.
pub const DAMAGED_INVINCIBILITY_FRAMES: u64 = 5;

/// Idle restarts its animation after this frame.
pub const IDLE_TIMEOUT: u64 = 90;

/// Walk restarts its animation after this frame.
pub const WALK_CYCLE: u64 = 30;

/// Speed given toward the cursor when a slash starts.
pub const SLASH_ENTRY_SPEED: i64 = 4 * UNIT;

/// Speed held during the first frames of a slash.
pub const SLASH_SPEED: i64 = 8 * UNIT;

/// Frames at the start of a slash that drive the player at `SLASH_SPEED`.
pub const SLASH_MOVE_FRAMES: u64 = 10;

/// The slash's hitbox comes out on this frame.
pub const SLASH_ACTIVE_FRAME: u64 = 1;

/// A slash ends on the first frame after this one.
pub const SLASH_RECOVERY: u64 = 17;

/// Distance from the player to the centre of the slash's hitbox.
pub const SLASH_REACH: i64 = 70 * UNIT;

/// Side of the slash's square hitbox.
pub const SLASH_SIZE: i64 = 60 * UNIT;

pub const SLASH_DAMAGE: u64 = 2;

pub const SLASH_KNOCKBACK: i64 = 30 * UNIT;

pub const PLAYER_WIDTH: i64 = 30 * UNIT;

pub const PLAYER_HEIGHT: i64 = 50 * UNIT;

pub const PLAYER_HEALTH: u64 = 20;

/// Experience needed for each level.
pub const EXP_PER_LEVEL: u64 = 100;

/// Cells in each row of the player's sprite sheet.
pub const PLAYER_SPRITE_ROWS: u32 = 2;

/// What the player is doing. Slash and Dash carry the offset from the player
/// to the cursor at the moment they began.
#[derive(Clone, Copy, Debug, PartialEq, Eq, Structural)]
pub enum PlayerAction {
    Idle,
    Walk,
    Slash { aim: Vec2 },
    Dash { aim: Vec2 },
    Damaged,
}

impl PlayerAction {
    pub open spec fn wf(self) -> bool {
        match self {
            PlayerAction::Slash { aim } => aim.bounded(2 * WORLD_LIMIT),
            PlayerAction::Dash { aim } => aim.bounded(2 * WORLD_LIMIT),
            _ => true,
        }
    }
}

#[derive(Clone, Copy, Debug, PartialEq, Eq, Structural)]
pub enum Facing {
    Up,
    Left,
    Down,
    Right,
}

#[derive(Clone, Copy, Debug, PartialEq, Eq, Structural)]
pub struct Player {
    /// Ticks spent in the current action.
    pub frame: u64,
    /// Ticks since the last dash began.
    pub frame_since_last_cooldown: u64,
    pub action: PlayerAction,
    pub facing: Facing,
    pub exp: u64,
    pub money: u64,
}

/// The facing that matches a direction: the axis with the larger component
/// wins, and a tie (or no direction) faces sideways, right unless `x < 0`.
pub open spec fn facing_of(a: Vec2) -> Facing {
    if abs(a.y as int) > abs(a.x as int) {
        if a.y > 0 {
            Facing::Up
        } else {
            Facing::Down
        }
    } else if a.x >= 0 {
        Facing::Right
    } else {
        Facing::Left
    }
}

/// A dash may start: the cooldown has run out.
pub open spec fn dash_ready(p: Player) -> bool {
    p.frame_since_last_cooldown > DASH_COOLDOWN_TIME
}

/// The controls ask for an attack or a dash that the player may take up.
pub open spec fn takes_action(p: Player, c: Controls) -> bool {
    c.slash || (c.dash && dash_ready(p))
}

/// The state after a requested attack or dash. An attack takes priority; with
/// no cursor neither starts. A slash sets off toward the cursor; a dash
/// restarts the cooldown and makes the player invincible.
pub open spec fn acted(p: Player, hb: Hurtbox, pos: Vec2, m: MouseState, c: Controls) -> (
    Player,
    Hurtbox,
) {
    if c.slash {
        match m.aim_from(pos) {
            Some(a) => (
                Player { facing: facing_of(a), ..p.with_action(PlayerAction::Slash { aim: a }) },
                Hurtbox { vel: heading(a, SLASH_ENTRY_SPEED as int), ..hb },
            ),
            None => (p, hb),
        }
    } else if c.dash && dash_ready(p) {
        match m.aim_from(pos) {
            Some(a) => (
                Player {
                    facing: facing_of(a),
                    frame_since_last_cooldown: 0,
                    ..p.with_action(PlayerAction::Dash { aim: a })
                },
                Hurtbox { invincible: true, ..hb },
            ),
            None => (p, hb),
        }
    } else {
        (p, hb)
    }
}

/// One Idle pass: an attack or dash first, then walking, then the animation
/// restart.
pub open spec fn idle_next(p: Player, hb: Hurtbox, pos: Vec2, m: MouseState, c: Controls) -> (
    Player,
    Hurtbox,
) {
    if takes_action(p, c) {
        acted(p, hb, pos, m, c)
    } else if c.moving() {
        (p.with_action(PlayerAction::Walk), hb)
    } else if p.frame > IDLE_TIMEOUT {
        (p.with_action(PlayerAction::Idle), hb)
    } else {
        (p, hb)
    }
}

/// Velocity and facing for the held movement keys; diagonals move at the
/// same speed as the axes.
pub open spec fn walk_motion(c: Controls) -> (Vec2, Facing) {
    if c.up && c.left {
        (heading(vec_of(-1, 1), MOVEMENT_SPEED as int), Facing::Left)
    } else if c.up && c.right {
        (heading(vec_of(1, 1), MOVEMENT_SPEED as int), Facing::Right)
    } else if c.down && c.left {
        (heading(vec_of(-1, -1), MOVEMENT_SPEED as int), Facing::Left)
    } else if c.down && c.right {
        (heading(vec_of(1, -1), MOVEMENT_SPEED as int), Facing::Right)
    } else if c.up {
        (vec_of(0, MOVEMENT_SPEED as int), Facing::Up)
    } else if c.down {
        (vec_of(0, -MOVEMENT_SPEED), Facing::Down)
    } else if c.left {
        (vec_of(-MOVEMENT_SPEED, 0), Facing::Left)
    } else {
        (vec_of(MOVEMENT_SPEED as int, 0), Facing::Right)
    }
}

/// One Walk pass: an attack or dash first; with no movement key, back to
/// Idle; otherwise move by the keys.
pub open spec fn walk_next(p: Player, hb: Hurtbox, pos: Vec2, m: MouseState, c: Controls) -> (
    Player,
    Hurtbox,
) {
    if takes_action(p, c) {
        acted(p, hb, pos, m, c)
    } else if !c.moving() {
        (p.with_action(PlayerAction::Idle), hb)
    } else {
        let moved = Player { facing: walk_motion(c).1, ..p };
        (
            if p.frame > WALK_CYCLE {
                moved.with_action(PlayerAction::Walk)
            } else {
                moved
            },
            Hurtbox { vel: walk_motion(c).0, ..hb },
        )
    }
}

/// The slash's hitbox for a player at `pos` aiming along `aim`.
pub open spec fn slash_hitbox(pos: Vec2, aim: Vec2) -> HitBoxEvent {
    HitBoxEvent {
        position: sum(pos, heading(aim, SLASH_REACH as int)),
        size: vec_of(SLASH_SIZE as int, SLASH_SIZE as int),
        damage: SLASH_DAMAGE,
        knockback: SLASH_KNOCKBACK,
        can_hit: CanHitTeam::Enemy,
    }
}

/// One Slash pass: drive along the aim early on, strike once on the active
/// frame, and after recovery go back to Idle and take the Idle pass at once.
pub open spec fn slash_next(
    p: Player,
    aim: Vec2,
    hb: Hurtbox,
    pos: Vec2,
    m: MouseState,
    c: Controls,
) -> (Player, Hurtbox, Option<HitBoxEvent>) {
    let hb1 = if p.frame < SLASH_MOVE_FRAMES {
        Hurtbox { vel: heading(aim, SLASH_SPEED as int), ..hb }
    } else {
        hb
    };
    let ev = if p.frame == SLASH_ACTIVE_FRAME {
        Some(slash_hitbox(pos, aim))
    } else {
        None
    };
    if p.frame > SLASH_RECOVERY {
        let next = idle_next(p.with_action(PlayerAction::Idle), hb1, pos, m, c);
        (next.0, next.1, ev)
    } else {
        (p, hb1, ev)
    }
}

/// One Dash pass: invincible, driven fast along the aim early on; after the
/// duration, vulnerable again and back to Idle, taking the Idle pass at once.
pub open spec fn dash_next(p: Player, aim: Vec2, hb: Hurtbox, pos: Vec2, m: MouseState, c: Controls) -> (
    Player,
    Hurtbox,
) {
    let hb1 = Hurtbox {
        invincible: true,
        vel: if p.frame < DASH_BURST_FRAMES {
            heading(aim, DASH_SPEED as int)
        } else {
            hb.vel
        },
        ..hb
    };
    if p.frame > DASH_DURATION {
        idle_next(
            p.with_action(PlayerAction::Idle),
            Hurtbox { invincible: false, ..hb1 },
            pos,
            m,
            c,
        )
    } else {
        (p, hb1)
    }
}

/// One Damaged pass: after the invincibility window, vulnerable again and
/// back to Idle, taking the Idle pass at once.
pub open spec fn damaged_next(p: Player, hb: Hurtbox, pos: Vec2, m: MouseState, c: Controls) -> (
    Player,
    Hurtbox,
) {
    if p.frame > DAMAGED_INVINCIBILITY_FRAMES {
        idle_next(
            p.with_action(PlayerAction::Idle),
            Hurtbox { invincible: false, ..hb },
            pos,
            m,
            c,
        )
    } else {
        (p, hb)
    }
}

/// The player's whole pass for one tick: a fresh hit forces Damaged, the
/// current action runs, and both frame counters advance (saturating).
pub open spec fn player_pass(p: Player, hb: Hurtbox, pos: Vec2, m: MouseState, c: Controls) -> (
    Player,
    Hurtbox,
    Option<HitBoxEvent>,
) {
    let p0 = if hb.is_hit {
        p.with_action(PlayerAction::Damaged)
    } else {
        p
    };
    let hb0 = if hb.is_hit {
        Hurtbox { is_hit: false, invincible: true, ..hb }
    } else {
        hb
    };
    let r = match p0.action {
        PlayerAction::Idle => {
            let n = idle_next(p0, hb0, pos, m, c);
            (n.0, n.1, None)
        },
        PlayerAction::Walk => {
            let n = walk_next(p0, hb0, pos, m, c);
            (n.0, n.1, None)
        },
        PlayerAction::Slash { aim } => slash_next(p0, aim, hb0, pos, m, c),
        PlayerAction::Dash { aim } => {
            let n = dash_next(p0, aim, hb0, pos, m, c);
            (n.0, n.1, None)
        },
        PlayerAction::Damaged => {
            let n = damaged_next(p0, hb0, pos, m, c);
            (n.0, n.1, None)
        },
    };
    (r.0.ticked(), r.1, r.2)
}

/// The events of an optional hitbox, as a sequence.
pub open spec fn opt_seq(o: Option<HitBoxEvent>) -> Seq<HitBoxEvent> {
    match o {
        Some(e) => seq![e],
        None => Seq::empty(),
    }
}

impl Player {
    /// The action's aim is bounded; during a dash the cooldown counter,
    /// restarted when the dash began, equals the frame, which does not pass
    /// the dash's end.
    pub open spec fn wf(self) -> bool {
        &&& self.action.wf()
        &&& self.action is Dash ==> self.frame_since_last_cooldown == self.frame && self.frame
            <= DASH_DURATION + 1
    }

    /// The player in `a`, with the frame counter restarted.
    pub open spec fn with_action(self, a: PlayerAction) -> Player {
        Player { frame: 0, action: a, ..self }
    }

    /// Both frame counters advanced by one, saturating.
    pub open spec fn ticked(self) -> Player {
        Player {
            frame: self.frame.saturating_add(1),
            frame_since_last_cooldown: self.frame_since_last_cooldown.saturating_add(1),
            ..self
        }
    }

    /// A fresh player: idle, facing right, with nothing earned.
    pub open spec fn new_spec() -> Player {
        Player {
            frame: 0,
            frame_since_last_cooldown: 0,
            action: PlayerAction::Idle,
            facing: Facing::Right,
            exp: 0,
            money: 0,
        }
    }

    pub fn new() -> (r: Player)
        ensures
            r == Self::new_spec(),
    {
        Player {
            frame: 0,
            frame_since_last_cooldown: 0,
            action: PlayerAction::Idle,
            facing: Facing::Right,
            exp: 0,
            money: 0,
        }
    }

    pub fn level(&self) -> (r: u64)
        ensures
            r == self.exp / EXP_PER_LEVEL,
    {
        self.exp / EXP_PER_LEVEL
    }

    pub fn set_action(&mut self, action: PlayerAction)
        ensures
            *final(self) == old(self).with_action(action),
    {
        self.frame = 0;
        self.action = action;
    }

    /// Faces the way `aim` points (see `facing_of`).
    pub fn set_facing_by_angle(&mut self, aim: Vec2)
        requires
            aim.bounded(2 * WORLD_LIMIT),
        ensures
            *final(self) == (Player { facing: facing_of(aim), ..*old(self) }),
    {
        let ax = if aim.x < 0 {
            -aim.x
        } else {
            aim.x
        };
        let ay = if aim.y < 0 {
            -aim.y
        } else {
            aim.y
        };
        self.facing = if ay > ax {
            if aim.y > 0 {
                Facing::Up
            } else {
                Facing::Down
            }
        } else if aim.x >= 0 {
            Facing::Right
        } else {
            Facing::Left
        };
    }

    /// Starts walking if a movement key is held. Returns `true` when it did
    /// not.
    pub fn check_enter_walk(&mut self, keys: &Controls) -> (r: bool)
        ensures
            r == !keys.moving(),
            *final(self) == if keys.moving() {
                old(self).with_action(PlayerAction::Walk)
            } else {
                *old(self)
            },
    {
        if keys.up || keys.down || keys.left || keys.right {
            self.set_action(PlayerAction::Walk);
            false
        } else {
            true
        }
    }

    /// Stops walking if no movement key is held. Returns `true` when it did
    /// not.
    pub fn check_leave_walk(&mut self, keys: &Controls) -> (r: bool)
        ensures
            r == keys.moving(),
            *final(self) == if !keys.moving() {
                old(self).with_action(PlayerAction::Idle)
            } else {
                *old(self)
            },
    {
        if !keys.up && !keys.down && !keys.left && !keys.right {
            self.set_action(PlayerAction::Idle);
            false
        } else {
            true
        }
    }

    /// Takes up a requested attack or dash (see `acted`). Returns `true` when
    /// none was requested, so that the caller's own pass goes on.
    pub fn check_actions(
        &mut self,
        keys: &Controls,
        mouse: &MouseState,
        hurtbox: &mut Hurtbox,
        position: Vec2,
    ) -> (r: bool)
        requires
            old(self).wf(),
            old(hurtbox).wf(),
            mouse.wf(),
            position.bounded(WORLD_LIMIT as int),
        ensures
            r == !takes_action(*old(self), *keys),
            (*final(self), *final(hurtbox)) == acted(
                *old(self),
                *old(hurtbox),
                position,
                *mouse,
                *keys,
            ),
            final(self).wf(),
            final(hurtbox).wf(),
    {
        if keys.slash {
            if let Some(aim) = mouse.angle_from_location_to_mouse(position) {
                self.set_action(PlayerAction::Slash { aim });
                hurtbox.vel = toward(aim, SLASH_ENTRY_SPEED);
                self.set_facing_by_angle(aim);
            }
            false
        } else if keys.dash && self.frame_since_last_cooldown > DASH_COOLDOWN_TIME {
            if let Some(aim) = mouse.angle_from_location_to_mouse(position) {
                self.set_action(PlayerAction::Dash { aim });
                self.frame_since_last_cooldown = 0;
                hurtbox.invincible = true;
                self.set_facing_by_angle(aim);
            }
            false
        } else {
            true
        }
    }

    /// One Idle pass (see `idle_next`).
    pub fn idle_action(
        &mut self,
        keys: &Controls,
        mouse: &MouseState,
        hurtbox: &mut Hurtbox,
        position: Vec2,
    )
        requires
            old(self).wf(),
            old(hurtbox).wf(),
            mouse.wf(),
            position.bounded(WORLD_LIMIT as int),
        ensures
            (*final(self), *final(hurtbox)) == idle_next(
                *old(self),
                *old(hurtbox),
                position,
                *mouse,
                *keys,
            ),
            final(self).wf(),
            final(hurtbox).wf(),
    {
        if self.check_actions(keys, mouse, hurtbox, position) && self.check_enter_walk(keys) {
            if self.frame > IDLE_TIMEOUT {
                self.set_action(PlayerAction::Idle);
            }
        }
    }

    /// One Walk pass (see `walk_next`).
    pub fn walk_action(
        &mut self,
        keys: &Controls,
        mouse: &MouseState,
        hurtbox: &mut Hurtbox,
        position: Vec2,
    )
        requires
            old(self).wf(),
            old(hurtbox).wf(),
            mouse.wf(),
            position.bounded(WORLD_LIMIT as int),
        ensures
            (*final(self), *final(hurtbox)) == walk_next(
                *old(self),
                *old(hurtbox),
                position,
                *mouse,
                *keys,
            ),
            final(self).wf(),
            final(hurtbox).wf(),
    {
        if self.check_actions(keys, mouse, hurtbox, position) && self.check_leave_walk(keys) {
            if keys.up && keys.left {
                hurtbox.vel = toward(Vec2 { x: -1, y: 1 }, MOVEMENT_SPEED);
                self.facing = Facing::Left;
            } else if keys.up && keys.right {
                hurtbox.vel = toward(Vec2 { x: 1, y: 1 }, MOVEMENT_SPEED);
                self.facing = Facing::Right;
            } else if keys.down && keys.left {
                hurtbox.vel = toward(Vec2 { x: -1, y: -1 }, MOVEMENT_SPEED);
                self.facing = Facing::Left;
            } else if keys.down && keys.right {
                hurtbox.vel = toward(Vec2 { x: 1, y: -1 }, MOVEMENT_SPEED);
                self.facing = Facing::Right;
            } else if keys.up {
                hurtbox.vel = Vec2 { x: 0, y: MOVEMENT_SPEED };
                self.facing = Facing::Up;
            } else if keys.down {
                hurtbox.vel = Vec2 { x: 0, y: -MOVEMENT_SPEED };
                self.facing = Facing::Down;
            } else if keys.left {
                hurtbox.vel = Vec2 { x: -MOVEMENT_SPEED, y: 0 };
                self.facing = Facing::Left;
            } else {
                hurtbox.vel = Vec2 { x: MOVEMENT_SPEED, y: 0 };
                self.facing = Facing::Right;
            }
            if self.frame > WALK_CYCLE {
                self.set_action(PlayerAction::Walk);
            }
        }
    }

    /// One Slash pass (see `slash_next`); the hitbox, if any, is appended to
    /// `events`.
    pub fn slash_action(
        &mut self,
        aim: Vec2,
        keys: &Controls,
        mouse: &MouseState,
        hurtbox: &mut Hurtbox,
        position: Vec2,
        events: &mut Vec<HitBoxEvent>,
    )
        requires
            old(self).wf(),
            old(hurtbox).wf(),
            aim.bounded(2 * WORLD_LIMIT),
            mouse.wf(),
            position.bounded(WORLD_LIMIT as int),
        ensures
            ({
                let n = slash_next(*old(self), aim, *old(hurtbox), position, *mouse, *keys);
                &&& *final(self) == n.0
                &&& *final(hurtbox) == n.1
                &&& final(events)@ == old(events)@ + opt_seq(n.2)
            }),
            final(self).wf(),
            final(hurtbox).wf(),
            forall|i: int|
                old(events).len() <= i < final(events).len() ==> (#[trigger] final(events)[i]).wf(),
    {
        if self.frame < SLASH_MOVE_FRAMES {
            hurtbox.vel = toward(aim, SLASH_SPEED);
        }
        if self.frame == SLASH_ACTIVE_FRAME {
            let reach = toward(aim, SLASH_REACH);
            events.push(
                HitBoxEvent {
                    position: plus(position, reach),
                    size: Vec2 { x: SLASH_SIZE, y: SLASH_SIZE },
                    damage: SLASH_DAMAGE,
                    knockback: SLASH_KNOCKBACK,
                    can_hit: CanHitTeam::Enemy,
                },
            );
        }
        proof {
            assert(final(events)@ == old(events)@ + opt_seq(
                slash_next(*old(self), aim, *old(hurtbox), position, *mouse, *keys).2,
            )) by {
                assert(old(events)@ + Seq::<HitBoxEvent>::empty() =~= old(events)@);
            }
        }
        if self.frame > SLASH_RECOVERY {
            self.set_action(PlayerAction::Idle);
            self.idle_action(keys, mouse, hurtbox, position);
        }
    }

    /// One Dash pass (see `dash_next`).
    pub fn dash_action(
        &mut self,
        aim: Vec2,
        keys: &Controls,
        mouse: &MouseState,
        hurtbox: &mut Hurtbox,
        position: Vec2,
    )
        requires
            old(self).wf(),
            old(hurtbox).wf(),
            aim.bounded(2 * WORLD_LIMIT),
            mouse.wf(),
            position.bounded(WORLD_LIMIT as int),
        ensures
            (*final(self), *final(hurtbox)) == dash_next(
                *old(self),
                aim,
                *old(hurtbox),
                position,
                *mouse,
                *keys,
            ),
            final(self).wf(),
            final(hurtbox).wf(),
    {
        hurtbox.invincible = true;
        if self.frame < DASH_BURST_FRAMES {
            hurtbox.vel = toward(aim, DASH_SPEED);
        }
        if self.frame > DASH_DURATION {
            hurtbox.invincible = false;
            self.set_action(PlayerAction::Idle);
            self.idle_action(keys, mouse, hurtbox, position);
        }
    }

    /// One Damaged pass (see `damaged_next`).
    pub fn damaged_action(
        &mut self,
        keys: &Controls,
        mouse: &MouseState,
        hurtbox: &mut Hurtbox,
        position: Vec2,
    )
        requires
            old(self).wf(),
            old(hurtbox).wf(),
            mouse.wf(),
            position.bounded(WORLD_LIMIT as int),
        ensures
            (*final(self), *final(hurtbox)) == damaged_next(
                *old(self),
                *old(hurtbox),
                position,
                *mouse,
                *keys,
            ),
            final(self).wf(),
            final(hurtbox).wf(),
    {
        if self.frame > DAMAGED_INVINCIBILITY_FRAMES {
            hurtbox.invincible = false;
            self.set_action(PlayerAction::Idle);
            self.idle_action(keys, mouse, hurtbox, position);
        }
    }

    /// The player's pass for one tick (see `player_pass`); the hitbox, if
    /// any, is appended to `events`.
    pub fn step(
        &mut self,
        hurtbox: &mut Hurtbox,
        position: Vec2,
        keys: &Controls,
        mouse: &MouseState,
        events: &mut Vec<HitBoxEvent>,
    )
        requires
            old(self).wf(),
            old(hurtbox).wf(),
            mouse.wf(),
            position.bounded(WORLD_LIMIT as int),
        ensures
            ({
                let n = player_pass(*old(self), *old(hurtbox), position, *mouse, *keys);
                &&& *final(self) == n.0
                &&& *final(hurtbox) == n.1
                &&& final(events)@ == old(events)@ + opt_seq(n.2)
            }),
            final(self).wf(),
            final(hurtbox).wf(),
            forall|i: int|
                old(events).len() <= i < final(events).len() ==> (#[trigger] final(events)[i]).wf(),
    {
        if hurtbox.is_hit {
            self.set_action(PlayerAction::Damaged);
            hurtbox.is_hit = false;
            hurtbox.invincible = true;
        }
        match self.action {
            PlayerAction::Idle => {
                self.idle_action(keys, mouse, hurtbox, position);
            },
            PlayerAction::Walk => {
                self.walk_action(keys, mouse, hurtbox, position);
            },
            PlayerAction::Slash { aim } => {
                self.slash_action(aim, keys, mouse, hurtbox, position, events);
            },
            PlayerAction::Dash { aim } => {
                self.dash_action(aim, keys, mouse, hurtbox, position);
            },
            PlayerAction::Damaged => {
                self.damaged_action(keys, mouse, hurtbox, position);
            },
        }
        proof {
            if !(old(self).action is Slash) || old(hurtbox).is_hit {
                assert(old(events)@ + Seq::<HitBoxEvent>::empty() =~= old(events)@);
            }
        }
        self.frame = self.frame.saturating_add(1);
        self.frame_since_last_cooldown = self.frame_since_last_cooldown.saturating_add(1);
    }

    /// Cell of the sprite sheet that shows the player now.
    pub fn sprite_index(&self) -> (r: u32)
        ensures
            r as int == match self.action {
                PlayerAction::Idle => PLAYER_SPRITE_ROWS + if self.frame < 45 {
                    0int
                } else {
                    1int
                },
                PlayerAction::Walk => if self.frame < 15 {
                    0int
                } else {
                    1int
                },
                _ => 0int,
            },
    {
        match self.action {
            PlayerAction::Idle => PLAYER_SPRITE_ROWS + if self.frame < 45 {
                0
            } else {
                1
            },
            PlayerAction::Walk => if self.frame < 15 {
                0
            } else {
                1
            },
            _ => 0,
        }
    }

    /// The sprite is mirrored when the player faces left.
    pub fn sprite_flip(&self) -> (r: bool)
        ensures
            r == (self.facing == Facing::Left),
    {
        match self.facing {
            Facing::Left => true,
            _ => false,
        }
    }
}

/// A player ready to be placed in the world, with its hurtbox.
#[derive(Clone, Copy, Debug, PartialEq, Eq, Structural)]
pub struct PlayerBundle {
    pub player: Player,
    pub hurtbox: Hurtbox,
}

impl PlayerBundle {
    /// A fresh player with a full-health hurtbox.
    pub open spec fn new_spec() -> PlayerBundle {
        PlayerBundle {
            player: Player::new_spec(),
            hurtbox: Hurtbox {
                team: Team::Player,
                size: vec_of(PLAYER_WIDTH as int, PLAYER_HEIGHT as int),
                health: PLAYER_HEALTH,
                is_hit: false,
                invincible: false,
                vel: vec_of(0, 0),
            },
        }
    }

    pub fn new() -> (r: PlayerBundle)
        ensures
            r == Self::new_spec(),
            r.player.wf(),
            r.hurtbox.wf(),
    {
        PlayerBundle {
            player: Player::new(),
            hurtbox: Hurtbox {
                team: Team::Player,
                size: Vec2 { x: PLAYER_WIDTH, y: PLAYER_HEIGHT },
                health: PLAYER_HEALTH,
                is_hit: false,
                invincible: false,
                vel: Vec2 { x: 0, y: 0 },
            },
        }
    }
}


/// The player actor after its pass; any other actor is left as it is.
pub open spec fn player_actor_pass(a: Actor, m: MouseState, c: Controls) -> (Actor, Option<HitBoxEvent>) {
    match a.kind {
        ActorKind::Player(p) => {
            let n = player_pass(p, a.hurtbox, a.position, m, c);
            (Actor { hurtbox: n.1, kind: ActorKind::Player(n.0), ..a }, n.2)
        },
        _ => (a, None),
    }
}

/// The arena after the player's pass, with the hitboxes it emitted. Without
/// a player singleton nothing happens.
pub open spec fn player_stage(s: Seq<Actor>, m: MouseState, c: Controls) -> (
    Seq<Actor>,
    Seq<HitBoxEvent>,
) {
    match player_index(s) {
        Some(i) => {
            let n = player_actor_pass(s[i], m, c);
            (s.update(i, n.0), opt_seq(n.1))
        },
        None => (s, Seq::empty()),
    }
}

/// Runs the player singleton's pass (see `player_stage`); its hitbox, if
/// any, is appended to `events`.
pub fn player_system(
    actors: &mut Vec<Actor>,
    keys: &Controls,
    mouse: &MouseState,
    events: &mut Vec<HitBoxEvent>,
)
    requires
        all_wf(old(actors)@),
        mouse.wf(),
    ensures
        final(actors)@ == player_stage(old(actors)@, *mouse, *keys).0,
        final(events)@ == old(events)@ + player_stage(old(actors)@, *mouse, *keys).1,
        all_wf(final(actors)@),
        same_ids(old(actors)@, final(actors)@),
        forall|i: int|
            old(events).len() <= i < final(events).len() ==> (#[trigger] final(events)[i]).wf(),
{
    match find_player(actors) {
        Some(i) => {
            let mut a = actors[i];
            assert(a.wf());
            if let ActorKind::Player(mut p) = a.kind {
                p.step(&mut a.hurtbox, a.position, keys, mouse, events);
                a.kind = ActorKind::Player(p);
            }
            actors.set(i, a);
        },
        None => {
            assert(old(events)@ + Seq::<HitBoxEvent>::empty() =~= old(events)@);
        },
    }
}

} // verus!
