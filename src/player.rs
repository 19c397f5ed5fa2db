use vstd::prelude::*;

use crate::constant::{
    ACCEL_LIMIT, BOARD_COUNT_X, BOARD_SIZE, DURATION_LIMIT, GRAVITY, GROUND_CHECKER_TIMER,
    JUMP_SPEED, KNIGHT_MASS, LANE_LIMIT, LENGTH_LIMIT, MASS_LIMIT, MAX_STEP, MOVING_SPEED_H,
    RUNNING_SPEED, SPEED_LIMIT,
};

verus! {

/// What the knight is doing besides running forward.
#[derive(Debug, Clone, Copy, PartialEq, Eq, Structural)]
pub enum Direction {
    Left,
    Right,
    Up,
    Idle,
}

/// The commands pressed this tick (rising edges only).
#[derive(Debug, Clone, Copy, PartialEq, Eq, Structural)]
pub struct Controls {
    pub jump: bool,
    pub left: bool,
    pub right: bool,
}

/// A vector in world axes: `x` lateral, `y` up, `z` forward (the knight runs
/// toward negative `z`).
#[derive(Debug, Clone, Copy, PartialEq, Eq, Structural)]
pub struct Vector3 {
    pub x: i64,
    pub y: i64,
    pub z: i64,
}

/// What one tick asks of the character controller.
#[derive(Debug, Clone, Copy, PartialEq, Eq, Structural)]
pub struct Motion {
    /// Lateral position the knight stands at before moving: the position it
    /// was at, or the exact centre of its lane when a lane change completes.
    pub lateral_position: i64,
    /// Desired velocity (nm/ms).
    pub velocity: Vector3,
    /// Desired displacement over the tick (nm): the velocity times the step.
    pub translation: Vector3,
}

/// Everything one tick consumes: the commands, the physics feedback (absent
/// before the first contact), the current lateral position and the step (ms).
#[derive(Debug, Clone, Copy, PartialEq, Eq, Structural)]
pub struct TickInput {
    pub keys: Controls,
    pub feedback: Option<bool>,
    pub x: i64,
    pub dt: i64,
}

/// The tuning of the knight's movement.
#[derive(Debug, Clone, Copy, PartialEq, Eq, Structural)]
pub struct KnightConfig {
    /// Lanes on each side of the centre lane (`L`).
    pub lane_half_count: i32,
    /// Distance between lane centres (nm).
    pub lane_width: i64,
    /// Lateral speed of a lane change (nm/ms).
    pub lateral_speed: i64,
    /// Forward running speed (nm/ms).
    pub running_speed: i64,
    /// Upward speed given by a jump (nm/ms).
    pub jump_speed: i64,
    /// Vertical acceleration (nm/ms²), negative downward.
    pub gravity: i64,
    /// Mass of the character controller, which scales gravity.
    pub mass: i64,
    /// Grace window of a jump after the last grounded tick (ms).
    pub grace_duration: i64,
}

impl KnightConfig {
    /// The configuration is within the bounds that keep all arithmetic exact.
    pub open spec fn valid(self) -> bool {
        &&& 0 <= self.lane_half_count <= LANE_LIMIT
        &&& 0 < self.lane_width <= LENGTH_LIMIT
        &&& 0 < self.lateral_speed <= SPEED_LIMIT
        &&& 0 < self.running_speed <= SPEED_LIMIT
        &&& 0 <= self.jump_speed <= SPEED_LIMIT
        &&& -ACCEL_LIMIT <= self.gravity <= ACCEL_LIMIT
        &&& 1 <= self.mass <= MASS_LIMIT
        &&& 0 < self.grace_duration <= DURATION_LIMIT
    }

    pub fn is_valid(&self) -> (r: bool)
        ensures
            r == self.valid(),
    {
        0 <= self.lane_half_count && self.lane_half_count <= LANE_LIMIT && 0 < self.lane_width
            && self.lane_width <= LENGTH_LIMIT && 0 < self.lateral_speed && self.lateral_speed
            <= SPEED_LIMIT && 0 < self.running_speed && self.running_speed <= SPEED_LIMIT && 0
            <= self.jump_speed && self.jump_speed <= SPEED_LIMIT && -ACCEL_LIMIT <= self.gravity
            && self.gravity <= ACCEL_LIMIT && 1 <= self.mass && self.mass <= MASS_LIMIT && 0
            < self.grace_duration && self.grace_duration <= DURATION_LIMIT
    }
}

impl Default for KnightConfig {
    fn default() -> (r: Self)
        ensures
            r == (KnightConfig {
                lane_half_count: BOARD_COUNT_X,
                lane_width: BOARD_SIZE,
                lateral_speed: MOVING_SPEED_H,
                running_speed: RUNNING_SPEED,
                jump_speed: JUMP_SPEED,
                gravity: GRAVITY,
                mass: KNIGHT_MASS,
                grace_duration: GROUND_CHECKER_TIMER,
            }),
            r.valid(),
    {
        KnightConfig {
            lane_half_count: BOARD_COUNT_X,
            lane_width: BOARD_SIZE,
            lateral_speed: MOVING_SPEED_H,
            running_speed: RUNNING_SPEED,
            jump_speed: JUMP_SPEED,
            gravity: GRAVITY,
            mass: KNIGHT_MASS,
            grace_duration: GROUND_CHECKER_TIMER,
        }
    }
}

/// The player's lane state machine.
#[derive(Debug, Clone, Copy, PartialEq, Eq, Structural)]
pub struct Knight {
    pub moving_direction: Direction,
    /// Vertical speed (nm/ms), positive upward.
    pub up_speed: i64,
    /// Whether the last physics feedback reported ground contact.
    pub on_ground: bool,
    /// Current lane, in `[-L, L]`.
    pub lane: i32,
    /// Lane being moved to, in `[-L, L]`.
    pub target_lane: i32,
    /// Remaining grace time for a jump (ms).
    pub grounded_timer: i64,
}

impl Default for Knight {
    fn default() -> (r: Self)
        ensures
            r == (Knight {
                moving_direction: Direction::Idle,
                up_speed: 0,
                on_ground: false,
                lane: 0,
                target_lane: 0,
                grounded_timer: 0,
            }),
            forall|cfg: KnightConfig| cfg.valid() ==> #[trigger] r.wf(cfg),
    {
        Knight {
            moving_direction: Direction::Idle,
            up_speed: 0,
            on_ground: false,
            lane: 0,
            target_lane: 0,
            grounded_timer: 0,
        }
    }
}

/// `v` limited to `[-SPEED_LIMIT, SPEED_LIMIT]`.
pub open spec fn clamp_speed(v: int) -> int {
    if v > SPEED_LIMIT {
        SPEED_LIMIT as int
    } else if v < -SPEED_LIMIT {
        -SPEED_LIMIT
    } else {
        v
    }
}

/// A step (ms) that a tick may take.
pub open spec fn valid_step(dt: int) -> bool {
    0 <= dt <= MAX_STEP
}

impl Knight {
    /// Lanes stay within `[-L, L]`; a lane change in flight has a target one
    /// lane away in its direction, and otherwise the target is the lane.
    pub open spec fn wf(self, cfg: KnightConfig) -> bool {
        &&& -cfg.lane_half_count <= self.lane <= cfg.lane_half_count
        &&& -cfg.lane_half_count <= self.target_lane <= cfg.lane_half_count
        &&& match self.moving_direction {
            Direction::Left => self.target_lane == self.lane - 1,
            Direction::Right => self.target_lane == self.lane + 1,
            _ => self.target_lane == self.lane,
        }
        &&& 0 <= self.grounded_timer <= cfg.grace_duration
        &&& -SPEED_LIMIT <= self.up_speed <= SPEED_LIMIT
    }

    /// A jump is asked for and nothing else is in progress.
    pub open spec fn wants_jump(self, keys: Controls) -> bool {
        self.moving_direction == Direction::Idle && keys.jump
    }

    /// A move to the left is started this tick.
    pub open spec fn starts_left(self, cfg: KnightConfig, keys: Controls) -> bool {
        &&& self.moving_direction == Direction::Idle
        &&& !keys.jump
        &&& keys.left
        &&& self.lane > -cfg.lane_half_count
    }

    /// A move to the right is started this tick.
    pub open spec fn starts_right(self, cfg: KnightConfig, keys: Controls) -> bool {
        &&& self.moving_direction == Direction::Idle
        &&& !keys.jump
        &&& !keys.left
        &&& keys.right
        &&& self.lane < cfg.lane_half_count
    }

    /// The grace timer after the feedback was read and `dt` has elapsed:
    /// reset to the grace duration on ground, then run down by the step,
    /// stopping at zero.
    pub open spec fn grace_after(self, cfg: KnightConfig, grounded: bool, dt: int) -> int {
        let reset = if grounded {
            cfg.grace_duration as int
        } else {
            self.grounded_timer as int
        };
        if reset > dt {
            reset - dt
        } else {
            0
        }
    }

    /// A jump asked for this tick is accepted: on ground contact, or while
    /// grace time remains.
    pub open spec fn jump_accepted(self, keys: Controls, feedback: Option<bool>) -> bool {
        &&& self.wants_jump(keys)
        &&& (feedback == Some(true) || self.grounded_timer > 0)
    }

    /// The state after the commands and the physics feedback of one tick.
    pub open spec fn decided(
        self,
        cfg: KnightConfig,
        keys: Controls,
        feedback: Option<bool>,
        dt: int,
    ) -> Knight {
        let grounded = feedback == Some(true);
        let left = self.starts_left(cfg, keys);
        let right = self.starts_right(cfg, keys);
        let target = if left {
            self.target_lane - 1
        } else if right {
            self.target_lane + 1
        } else {
            self.target_lane as int
        };
        let direction = if left {
            Direction::Left
        } else if right {
            Direction::Right
        } else if grounded && self.moving_direction == Direction::Up {
            Direction::Idle
        } else {
            self.moving_direction
        };
        let timer = self.grace_after(cfg, grounded, dt);
        let jumped = self.jump_accepted(keys, feedback);
        Knight {
            moving_direction: if jumped {
                Direction::Up
            } else {
                direction
            },
            up_speed: if jumped {
                cfg.jump_speed
            } else if grounded {
                0
            } else {
                self.up_speed
            },
            on_ground: grounded,
            lane: self.lane,
            target_lane: target as i32,
            grounded_timer: if jumped {
                0
            } else {
                timer as i64
            },
        }
    }

    /// Lateral position of the centre of the target lane.
    pub open spec fn target_x(self, cfg: KnightConfig) -> int {
        self.target_lane * cfg.lane_width
    }

    /// A lane change is in flight and this tick's step reaches or passes the
    /// centre of the target lane.
    pub open spec fn reaches_target(self, cfg: KnightConfig, x: int, dt: int) -> bool {
        if self.target_lane > self.lane {
            self.target_x(cfg) - x <= cfg.lateral_speed * dt
        } else if self.target_lane < self.lane {
            x - self.target_x(cfg) <= cfg.lateral_speed * dt
        } else {
            false
        }
    }

    /// Lateral velocity of this tick: toward the target lane while a change is
    /// in flight and not completing.
    pub open spec fn lateral_velocity(self, cfg: KnightConfig, x: int, dt: int) -> int {
        if self.reaches_target(cfg, x, dt) {
            0
        } else if self.target_lane > self.lane {
            cfg.lateral_speed as int
        } else if self.target_lane < self.lane {
            -cfg.lateral_speed
        } else {
            0
        }
    }

    /// The state after the motion of one tick.
    pub open spec fn advanced(self, cfg: KnightConfig, x: int, dt: int) -> Knight {
        let done = self.reaches_target(cfg, x, dt);
        Knight {
            moving_direction: if done {
                Direction::Idle
            } else {
                self.moving_direction
            },
            up_speed: clamp_speed(self.up_speed + cfg.gravity * dt * cfg.mass) as i64,
            on_ground: self.on_ground,
            lane: if done {
                self.target_lane
            } else {
                self.lane
            },
            target_lane: self.target_lane,
            grounded_timer: self.grounded_timer,
        }
    }

    /// The motion asked for by one tick.
    pub open spec fn motion(self, cfg: KnightConfig, x: int, dt: int) -> Motion {
        let vx = self.lateral_velocity(cfg, x, dt);
        Motion {
            lateral_position: if self.reaches_target(cfg, x, dt) {
                self.target_x(cfg) as i64
            } else {
                x as i64
            },
            velocity: Vector3 { x: vx as i64, y: self.up_speed, z: -cfg.running_speed as i64 },
            translation: Vector3 {
                x: (vx * dt) as i64,
                y: (self.up_speed * dt) as i64,
                z: (-cfg.running_speed * dt) as i64,
            },
        }
    }

    /// The state after one whole tick.
    pub open spec fn stepped(self, cfg: KnightConfig, input: TickInput) -> Knight {
        self.decided(cfg, input.keys, input.feedback, input.dt as int).advanced(
            cfg,
            input.x as int,
            input.dt as int,
        )
    }

    /// The motion asked for by one whole tick.
    pub open spec fn stepped_motion(self, cfg: KnightConfig, input: TickInput) -> Motion {
        self.decided(cfg, input.keys, input.feedback, input.dt as int).motion(
            cfg,
            input.x as int,
            input.dt as int,
        )
    }

    /// Reads this tick's commands and physics feedback: starts a lane change
    /// or a jump when allowed, lands on ground contact, and runs the grace
    /// timer.
    pub fn check_moving_event(
        &mut self,
        cfg: &KnightConfig,
        keys: Controls,
        feedback: Option<bool>,
        dt: i64,
    )
        requires
            cfg.valid(),
            old(self).wf(*cfg),
            valid_step(dt as int),
        ensures
            *final(self) == old(self).decided(*cfg, keys, feedback, dt as int),
            final(self).wf(*cfg),
    {
        let mut jump = false;
        if self.moving_direction == Direction::Idle {
            if keys.jump {
                jump = true;
            } else if keys.left {
                if self.target_lane == self.lane && self.lane > -cfg.lane_half_count {
                    self.target_lane = self.target_lane - 1;
                    self.moving_direction = Direction::Left;
                }
            } else if keys.right {
                if self.target_lane == self.lane && self.lane < cfg.lane_half_count {
                    self.target_lane = self.target_lane + 1;
                    self.moving_direction = Direction::Right;
                }
            }
        }
        let grounded = match feedback {
            Some(g) => g,
            None => false,
        };
        self.on_ground = grounded;
        if grounded {
            self.grounded_timer = cfg.grace_duration;
            self.up_speed = 0;
            if self.moving_direction == Direction::Up {
                self.moving_direction = Direction::Idle;
            }
        }
        if self.grounded_timer > 0 {
            self.grounded_timer = if self.grounded_timer > dt {
                self.grounded_timer - dt
            } else {
                0
            };
            if jump {
                self.up_speed = cfg.jump_speed;
                self.grounded_timer = 0;
                self.moving_direction = Direction::Up;
            }
        }
    }

    /// Computes this tick's motion from the lateral position `x`: moves toward
    /// the target lane and snaps exactly onto its centre once reached, keeps
    /// the forward run, and applies gravity to the vertical speed.
    pub fn moving_knight(&mut self, cfg: &KnightConfig, x: i64, dt: i64) -> (m: Motion)
        requires
            cfg.valid(),
            old(self).wf(*cfg),
            valid_step(dt as int),
        ensures
            *final(self) == old(self).advanced(*cfg, x as int, dt as int),
            m == old(self).motion(*cfg, x as int, dt as int),
            final(self).wf(*cfg),
            m.velocity.z == -cfg.running_speed,
            m.translation.z == -cfg.running_speed * dt,
    {
        proof {
            lemma_advanced_wf(*self, *cfg, x as int, dt as int);
            lemma_mul_within(self.target_lane as int, cfg.lane_width as int, LANE_LIMIT as int, LENGTH_LIMIT as int);
            lemma_mul_within(cfg.lateral_speed as int, dt as int, SPEED_LIMIT as int, MAX_STEP as int);
            lemma_mul_within(cfg.running_speed as int, dt as int, SPEED_LIMIT as int, MAX_STEP as int);
            lemma_mul_within(self.up_speed as int, dt as int, SPEED_LIMIT as int, MAX_STEP as int);
            lemma_mul_within(cfg.gravity as int, dt as int, ACCEL_LIMIT as int, MAX_STEP as int);
            lemma_mul_within(cfg.gravity * dt, cfg.mass as int, ACCEL_LIMIT * MAX_STEP, MASS_LIMIT as int);
        }
        let mut lateral_velocity: i64 = 0;
        let mut lateral_position: i64 = x;
        if self.target_lane != self.lane {
            let target_x: i64 = self.target_lane as i64 * cfg.lane_width;
            let step: i64 = cfg.lateral_speed * dt;
            let rightward = self.target_lane > self.lane;
            let reached = if rightward {
                (target_x as i128) - (x as i128) <= step as i128
            } else {
                (x as i128) - (target_x as i128) <= step as i128
            };
            if reached {
                self.lane = self.target_lane;
                self.moving_direction = Direction::Idle;
                lateral_position = target_x;
            } else if rightward {
                lateral_velocity = cfg.lateral_speed;
            } else {
                lateral_velocity = -cfg.lateral_speed;
            }
        }
        let vertical_velocity = self.up_speed;
        let raised: i64 = vertical_velocity + cfg.gravity * dt * cfg.mass;
        self.up_speed = if raised > SPEED_LIMIT {
            SPEED_LIMIT
        } else if raised < -SPEED_LIMIT {
            -SPEED_LIMIT
        } else {
            raised
        };
        proof {
            lemma_mul_within(lateral_velocity as int, dt as int, SPEED_LIMIT as int, MAX_STEP as int);
            lemma_mul_within(-cfg.running_speed, dt as int, SPEED_LIMIT as int, MAX_STEP as int);
        }
        Motion {
            lateral_position,
            velocity: Vector3 { x: lateral_velocity, y: vertical_velocity, z: -cfg.running_speed },
            translation: Vector3 {
                x: lateral_velocity * dt,
                y: vertical_velocity * dt,
                z: -cfg.running_speed * dt,
            },
        }
    }

    /// One fixed simulation step: the commands and feedback, then the motion.
    pub fn tick(&mut self, cfg: &KnightConfig, input: TickInput) -> (m: Motion)
        requires
            cfg.valid(),
            old(self).wf(*cfg),
            valid_step(input.dt as int),
        ensures
            *final(self) == old(self).stepped(*cfg, input),
            m == old(self).stepped_motion(*cfg, input),
            final(self).wf(*cfg),
            m.velocity.z == -cfg.running_speed,
            m.velocity.z < 0,
            m.translation.z == -cfg.running_speed * input.dt,
    {
        self.check_moving_event(cfg, input.keys, input.feedback, input.dt);
        self.moving_knight(cfg, input.x, input.dt)
    }
}

/// `|a * b| <= ka * kb` when `|a| <= ka` and `|b| <= kb`.
pub proof fn lemma_mul_within(a: int, b: int, ka: int, kb: int)
    requires
        -ka <= a <= ka,
        -kb <= b <= kb,
    ensures
        -(ka * kb) <= a * b <= ka * kb,
{
    assert(-(ka * kb) <= a * b <= ka * kb) by (nonlinear_arith)
        requires
            -ka <= a <= ka,
            -kb <= b <= kb,
    ;
}

/// The motion of a tick keeps the state machine well formed.
pub proof fn lemma_advanced_wf(k: Knight, cfg: KnightConfig, x: int, dt: int)
    requires
        cfg.valid(),
        k.wf(cfg),
        valid_step(dt),
    ensures
        k.advanced(cfg, x, dt).wf(cfg),
{
}

/// The commands and feedback of a tick keep the state machine well formed.
pub proof fn lemma_decided_wf(k: Knight, cfg: KnightConfig, keys: Controls, feedback: Option<bool>, dt: int)
    requires
        cfg.valid(),
        k.wf(cfg),
        valid_step(dt),
    ensures
        k.decided(cfg, keys, feedback, dt).wf(cfg),
{
}

/// The state after a sequence of ticks, applied in order.
pub open spec fn run(k: Knight, cfg: KnightConfig, inputs: Seq<TickInput>) -> Knight
    decreases inputs.len(),
{
    if inputs.len() == 0 {
        k
    } else {
        run(k, cfg, inputs.drop_last()).stepped(cfg, inputs.last())
    }
}

/// Every tick of the sequence takes a valid step.
pub open spec fn steps_valid(inputs: Seq<TickInput>) -> bool {
    forall|i: int| 0 <= i < inputs.len() ==> valid_step(#[trigger] inputs[i].dt as int)
}

/// The time the ticks of a sequence take together (ms).
pub open spec fn total_time(inputs: Seq<TickInput>) -> int
    decreases inputs.len(),
{
    if inputs.len() == 0 {
        0
    } else {
        total_time(inputs.drop_last()) + inputs.last().dt
    }
}

/// For every sequence of ticks, whatever commands they carry, the lane and the
/// target lane stay within `[-L, L]` (and the state machine stays well formed).
pub proof fn lemma_lanes_within_bounds(k: Knight, cfg: KnightConfig, inputs: Seq<TickInput>)
    requires
        cfg.valid(),
        k.wf(cfg),
        steps_valid(inputs),
    ensures
        run(k, cfg, inputs).wf(cfg),
        -cfg.lane_half_count <= run(k, cfg, inputs).lane <= cfg.lane_half_count,
        -cfg.lane_half_count <= run(k, cfg, inputs).target_lane <= cfg.lane_half_count,
    decreases inputs.len(),
{
    if inputs.len() > 0 {
        let rest = inputs.drop_last();
        let last = inputs.last();
        assert forall|i: int| 0 <= i < rest.len() implies valid_step(#[trigger] rest[i].dt as int) by {
            assert(rest[i] == inputs[i]);
        }
        assert(valid_step(inputs[inputs.len() - 1].dt as int));
        lemma_lanes_within_bounds(k, cfg, rest);
        let s = run(k, cfg, rest);
        lemma_decided_wf(s, cfg, last.keys, last.feedback, last.dt as int);
        lemma_advanced_wf(
            s.decided(cfg, last.keys, last.feedback, last.dt as int),
            cfg,
            last.x as int,
            last.dt as int,
        );
    }
}

/// While a lane change or a jump is in flight, no new lane change is
/// accepted: a tick keeps the target lane, and a lane change in flight keeps
/// its direction through the commands.
pub proof fn lemma_single_flight(k: Knight, cfg: KnightConfig, input: TickInput)
    requires
        cfg.valid(),
        k.wf(cfg),
        valid_step(input.dt as int),
        k.moving_direction != Direction::Idle,
    ensures
        k.decided(cfg, input.keys, input.feedback, input.dt as int).target_lane == k.target_lane,
        k.stepped(cfg, input).target_lane == k.target_lane,
        k.moving_direction == Direction::Left || k.moving_direction == Direction::Right
            ==> k.decided(cfg, input.keys, input.feedback, input.dt as int).moving_direction
            == k.moving_direction,
{
}

/// When a lane change completes, whatever the step, the knight stands exactly
/// on the centre of the target lane, which becomes its lane.
pub proof fn lemma_snap_exact(k: Knight, cfg: KnightConfig, x: int, dt: int)
    requires
        cfg.valid(),
        k.wf(cfg),
        valid_step(dt),
        k.moving_direction == Direction::Left || k.moving_direction == Direction::Right,
        k.advanced(cfg, x, dt).moving_direction == Direction::Idle,
    ensures
        k.advanced(cfg, x, dt).lane == k.target_lane,
        k.motion(cfg, x, dt).lateral_position == k.target_lane * cfg.lane_width,
        k.motion(cfg, x, dt).velocity.x == 0,
        k.motion(cfg, x, dt).translation.x == 0,
{
    lemma_mul_within(k.target_lane as int, cfg.lane_width as int, LANE_LIMIT as int, LENGTH_LIMIT as int);
}

/// No tick of the sequence, run from `s`, accepts a jump.
pub open spec fn jumps_refused(s: Knight, cfg: KnightConfig, inputs: Seq<TickInput>) -> bool
    decreases inputs.len(),
{
    inputs.len() == 0 || (jumps_refused(s, cfg, inputs.drop_last()) && !run(
        s,
        cfg,
        inputs.drop_last(),
    ).jump_accepted(inputs.last().keys, inputs.last().feedback))
}

/// Without ground contact and with no jump accepted, ticks run the grace
/// timer down by exactly the time they take, stopping at zero.
proof fn lemma_grace_runs_down(s: Knight, cfg: KnightConfig, airborne: Seq<TickInput>)
    requires
        cfg.valid(),
        s.wf(cfg),
        steps_valid(airborne),
        forall|i: int| 0 <= i < airborne.len() ==> (#[trigger] airborne[i]).feedback != Some(true),
        jumps_refused(s, cfg, airborne),
    ensures
        run(s, cfg, airborne).wf(cfg),
        total_time(airborne) >= 0,
        run(s, cfg, airborne).grounded_timer == if total_time(airborne) < s.grounded_timer {
            s.grounded_timer - total_time(airborne)
        } else {
            0
        },
    decreases airborne.len(),
{
    if airborne.len() > 0 {
        let rest = airborne.drop_last();
        let last = airborne.last();
        assert forall|i: int| 0 <= i < rest.len() implies valid_step(#[trigger] rest[i].dt as int)
            && rest[i].feedback != Some(true) by {
            assert(rest[i] == airborne[i]);
        }
        assert(valid_step(airborne[airborne.len() - 1].dt as int));
        assert(airborne[airborne.len() - 1].feedback != Some(true));
        lemma_grace_runs_down(s, cfg, rest);
        let r = run(s, cfg, rest);
        assert(run(s, cfg, airborne) == r.stepped(cfg, last));
        assert(total_time(airborne) == total_time(rest) + last.dt);
        lemma_airborne_tick(r, cfg, last);
    }
}

/// One tick without ground contact and without an accepted jump keeps the
/// state machine well formed and runs the grace timer down by its step.
proof fn lemma_airborne_tick(r: Knight, cfg: KnightConfig, input: TickInput)
    requires
        cfg.valid(),
        r.wf(cfg),
        valid_step(input.dt as int),
        input.feedback != Some(true),
        !r.jump_accepted(input.keys, input.feedback),
    ensures
        r.stepped(cfg, input).wf(cfg),
        r.stepped(cfg, input).grounded_timer == if r.grounded_timer > input.dt {
            r.grounded_timer - input.dt
        } else {
            0
        },
{
    lemma_decided_wf(r, cfg, input.keys, input.feedback, input.dt as int);
    lemma_advanced_wf(
        r.decided(cfg, input.keys, input.feedback, input.dt as int),
        cfg,
        input.x as int,
        input.dt as int,
    );
}

/// Grace window of a jump. After the last grounded tick (`landing`), with no
/// ground contact since (`airborne`, whatever its commands) and no jump
/// accepted on those ticks, the grace timer holds what is left of the grace
/// duration once the steps of the grounded tick and the airborne ticks have
/// run; and a jump pressed next is accepted, launching at the jump speed, if
/// and only if the knight is idle and that time is still under the grace
/// duration. A jump that is not accepted leaves the vertical speed as it is.
pub proof fn lemma_grace_window(
    k: Knight,
    cfg: KnightConfig,
    landing: TickInput,
    airborne: Seq<TickInput>,
    jump: TickInput,
)
    requires
        cfg.valid(),
        k.wf(cfg),
        landing.feedback == Some(true),
        valid_step(landing.dt as int),
        !k.jump_accepted(landing.keys, landing.feedback),
        steps_valid(airborne),
        forall|i: int| 0 <= i < airborne.len() ==> (#[trigger] airborne[i]).feedback != Some(true),
        jumps_refused(k.stepped(cfg, landing), cfg, airborne),
        jump.feedback != Some(true),
        valid_step(jump.dt as int),
    ensures
        ({
            let s = run(k.stepped(cfg, landing), cfg, airborne);
            let j = s.decided(cfg, jump.keys, jump.feedback, jump.dt as int);
            let ran = landing.dt + total_time(airborne);
            &&& s.grounded_timer == if ran < cfg.grace_duration {
                cfg.grace_duration - ran
            } else {
                0
            }
            &&& s.jump_accepted(jump.keys, jump.feedback) == (jump.keys.jump && s.moving_direction
                == Direction::Idle && ran < cfg.grace_duration)
            &&& s.jump_accepted(jump.keys, jump.feedback) ==> j.moving_direction == Direction::Up
                && j.up_speed == cfg.jump_speed && j.grounded_timer == 0
            &&& !s.jump_accepted(jump.keys, jump.feedback) ==> j.up_speed == s.up_speed
        }),
{
    lemma_decided_wf(k, cfg, landing.keys, landing.feedback, landing.dt as int);
    lemma_advanced_wf(
        k.decided(cfg, landing.keys, landing.feedback, landing.dt as int),
        cfg,
        landing.x as int,
        landing.dt as int,
    );
    lemma_grace_runs_down(k.stepped(cfg, landing), cfg, airborne);
}

/// Without ground contact, whatever the commands, the grace timer never
/// exceeds what it held less the time that passed.
proof fn lemma_grace_bounded(s: Knight, cfg: KnightConfig, airborne: Seq<TickInput>)
    requires
        cfg.valid(),
        s.wf(cfg),
        steps_valid(airborne),
        forall|i: int| 0 <= i < airborne.len() ==> (#[trigger] airborne[i]).feedback != Some(true),
    ensures
        run(s, cfg, airborne).wf(cfg),
        total_time(airborne) >= 0,
        run(s, cfg, airborne).grounded_timer <= if total_time(airborne) < s.grounded_timer {
            s.grounded_timer - total_time(airborne)
        } else {
            0
        },
    decreases airborne.len(),
{
    if airborne.len() > 0 {
        let rest = airborne.drop_last();
        let last = airborne.last();
        assert forall|i: int| 0 <= i < rest.len() implies valid_step(#[trigger] rest[i].dt as int)
            && rest[i].feedback != Some(true) by {
            assert(rest[i] == airborne[i]);
        }
        assert(valid_step(airborne[airborne.len() - 1].dt as int));
        assert(airborne[airborne.len() - 1].feedback != Some(true));
        lemma_grace_bounded(s, cfg, rest);
        let r = run(s, cfg, rest);
        lemma_decided_wf(r, cfg, last.keys, last.feedback, last.dt as int);
        lemma_advanced_wf(
            r.decided(cfg, last.keys, last.feedback, last.dt as int),
            cfg,
            last.x as int,
            last.dt as int,
        );
    }
}

/// A late jump is rejected: after the last grounded tick (`landing`), with no
/// ground contact since (`airborne`, whatever its commands, jumps included),
/// once the steps of the grounded tick and the airborne ticks reach the grace
/// duration a jump is not accepted: the vertical speed is kept, and an idle
/// knight stays idle.
pub proof fn lemma_late_jump_rejected(
    k: Knight,
    cfg: KnightConfig,
    landing: TickInput,
    airborne: Seq<TickInput>,
    jump: TickInput,
)
    requires
        cfg.valid(),
        k.wf(cfg),
        landing.feedback == Some(true),
        valid_step(landing.dt as int),
        steps_valid(airborne),
        forall|i: int| 0 <= i < airborne.len() ==> (#[trigger] airborne[i]).feedback != Some(true),
        jump.feedback != Some(true),
        valid_step(jump.dt as int),
        landing.dt + total_time(airborne) >= cfg.grace_duration,
    ensures
        ({
            let s = run(k.stepped(cfg, landing), cfg, airborne);
            let j = s.decided(cfg, jump.keys, jump.feedback, jump.dt as int);
            &&& !s.jump_accepted(jump.keys, jump.feedback)
            &&& j.up_speed == s.up_speed
            &&& jump.keys.jump && s.moving_direction == Direction::Idle ==> j.moving_direction
                == Direction::Idle
        }),
{
    lemma_decided_wf(k, cfg, landing.keys, landing.feedback, landing.dt as int);
    lemma_advanced_wf(
        k.decided(cfg, landing.keys, landing.feedback, landing.dt as int),
        cfg,
        landing.x as int,
        landing.dt as int,
    );
    lemma_grace_bounded(k.stepped(cfg, landing), cfg, airborne);
}

} // verus!
