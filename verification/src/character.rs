//! The character's finite state machine.
//!
//! A `RedHatBoyState<S>` carries the shared simulation context (frame
//! counter, position, velocity) together with a zero-sized marker type `S`
//! fixing which transitions are legal.  `RedHatBoyStateMachine` is the closed
//! union of the six states; every event goes through `transition`, and any
//! event delivered to a state that does not list it is a silent no-op.
//!
//! Each state carries a well-formedness invariant.  Besides bounding the
//! frame counter and the velocity, it bounds how far above the screen the
//! character can be: `ascent_room(vy)` is the total distance a character
//! moving upward at vertical velocity `vy` will still climb before gravity
//! turns it around, so `position.y >= BASE + ascent_room(velocity.y)` is
//! preserved by every tick.  This is what makes the position arithmetic
//! provably free of overflow.

use vstd::prelude::*;

verus! {

/// Height of the visible world; the floor constants derive from it.
pub const HEIGHT: i16 = 600;

/// Vertical coordinate of the ground the character runs on.
pub const FLOOR: i16 = 479;

/// Height of the character sprite; landing at `y` puts the feet at `y`.
pub const PLAYER_HEIGHT: i16 = HEIGHT - FLOOR;

/// Horizontal position of the character; the world scrolls, the character
/// does not move horizontally.
pub const STARTING_POINT: i16 = -20;

pub const IDLE_FRAMES: u8 = 30;

pub const RUNNING_FRAMES: u8 = 24;

pub const SLIDING_FRAMES: u8 = 15;

pub const JUMPING_FRAMES: u8 = 36;

pub const FALLING_FRAMES: u8 = 30;

/// Horizontal speed gained when the character starts to run.
pub const RUNNING_SPEED: i16 = 3;

/// Vertical velocity set by a jump; negative is upward.
pub const JUMP_SPEED: i16 = -25;

/// Downward acceleration applied on every tick.
pub const GRAVITY: i16 = 1;

/// Largest downward velocity gravity will produce.
pub const TERMINAL_VELOCITY: i16 = 20;

/// Lowest `position.y` a running or sliding character can reach, once its
/// remaining ascent is accounted for.
pub const RUNNING_BASE: i16 = -421;

/// Lowest `position.y` any state can reach, once its remaining ascent is
/// accounted for.
pub const JUMPING_BASE: i16 = -721;

/// How much further a character with vertical velocity `vy` will climb
/// before gravity brings the velocity back to zero.  Zero when the
/// character is not moving upward.
pub open spec fn ascent_room(vy: int) -> int
    decreases -vy,
{
    if vy >= 0 {
        0
    } else {
        (-(vy + 1)) + ascent_room(vy + 1)
    }
}

pub proof fn lemma_ascent_room_nonneg(vy: int)
    ensures
        ascent_room(vy) >= 0,
    decreases -vy,
{
    if vy < 0 {
        lemma_ascent_room_nonneg(vy + 1);
    }
}

pub proof fn lemma_ascent_room_mono(a: int, b: int)
    requires
        a <= b,
    ensures
        ascent_room(a) >= ascent_room(b),
    decreases b - a,
{
    if a < b {
        lemma_ascent_room_mono(a + 1, b);
        if a >= 0 {
        } else {
            lemma_ascent_room_nonneg(a + 1);
        }
    }
}

pub proof fn lemma_ascent_room_bound(vy: int)
    requires
        JUMP_SPEED <= vy,
    ensures
        0 <= ascent_room(vy) <= 300,
{
    lemma_ascent_room_nonneg(vy);
    lemma_ascent_room_mono(JUMP_SPEED as int, vy);
    assert(ascent_room(JUMP_SPEED as int) == 300) by {
        reveal_with_fuel(ascent_room, 27);
    }
}

/// The shared simulation context: animation frame counter, position and
/// velocity.  Mutated only through the state-specific operations below.
#[derive(Clone, Copy, Debug, PartialEq, Eq, Structural)]
pub struct RedHatBoyContext {
    pub frame: u8,
    pub position: crate::geometry::Point,
    pub velocity: crate::geometry::Point,
}

/// Vertical velocity after one tick of gravity, capped at the terminal
/// velocity.
pub open spec fn spec_velocity_after_gravity(vy: i16) -> int {
    if vy < TERMINAL_VELOCITY {
        vy + GRAVITY
    } else {
        vy as int
    }
}

/// Vertical position after integrating `vy_new`, clamped to the floor.
pub open spec fn spec_position_after_fall(y: i16, vy_new: int) -> int {
    if y + vy_new > FLOOR {
        FLOOR as int
    } else {
        y + vy_new
    }
}

/// One tick of the context: gravity, frame advance modulo `frame_count`,
/// vertical integration, floor clamp.
pub open spec fn spec_context_update(c: RedHatBoyContext, frame_count: u8) -> RedHatBoyContext {
    let vy_new = spec_velocity_after_gravity(c.velocity.y);
    RedHatBoyContext {
        frame: (((c.frame + 1) as int % frame_count as int) as u8),
        position: crate::geometry::Point {
            x: c.position.x,
            y: spec_position_after_fall(c.position.y, vy_new) as i16,
        },
        velocity: crate::geometry::Point { x: c.velocity.x, y: vy_new as i16 },
    }
}

pub open spec fn spec_reset_frame(c: RedHatBoyContext) -> RedHatBoyContext {
    RedHatBoyContext { frame: 0, ..c }
}

pub open spec fn spec_run_right(c: RedHatBoyContext) -> RedHatBoyContext {
    RedHatBoyContext {
        velocity: crate::geometry::Point {
            x: (c.velocity.x + RUNNING_SPEED) as i16,
            y: c.velocity.y,
        },
        ..c
    }
}

pub open spec fn spec_set_vertical_velocity(c: RedHatBoyContext, y: i16) -> RedHatBoyContext {
    RedHatBoyContext {
        velocity: crate::geometry::Point { x: c.velocity.x, y },
        ..c
    }
}

pub open spec fn spec_stop(c: RedHatBoyContext) -> RedHatBoyContext {
    RedHatBoyContext {
        velocity: crate::geometry::Point { x: 0, y: GRAVITY },
        ..c
    }
}

/// Snap the character so its feet rest at `position`.
pub open spec fn spec_set_on(c: RedHatBoyContext, position: i16) -> RedHatBoyContext {
    RedHatBoyContext {
        position: crate::geometry::Point {
            x: c.position.x,
            y: (position - PLAYER_HEIGHT) as i16,
        },
        ..c
    }
}

impl RedHatBoyContext {
    /// Bounds shared by the invariants of all states.
    pub open spec fn common_wf(&self) -> bool {
        &&& 0 <= self.velocity.x <= RUNNING_SPEED
        &&& JUMP_SPEED <= self.velocity.y <= TERMINAL_VELOCITY
        &&& self.position.y <= FLOOR
        &&& self.position.x == STARTING_POINT
    }

    pub fn update(self, frame_count: u8) -> (r: Self)
        requires
            0 < frame_count,
            self.frame < frame_count,
            JUMP_SPEED <= self.velocity.y <= TERMINAL_VELOCITY,
            JUMPING_BASE <= self.position.y <= FLOOR,
        ensures
            r == spec_context_update(self, frame_count),
    {
        let vy: i16 = if self.velocity.y < TERMINAL_VELOCITY {
            self.velocity.y + GRAVITY
        } else {
            self.velocity.y
        };
        let mut y: i16 = self.position.y + vy;
        if y > FLOOR {
            y = FLOOR;
        }
        RedHatBoyContext {
            frame: (self.frame + 1) % frame_count,
            position: crate::geometry::Point { x: self.position.x, y },
            velocity: crate::geometry::Point { x: self.velocity.x, y: vy },
        }
    }

    fn reset_frame(self) -> (r: Self)
        ensures
            r == spec_reset_frame(self),
    {
        RedHatBoyContext { frame: 0, ..self }
    }

    fn run_right(self) -> (r: Self)
        requires
            self.velocity.x + RUNNING_SPEED <= i16::MAX,
        ensures
            r == spec_run_right(self),
    {
        RedHatBoyContext {
            velocity: crate::geometry::Point {
                x: self.velocity.x + RUNNING_SPEED,
                y: self.velocity.y,
            },
            ..self
        }
    }

    fn set_vertical_velocity(self, y: i16) -> (r: Self)
        ensures
            r == spec_set_vertical_velocity(self, y),
    {
        RedHatBoyContext {
            velocity: crate::geometry::Point { x: self.velocity.x, y },
            ..self
        }
    }

    fn stop(self) -> (r: Self)
        ensures
            r == spec_stop(self),
    {
        RedHatBoyContext {
            velocity: crate::geometry::Point { x: 0, y: GRAVITY },
            ..self
        }
    }

    fn set_on(self, position: i16) -> (r: Self)
        requires
            0 <= position <= HEIGHT,
        ensures
            r == spec_set_on(self, position),
    {
        let y: i16 = position - PLAYER_HEIGHT;
        RedHatBoyContext {
            position: crate::geometry::Point { x: self.position.x, y },
            ..self
        }
    }
}

#[derive(Clone, Copy, Debug, PartialEq, Eq, Structural)]
pub struct Idle;

#[derive(Clone, Copy, Debug, PartialEq, Eq, Structural)]
pub struct Running;

#[derive(Clone, Copy, Debug, PartialEq, Eq, Structural)]
pub struct Sliding;

#[derive(Clone, Copy, Debug, PartialEq, Eq, Structural)]
pub struct Jumping;

#[derive(Clone, Copy, Debug, PartialEq, Eq, Structural)]
pub struct Falling;

#[derive(Clone, Copy, Debug, PartialEq, Eq, Structural)]
pub struct KnockedOut;

/// A state of the character: the shared context plus a marker type that
/// fixes which transitions are legal.
#[derive(Clone, Copy, Debug, PartialEq, Eq, Structural)]
pub struct RedHatBoyState<S> {
    pub context: RedHatBoyContext,
    pub _state: S,
}

impl<S> RedHatBoyState<S> {
    pub fn context(&self) -> (r: &RedHatBoyContext)
        ensures
            *r == self.context,
    {
        &self.context
    }
}

impl RedHatBoyState<Idle> {
    /// The state the character starts the session in.
    pub open spec fn spec_initial() -> RedHatBoyState<Idle> {
        RedHatBoyState {
            context: RedHatBoyContext {
                frame: 0,
                position: crate::geometry::Point { x: STARTING_POINT, y: FLOOR },
                velocity: crate::geometry::Point { x: 0, y: 0 },
            },
            _state: Idle,
        }
    }

    pub open spec fn wf(&self) -> bool {
        &&& self.context.common_wf()
        &&& self.context.frame < IDLE_FRAMES
        &&& self.context.velocity.x == 0
        &&& self.context.velocity.y >= 0
        &&& self.context.position.y == FLOOR
    }

    pub fn new() -> (r: Self)
        ensures
            r.wf(),
            r == Self::spec_initial(),
    {
        RedHatBoyState {
            context: RedHatBoyContext {
                frame: 0,
                position: crate::geometry::Point { x: STARTING_POINT, y: FLOOR },
                velocity: crate::geometry::Point { x: 0, y: 0 },
            },
            _state: Idle {},
        }
    }

    pub fn run(self) -> (r: RedHatBoyState<Running>)
        requires
            self.wf(),
        ensures
            r.wf(),
            r == (RedHatBoyState { context: spec_run_right(spec_reset_frame(self.context)), _state: Running }),
    {
        proof {
            lemma_ascent_room_bound(self.context.velocity.y as int);
        }
        RedHatBoyState {
            context: self.context.reset_frame().run_right(),
            _state: Running {},
        }
    }

    pub fn frame_name(&self) -> (r: &'static str)
        ensures
            r@ == "Idle"@,
    {
        "Idle"
    }

    pub fn update(self) -> (r: Self)
        requires
            self.wf(),
        ensures
            r.wf(),
            r == (RedHatBoyState { context: spec_context_update(self.context, IDLE_FRAMES), _state: Idle }),
    {
        RedHatBoyState { context: self.context.update(IDLE_FRAMES), _state: Idle {} }
    }
}

impl RedHatBoyState<Running> {
    pub open spec fn wf(&self) -> bool {
        &&& self.context.common_wf()
        &&& self.context.frame < RUNNING_FRAMES
        &&& self.context.position.y >= RUNNING_BASE + ascent_room(self.context.velocity.y as int)
    }

    pub fn frame_name(&self) -> (r: &'static str)
        ensures
            r@ == "Run"@,
    {
        "Run"
    }

    pub fn update(self) -> (r: Self)
        requires
            self.wf(),
        ensures
            r.wf(),
            r == (RedHatBoyState { context: spec_context_update(self.context, RUNNING_FRAMES), _state: Running }),
    {
        proof {
            lemma_running_base_preserved(self.context);
            lemma_ascent_room_nonneg(self.context.velocity.y as int);
        }
        RedHatBoyState { context: self.context.update(RUNNING_FRAMES), _state: Running {} }
    }

    pub fn slide(self) -> (r: RedHatBoyState<Sliding>)
        requires
            self.wf(),
        ensures
            r.wf(),
            r == (RedHatBoyState { context: spec_reset_frame(self.context), _state: Sliding }),
    {
        RedHatBoyState {
            context: self.context.reset_frame(),
            _state: Sliding {},
        }
    }

    pub fn jump(self) -> (r: RedHatBoyState<Jumping>)
        requires
            self.wf(),
        ensures
            r.wf(),
            r == (RedHatBoyState {
                context: spec_reset_frame(spec_set_vertical_velocity(self.context, JUMP_SPEED)),
                _state: Jumping,
            }),
    {
        proof {
            lemma_ascent_room_nonneg(self.context.velocity.y as int);
            lemma_ascent_room_bound(JUMP_SPEED as int);
        }
        RedHatBoyState {
            context: self.context.set_vertical_velocity(JUMP_SPEED).reset_frame(),
            _state: Jumping {},
        }
    }

    pub fn knock_out(self) -> (r: RedHatBoyState<Falling>)
        requires
            self.wf(),
        ensures
            r.wf(),
            r == (RedHatBoyState { context: spec_stop(spec_reset_frame(self.context)), _state: Falling }),
    {
        proof {
            lemma_ascent_room_nonneg(self.context.velocity.y as int);
        }
        RedHatBoyState {
            context: self.context.reset_frame().stop(),
            _state: Falling {},
        }
    }

    pub fn land_on(self, position: i16) -> (r: RedHatBoyState<Running>)
        requires
            self.wf(),
            0 <= position <= HEIGHT,
        ensures
            r.wf(),
            r == (RedHatBoyState { context: spec_set_on(self.context, position), _state: Running }),
    {
        proof {
            lemma_ascent_room_bound(self.context.velocity.y as int);
        }
        RedHatBoyState {
            context: self.context.set_on(position),
            _state: Running {},
        }
    }
}

/// Both successors a sliding tick can produce.
#[derive(Clone, Copy, Debug, PartialEq, Eq, Structural)]
pub enum SlidingEndState {
    Complete(RedHatBoyState<Running>),
    Sliding(RedHatBoyState<Sliding>),
}

impl RedHatBoyState<Sliding> {
    pub open spec fn wf(&self) -> bool {
        &&& self.context.common_wf()
        &&& self.context.frame < SLIDING_FRAMES
        &&& self.context.position.y >= RUNNING_BASE + ascent_room(self.context.velocity.y as int)
    }

    pub fn frame_name(&self) -> (r: &'static str)
        ensures
            r@ == "Slide"@,
    {
        "Slide"
    }

    pub fn update(self) -> (r: SlidingEndState)
        requires
            self.wf(),
        ensures
            ({
                let c = spec_context_update(self.context, SLIDING_FRAMES);
                if c.frame + 1 >= SLIDING_FRAMES {
                    &&& r matches SlidingEndState::Complete(s)
                    &&& s == (RedHatBoyState { context: spec_reset_frame(c), _state: Running })
                    &&& s.wf()
                } else {
                    &&& r matches SlidingEndState::Sliding(s)
                    &&& s == (RedHatBoyState { context: c, _state: Sliding })
                    &&& s.wf()
                }
            }),
    {
        proof {
            lemma_running_base_preserved(self.context);
            lemma_ascent_room_nonneg(self.context.velocity.y as int);
        }
        let next = RedHatBoyState { context: self.context.update(SLIDING_FRAMES), _state: Sliding {} };
        if next.context.frame + 1 >= SLIDING_FRAMES {
            SlidingEndState::Complete(next.stand())
        } else {
            SlidingEndState::Sliding(next)
        }
    }

    pub fn stand(self) -> (r: RedHatBoyState<Running>)
        requires
            self.wf(),
        ensures
            r.wf(),
            r == (RedHatBoyState { context: spec_reset_frame(self.context), _state: Running }),
    {
        RedHatBoyState {
            context: self.context.reset_frame(),
            _state: Running,
        }
    }

    pub fn knock_out(self) -> (r: RedHatBoyState<Falling>)
        requires
            self.wf(),
        ensures
            r.wf(),
            r == (RedHatBoyState { context: spec_stop(spec_reset_frame(self.context)), _state: Falling }),
    {
        proof {
            lemma_ascent_room_nonneg(self.context.velocity.y as int);
        }
        RedHatBoyState {
            context: self.context.reset_frame().stop(),
            _state: Falling {},
        }
    }
}

/// Both successors a jumping tick can produce.
#[derive(Clone, Copy, Debug, PartialEq, Eq, Structural)]
pub enum JumpingEndState {
    Landing(RedHatBoyState<Running>),
    Jumping(RedHatBoyState<Jumping>),
}

impl RedHatBoyState<Jumping> {
    pub open spec fn wf(&self) -> bool {
        &&& self.context.common_wf()
        &&& self.context.frame < JUMPING_FRAMES
        &&& self.context.position.y >= JUMPING_BASE + ascent_room(self.context.velocity.y as int)
    }

    pub fn frame_name(&self) -> (r: &'static str)
        ensures
            r@ == "Jump"@,
    {
        "Jump"
    }

    pub fn update(self) -> (r: JumpingEndState)
        requires
            self.wf(),
        ensures
            ({
                let c = spec_context_update(self.context, JUMPING_FRAMES);
                if c.position.y >= FLOOR {
                    &&& r matches JumpingEndState::Landing(s)
                    &&& s == (RedHatBoyState { context: spec_set_on(spec_reset_frame(c), HEIGHT), _state: Running })
                    &&& s.wf()
                } else {
                    &&& r matches JumpingEndState::Jumping(s)
                    &&& s == (RedHatBoyState { context: c, _state: Jumping })
                    &&& s.wf()
                }
            }),
    {
        proof {
            lemma_jumping_base_preserved(self.context);
            lemma_ascent_room_nonneg(self.context.velocity.y as int);
        }
        let next = RedHatBoyState { context: self.context.update(JUMPING_FRAMES), _state: Jumping {} };
        if next.context.position.y >= FLOOR {
            JumpingEndState::Landing(next.land_on(HEIGHT))
        } else {
            JumpingEndState::Jumping(next)
        }
    }

    pub fn land_on(self, position: i16) -> (r: RedHatBoyState<Running>)
        requires
            self.wf(),
            0 <= position <= HEIGHT,
        ensures
            r.wf(),
            r == (RedHatBoyState {
                context: spec_set_on(spec_reset_frame(self.context), position),
                _state: Running,
            }),
    {
        proof {
            lemma_ascent_room_bound(self.context.velocity.y as int);
        }
        RedHatBoyState {
            context: self.context.reset_frame().set_on(position),
            _state: Running {},
        }
    }

    pub fn knock_out(self) -> (r: RedHatBoyState<Falling>)
        requires
            self.wf(),
        ensures
            r.wf(),
            r == (RedHatBoyState { context: spec_stop(spec_reset_frame(self.context)), _state: Falling }),
    {
        proof {
            lemma_ascent_room_nonneg(self.context.velocity.y as int);
        }
        RedHatBoyState {
            context: self.context.reset_frame().stop(),
            _state: Falling {},
        }
    }
}

/// Both successors a falling tick can produce.
#[derive(Clone, Copy, Debug, PartialEq, Eq, Structural)]
pub enum FallingEndState {
    Complete(RedHatBoyState<KnockedOut>),
    Falling(RedHatBoyState<Falling>),
}

impl RedHatBoyState<Falling> {
    pub open spec fn wf(&self) -> bool {
        &&& self.context.common_wf()
        &&& self.context.frame < FALLING_FRAMES
        &&& self.context.velocity.x == 0
        &&& self.context.velocity.y >= GRAVITY
        &&& self.context.position.y >= JUMPING_BASE
    }

    pub fn frame_name(&self) -> (r: &'static str)
        ensures
            r@ == "Dead"@,
    {
        "Dead"
    }

    pub fn update(self) -> (r: FallingEndState)
        requires
            self.wf(),
        ensures
            ({
                let c = spec_context_update(self.context, FALLING_FRAMES);
                if c.frame + 1 >= FALLING_FRAMES {
                    &&& r matches FallingEndState::Complete(s)
                    &&& s == (RedHatBoyState { context: c, _state: KnockedOut })
                    &&& s.wf()
                } else {
                    &&& r matches FallingEndState::Falling(s)
                    &&& s == (RedHatBoyState { context: c, _state: Falling })
                    &&& s.wf()
                }
            }),
    {
        let next = RedHatBoyState { context: self.context.update(FALLING_FRAMES), _state: Falling {} };
        if next.context.frame + 1 >= FALLING_FRAMES {
            FallingEndState::Complete(next.knock_out())
        } else {
            FallingEndState::Falling(next)
        }
    }

    pub fn knock_out(self) -> (r: RedHatBoyState<KnockedOut>)
        requires
            self.wf(),
        ensures
            r.wf(),
            r == (RedHatBoyState { context: self.context, _state: KnockedOut }),
    {
        RedHatBoyState {
            context: self.context,
            _state: KnockedOut {},
        }
    }
}

impl RedHatBoyState<KnockedOut> {
    pub open spec fn wf(&self) -> bool {
        &&& self.context.common_wf()
        &&& self.context.frame < FALLING_FRAMES
        &&& self.context.velocity.x == 0
        &&& self.context.velocity.y >= GRAVITY
        &&& self.context.position.y >= JUMPING_BASE
    }

    pub fn frame_name(&self) -> (r: &'static str)
        ensures
            r@ == "Dead"@,
    {
        "Dead"
    }
}

/// The events the outside world can deliver to the state machine.
#[derive(Clone, Copy, Debug, PartialEq, Eq, Structural)]
pub enum Event {
    Run,
    Slide,
    Jump,
    KnockOut,
    Land(i16),
    Update,
}

/// The closed union of the character's states.
#[derive(Clone, Copy, Debug, PartialEq, Eq, Structural)]
pub enum RedHatBoyStateMachine {
    Idle(RedHatBoyState<Idle>),
    Running(RedHatBoyState<Running>),
    Sliding(RedHatBoyState<Sliding>),
    Jumping(RedHatBoyState<Jumping>),
    Falling(RedHatBoyState<Falling>),
    KnockedOut(RedHatBoyState<KnockedOut>),
}

impl RedHatBoyStateMachine {
    pub open spec fn wf(&self) -> bool {
        match *self {
            RedHatBoyStateMachine::Idle(s) => s.wf(),
            RedHatBoyStateMachine::Running(s) => s.wf(),
            RedHatBoyStateMachine::Sliding(s) => s.wf(),
            RedHatBoyStateMachine::Jumping(s) => s.wf(),
            RedHatBoyStateMachine::Falling(s) => s.wf(),
            RedHatBoyStateMachine::KnockedOut(s) => s.wf(),
        }
    }

    pub open spec fn spec_context(&self) -> RedHatBoyContext {
        match *self {
            RedHatBoyStateMachine::Idle(s) => s.context,
            RedHatBoyStateMachine::Running(s) => s.context,
            RedHatBoyStateMachine::Sliding(s) => s.context,
            RedHatBoyStateMachine::Jumping(s) => s.context,
            RedHatBoyStateMachine::Falling(s) => s.context,
            RedHatBoyStateMachine::KnockedOut(s) => s.context,
        }
    }

    /// Total number of animation frames of the current state; the frame
    /// counter always stays below it.
    pub open spec fn spec_frame_count(&self) -> u8 {
        match *self {
            RedHatBoyStateMachine::Idle(_) => IDLE_FRAMES,
            RedHatBoyStateMachine::Running(_) => RUNNING_FRAMES,
            RedHatBoyStateMachine::Sliding(_) => SLIDING_FRAMES,
            RedHatBoyStateMachine::Jumping(_) => JUMPING_FRAMES,
            RedHatBoyStateMachine::Falling(_) => FALLING_FRAMES,
            RedHatBoyStateMachine::KnockedOut(_) => FALLING_FRAMES,
        }
    }

    /// The animation label of the current state, as used in sprite names.
    pub open spec fn spec_frame_label(&self) -> Seq<char> {
        match *self {
            RedHatBoyStateMachine::Idle(_) => "Idle"@,
            RedHatBoyStateMachine::Running(_) => "Run"@,
            RedHatBoyStateMachine::Sliding(_) => "Slide"@,
            RedHatBoyStateMachine::Jumping(_) => "Jump"@,
            RedHatBoyStateMachine::Falling(_) => "Dead"@,
            RedHatBoyStateMachine::KnockedOut(_) => "Dead"@,
        }
    }

    /// The pairs of state and event that actually do something; every other
    /// pair leaves the machine unchanged.
    pub open spec fn event_legal(&self, event: Event) -> bool {
        match (*self, event) {
            (RedHatBoyStateMachine::Idle(_), Event::Run) => true,
            (RedHatBoyStateMachine::Running(_), Event::Slide) => true,
            (RedHatBoyStateMachine::Running(_), Event::Jump) => true,
            (RedHatBoyStateMachine::Running(_), Event::KnockOut) => true,
            (RedHatBoyStateMachine::Sliding(_), Event::KnockOut) => true,
            (RedHatBoyStateMachine::Jumping(_), Event::KnockOut) => true,
            (RedHatBoyStateMachine::Idle(_), Event::Update) => true,
            (RedHatBoyStateMachine::Running(_), Event::Update) => true,
            (RedHatBoyStateMachine::Sliding(_), Event::Update) => true,
            (RedHatBoyStateMachine::Jumping(_), Event::Update) => true,
            (RedHatBoyStateMachine::Falling(_), Event::Update) => true,
            (RedHatBoyStateMachine::Jumping(_), Event::Land(_)) => true,
            (RedHatBoyStateMachine::Running(_), Event::Land(_)) => true,
            _ => false,
        }
    }

    /// Whether two machine values are in the same state variant.
    pub open spec fn same_variant(&self, other: &Self) -> bool {
        match (*self, *other) {
            (RedHatBoyStateMachine::Idle(_), RedHatBoyStateMachine::Idle(_)) => true,
            (RedHatBoyStateMachine::Running(_), RedHatBoyStateMachine::Running(_)) => true,
            (RedHatBoyStateMachine::Sliding(_), RedHatBoyStateMachine::Sliding(_)) => true,
            (RedHatBoyStateMachine::Jumping(_), RedHatBoyStateMachine::Jumping(_)) => true,
            (RedHatBoyStateMachine::Falling(_), RedHatBoyStateMachine::Falling(_)) => true,
            (RedHatBoyStateMachine::KnockedOut(_), RedHatBoyStateMachine::KnockedOut(_)) => true,
            _ => false,
        }
    }

    /// The transition relation of the machine.  Events delivered to a state
    /// that does not list them leave the machine unchanged.
    pub open spec fn spec_transition(self, event: Event) -> Self {
        match (self, event) {
            (RedHatBoyStateMachine::Idle(s), Event::Run) => RedHatBoyStateMachine::Running(
                RedHatBoyState {
                    context: spec_run_right(spec_reset_frame(s.context)),
                    _state: Running,
                },
            ),
            (RedHatBoyStateMachine::Running(s), Event::Slide) => RedHatBoyStateMachine::Sliding(
                RedHatBoyState { context: spec_reset_frame(s.context), _state: Sliding },
            ),
            (RedHatBoyStateMachine::Running(s), Event::Jump) => RedHatBoyStateMachine::Jumping(
                RedHatBoyState {
                    context: spec_reset_frame(spec_set_vertical_velocity(s.context, JUMP_SPEED)),
                    _state: Jumping,
                },
            ),
            (RedHatBoyStateMachine::Running(s), Event::KnockOut) => RedHatBoyStateMachine::Falling(
                RedHatBoyState {
                    context: spec_stop(spec_reset_frame(s.context)),
                    _state: Falling,
                },
            ),
            (RedHatBoyStateMachine::Sliding(s), Event::KnockOut) => RedHatBoyStateMachine::Falling(
                RedHatBoyState {
                    context: spec_stop(spec_reset_frame(s.context)),
                    _state: Falling,
                },
            ),
            (RedHatBoyStateMachine::Jumping(s), Event::KnockOut) => RedHatBoyStateMachine::Falling(
                RedHatBoyState {
                    context: spec_stop(spec_reset_frame(s.context)),
                    _state: Falling,
                },
            ),
            (RedHatBoyStateMachine::Idle(s), Event::Update) => RedHatBoyStateMachine::Idle(
                RedHatBoyState {
                    context: spec_context_update(s.context, IDLE_FRAMES),
                    _state: Idle,
                },
            ),
            (RedHatBoyStateMachine::Running(s), Event::Update) => RedHatBoyStateMachine::Running(
                RedHatBoyState {
                    context: spec_context_update(s.context, RUNNING_FRAMES),
                    _state: Running,
                },
            ),
            (RedHatBoyStateMachine::Sliding(s), Event::Update) => {
                let c = spec_context_update(s.context, SLIDING_FRAMES);
                if c.frame + 1 >= SLIDING_FRAMES {
                    RedHatBoyStateMachine::Running(
                        RedHatBoyState { context: spec_reset_frame(c), _state: Running },
                    )
                } else {
                    RedHatBoyStateMachine::Sliding(RedHatBoyState { context: c, _state: Sliding })
                }
            },
            (RedHatBoyStateMachine::Jumping(s), Event::Update) => {
                let c = spec_context_update(s.context, JUMPING_FRAMES);
                if c.position.y >= FLOOR {
                    RedHatBoyStateMachine::Running(
                        RedHatBoyState {
                            context: spec_set_on(spec_reset_frame(c), HEIGHT),
                            _state: Running,
                        },
                    )
                } else {
                    RedHatBoyStateMachine::Jumping(RedHatBoyState { context: c, _state: Jumping })
                }
            },
            (RedHatBoyStateMachine::Falling(s), Event::Update) => {
                let c = spec_context_update(s.context, FALLING_FRAMES);
                if c.frame + 1 >= FALLING_FRAMES {
                    RedHatBoyStateMachine::KnockedOut(
                        RedHatBoyState { context: c, _state: KnockedOut },
                    )
                } else {
                    RedHatBoyStateMachine::Falling(RedHatBoyState { context: c, _state: Falling })
                }
            },
            (RedHatBoyStateMachine::Jumping(s), Event::Land(position)) => {
                RedHatBoyStateMachine::Running(
                    RedHatBoyState {
                        context: spec_set_on(spec_reset_frame(s.context), position),
                        _state: Running,
                    },
                )
            },
            (RedHatBoyStateMachine::Running(s), Event::Land(position)) => {
                RedHatBoyStateMachine::Running(
                    RedHatBoyState { context: spec_set_on(s.context, position), _state: Running },
                )
            },
            _ => self,
        }
    }

    /// Deliver one event.  The result is exactly `spec_transition`, and
    /// well-formedness is preserved.
    pub fn transition(self, event: Event) -> (r: Self)
        requires
            self.wf(),
            event matches Event::Land(p) ==> 0 <= p <= HEIGHT,
        ensures
            r == self.spec_transition(event),
            r.wf(),
    {
        match (self, event) {
            (RedHatBoyStateMachine::Idle(state), Event::Run) => RedHatBoyStateMachine::Running(
                state.run(),
            ),
            (RedHatBoyStateMachine::Running(state), Event::Slide) => {
                RedHatBoyStateMachine::Sliding(state.slide())
            },
            (RedHatBoyStateMachine::Running(state), Event::Jump) => {
                RedHatBoyStateMachine::Jumping(state.jump())
            },
            (RedHatBoyStateMachine::Running(state), Event::KnockOut) => {
                RedHatBoyStateMachine::Falling(state.knock_out())
            },
            (RedHatBoyStateMachine::Sliding(state), Event::KnockOut) => {
                RedHatBoyStateMachine::Falling(state.knock_out())
            },
            (RedHatBoyStateMachine::Jumping(state), Event::KnockOut) => {
                RedHatBoyStateMachine::Falling(state.knock_out())
            },
            (RedHatBoyStateMachine::Idle(state), Event::Update) => RedHatBoyStateMachine::Idle(
                state.update(),
            ),
            (RedHatBoyStateMachine::Running(state), Event::Update) => {
                RedHatBoyStateMachine::Running(state.update())
            },
            (RedHatBoyStateMachine::Sliding(state), Event::Update) => {
                match state.update() {
                    SlidingEndState::Complete(running) => RedHatBoyStateMachine::Running(running),
                    SlidingEndState::Sliding(sliding) => RedHatBoyStateMachine::Sliding(sliding),
                }
            },
            (RedHatBoyStateMachine::Jumping(state), Event::Update) => {
                match state.update() {
                    JumpingEndState::Landing(running) => RedHatBoyStateMachine::Running(running),
                    JumpingEndState::Jumping(jumping) => RedHatBoyStateMachine::Jumping(jumping),
                }
            },
            (RedHatBoyStateMachine::Falling(state), Event::Update) => {
                match state.update() {
                    FallingEndState::Complete(knocked_out) => {
                        RedHatBoyStateMachine::KnockedOut(knocked_out)
                    },
                    FallingEndState::Falling(falling) => RedHatBoyStateMachine::Falling(falling),
                }
            },
            (RedHatBoyStateMachine::Jumping(state), Event::Land(position)) => {
                RedHatBoyStateMachine::Running(state.land_on(position))
            },
            (RedHatBoyStateMachine::Running(state), Event::Land(position)) => {
                RedHatBoyStateMachine::Running(state.land_on(position))
            },
            (other, _) => other,
        }
    }

    pub fn frame_name(&self) -> (r: &'static str)
        ensures
            r@ == self.spec_frame_label(),
    {
        match self {
            RedHatBoyStateMachine::Idle(state) => state.frame_name(),
            RedHatBoyStateMachine::Running(state) => state.frame_name(),
            RedHatBoyStateMachine::Sliding(state) => state.frame_name(),
            RedHatBoyStateMachine::Jumping(state) => state.frame_name(),
            RedHatBoyStateMachine::Falling(state) => state.frame_name(),
            RedHatBoyStateMachine::KnockedOut(state) => state.frame_name(),
        }
    }

    pub fn context(&self) -> (r: &RedHatBoyContext)
        ensures
            *r == self.spec_context(),
    {
        match self {
            RedHatBoyStateMachine::Idle(state) => state.context(),
            RedHatBoyStateMachine::Running(state) => state.context(),
            RedHatBoyStateMachine::Sliding(state) => state.context(),
            RedHatBoyStateMachine::Jumping(state) => state.context(),
            RedHatBoyStateMachine::Falling(state) => state.context(),
            RedHatBoyStateMachine::KnockedOut(state) => state.context(),
        }
    }

    pub fn update(self) -> (r: Self)
        requires
            self.wf(),
        ensures
            r == self.spec_transition(Event::Update),
            r.wf(),
    {
        self.transition(Event::Update)
    }
}

/// No-op law: an event that is not listed as legal for the current state
/// leaves the machine exactly unchanged.
pub proof fn lemma_illegal_event_is_noop(m: RedHatBoyStateMachine, event: Event)
    requires
        !m.event_legal(event),
    ensures
        m.spec_transition(event) == m,
{
}

/// Frame counter invariant: a well-formed machine always keeps its frame
/// counter below the frame count of its current state.
pub proof fn lemma_frame_in_range(m: RedHatBoyStateMachine)
    requires
        m.wf(),
    ensures
        0 <= m.spec_context().frame < m.spec_frame_count(),
{
}

/// Reset-on-transition law: an event other than `Update` that changes the
/// state variant resets the frame counter to zero.
pub proof fn lemma_frame_reset_on_event(m: RedHatBoyStateMachine, event: Event)
    requires
        !(event is Update),
        !m.same_variant(&m.spec_transition(event)),
    ensures
        m.spec_transition(event).spec_context().frame == 0,
{
}

/// Reset-on-transition law for tick-driven changes: when a tick moves the
/// machine out of a state (standing up after a slide, landing after a
/// jump), the frame counter of the new state is zero.  The one exception is
/// the fall completing into `KnockedOut`, which freezes the last frame of
/// the fall animation; that transition is excluded here.
pub proof fn lemma_frame_reset_on_tick(m: RedHatBoyStateMachine)
    requires
        !(m is Falling),
        !m.same_variant(&m.spec_transition(Event::Update)),
    ensures
        m.spec_transition(Event::Update).spec_context().frame == 0,
{
}

/// Gravity law: a tick never decreases the vertical velocity, never pushes
/// it past the terminal velocity, and never leaves the character below the
/// floor.
pub proof fn lemma_update_gravity(m: RedHatBoyStateMachine)
    requires
        m.wf(),
    ensures
        m.spec_transition(Event::Update).spec_context().velocity.y >= m.spec_context().velocity.y,
        m.spec_transition(Event::Update).spec_context().velocity.y <= TERMINAL_VELOCITY,
        m.spec_transition(Event::Update).spec_context().position.y <= FLOOR,
{
    lemma_ascent_room_nonneg(m.spec_context().velocity.y as int);
}

/// Idempotent landing: landing a running character twice in succession at
/// the same spot is the same as landing it once, and the resulting height
/// depends only on the landing coordinate, not on the prior position.
pub proof fn lemma_land_idempotent(m: RedHatBoyStateMachine, position: i16)
    requires
        m is Running,
    ensures
        m.spec_transition(Event::Land(position)).spec_transition(Event::Land(position))
            == m.spec_transition(Event::Land(position)),
        m.spec_transition(Event::Land(position)).spec_context().position.y
            == (position - PLAYER_HEIGHT) as i16,
{
}

/// The potential invariant `y >= RUNNING_BASE + ascent_room(vy)` survives a
/// context tick, for either base constant.
proof fn lemma_base_preserved(c: RedHatBoyContext, base: int, frame_count: u8)
    requires
        0 < frame_count,
        JUMP_SPEED <= c.velocity.y <= TERMINAL_VELOCITY,
        c.position.y >= base + ascent_room(c.velocity.y as int),
        base + 300 <= FLOOR,
    ensures
        ({
            let r = spec_context_update(c, frame_count);
            r.position.y >= base + ascent_room(r.velocity.y as int)
        }),
{
    let vy = c.velocity.y as int;
    let vy_new = spec_velocity_after_gravity(c.velocity.y);
    lemma_ascent_room_bound(vy_new);
    if vy < 0 {
        assert(ascent_room(vy) == (-(vy + 1)) + ascent_room(vy + 1));
    } else {
        lemma_ascent_room_nonneg(vy);
    }
}

proof fn lemma_running_base_preserved(c: RedHatBoyContext)
    requires
        JUMP_SPEED <= c.velocity.y <= TERMINAL_VELOCITY,
        c.position.y >= RUNNING_BASE + ascent_room(c.velocity.y as int),
    ensures
        ({
            let r = spec_context_update(c, RUNNING_FRAMES);
            r.position.y >= RUNNING_BASE + ascent_room(r.velocity.y as int)
        }),
        ({
            let r = spec_context_update(c, SLIDING_FRAMES);
            r.position.y >= RUNNING_BASE + ascent_room(r.velocity.y as int)
        }),
{
    lemma_base_preserved(c, RUNNING_BASE as int, RUNNING_FRAMES);
    lemma_base_preserved(c, RUNNING_BASE as int, SLIDING_FRAMES);
}

proof fn lemma_jumping_base_preserved(c: RedHatBoyContext)
    requires
        JUMP_SPEED <= c.velocity.y <= TERMINAL_VELOCITY,
        c.position.y >= JUMPING_BASE + ascent_room(c.velocity.y as int),
    ensures
        ({
            let r = spec_context_update(c, JUMPING_FRAMES);
            r.position.y >= JUMPING_BASE + ascent_room(r.velocity.y as int)
        }),
{
    lemma_base_preserved(c, JUMPING_BASE as int, JUMPING_FRAMES);
}

} // verus!
