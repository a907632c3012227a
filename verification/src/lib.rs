//! Simulation engine for a side-scrolling obstacle-course game.
//!
//! The library covers the parts of the game that are pure logic: the
//! character's finite state machine (movement, animation frames, fall and
//! recovery), the obstacle and collision subsystem, the world scroller and
//! spawner, and the fixed-timestep accumulator that turns irregular host
//! frame callbacks into a steady stream of simulation ticks.  Rendering,
//! asset loading and input capture are left to the embedding program, which
//! talks to this crate through plain values.

mod character;
mod game_loop;
mod geometry;
mod obstacle;
mod red_hat_boy;
mod segment;
mod sprite;
mod world;

pub use character::Event;
pub use character::Falling;
pub use character::FallingEndState;
pub use character::Idle;
pub use character::Jumping;
pub use character::JumpingEndState;
pub use character::KnockedOut;
pub use character::RedHatBoyContext;
pub use character::RedHatBoyState;
pub use character::RedHatBoyStateMachine;
pub use character::Running;
pub use character::Sliding;
pub use character::SlidingEndState;
pub use game_loop::GameLoop;
pub use geometry::Point;
pub use geometry::Rect;
pub use obstacle::Barrier;
pub use obstacle::Image;
pub use obstacle::Obstacle;
pub use obstacle::ObstacleKind;
pub use obstacle::Platform;
pub use obstacle::rightmost;
pub use red_hat_boy::RedHatBoy;
pub use red_hat_boy::display_name;
pub use red_hat_boy::sheet_complete;
pub use segment::stone_and_platform;
pub use sprite::Cell;
pub use sprite::Sheet;
pub use sprite::SheetRect;
pub use world::GameError;
pub use world::KeyState;
pub use world::Walk;
pub use world::WalkTheDog;
