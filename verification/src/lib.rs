//! Presentation and interaction substrate of a small card game: anchored
//! layout of visual elements, progress-driven animation with row reflow, and
//! pointer-driven selection.
//!
//! Screen quantities are whole pixels, fractions are ratios of integers, and
//! time is counted in whole ticks, so every result is exact. The host turns
//! what its window reports into these, feeds the events to a
//! [`game::Game`], and draws what [`game::Game::draw`] asks for.
//!
//! - [`id_generator`]: handles of visual elements.
//! - [`geometry`], [`pin_point`]: points, rectangles, and which point of a
//!   rectangle a coordinate refers to.
//! - [`model`], [`store`]: the visual elements, the store that holds them by
//!   handle, and the resolution of a position to a rectangle of the canvas.
//! - [`clock`]: progress of an animation.
//! - [`reflow`], [`layout`]: rows that stay continuous while a member comes
//!   or goes, and the rows of the hand and the battlefield.
//! - [`interface`], [`draw`]: what is shown in a frame, what the cursor
//!   points at, and what is drawn.
//! - [`rules`], [`invariants`]: the game as a mathematical state, what each
//!   event makes of it, and what holds of it in every state.
//! - [`game`]: the game itself and its event handlers.

pub mod arith;
pub mod clock;
pub mod draw;
pub mod game;
pub mod geometry;
pub mod id_generator;
pub mod interface;
pub mod invariants;
pub mod layout;
pub mod model;
pub mod pin_point;
pub mod reflow;
pub mod rules;
pub mod store;
