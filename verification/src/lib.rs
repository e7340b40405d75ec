//! Simulation core of a falling-card vocabulary drill.
//!
//! Cards that bear a prompt fall down a field; the player has to type the
//! answer of a card before it reaches the floor. The library holds the state
//! machine of such a game: the deck and its statistics, the spawning and
//! falling of cards, the judging of answers, health, score and difficulty.
//! It draws nothing and reads no input; a host drives it by calls.
//!
//! Everything is counted in integers (see [`rules`]): lengths in
//! micropixels, times in milliseconds, the speed multiplier in thousandths.
//! All randomness comes from one seeded stream (see [`random`]), so that a
//! seed and a sequence of calls determine a game.
//!
//! - [`text`], [`normalize`], [`parser`]: text handling, the canonical form
//!   of answers, and the deck text format;
//! - [`stats`], [`random`], [`rules`], [`card`]: the parts of a game;
//! - [`model`]: the game as a mathematical state machine;
//! - [`game`], [`deck`], [`tick`], [`answer`], [`report`]: the engine, proved
//!   to follow the model step by step;
//! - [`laws`]: what holds of every game.

pub mod answer;
pub mod card;
pub mod deck;
pub mod game;
pub mod laws;
pub mod model;
pub mod normalize;
pub mod parser;
pub mod random;
pub mod report;
pub mod rules;
pub mod stats;
pub mod text;
pub mod tick;
