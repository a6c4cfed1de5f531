//! A small text-adventure engine: a world of indexed game objects, a
//! spatial-distance classifier, a verb-noun command parser, the action
//! handlers and combat state machine that drive a session, and a plain-text
//! serialization of the world.

pub mod codec;
pub mod combat;
pub mod command;
pub mod distance;
pub mod object;
pub mod text;
pub mod world;
