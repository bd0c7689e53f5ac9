//! A swarm of particles that drift across a rectangular field and bounce
//! off its four walls.
//!
//! The members of the swarm move on their own: each has a position and a
//! heading, every tick carries it one field unit along its heading, and a
//! step that crosses a wall turns the heading back. A tick also lets one
//! more member join at a random place until the swarm is full.
//!
//! Positions are exact. They are whole numbers of ninetieths of a field
//! unit, which is the grain of every step, so nothing is ever rounded.
//!
//! - [`field`]: the size of the field, the unit of position, walls, points
//! - [`member`]: a member of the swarm and the reflection of its heading
//! - [`motion`]: the step of one member, with the laws it obeys
//! - [`population`]: the swarm as a whole and its tick
//! - [`random`]: the random draws that place a new member

pub mod field;
pub mod member;
pub mod motion;
pub mod population;
pub mod random;
