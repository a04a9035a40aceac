//! Interaction core of a real-time strategy game.
//!
//! The crate turns the picks of the pointer into events, and the events
//! into selection changes, move commands and gathering orders; a tick at a
//! fixed cadence then takes each gathering unit through its lifecycle and
//! adds what it gathers to the ledger of its player.
//!
//! The core works on a [`world::World`]: the part of the component store
//! that it reads and changes, as plain lists. Whoever owns the store fills
//! the world before a step, runs the step, and writes back what changed.
//! Rays are cast and time is measured outside; the core is handed what
//! they gave.
//!
//! All quantities are integers. Positions and distances are counted in one
//! world sub-unit, rates in thousandths of a resource unit per accrual
//! tick, time in nanoseconds.
//!
//! - [`picking`]: the pick resolver, from the input of a frame to events
//! - [`selection`]: the selection manager
//! - [`movement`]: the move command issuer
//! - [`collection`]: the lifecycle of a collector
//! - [`accrual`]: the accrual tick and its cadence
//! - [`pipeline`]: the three consumers of the events in their order
//! - [`laws`]: what holds of all of this, with proof

pub mod entity;
pub mod geometry;
pub mod resources;
pub mod units;
pub mod civilisation;
pub mod player;
pub mod world;
pub mod picking;
pub mod selection;
pub mod movement;
pub mod collection;
pub mod accrual;
pub mod pipeline;
pub mod laws;
