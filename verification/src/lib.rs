//! Mirroring of live values between a tick-based source runtime, which owns
//! the authoritative state, and a cooperatively scheduled observer runtime,
//! which renders from cached copies.  The source is never blocked by the
//! observer: every channel operation is a non-blocking attempt.
//!
//! - [`packet`]: what travels between the runtimes.
//! - [`channel`]: the channel pair of one mirrored value, and what is
//!   assumed of the channels.
//! - [`cell`]: the observer's cached copy of one value.
//! - [`registry`]: the observer's cells by key, with lazy registration.
//! - [`command`]: the queue on which registrations reach the source.
//! - [`source`]: the source's receiver and sender for one value.
//! - [`delta`]: entity-keyed collections, synchronised by batches of
//!   additions and removals.
//! - [`resource`], [`asset`], [`panels`], [`events`]: the same machinery in
//!   the shapes that resources, asset states, panels and pointer input need.
//! - [`config`]: the polling interval.
//! - [`laws`]: what holds of all of this together.

pub mod asset;
pub mod cell;
pub mod channel;
pub mod command;
pub mod config;
pub mod delta;
pub mod events;
pub mod laws;
pub mod packet;
pub mod panels;
pub mod registry;
pub mod resource;
pub mod source;
