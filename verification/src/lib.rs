//! Command-dispatch core of a queue-driven audio daemon.
//!
//! The library holds the parts of the daemon that carry real state-machine
//! semantics: the playlist queue with its cursor and repeat modes, the control
//! command vocabulary and its validation, the response shapes of the wire
//! protocol, and the player control state machine that decides what each
//! command does to the queue and to the audio sink.  Socket handling, channel
//! plumbing and the audio device itself stay outside: they hand plain values
//! in and take plain values back.

pub mod player;
pub mod playlist;
pub mod queue;
pub mod shared;
