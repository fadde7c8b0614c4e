//! Voice-gated playback: the decision logic of a pipeline in which speech
//! picked up by a microphone advances a video and silence freezes it.
//!
//! Samples are collected into fixed-size windows ([`ring`]), each window is
//! reduced to an activity level with hysteresis ([`detector`]), the level is
//! handed to the playback side through a latest-value mailbox ([`channel`],
//! and [`shared`] for two threads), and the playback loop advances one frame
//! per active tick ([`playback`]) over the frames of the video ([`frame`]).
//! The parameters are gathered in [`config`]. Devices, threads, decoding and
//! presentation are left to the caller.

pub mod channel;
pub mod config;
pub mod detector;
pub mod frame;
pub mod playback;
pub mod ring;
pub mod shared;
