//! A verified model of a voice-conversation loop.
//!
//! The library captures the logic of a continuous listen-transcribe-respond
//! session: a controller that owns at most one background session at a time,
//! a conversation loop that announces each captured speech segment, feeds it
//! to a transcriber, speaks every recognized line, and discards the segment
//! that follows a response as probable echo, and a synthesizer cycle whose
//! playback phases never overlap.
//!
//! The collaborators at the edge of the loop (microphone capture, the
//! voice-activity classifier, the transcription model, the speech backend,
//! and the observer that receives events) are asynchronous device and
//! process I/O; the loop's decisions take their outcomes as plain values,
//! and every decision is verified here.

pub mod controller;
pub mod event;
pub mod synthesize;
pub mod transcribe;
