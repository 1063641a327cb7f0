//! Capture of the raw messages that a client exchanges with a gateway.
//!
//! A [`recorder::MessageRecorder`] decides, for every outbound request and
//! inbound response, whether the message is recorded and, if so, under which
//! file name and with which content. Requests and responses draw their
//! numbers from one [`sequence::SequenceCounter`], so that the artifacts of
//! a session, sorted by number, give the order in which the messages were
//! exchanged. What holds of a session as a whole is stated and proved in
//! [`session`].
//!
//! The library computes; it touches neither the environment nor the disk.
//! The caller hands it the configured directory, creates the directory that
//! the recorder names, and writes the artifacts it returns.

pub mod clock;
pub mod recorder;
pub mod sequence;
pub mod session;
pub mod text;
