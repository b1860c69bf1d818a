//! Voice-command front end for a home-assistant device.
//!
//! The core turns a stream of raw audio frames into discrete utterances
//! (speech segmentation with hysteresis and pre-roll), and turns transcripts
//! of those utterances into structured commands, including a parser for
//! spoken English number phrases.

pub mod command;
pub mod message;
pub mod news;
pub mod number;
pub mod segmenter;
pub mod service;
pub mod settings;
pub mod vad;
pub mod weather;
