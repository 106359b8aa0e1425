//! Verified core of a push-to-talk dictation pipeline: the model catalog,
//! the capture session, sample-rate conversion, the model download protocol
//! and the transcription engine.
pub mod capture;
pub mod catalog;
pub mod chunked;
pub mod download;
pub mod engine;
pub mod events;
pub mod fn_key;
pub mod permissions;
pub mod resample;
pub mod text;
