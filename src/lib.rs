//! Track resolution for a music service that signs its private API requests:
//! identifier extraction, request signing, response interpretation and the
//! resumable-source state machine that drives playback.

pub mod text;
pub mod error;
pub mod track_id;
pub mod encoding;
pub mod signing;
pub mod request;
pub mod metadata;
pub mod resolution;
pub mod source;
pub mod display;
