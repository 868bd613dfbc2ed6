//! The failure kinds of track resolution.

use vstd::prelude::*;

verus! {

/// Why a track could not be resolved.
#[derive(Clone, Copy, Debug, PartialEq, Eq, Structural)]
pub enum ResolveError {
    /// The input URL does not parse, or carries no numeric `id` parameter.
    InvalidUrl,
    /// The request could not be sent or its answer not received.
    NetworkError,
    /// The answer did not have the expected JSON shape.
    DecodeError,
    /// The service confirmed the request but sent no entries.
    EmptyResult,
    /// A metadata lookup returned no song.
    TrackNotFound,
    /// A stream-URL lookup returned no URL.
    NoUrlAvailable,
    /// A program's detail holds no inner track.
    ProgramHasNoTrack,
    /// The decoder process could not be started.
    SpawnError,
}

} // verus!
