//! The decisions of a track resolution: which lookup comes next, and what the
//! answers add up to. Whoever drives it performs each request and hands back the
//! reply.

use vstd::prelude::*;
use crate::error::ResolveError;
use crate::metadata::{
    ProgramDetail, SongDetailSong, TrackMetadata, first_song_metadata, stream_urls,
    unwrap_program, wrapped_song,
};
use crate::track_id::TrackRef;

verus! {

/// Whether a resolution only probes the metadata or resolves a playable stream.
#[derive(Clone, Copy, Debug, PartialEq, Eq, Structural)]
pub enum Mode {
    Probe,
    Materialize,
}

/// A lookup to perform against the service.
#[derive(Clone, Copy, Debug, PartialEq, Eq, Structural)]
pub enum Request {
    SongUrls(u64),
    SongDetail(u64),
    ProgramDetail(u64),
}

/// The decoded answer to a lookup, or why there is none.
pub enum Reply {
    SongUrls(Vec<String>),
    SongDetail(Vec<SongDetailSong>),
    ProgramDetail(Option<ProgramDetail>),
    Failed(ResolveError),
}

/// What the resolution is waiting for.
pub enum Stage {
    /// Probe of a song: its detail.
    ProbeSong,
    /// Probe of a program: its detail.
    ProbeProgram,
    /// Materializing a song: its URLs.
    SongUrls(u64),
    /// Materializing a song whose stream URL is known: its detail.
    SongDetail(String),
    /// Materializing a program: its detail.
    ProgramDetail,
    /// Materializing a program whose track and metadata are known: the track's URLs.
    InnerUrls(TrackMetadata),
}

/// A stream URL with the metadata of what it plays.
pub struct ResolvedPlayback {
    pub stream_url: String,
    pub metadata: TrackMetadata,
}

/// What comes of one reply.
pub enum Outcome {
    Next(Stage, Request),
    Probed(TrackMetadata),
    Resolved(ResolvedPlayback),
    Failed(ResolveError),
}

/// The first stage and request of a resolution. A program is always unwrapped
/// first; a probe never asks for a stream URL.
pub open spec fn start_spec(target: TrackRef, mode: Mode) -> Request {
    match (target, mode) {
        (TrackRef::Standalone(id), Mode::Probe) => Request::SongDetail(id),
        (TrackRef::Program(id), Mode::Probe) => Request::ProgramDetail(id),
        (TrackRef::Standalone(id), Mode::Materialize) => Request::SongUrls(id),
        (TrackRef::Program(id), Mode::Materialize) => Request::ProgramDetail(id),
    }
}

/// Where a resolution starts.
pub fn start(target: TrackRef, mode: Mode) -> (r: (Stage, Request))
    ensures
        r.1 == start_spec(target, mode),
        stage_awaits(r.0, r.1),
        match (target, mode) {
            (TrackRef::Standalone(id), Mode::Probe) => r.0 is ProbeSong,
            (TrackRef::Program(id), Mode::Probe) => r.0 is ProbeProgram,
            (TrackRef::Standalone(id), Mode::Materialize) => r.0 == Stage::SongUrls(id),
            (TrackRef::Program(id), Mode::Materialize) => r.0 is ProgramDetail,
        },
{
    match (target, mode) {
        (TrackRef::Standalone(id), Mode::Probe) => (Stage::ProbeSong, Request::SongDetail(id)),
        (TrackRef::Program(id), Mode::Probe) => (Stage::ProbeProgram, Request::ProgramDetail(id)),
        (TrackRef::Standalone(id), Mode::Materialize) => (Stage::SongUrls(id), Request::SongUrls(id)),
        (TrackRef::Program(id), Mode::Materialize) => (Stage::ProgramDetail, Request::ProgramDetail(id)),
    }
}

/// The kind of request that a stage waits on.
pub open spec fn stage_awaits(stage: Stage, req: Request) -> bool {
    match stage {
        Stage::ProbeSong => req is SongDetail,
        Stage::ProbeProgram => req is ProgramDetail,
        Stage::SongUrls(id) => req == Request::SongUrls(id),
        Stage::SongDetail(_) => req is SongDetail,
        Stage::ProgramDetail => req is ProgramDetail,
        Stage::InnerUrls(_) => req is SongUrls,
    }
}

/// Whether a reply is of the kind that a stage waits for.
pub open spec fn reply_fits(stage: Stage, reply: Reply) -> bool {
    match stage {
        Stage::ProbeSong => reply is SongDetail,
        Stage::SongDetail(_) => reply is SongDetail,
        Stage::ProbeProgram => reply is ProgramDetail,
        Stage::ProgramDetail => reply is ProgramDetail,
        Stage::SongUrls(_) => reply is SongUrls,
        Stage::InnerUrls(_) => reply is SongUrls,
    }
}

/// Takes the reply to the pending request and decides what follows: the next
/// request, the probed metadata, the resolved playback, or the failure. A failed
/// lookup ends the resolution with its error, and a reply of another kind than the
/// one asked for counts as a `DecodeError`.
pub fn advance(stage: Stage, reply: Reply) -> (r: Outcome)
    ensures
        reply matches Reply::Failed(e) ==> r == Outcome::Failed(e),
        !(reply is Failed) && !reply_fits(stage, reply) ==> r == Outcome::Failed(ResolveError::DecodeError),
        match (stage, reply) {
            (Stage::ProbeSong, Reply::SongDetail(songs)) => if songs@.len() == 0 {
                r == Outcome::Failed(ResolveError::TrackNotFound)
            } else {
                r matches Outcome::Probed(m) && m@ == songs@[0].metadata_view()
            },
            (Stage::ProbeProgram, Reply::ProgramDetail(d)) => match wrapped_song(d) {
                Some(s) if s.id is Some => r matches Outcome::Probed(m) && m@ == s.metadata_view(),
                _ => r == Outcome::Failed(ResolveError::ProgramHasNoTrack),
            },
            (Stage::SongUrls(id), Reply::SongUrls(urls)) => if urls@.len() == 0 {
                r == Outcome::Failed(ResolveError::NoUrlAvailable)
            } else {
                r matches Outcome::Next(Stage::SongDetail(u), req) && u == urls@[0] && req
                    == Request::SongDetail(id)
            },
            (Stage::SongDetail(u), Reply::SongDetail(songs)) => if songs@.len() == 0 {
                r == Outcome::Failed(ResolveError::TrackNotFound)
            } else {
                r matches Outcome::Resolved(p) && p.stream_url == u && p.metadata@
                    == songs@[0].metadata_view()
            },
            (Stage::ProgramDetail, Reply::ProgramDetail(d)) => match wrapped_song(d) {
                Some(s) if s.id is Some => r matches Outcome::Next(Stage::InnerUrls(m), req) && m@
                    == s.metadata_view() && req == Request::SongUrls(s.id->0),
                _ => r == Outcome::Failed(ResolveError::ProgramHasNoTrack),
            },
            (Stage::InnerUrls(m), Reply::SongUrls(urls)) => if urls@.len() == 0 {
                r == Outcome::Failed(ResolveError::NoUrlAvailable)
            } else {
                r matches Outcome::Resolved(p) && p.stream_url == urls@[0] && p.metadata == m
            },
            _ => true,
        },
        r matches Outcome::Next(s, req) ==> stage_awaits(s, req),
{
    match reply {
        Reply::Failed(e) => Outcome::Failed(e),
        Reply::SongDetail(songs) => match stage {
            Stage::ProbeSong => match first_song_metadata(&songs) {
                Ok(m) => Outcome::Probed(m),
                Err(e) => Outcome::Failed(e),
            },
            Stage::SongDetail(url) => match first_song_metadata(&songs) {
                Ok(m) => Outcome::Resolved(ResolvedPlayback { stream_url: url, metadata: m }),
                Err(e) => Outcome::Failed(e),
            },
            _ => Outcome::Failed(ResolveError::DecodeError),
        },
        Reply::ProgramDetail(d) => match stage {
            Stage::ProbeProgram => match unwrap_program(&d) {
                Ok(p) => Outcome::Probed(p.1),
                Err(e) => Outcome::Failed(e),
            },
            Stage::ProgramDetail => match unwrap_program(&d) {
                Ok(p) => Outcome::Next(Stage::InnerUrls(p.1), Request::SongUrls(p.0)),
                Err(e) => Outcome::Failed(e),
            },
            _ => Outcome::Failed(ResolveError::DecodeError),
        },
        Reply::SongUrls(urls) => match stage {
            Stage::SongUrls(id) => match stream_urls(urls) {
                Ok(mut v) => {
                    let u = v.swap_remove(0);
                    Outcome::Next(Stage::SongDetail(u), Request::SongDetail(id))
                },
                Err(e) => Outcome::Failed(e),
            },
            Stage::InnerUrls(m) => match stream_urls(urls) {
                Ok(mut v) => {
                    let u = v.swap_remove(0);
                    Outcome::Resolved(ResolvedPlayback { stream_url: u, metadata: m })
                },
                Err(e) => Outcome::Failed(e),
            },
            _ => Outcome::Failed(ResolveError::DecodeError),
        },
    }
}

/// A program is never played by its own id: whatever the mode, its resolution
/// starts with the lookup of the track it wraps.
pub proof fn lemma_program_unwrapped_first(id: u64, mode: Mode)
    ensures
        start_spec(TrackRef::Program(id), mode) == Request::ProgramDetail(id),
{
}

/// A probe never asks for a stream URL: it starts with a detail lookup.
pub proof fn lemma_probe_asks_no_url(target: TrackRef)
    ensures
        !(start_spec(target, Mode::Probe) is SongUrls),
{
}

} // verus!
