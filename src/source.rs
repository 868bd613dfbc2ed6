//! A resumable audio source: a cheap metadata probe, and materialization from a
//! seek offset that may be repeated to seek, each time from scratch.

use vstd::prelude::*;
use vstd::string::StringExecFns;
use crate::error::ResolveError;
use crate::metadata::TrackMetadata;
use crate::resolution::{Mode, Request, Stage, start, start_spec};
use crate::text::{decimal, digit_char, push_char, push_decimal};
use crate::track_id::{TrackRef, track_ref, url_track_ref};

verus! {

/// The program that decodes a stream.
pub const DECODER_PROGRAM: &'static str = "ffmpeg";

pub const ARG_SEEK: &'static str = "-ss";

pub const ARG_INPUT: &'static str = "-i";

pub const ARG_CODEC: &'static str = "-acodec";

pub const CODEC: &'static str = "pcm_f32le";

pub const ARG_CHANNELS: &'static str = "-ac";

pub const CHANNELS_TEXT: &'static str = "2";

pub const ARG_RATE: &'static str = "-ar";

pub const RATE_TEXT: &'static str = "48000";

pub const ARG_FORMAT: &'static str = "-f";

pub const FORMAT: &'static str = "s16le";

pub const STDOUT_TARGET: &'static str = "-";

/// A seek offset in seconds with three decimals, from milliseconds.
pub open spec fn offset_text(millis: nat) -> Seq<char> {
    let f = millis % 1000;
    decimal(millis / 1000) + seq!['.', digit_char(f / 100), digit_char((f / 10) % 10), digit_char(f % 10)]
}

/// The decoder's arguments: seek to the offset, read the stream, and write raw
/// two-channel 48 kHz samples to standard output.
pub open spec fn decoder_args_spec(url: Seq<char>, offset_millis: nat) -> Seq<Seq<char>> {
    seq![
        ARG_SEEK@,
        offset_text(offset_millis),
        ARG_INPUT@,
        url,
        ARG_CODEC@,
        CODEC@,
        ARG_CHANNELS@,
        CHANNELS_TEXT@,
        ARG_RATE@,
        RATE_TEXT@,
        ARG_FORMAT@,
        FORMAT@,
        STDOUT_TARGET@,
    ]
}

fn push_digit(s: &mut String, d: u64)
    requires
        d < 10,
    ensures
        final(s)@ == old(s)@.push(digit_char(d as nat)),
{
    push_char(s, ((48 + d) as u8) as char);
}

fn offset_string(millis: u64) -> (r: String)
    ensures
        r@ == offset_text(millis as nat),
{
    let mut s = String::new();
    push_decimal(&mut s, millis / 1000);
    push_char(&mut s, '.');
    let f = millis % 1000;
    push_digit(&mut s, f / 100);
    push_digit(&mut s, (f / 10) % 10);
    push_digit(&mut s, f % 10);
    assert(s@ =~= offset_text(millis as nat));
    s
}

/// The arguments of the decoder for a stream URL and a seek offset in milliseconds.
pub fn decoder_args(url: &str, offset_millis: u64) -> (r: Vec<String>)
    ensures
        r@.map_values(|a: String| a@) == decoder_args_spec(url@, offset_millis as nat),
{
    let mut v: Vec<String> = Vec::new();
    v.push(String::from_str(ARG_SEEK));
    v.push(offset_string(offset_millis));
    v.push(String::from_str(ARG_INPUT));
    v.push(String::from_str(url));
    v.push(String::from_str(ARG_CODEC));
    v.push(String::from_str(CODEC));
    v.push(String::from_str(ARG_CHANNELS));
    v.push(String::from_str(CHANNELS_TEXT));
    v.push(String::from_str(ARG_RATE));
    v.push(String::from_str(RATE_TEXT));
    v.push(String::from_str(ARG_FORMAT));
    v.push(String::from_str(FORMAT));
    v.push(String::from_str(STDOUT_TARGET));
    assert(v@.map_values(|a: String| a@) =~= decoder_args_spec(url@, offset_millis as nat));
    v
}

/// A playable track behind a playback slot. It holds the track reference, the
/// metadata of a probe once one is recorded, and the handle of the decoder process
/// that feeds the slot, if one runs.
pub struct ResumableSource {
    pub target: TrackRef,
    pub probed: Option<TrackMetadata>,
    pub decoder: Option<u64>,
}

/// The start of one materialization: the decoder to terminate before anything
/// else, and the first stage and request of a fresh resolution.
pub struct Materialization {
    pub terminate: Option<u64>,
    pub stage: Stage,
    pub request: Request,
}

/// What a materialization leaves behind: no decoder attached, the same track.
pub open spec fn after_materialize(s: ResumableSource) -> (ResumableSource, Option<u64>) {
    (ResumableSource { decoder: None, ..s }, s.decoder)
}

impl ResumableSource {
    /// An unprobed source for a share URL, with no decoder.
    pub fn new(url: &str) -> (r: Result<ResumableSource, ResolveError>)
        ensures
            r is Ok <==> url_track_ref(url@) is Some,
            r matches Ok(s) ==> url_track_ref(url@) == Some(s.target) && s.probed is None
                && s.decoder is None,
            r matches Err(e) ==> e == ResolveError::InvalidUrl,
    {
        let target = track_ref(url)?;
        Ok(ResumableSource { target, probed: None, decoder: None })
    }

    /// The first stage and request of a metadata probe. It asks for no stream URL.
    pub fn probe(&self) -> (r: (Stage, Request))
        ensures
            r.1 == start_spec(self.target, Mode::Probe),
            !(r.1 is SongUrls),
            self.target is Standalone ==> r.0 is ProbeSong,
            self.target is Program ==> r.0 is ProbeProgram,
    {
        start(self.target, Mode::Probe)
    }

    /// Keeps the metadata that a probe found.
    pub fn record_probe(&mut self, metadata: TrackMetadata)
        ensures
            final(self).target == old(self).target,
            final(self).decoder == old(self).decoder,
            final(self).probed == Some(metadata),
    {
        self.probed = Some(metadata);
    }

    /// Starts playback from scratch, or restarts it to seek: the running decoder, if
    /// any, is handed back to be terminated and the slot is left without one, and a
    /// fresh resolution starts that nothing of an earlier one influences.
    pub fn materialize(&mut self) -> (r: Materialization)
        ensures
            (*final(self), r.terminate) == after_materialize(*old(self)),
            r.request == start_spec(old(self).target, Mode::Materialize),
            match old(self).target {
                TrackRef::Standalone(id) => r.stage == Stage::SongUrls(id),
                TrackRef::Program(_) => r.stage is ProgramDetail,
            },
    {
        let terminate = self.decoder;
        self.decoder = None;
        let (stage, request) = start(self.target, Mode::Materialize);
        Materialization { terminate, stage, request }
    }

    /// Attaches the decoder that a materialization started.
    pub fn attach_decoder(&mut self, handle: u64)
        requires
            old(self).decoder is None,
        ensures
            *final(self) == (ResumableSource { decoder: Some(handle), ..*old(self) }),
    {
        self.decoder = Some(handle);
    }
}

/// Two materializations in a row: the decoder attached after the first is handed
/// back for termination by the second before anything else starts, and each starts
/// the same fresh resolution of the track.
pub proof fn lemma_restart_replaces_decoder(s: ResumableSource, first: u64)
    ensures
        ({
            let (s1, t1) = after_materialize(s);
            let s2 = ResumableSource { decoder: Some(first), ..s1 };
            let (s3, t2) = after_materialize(s2);
            &&& t1 == s.decoder
            &&& t2 == Some(first)
            &&& s3.decoder is None
            &&& s3.target == s.target
        }),
{
}

} // verus!
