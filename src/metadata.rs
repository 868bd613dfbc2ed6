//! Display metadata of a track, built from the service's song records.

use vstd::prelude::*;
use vstd::string::StringExecFns;
use crate::error::ResolveError;

verus! {

/// The sample rate of decoded audio.
pub const SAMPLE_RATE: u32 = 48000;

/// The channel count of decoded audio.
pub const CHANNELS: u8 = 2;

/// What separates artist names on display.
pub const ARTIST_SEPARATOR: &'static str = ", ";

/// A song record of a metadata lookup.
pub struct SongDetailSong {
    pub name: Option<String>,
    /// The artists' names, in order; an artist may come without one.
    pub artists: Vec<Option<String>>,
    /// Length in milliseconds.
    pub duration: Option<u64>,
}

/// The track that a program wraps, as its detail describes it.
pub struct ProgramMainSong {
    pub name: Option<String>,
    pub id: Option<u64>,
    pub artists: Vec<Option<String>>,
    pub duration: Option<u64>,
}

/// The `program` record of a program detail.
pub struct ProgramDetail {
    pub main_song: Option<ProgramMainSong>,
}

/// Display metadata of a playable track.
pub struct TrackMetadata {
    pub title: Option<String>,
    /// The artists' names joined for display.
    pub artist: String,
    /// Length in milliseconds.
    pub duration_millis: Option<u64>,
    pub sample_rate: u32,
    pub channels: u8,
}

/// What a `TrackMetadata` says.
pub struct MetadataView {
    pub title: Option<Seq<char>>,
    pub artist: Seq<char>,
    pub duration_millis: Option<u64>,
    pub sample_rate: u32,
    pub channels: u8,
}

pub open spec fn opt_view(o: Option<String>) -> Option<Seq<char>> {
    match o {
        Some(s) => Some(s@),
        None => None,
    }
}

impl View for TrackMetadata {
    type V = MetadataView;

    open spec fn view(&self) -> MetadataView {
        MetadataView {
            title: opt_view(self.title),
            artist: self.artist@,
            duration_millis: self.duration_millis,
            sample_rate: self.sample_rate,
            channels: self.channels,
        }
    }
}

/// The names that are present, in order.
pub open spec fn present_names(artists: Seq<Option<String>>) -> Seq<Seq<char>>
    decreases artists.len(),
{
    if artists.len() == 0 {
        Seq::empty()
    } else {
        let rest = present_names(artists.drop_last());
        match artists.last() {
            Some(n) => rest.push(n@),
            None => rest,
        }
    }
}

/// The items joined with `sep` between neighbours.
pub open spec fn join(items: Seq<Seq<char>>, sep: Seq<char>) -> Seq<char>
    decreases items.len(),
{
    if items.len() == 0 {
        Seq::empty()
    } else if items.len() == 1 {
        items[0]
    } else {
        join(items.drop_last(), sep) + sep + items.last()
    }
}

/// The artist line on display: the present names joined with `, `.
pub open spec fn artist_line(artists: Seq<Option<String>>) -> Seq<char> {
    join(present_names(artists), ARTIST_SEPARATOR@)
}

/// Joins the names that are present with `, `, skipping artists without one.
pub fn artist_trans(artists: &Vec<Option<String>>) -> (r: String)
    ensures
        r@ == artist_line(artists@),
{
    let mut out = String::new();
    let mut count: usize = 0;
    let mut i: usize = 0;
    assert(artists@.take(0) =~= Seq::<Option<String>>::empty());
    while i < artists.len()
        invariant
            i <= artists@.len(),
            count == present_names(artists@.take(i as int)).len(),
            count <= i,
            out@ == join(present_names(artists@.take(i as int)), ARTIST_SEPARATOR@),
        decreases artists@.len() - i,
    {
        let ghost prev = present_names(artists@.take(i as int));
        assert(artists@.take(i + 1).drop_last() =~= artists@.take(i as int));
        match &artists[i] {
            Some(name) => {
                let ghost next = prev.push(name@);
                assert(next.drop_last() =~= prev);
                if count > 0 {
                    out.append(ARTIST_SEPARATOR);
                } else {
                    assert(next =~= seq![name@]);
                }
                out.append(name.as_str());
                assert(out@ =~= join(next, ARTIST_SEPARATOR@));
                count = count + 1;
            },
            None => {},
        }
        i = i + 1;
    }
    assert(artists@.take(artists@.len() as int) =~= artists@);
    out
}

pub open spec fn record_metadata(
    name: Option<String>,
    artists: Seq<Option<String>>,
    duration: Option<u64>,
) -> MetadataView {
    MetadataView {
        title: opt_view(name),
        artist: artist_line(artists),
        duration_millis: duration,
        sample_rate: SAMPLE_RATE,
        channels: CHANNELS,
    }
}

fn clone_name(name: &Option<String>) -> (r: Option<String>)
    ensures
        opt_view(r) == opt_view(*name),
{
    match name {
        Some(n) => Some(n.clone()),
        None => None,
    }
}

impl SongDetailSong {
    pub open spec fn metadata_view(&self) -> MetadataView {
        record_metadata(self.name, self.artists@, self.duration)
    }
}

impl ProgramMainSong {
    pub open spec fn metadata_view(&self) -> MetadataView {
        record_metadata(self.name, self.artists@, self.duration)
    }
}

/// The metadata of a song record.
pub fn song_metadata(song: &SongDetailSong) -> (r: TrackMetadata)
    ensures
        r@ == song.metadata_view(),
{
    TrackMetadata {
        title: clone_name(&song.name),
        artist: artist_trans(&song.artists),
        duration_millis: song.duration,
        sample_rate: SAMPLE_RATE,
        channels: CHANNELS,
    }
}

/// The metadata of the track that a program wraps.
pub fn main_song_metadata(song: &ProgramMainSong) -> (r: TrackMetadata)
    ensures
        r@ == song.metadata_view(),
{
    TrackMetadata {
        title: clone_name(&song.name),
        artist: artist_trans(&song.artists),
        duration_millis: song.duration,
        sample_rate: SAMPLE_RATE,
        channels: CHANNELS,
    }
}

/// The metadata of the first song of a metadata lookup; `TrackNotFound` when it
/// returned none.
pub fn first_song_metadata(songs: &Vec<SongDetailSong>) -> (r: Result<TrackMetadata, ResolveError>)
    ensures
        r is Err <==> songs@.len() == 0,
        r matches Err(e) ==> e == ResolveError::TrackNotFound,
        r matches Ok(m) ==> m@ == songs@[0].metadata_view(),
{
    if songs.len() == 0 {
        Err(ResolveError::TrackNotFound)
    } else {
        Ok(song_metadata(&songs[0]))
    }
}

/// The URLs of a stream-URL lookup; `NoUrlAvailable` when it returned none.
pub fn stream_urls(urls: Vec<String>) -> (r: Result<Vec<String>, ResolveError>)
    ensures
        r is Err <==> urls@.len() == 0,
        r matches Err(e) ==> e == ResolveError::NoUrlAvailable,
        r matches Ok(v) ==> v@ == urls@,
{
    if urls.len() == 0 {
        Err(ResolveError::NoUrlAvailable)
    } else {
        Ok(urls)
    }
}

/// The track that a program detail wraps.
pub open spec fn wrapped_song(detail: Option<ProgramDetail>) -> Option<ProgramMainSong> {
    match detail {
        Some(p) => p.main_song,
        None => None,
    }
}

/// The id and metadata of the track that a program wraps; `ProgramHasNoTrack` when
/// the detail holds no track or no id for it.
pub fn unwrap_program(detail: &Option<ProgramDetail>) -> (r: Result<(u64, TrackMetadata), ResolveError>)
    ensures
        r is Ok <==> (wrapped_song(*detail) matches Some(s) && s.id is Some),
        r matches Err(e) ==> e == ResolveError::ProgramHasNoTrack,
        r matches Ok(p) ==> wrapped_song(*detail) matches Some(s) && s.id == Some(p.0)
            && p.1@ == s.metadata_view(),
{
    match detail {
        Some(p) => match &p.main_song {
            Some(s) => match s.id {
                Some(id) => Ok((id, main_song_metadata(s))),
                None => Err(ResolveError::ProgramHasNoTrack),
            },
            None => Err(ResolveError::ProgramHasNoTrack),
        },
        None => Err(ResolveError::ProgramHasNoTrack),
    }
}

} // verus!
