use netease_player::display::duration_formatter;
use netease_player::error::ResolveError;
use netease_player::metadata::{
    artist_trans, first_song_metadata, stream_urls, unwrap_program, ProgramDetail, ProgramMainSong, SongDetailSong,
};
use netease_player::resolution::{advance, start, Mode, Outcome, Reply, Request, Stage};
use netease_player::source::{decoder_args, ResumableSource};
use netease_player::track_id::TrackRef;

fn song(name: &str, artists: &[Option<&str>], duration: Option<u64>) -> SongDetailSong {
    SongDetailSong {
        name: Some(name.to_string()),
        artists: artists.iter().map(|a| a.map(|s| s.to_string())).collect(),
        duration,
    }
}

fn program(id: Option<u64>, name: &str) -> Option<ProgramDetail> {
    Some(ProgramDetail {
        main_song: Some(ProgramMainSong { name: Some(name.to_string()), id, artists: vec![Some("A".to_string())], duration: Some(1000) }),
    })
}

#[test]
fn artists_joined_skipping_missing_names() {
    let a = vec![Some("A".to_string()), None, Some("B".to_string()), Some("C".to_string())];
    assert_eq!(artist_trans(&a), "A, B, C");
    assert_eq!(artist_trans(&vec![None]), "");
    assert_eq!(artist_trans(&vec![]), "");
}

#[test]
fn durations_formatted_as_clock() {
    assert_eq!(duration_formatter(0), "00:00:00");
    assert_eq!(duration_formatter(3723), "01:02:03");
    assert_eq!(duration_formatter(59), "00:00:59");
    assert_eq!(duration_formatter(360000), "100:00:00");
}

#[test]
fn empty_payloads_are_not_found_errors() {
    assert_eq!(stream_urls(vec![]).unwrap_err(), ResolveError::NoUrlAvailable);
    assert_eq!(first_song_metadata(&vec![]).err(), Some(ResolveError::TrackNotFound));
    assert_eq!(unwrap_program(&None).err(), Some(ResolveError::ProgramHasNoTrack));
    assert_eq!(unwrap_program(&Some(ProgramDetail { main_song: None })).err(), Some(ResolveError::ProgramHasNoTrack));
    assert_eq!(unwrap_program(&program(None, "x")).err(), Some(ResolveError::ProgramHasNoTrack));
}

#[test]
fn song_metadata_fields() {
    let m = first_song_metadata(&vec![song("T", &[Some("A"), Some("B")], Some(215000)), song("U", &[], None)]).unwrap();
    assert_eq!(m.title.as_deref(), Some("T"));
    assert_eq!(m.artist, "A, B");
    assert_eq!(m.duration_millis, Some(215000));
    assert_eq!(m.sample_rate, 48000);
    assert_eq!(m.channels, 2);
}

#[test]
fn standalone_materialization_fixture() {
    let (stage, req) = start(TrackRef::Standalone(26209670), Mode::Materialize);
    assert_eq!(req, Request::SongUrls(26209670));
    let url = "http://m7.music.126.net/20240101/ab/fa0240b65deaf3360c8812c629fe1820.mp3".to_string();
    let out = advance(stage, Reply::SongUrls(vec![url.clone()]));
    let (stage, req) = match out {
        Outcome::Next(s, r) => (s, r),
        _ => panic!("expected a detail request"),
    };
    assert_eq!(req, Request::SongDetail(26209670));
    match advance(stage, Reply::SongDetail(vec![song("T", &[Some("A")], Some(1))])) {
        Outcome::Resolved(p) => {
            assert_eq!(p.stream_url.split('/').last().unwrap(), "fa0240b65deaf3360c8812c629fe1820.mp3");
            assert_eq!(p.metadata.title.as_deref(), Some("T"));
        }
        _ => panic!("expected a resolved playback"),
    }
}

#[test]
fn probe_of_song_yields_non_empty_title() {
    let (stage, req) = start(TrackRef::Standalone(26209670), Mode::Probe);
    assert_eq!(req, Request::SongDetail(26209670));
    match advance(stage, Reply::SongDetail(vec![song("Lemon", &[Some("A")], Some(1))])) {
        Outcome::Probed(m) => assert!(!m.title.unwrap().is_empty()),
        _ => panic!("expected probed metadata"),
    }
}

#[test]
fn program_materialization_fixture() {
    let (stage, req) = start(TrackRef::Program(2493262449), Mode::Materialize);
    assert_eq!(req, Request::ProgramDetail(2493262449));
    let (stage, req) = match advance(stage, Reply::ProgramDetail(program(Some(555), "原来你什么都不想要"))) {
        Outcome::Next(s, r) => (s, r),
        _ => panic!("expected a URL request"),
    };
    assert_eq!(req, Request::SongUrls(555));
    let url = "http://m8.music.126.net/x/19716f882ebc8a95bc2abdfe346268c7.mp3".to_string();
    match advance(stage, Reply::SongUrls(vec![url])) {
        Outcome::Resolved(p) => {
            assert_eq!(p.stream_url.split('/').last().unwrap(), "19716f882ebc8a95bc2abdfe346268c7.mp3");
            assert_eq!(p.metadata.title.unwrap(), "原来你什么都不想要");
        }
        _ => panic!("expected a resolved playback"),
    }
}

#[test]
fn probe_of_program_asks_no_url() {
    let (stage, req) = start(TrackRef::Program(9), Mode::Probe);
    assert_eq!(req, Request::ProgramDetail(9));
    match advance(stage, Reply::ProgramDetail(program(Some(1), "P"))) {
        Outcome::Probed(m) => assert_eq!(m.title.as_deref(), Some("P")),
        _ => panic!("expected probed metadata"),
    }
}

#[test]
fn failures_and_mismatched_replies() {
    let (stage, _) = start(TrackRef::Standalone(1), Mode::Materialize);
    assert!(matches!(advance(stage, Reply::SongUrls(vec![])), Outcome::Failed(ResolveError::NoUrlAvailable)));
    let (stage, _) = start(TrackRef::Standalone(1), Mode::Materialize);
    assert!(matches!(advance(stage, Reply::Failed(ResolveError::NetworkError)), Outcome::Failed(ResolveError::NetworkError)));
    assert!(matches!(advance(Stage::ProbeSong, Reply::SongUrls(vec![])), Outcome::Failed(ResolveError::DecodeError)));
    assert!(matches!(advance(Stage::ProbeSong, Reply::SongDetail(vec![])), Outcome::Failed(ResolveError::TrackNotFound)));
    assert!(matches!(advance(Stage::ProgramDetail, Reply::ProgramDetail(None)), Outcome::Failed(ResolveError::ProgramHasNoTrack)));
}

#[test]
fn materialize_twice_replaces_decoder() {
    let mut s = ResumableSource::new("https://music.163.com/#/song?id=5").unwrap();
    let first = s.materialize();
    assert_eq!(first.terminate, None);
    assert_eq!(first.request, Request::SongUrls(5));
    s.attach_decoder(11);
    let second = s.materialize();
    assert_eq!(second.terminate, Some(11));
    assert_eq!(second.request, Request::SongUrls(5));
    assert_eq!(s.decoder, None);
    s.attach_decoder(12);
    assert_eq!(s.decoder, Some(12));
}

#[test]
fn decoder_arguments() {
    let args = decoder_args("http://x/y.mp3", 83250);
    let expected = ["-ss", "83.250", "-i", "http://x/y.mp3", "-acodec", "pcm_f32le", "-ac", "2", "-ar", "48000", "-f", "s16le", "-"];
    assert_eq!(args, expected.iter().map(|s| s.to_string()).collect::<Vec<_>>());
    assert_eq!(decoder_args("u", 0)[1], "0.000");
    assert_eq!(decoder_args("u", 5)[1], "0.005");
}

#[test]
fn probe_and_restart_stages() {
    let mut song = ResumableSource::new("https://music.163.com/#/song?id=8").unwrap();
    assert!(matches!(song.probe(), (Stage::ProbeSong, Request::SongDetail(8))));
    let m = song.materialize();
    assert!(matches!(m.stage, Stage::SongUrls(8)));
    let mut prog = ResumableSource::new("https://music.163.com/#/program?id=9").unwrap();
    assert!(matches!(prog.probe(), (Stage::ProbeProgram, Request::ProgramDetail(9))));
    let m = prog.materialize();
    assert!(matches!(m.stage, Stage::ProgramDetail));
    assert_eq!(m.request, Request::ProgramDetail(9));
}
