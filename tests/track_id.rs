use netease_player::error::ResolveError;
use netease_player::source::ResumableSource;
use netease_player::text::{remove_fragment_marker, str_contains};
use netease_player::track_id::{
    get_music_id, is_http_url, is_program_url, music_id_from_query, parse_u64, source_type, track_ref, SourceType,
    TrackRef,
};

#[test]
fn test_get_music_id() {
    let url = "https://music.163.com/#/song?id=26209670";
    let id = get_music_id(url).unwrap();

    assert_eq!(id, 26209670);
}

#[test]
fn music_id_without_fragment_marker() {
    assert_eq!(get_music_id("https://music.163.com/song?id=26209670"), Ok(26209670));
}

#[test]
fn music_id_among_other_parameters() {
    assert_eq!(get_music_id("https://music.163.com/#/song?userid=7&id=42&x=1"), Ok(42));
    assert_eq!(get_music_id("https://music.163.com/#/song?a=1&id=5"), Ok(5));
}

#[test]
fn music_id_missing_or_malformed() {
    assert_eq!(get_music_id("https://music.163.com/#/song"), Err(ResolveError::InvalidUrl));
    assert_eq!(get_music_id("https://music.163.com/#/song?name=x"), Err(ResolveError::InvalidUrl));
    assert_eq!(get_music_id("https://music.163.com/#/song?id=abc"), Err(ResolveError::InvalidUrl));
    assert_eq!(get_music_id("https://music.163.com/#/song?id=-3"), Err(ResolveError::InvalidUrl));
    assert_eq!(get_music_id("not a url"), Err(ResolveError::InvalidUrl));
}

#[test]
fn music_id_first_id_parameter_wins() {
    assert_eq!(music_id_from_query("id=1&id=2"), Ok(1));
    assert_eq!(music_id_from_query("id=x&id=2"), Err(ResolveError::InvalidUrl));
    assert_eq!(music_id_from_query("&&id=9&"), Ok(9));
    assert_eq!(music_id_from_query("id="), Err(ResolveError::InvalidUrl));
    assert_eq!(music_id_from_query(""), Err(ResolveError::InvalidUrl));
}

#[test]
fn parse_u64_edges() {
    assert_eq!(parse_u64("0"), Some(0));
    assert_eq!(parse_u64("+17"), Some(17));
    assert_eq!(parse_u64("18446744073709551615"), Some(u64::MAX));
    assert_eq!(parse_u64("18446744073709551616"), None);
    assert_eq!(parse_u64("99999999999999999999x"), None);
    assert_eq!(parse_u64(""), None);
    assert_eq!(parse_u64("+"), None);
    assert_eq!(parse_u64("-1"), None);
    assert_eq!(parse_u64("1 "), None);
}

#[test]
fn fragment_marker_removed_everywhere() {
    assert_eq!(remove_fragment_marker("https://a.b/#/song?id=1"), "https://a.b/song?id=1");
    assert_eq!(remove_fragment_marker("/#/#x"), "x");
    assert_eq!(remove_fragment_marker("//##"), "/#");
    assert_eq!(remove_fragment_marker(""), "");
}

#[test]
fn substring_search() {
    assert!(str_contains("abcprogramx", "program"));
    assert!(!str_contains("progra", "program"));
    assert!(str_contains("", ""));
    assert!(!str_contains("", "a"));
}

#[test]
fn classify_program_and_song_urls() {
    assert!(is_program_url("https://music.163.com/#/program?id=2493262449"));
    assert!(!is_program_url("https://music.163.com/#/song?id=26209670"));
    assert_eq!(
        track_ref("https://music.163.com/#/program?id=2493262449"),
        Ok(TrackRef::Program(2493262449))
    );
    assert_eq!(
        track_ref("https://music.163.com/#/song?id=26209670"),
        Ok(TrackRef::Standalone(26209670))
    );
    assert_eq!(track_ref("https://music.163.com/#/program"), Err(ResolveError::InvalidUrl));
}

#[test]
fn resumable_source_from_url() {
    let s = ResumableSource::new("https://music.163.com/#/program?id=12").unwrap();
    assert_eq!(s.target, TrackRef::Program(12));
    assert!(s.probed.is_none());
    assert!(s.decoder.is_none());
    assert!(ResumableSource::new("https://music.163.com/#/song").is_err());
}

#[test]
fn service_urls_resolved_here() {
    assert_eq!(source_type("https://music.163.com/#/song?id=1"), SourceType::Netease);
    assert_eq!(source_type("https://www.youtube.com/watch?v=x"), SourceType::Ytdl);
    assert!(is_http_url("https://a"));
    assert!(is_http_url("http"));
    assert!(!is_http_url("htt"));
    assert!(!is_http_url("ftp://a"));
}
