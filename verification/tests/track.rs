use amdp::track::{decimal_string, parse_track_response, split_fields, AppleMusicError, RawTrack};

#[test]
fn report_of_a_playing_track() {
    let r = parse_track_response("Hysteria||Muse||Absolution||227.5||30.25||true");
    assert_eq!(
        r,
        Ok(RawTrack {
            name: "Hysteria".to_string(),
            artist: "Muse".to_string(),
            album: "Absolution".to_string(),
            duration: "227.5".to_string(),
            position: "30.25".to_string(),
            is_playing: true,
        })
    );
}

#[test]
fn report_of_a_paused_track() {
    let r = parse_track_response("A||X||M||100||5||false").unwrap();
    assert!(!r.is_playing);
    let odd = parse_track_response("A||X||M||100||5||TRUE").unwrap();
    assert!(!odd.is_playing);
}

#[test]
fn report_keeps_only_the_first_six_fields() {
    let r = parse_track_response("A||X||M||100||5||true||extra").unwrap();
    assert!(r.is_playing);
    assert_eq!(r.position, "5");
}

#[test]
fn stopped_player_is_not_running() {
    assert_eq!(parse_track_response("stopped||||||||||"), Err(AppleMusicError::AppNotRunning));
}

#[test]
fn short_report_is_a_parse_error() {
    assert_eq!(
        parse_track_response("stopped||||||"),
        Err(AppleMusicError::ParseError("Expected 6 fields, got 4: stopped||||||".to_string()))
    );
    assert_eq!(
        parse_track_response(""),
        Err(AppleMusicError::ParseError("Expected 6 fields, got 1: ".to_string()))
    );
    assert_eq!(
        parse_track_response("a||b"),
        Err(AppleMusicError::ParseError("Expected 6 fields, got 2: a||b".to_string()))
    );
}

#[test]
fn fields_are_split_from_the_left() {
    assert_eq!(split_fields("a||b"), vec!["a", "b"]);
    assert_eq!(split_fields("a|||b"), vec!["a", "|b"]);
    assert_eq!(split_fields("a||||b"), vec!["a", "", "b"]);
    assert_eq!(split_fields("a|b"), vec!["a|b"]);
    assert_eq!(split_fields("a||"), vec!["a", ""]);
    assert_eq!(split_fields("||"), vec!["", ""]);
    assert_eq!(split_fields(""), vec![""]);
    assert_eq!(split_fields("|"), vec!["|"]);
}

#[test]
fn decimal_digits() {
    assert_eq!(decimal_string(0), "0");
    assert_eq!(decimal_string(7), "7");
    assert_eq!(decimal_string(10), "10");
    assert_eq!(decimal_string(4096), "4096");
    assert_eq!(decimal_string(usize::MAX), usize::MAX.to_string());
}
