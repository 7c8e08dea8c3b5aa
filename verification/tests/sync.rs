use amdp::activity::{ActivityOptions, Framing};
use amdp::config::{AppConfig, DisplayFormat, IdleBehavior};
use amdp::connection::DiscordCommand;
use amdp::sync::{
    build_activity_options, command_for, decide, now_playing_label, tracks_meaningfully_different,
    wake_detected, Decision, SyncLoop,
};
use amdp::track::TrackInfo;

fn observed_track(is_playing: bool, position_secs: u64) -> TrackInfo {
    TrackInfo {
        name: "A".to_string(),
        artist: "X".to_string(),
        album: "M".to_string(),
        duration_secs: 300,
        position_secs,
        is_playing,
    }
}

fn show_paused() -> AppConfig {
    AppConfig { idle_behavior: IdleBehavior::ShowPaused, ..AppConfig::default() }
}

#[test]
fn moved_position_is_no_change() {
    let a = Some(observed_track(true, 10));
    let b = Some(observed_track(true, 40));
    assert!(!tracks_meaningfully_different(&a, &b));
    let mut longer = observed_track(true, 10);
    longer.duration_secs = 301;
    assert!(!tracks_meaningfully_different(&a, &Some(longer)));
}

#[test]
fn each_identity_field_counts() {
    let a = Some(observed_track(true, 10));
    let mut name = observed_track(true, 10);
    name.name = "B".to_string();
    let mut artist = observed_track(true, 10);
    artist.artist = "Y".to_string();
    let mut album = observed_track(true, 10);
    album.album = "N".to_string();
    assert!(tracks_meaningfully_different(&a, &Some(name)));
    assert!(tracks_meaningfully_different(&a, &Some(artist)));
    assert!(tracks_meaningfully_different(&a, &Some(album)));
    assert!(tracks_meaningfully_different(&a, &Some(observed_track(false, 10))));
}

#[test]
fn appearing_and_vanishing_are_changes() {
    let a = Some(observed_track(true, 10));
    assert!(tracks_meaningfully_different(&None, &a));
    assert!(tracks_meaningfully_different(&a, &None));
    assert!(!tracks_meaningfully_different(&None, &None));
}

#[test]
fn options_are_copied_from_the_configuration() {
    let cfg = AppConfig {
        show_timestamps: false,
        show_album_art: true,
        display_format: DisplayFormat::ArtistSong,
        ..AppConfig::default()
    };
    assert_eq!(
        build_activity_options(&cfg),
        ActivityOptions {
            show_timestamps: false,
            show_album_art: true,
            display_format: DisplayFormat::ArtistSong,
        }
    );
}

#[test]
fn wake_is_detected_beyond_the_tolerance() {
    assert!(!wake_detected(5000, 5));
    assert!(!wake_detected(15_000, 5));
    assert!(wake_detected(15_001, 5));
    assert!(wake_detected(3_600_000, 2));
    assert!(!wake_detected(u64::MAX, u64::MAX));
    assert!(wake_detected(u64::MAX, 15));
}

#[test]
fn label_names_song_and_artist() {
    assert_eq!(now_playing_label(&Some(observed_track(true, 0))), "A \u{2014} X");
    assert_eq!(now_playing_label(&None), "Not Playing");
}

#[test]
fn long_label_is_shortened() {
    let mut t = observed_track(true, 0);
    t.name = "n".repeat(60);
    let label = now_playing_label(&Some(t));
    assert_eq!(label, format!("{}\u{2026}", "n".repeat(49)));
}

#[test]
fn playing_track_is_shown() {
    let cfg = AppConfig::default();
    let d = decide(&None, &Some(observed_track(true, 0)), &cfg);
    assert_eq!(d, Decision::Show { framing: Framing::Playing, resolve_artwork: true });
    let art = Some("https://x".to_string());
    assert_eq!(
        command_for(d, &Some(observed_track(true, 0)), &art, &cfg),
        Some(DiscordCommand::UpdateTrack(observed_track(true, 0), art, build_activity_options(&cfg)))
    );
}

#[test]
fn artwork_is_not_resolved_when_not_wanted() {
    let cfg = AppConfig { show_album_art: false, ..AppConfig::default() };
    let d = decide(&None, &Some(observed_track(true, 0)), &cfg);
    assert_eq!(d, Decision::Show { framing: Framing::Playing, resolve_artwork: false });
    assert_eq!(
        command_for(d, &Some(observed_track(true, 0)), &Some("https://x".to_string()), &cfg),
        Some(DiscordCommand::UpdateTrack(observed_track(true, 0), None, build_activity_options(&cfg)))
    );
}

#[test]
fn paused_track_follows_the_idle_behaviour() {
    let before = Some(observed_track(true, 0));
    let paused = Some(observed_track(false, 5));
    assert_eq!(decide(&before, &paused, &AppConfig::default()), Decision::Clear);
    let cfg = show_paused();
    let d = decide(&before, &paused, &cfg);
    assert_eq!(d, Decision::Show { framing: Framing::Paused, resolve_artwork: true });
    assert_eq!(
        command_for(d, &paused, &None, &cfg),
        Some(DiscordCommand::SetPaused(observed_track(false, 5), None, build_activity_options(&cfg)))
    );
}

#[test]
fn disabled_presence_is_cleared() {
    let cfg = AppConfig { enable_on_launch: false, ..AppConfig::default() };
    let d = decide(&None, &Some(observed_track(true, 0)), &cfg);
    assert_eq!(d, Decision::Clear);
    assert_eq!(
        command_for(d, &Some(observed_track(true, 0)), &None, &cfg),
        Some(DiscordCommand::ClearPresence)
    );
}

#[test]
fn vanished_track_is_cleared() {
    let cfg = AppConfig::default();
    let d = decide(&Some(observed_track(true, 0)), &None, &cfg);
    assert_eq!(d, Decision::Clear);
    assert_eq!(command_for(d, &None, &None, &cfg), Some(DiscordCommand::ClearPresence));
}

#[test]
fn unchanged_observation_sends_nothing() {
    let cfg = AppConfig::default();
    let d = decide(&Some(observed_track(true, 0)), &Some(observed_track(true, 9)), &cfg);
    assert_eq!(d, Decision::Unchanged);
    assert_eq!(command_for(d, &Some(observed_track(true, 9)), &None, &cfg), None);
    assert_eq!(decide(&None, &None, &cfg), Decision::Unchanged);
}

#[test]
fn play_pause_stop_sends_three_commands() {
    let cfg = show_paused();
    let polls = vec![
        None,
        Some(observed_track(true, 0)),
        Some(observed_track(true, 5)),
        Some(observed_track(false, 5)),
        None,
    ];
    let mut sync = SyncLoop::new();
    let mut sent = Vec::new();
    for observed in &polls {
        let decision = sync.observe(observed, &cfg, false);
        if let Some(command) = command_for(decision, observed, &None, &cfg) {
            sent.push(command);
        }
    }
    let opts = build_activity_options(&cfg);
    assert_eq!(
        sent,
        vec![
            DiscordCommand::UpdateTrack(observed_track(true, 0), None, opts),
            DiscordCommand::SetPaused(observed_track(false, 5), None, opts),
            DiscordCommand::ClearPresence,
        ]
    );
}

#[test]
fn wake_forces_a_full_change() {
    let cfg = AppConfig::default();
    let mut sync = SyncLoop::new();
    let playing = Some(observed_track(true, 0));
    assert_ne!(sync.observe(&playing, &cfg, false), Decision::Unchanged);
    assert_eq!(sync.observe(&playing, &cfg, false), Decision::Unchanged);
    assert_eq!(
        sync.observe(&playing, &cfg, true),
        Decision::Show { framing: Framing::Playing, resolve_artwork: true }
    );
    assert_eq!(sync.observe(&None, &cfg, false), Decision::Clear);
    assert_eq!(sync.observe(&None, &cfg, true), Decision::Unchanged);
}
