use amdp::config::{
    plan_config_change, ConfigChange, clamp_poll_interval, default_poll_interval, default_true, AppConfig, DisplayFormat,
    IdleBehavior, MAX_POLL_INTERVAL_SECS, MIN_POLL_INTERVAL_SECS,
};
use amdp::track::{clone_text, clone_track, AppleMusicError, TrackInfo};

#[test]
fn defaults() {
    assert!(default_true());
    assert_eq!(default_poll_interval(), 5);
    assert_eq!(DisplayFormat::default(), DisplayFormat::SongArtist);
    assert_eq!(IdleBehavior::default(), IdleBehavior::ClearStatus);
    let cfg = AppConfig::default();
    assert!(cfg.enable_on_launch);
    assert!(cfg.show_album_art);
    assert!(cfg.show_timestamps);
    assert_eq!(cfg.display_format, DisplayFormat::SongArtist);
    assert_eq!(cfg.idle_behavior, IdleBehavior::ClearStatus);
    assert_eq!(cfg.poll_interval_secs, 5);
    assert!(!cfg.launch_at_login);
}

#[test]
fn poll_interval_is_clamped() {
    assert_eq!(MIN_POLL_INTERVAL_SECS, 2);
    assert_eq!(MAX_POLL_INTERVAL_SECS, 15);
    assert_eq!(clamp_poll_interval(0), 2);
    assert_eq!(clamp_poll_interval(1), 2);
    assert_eq!(clamp_poll_interval(2), 2);
    assert_eq!(clamp_poll_interval(5), 5);
    assert_eq!(clamp_poll_interval(15), 15);
    assert_eq!(clamp_poll_interval(16), 15);
    assert_eq!(clamp_poll_interval(u64::MAX), 15);
}

#[test]
fn normalized_config_changes_only_the_interval() {
    let mut cfg = AppConfig::default();
    cfg.poll_interval_secs = 60;
    cfg.launch_at_login = true;
    cfg.idle_behavior = IdleBehavior::ShowPaused;
    let stored = cfg.normalized();
    assert_eq!(stored, AppConfig { poll_interval_secs: 15, ..cfg });
    assert_eq!(AppConfig::default().normalized(), AppConfig::default());
}

#[test]
fn error_messages() {
    assert_eq!(AppleMusicError::AppNotRunning.message(), "Music.app is not running");
    assert_eq!(
        AppleMusicError::ScriptExecutionFailed("exit 1".to_string()).message(),
        "AppleScript failed: exit 1"
    );
    assert_eq!(
        AppleMusicError::ParseError("Invalid duration".to_string()).message(),
        "Parse error: Invalid duration"
    );
}

#[test]
fn copies_are_equal() {
    let t = TrackInfo {
        name: "A".to_string(),
        artist: "X".to_string(),
        album: "M".to_string(),
        duration_secs: 100,
        position_secs: 10,
        is_playing: true,
    };
    assert_eq!(t.clone(), t);
    assert_eq!(clone_track(&Some(t.clone())), Some(t));
    assert_eq!(clone_track(&None), None);
    assert_eq!(clone_text(&Some("u".to_string())), Some("u".to_string()));
    assert_eq!(clone_text(&None), None);
}

#[test]
fn config_change_clamps_and_reports_what_changed() {
    let current = AppConfig::default();
    let requested = AppConfig {
        poll_interval_secs: 1,
        launch_at_login: true,
        enable_on_launch: false,
        ..current
    };
    assert_eq!(
        plan_config_change(&current, requested),
        ConfigChange {
            stored: AppConfig { poll_interval_secs: 2, ..requested },
            autostart: Some(true),
            presence_toggle: Some(false),
            clear_presence: true,
        }
    );
}

#[test]
fn config_change_without_differences_touches_nothing() {
    let current = AppConfig::default();
    assert_eq!(
        plan_config_change(&current, current),
        ConfigChange {
            stored: current,
            autostart: None,
            presence_toggle: None,
            clear_presence: false,
        }
    );
    let off = AppConfig { launch_at_login: true, enable_on_launch: false, ..current };
    let back_on = AppConfig { launch_at_login: false, ..off };
    let change = plan_config_change(&off, back_on);
    assert_eq!(change.autostart, Some(false));
    assert_eq!(change.presence_toggle, None);
    assert!(change.clear_presence);
}
