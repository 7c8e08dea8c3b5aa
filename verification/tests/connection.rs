use amdp::activity::{build_activity, ActivityOptions, Framing};
use amdp::config::DisplayFormat;
use amdp::connection::{
    set_status, Action, Connection, DesiredState, DiscordCommand, DiscordStatus, Event, Phase,
};
use amdp::track::TrackInfo;

fn track_named(name: &str) -> TrackInfo {
    TrackInfo {
        name: name.to_string(),
        artist: "Muse".to_string(),
        album: "Absolution".to_string(),
        duration_secs: 200,
        position_secs: 10,
        is_playing: true,
    }
}

fn opts() -> ActivityOptions {
    ActivityOptions {
        show_timestamps: true,
        show_album_art: true,
        display_format: DisplayFormat::SongArtist,
    }
}

fn update(name: &str) -> Event {
    Event::Command(DiscordCommand::UpdateTrack(track_named(name), None, opts()))
}

/// A worker whose start-up failed on every attempt.
fn disconnected_worker() -> Connection {
    let mut c = Connection::new();
    for _ in 0..4 {
        assert_eq!(c.next_action(0), Action::Connect);
        c.handle(Event::ConnectFailed);
        c.handle(Event::WaitTimedOut);
    }
    c
}

/// A worker whose first attempt succeeded.
fn connected_worker() -> Connection {
    let mut c = Connection::new();
    c.handle(Event::ConnectSucceeded);
    c
}

#[test]
fn new_worker_is_connecting() {
    let c = Connection::new();
    assert_eq!(c.get_status(), DiscordStatus::Connecting);
    assert_eq!(c.phase(), Phase::Connecting);
    assert!(!c.is_connected());
    assert_eq!(c.backoff_secs(), 1);
    assert_eq!(*c.pending(), None);
    assert_eq!(c.next_action(0), Action::Connect);
}

#[test]
fn first_attempt_succeeds() {
    let c = connected_worker();
    assert_eq!(c.get_status(), DiscordStatus::Connected);
    assert!(c.is_connected());
    assert_eq!(c.next_action(0), Action::Wait(1));
}

#[test]
fn startup_waits_follow_the_schedule() {
    let mut c = Connection::new();
    let mut waits = Vec::new();
    for _ in 0..4 {
        assert_eq!(c.next_action(0), Action::Connect);
        c.handle(Event::ConnectFailed);
        assert_eq!(c.get_status(), DiscordStatus::Connecting);
        match c.next_action(0) {
            Action::Wait(secs) => waits.push(secs),
            other => panic!("expected a wait, got {:?}", other),
        }
        c.handle(Event::WaitTimedOut);
    }
    assert_eq!(waits, vec![5, 10, 15, 30]);
    assert_eq!(c.get_status(), DiscordStatus::Disconnected);
    assert!(!c.is_connected());
    assert_eq!(c.next_action(0), Action::Wait(1));
}

#[test]
fn startup_succeeds_on_a_later_attempt() {
    let mut c = Connection::new();
    c.handle(Event::ConnectFailed);
    c.handle(Event::WaitTimedOut);
    c.handle(Event::ConnectFailed);
    assert_eq!(c.next_action(0), Action::Wait(10));
    c.handle(Event::WaitTimedOut);
    c.handle(Event::ConnectSucceeded);
    assert_eq!(c.get_status(), DiscordStatus::Connected);
    assert_eq!(c.next_action(0), Action::Wait(1));
}

#[test]
fn reconnect_backoff_doubles_up_to_the_cap() {
    let mut c = disconnected_worker();
    let mut waits = Vec::new();
    for _ in 0..8 {
        match c.next_action(0) {
            Action::Wait(secs) => waits.push(secs),
            other => panic!("expected a wait, got {:?}", other),
        }
        c.handle(Event::WaitTimedOut);
        assert_eq!(c.get_status(), DiscordStatus::Connecting);
        assert_eq!(c.next_action(0), Action::Connect);
        c.handle(Event::ConnectFailed);
        assert_eq!(c.get_status(), DiscordStatus::Disconnected);
    }
    assert_eq!(waits, vec![1, 2, 4, 8, 16, 30, 30, 30]);
}

#[test]
fn one_success_resets_the_backoff() {
    let mut c = disconnected_worker();
    for _ in 0..3 {
        c.handle(Event::WaitTimedOut);
        c.handle(Event::ConnectFailed);
    }
    assert_eq!(c.backoff_secs(), 8);
    c.handle(Event::WaitTimedOut);
    c.handle(Event::ConnectSucceeded);
    assert_eq!(c.backoff_secs(), 1);
    assert_eq!(c.get_status(), DiscordStatus::Connected);
    c.handle(update("A"));
    c.handle(Event::PushFailed("pipe closed".to_string()));
    assert_eq!(c.next_action(0), Action::Wait(1));
    c.handle(Event::WaitTimedOut);
    c.handle(Event::ConnectFailed);
    assert_eq!(c.next_action(0), Action::Wait(2));
}

#[test]
fn replay_pushes_the_latest_track_once() {
    let mut c = disconnected_worker();
    c.handle(update("T1"));
    assert_eq!(c.next_action(50), Action::Wait(1));
    c.handle(update("T2"));
    assert_eq!(c.next_action(50), Action::Wait(1));
    c.handle(Event::WaitTimedOut);
    assert_eq!(c.next_action(50), Action::Connect);
    c.handle(Event::ConnectSucceeded);
    let expected = build_activity(&track_named("T2"), &None, &opts(), Framing::Playing, 50);
    assert_eq!(expected.details, "T2");
    assert_eq!(c.next_action(50), Action::Push(expected));
    c.handle(Event::PushSucceeded);
    assert_eq!(c.next_action(50), Action::Wait(1));
    c.handle(Event::WaitTimedOut);
    assert_eq!(c.next_action(50), Action::Wait(1));
    assert_eq!(c.get_status(), DiscordStatus::Connected);
}

#[test]
fn replay_keeps_framing_and_options() {
    let mut c = disconnected_worker();
    let paused_opts = ActivityOptions {
        show_timestamps: false,
        show_album_art: false,
        display_format: DisplayFormat::ArtistSong,
    };
    let art = Some("https://x/512x512bb.jpg".to_string());
    c.handle(Event::Command(DiscordCommand::SetPaused(track_named("T"), art.clone(), paused_opts)));
    c.handle(Event::WaitTimedOut);
    c.handle(Event::ConnectSucceeded);
    let expected = build_activity(&track_named("T"), &art, &paused_opts, Framing::Paused, 9);
    assert_eq!(expected.state, "Paused");
    assert_eq!(expected.details, "Muse");
    assert_eq!(c.next_action(9), Action::Push(expected));
}

#[test]
fn replay_failure_leaves_the_worker_running() {
    let mut c = disconnected_worker();
    c.handle(update("T"));
    c.handle(Event::WaitTimedOut);
    c.handle(Event::ConnectSucceeded);
    c.handle(Event::PushFailed("broken pipe".to_string()));
    assert_eq!(
        c.get_status(),
        DiscordStatus::Error("Activity update failed: broken pipe".to_string())
    );
    assert!(!c.is_connected());
    assert_eq!(c.phase(), Phase::Waiting);
    assert_eq!(c.next_action(0), Action::Wait(1));
}

#[test]
fn nothing_desired_means_no_replay() {
    let mut c = disconnected_worker();
    c.handle(update("T"));
    c.handle(Event::Command(DiscordCommand::ClearPresence));
    assert_eq!(*c.pending(), None);
    c.handle(Event::WaitTimedOut);
    c.handle(Event::ConnectSucceeded);
    assert_eq!(c.next_action(0), Action::Wait(1));
}

#[test]
fn commands_during_startup_are_kept() {
    let mut c = Connection::new();
    c.handle(Event::ConnectFailed);
    c.handle(update("T1"));
    assert_eq!(c.next_action(0), Action::Connect);
    c.handle(Event::ConnectFailed);
    c.handle(update("T2"));
    assert_eq!(
        *c.pending(),
        Some(DesiredState {
            track: track_named("T2"),
            artwork_url: None,
            options: opts(),
            framing: Framing::Playing,
        })
    );
    c.handle(Event::ConnectSucceeded);
    let expected = build_activity(&track_named("T2"), &None, &opts(), Framing::Playing, 3);
    assert_eq!(c.next_action(3), Action::Push(expected));
}

#[test]
fn shutdown_during_startup_ends_at_once() {
    let mut c = Connection::new();
    c.handle(Event::ConnectFailed);
    c.handle(Event::Command(DiscordCommand::Shutdown));
    assert_eq!(c.get_status(), DiscordStatus::Disconnected);
    assert_eq!(c.next_action(0), Action::Exit);
    assert_eq!(c.phase(), Phase::Stopped);
}

#[test]
fn closed_queue_during_startup_ends_at_once() {
    let mut c = Connection::new();
    c.handle(Event::ConnectFailed);
    c.handle(Event::QueueClosed);
    assert_eq!(c.get_status(), DiscordStatus::Disconnected);
    assert_eq!(c.next_action(0), Action::Exit);
}

#[test]
fn update_is_pushed_when_connected() {
    let mut c = connected_worker();
    let art = Some("https://x/512x512bb.jpg".to_string());
    c.handle(Event::Command(DiscordCommand::UpdateTrack(track_named("T"), art.clone(), opts())));
    let expected = build_activity(&track_named("T"), &art, &opts(), Framing::Playing, 1000);
    assert_eq!(c.next_action(1000), Action::Push(expected));
    c.handle(Event::PushSucceeded);
    assert_eq!(c.next_action(1000), Action::Wait(1));
    assert_eq!(c.get_status(), DiscordStatus::Connected);
}

#[test]
fn pause_is_pushed_when_connected() {
    let mut c = connected_worker();
    c.handle(Event::Command(DiscordCommand::SetPaused(track_named("T"), None, opts())));
    let expected = build_activity(&track_named("T"), &None, &opts(), Framing::Paused, 1000);
    assert_eq!(c.next_action(1000), Action::Push(expected));
}

#[test]
fn failed_push_publishes_the_error() {
    let mut c = connected_worker();
    c.handle(update("T"));
    c.handle(Event::PushFailed("boom".to_string()));
    assert_eq!(
        c.get_status(),
        DiscordStatus::Error("Activity update failed: boom".to_string())
    );
    assert!(!c.is_connected());
    assert_eq!(c.next_action(0), Action::Wait(1));
    c.handle(Event::WaitTimedOut);
    assert_eq!(c.get_status(), DiscordStatus::Connecting);
    assert_eq!(c.next_action(0), Action::Connect);
}

#[test]
fn update_without_session_is_only_recorded() {
    let mut c = disconnected_worker();
    c.handle(update("T"));
    assert_eq!(c.phase(), Phase::Waiting);
    assert_eq!(c.get_status(), DiscordStatus::Disconnected);
    assert!(c.pending().is_some());
}

#[test]
fn clear_when_connected_clears_the_display() {
    let mut c = connected_worker();
    c.handle(update("T"));
    c.handle(Event::PushSucceeded);
    c.handle(Event::Command(DiscordCommand::ClearPresence));
    assert_eq!(*c.pending(), None);
    assert_eq!(c.next_action(0), Action::Clear);
    c.handle(Event::Finished);
    assert_eq!(c.next_action(0), Action::Wait(1));
    assert_eq!(c.get_status(), DiscordStatus::Connected);
}

#[test]
fn shutdown_when_connected_clears_and_closes() {
    let mut c = connected_worker();
    c.handle(Event::Command(DiscordCommand::Shutdown));
    assert_eq!(c.next_action(0), Action::Clear);
    c.handle(Event::Finished);
    assert_eq!(c.next_action(0), Action::Close);
    c.handle(Event::Finished);
    assert_eq!(c.next_action(0), Action::Exit);
    assert_eq!(c.get_status(), DiscordStatus::Disconnected);
    assert!(!c.is_connected());
}

#[test]
fn closed_queue_when_connected_clears_and_closes() {
    let mut c = connected_worker();
    c.handle(Event::QueueClosed);
    assert_eq!(c.next_action(0), Action::Clear);
    c.handle(Event::Finished);
    assert_eq!(c.next_action(0), Action::Close);
    c.handle(Event::Finished);
    assert_eq!(c.next_action(0), Action::Exit);
}

#[test]
fn stopped_worker_ignores_everything() {
    let mut c = disconnected_worker();
    c.handle(Event::Command(DiscordCommand::Shutdown));
    c.handle(update("T"));
    c.handle(Event::ConnectSucceeded);
    c.handle(Event::WaitTimedOut);
    assert_eq!(c.next_action(0), Action::Exit);
    assert_eq!(c.get_status(), DiscordStatus::Disconnected);
    assert_eq!(*c.pending(), None);
}

#[test]
fn unexpected_answers_change_nothing() {
    let mut c = connected_worker();
    c.handle(Event::ConnectFailed);
    c.handle(Event::PushFailed("late".to_string()));
    c.handle(Event::Finished);
    assert_eq!(c.get_status(), DiscordStatus::Connected);
    assert_eq!(c.next_action(0), Action::Wait(1));
    let mut d = Connection::new();
    d.handle(Event::WaitTimedOut);
    d.handle(update("T"));
    assert_eq!(d.next_action(0), Action::Connect);
    assert_eq!(*d.pending(), None);
}

#[test]
fn timeout_when_connected_keeps_waiting() {
    let mut c = connected_worker();
    c.handle(Event::WaitTimedOut);
    assert_eq!(c.next_action(0), Action::Wait(1));
    assert_eq!(c.get_status(), DiscordStatus::Connected);
}

#[test]
fn set_status_replaces_the_status() {
    let mut status = DiscordStatus::Disconnected;
    set_status(&mut status, DiscordStatus::Error("x".to_string()));
    assert_eq!(status, DiscordStatus::Error("x".to_string()));
    set_status(&mut status, DiscordStatus::Connected);
    assert_eq!(status, DiscordStatus::Connected);
}

#[test]
fn next_action_now_agrees_on_untimed_actions() {
    let c = connected_worker();
    assert_eq!(c.next_action_now(), Action::Wait(1));
    let mut d = connected_worker();
    d.handle(Event::Command(DiscordCommand::UpdateTrack(
        track_named("T"),
        None,
        ActivityOptions { show_timestamps: false, ..opts() },
    )));
    assert_eq!(d.next_action_now(), d.next_action(0));
}

#[test]
fn step_handles_and_answers() {
    let mut c = Connection::new();
    assert_eq!(c.step(Event::ConnectFailed, 0), Action::Wait(5));
    assert_eq!(c.step(update("T"), 0), Action::Connect);
    let expected = build_activity(&track_named("T"), &None, &opts(), Framing::Playing, 42);
    assert_eq!(c.step(Event::ConnectSucceeded, 42), Action::Push(expected));
    assert_eq!(c.step(Event::PushSucceeded, 43), Action::Wait(1));
    assert_eq!(c.step(Event::QueueClosed, 44), Action::Clear);
    assert_eq!(c.step(Event::Finished, 44), Action::Close);
    assert_eq!(c.step(Event::Finished, 44), Action::Exit);
    assert_eq!(c.step(Event::WaitTimedOut, 45), Action::Exit);
}
