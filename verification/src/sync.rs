//! The decisions of the polling loop: whether an observation is a change,
//! and which command follows from it.

use vstd::prelude::*;
use vstd::string::*;
use crate::activity::{ActivityOptions, Framing};
use crate::config::{AppConfig, IdleBehavior};
use crate::connection::{CommandView, DiscordCommand};
use crate::text::{tray_label, truncate_tray_label};
use crate::track::{clone_text, clone_track, text_of, track_of, TrackInfo, TrackView};

verus! {

/// By how much a cycle may overrun its interval before the machine is taken
/// to have slept, in seconds.
pub const WAKE_TOLERANCE_SECS: u64 = 10;

/// The most characters of the menu's label for the current track.
pub const TRAY_LABEL_CHARS: usize = 50;

/// Whether two observations show the same track in the same state. Position
/// and duration do not count.
pub open spec fn same_identity(a: TrackView, b: TrackView) -> bool {
    &&& a.name == b.name
    &&& a.artist == b.artist
    &&& a.album == b.album
    &&& a.is_playing == b.is_playing
}

/// Whether the step from one observation to the next is a change: a track
/// appeared or went away, or its identity differs.
pub open spec fn meaningfully_different(a: Option<TrackView>, b: Option<TrackView>) -> bool {
    match (a, b) {
        (None, None) => false,
        (Some(x), Some(y)) => !same_identity(x, y),
        _ => true,
    }
}

/// Decides whether the step from `a` to `b` is a change.
pub fn tracks_meaningfully_different(a: &Option<TrackInfo>, b: &Option<TrackInfo>) -> (r: bool)
    ensures
        r == meaningfully_different(track_of(*a), track_of(*b)),
        !r <==> (a is None && b is None) || (a is Some && b is Some && same_identity(
            a->0@,
            b->0@,
        )),
{
    match (a, b) {
        (None, None) => false,
        (Some(x), Some(y)) => {
            x.name != y.name || x.artist != y.artist || x.album != y.album || x.is_playing
                != y.is_playing
        },
        _ => true,
    }
}

/// The options of a command under a configuration.
pub open spec fn options_of(cfg: AppConfig) -> ActivityOptions {
    ActivityOptions {
        show_timestamps: cfg.show_timestamps,
        show_album_art: cfg.show_album_art,
        display_format: cfg.display_format,
    }
}

/// Copies the preferences that shape a payload out of a configuration.
pub fn build_activity_options(cfg: &AppConfig) -> (r: ActivityOptions)
    ensures
        r == options_of(*cfg),
{
    ActivityOptions {
        show_timestamps: cfg.show_timestamps,
        show_album_art: cfg.show_album_art,
        display_format: cfg.display_format,
    }
}

/// Whether a cycle that took `elapsed_ms` milliseconds overran its interval
/// by more than the tolerance.
pub open spec fn overran(elapsed_ms: u64, poll_interval_secs: u64) -> bool {
    elapsed_ms > (poll_interval_secs + WAKE_TOLERANCE_SECS) * 1000
}

/// Detects that the machine slept during a cycle, from the time that the
/// cycle took.
pub fn wake_detected(elapsed_ms: u64, poll_interval_secs: u64) -> (r: bool)
    ensures
        r == overran(elapsed_ms, poll_interval_secs),
{
    let limit: u128 = (poll_interval_secs as u128 + WAKE_TOLERANCE_SECS as u128) * 1000;
    elapsed_ms as u128 > limit
}

/// The text between the song and the artist in the menu's label.
pub open spec fn label_separator() -> Seq<char> {
    " \u{2014} "@
}

/// The menu's label for an observation.
pub open spec fn now_playing_label_of(observed: Option<TrackView>) -> Seq<char> {
    match observed {
        Some(track) => tray_label(
            track.name + label_separator() + track.artist,
            TRAY_LABEL_CHARS as nat,
        ),
        None => "Not Playing"@,
    }
}

/// Builds the menu's label for an observation: song and artist, shortened
/// to fit, or a fixed text where nothing plays.
pub fn now_playing_label(observed: &Option<TrackInfo>) -> (r: String)
    ensures
        r@ == now_playing_label_of(track_of(*observed)),
{
    match observed {
        Some(track) => {
            let mut full = track.name.clone();
            full.append(" \u{2014} ");
            full.append(track.artist.as_str());
            truncate_tray_label(full.as_str(), TRAY_LABEL_CHARS)
        },
        None => "Not Playing".to_owned(),
    }
}

/// What a cycle does with its observation.
#[derive(Debug, Clone, Copy, PartialEq, Eq, Structural)]
pub enum Decision {
    /// Nothing changed: no artwork is resolved and no command is sent.
    Unchanged,
    /// The presence is cleared.
    Clear,
    /// The track is shown in the given framing, with artwork resolved first
    /// where the configuration wants it.
    Show { framing: Framing, resolve_artwork: bool },
}

/// The decision for a step from `previous` to `observed` under a
/// configuration.
pub open spec fn decision_of(
    previous: Option<TrackView>,
    observed: Option<TrackView>,
    cfg: AppConfig,
) -> Decision {
    if !meaningfully_different(previous, observed) {
        Decision::Unchanged
    } else if !cfg.enable_on_launch {
        Decision::Clear
    } else {
        match observed {
            None => Decision::Clear,
            Some(track) => if track.is_playing {
                Decision::Show { framing: Framing::Playing, resolve_artwork: cfg.show_album_art }
            } else {
                match cfg.idle_behavior {
                    IdleBehavior::ClearStatus => Decision::Clear,
                    IdleBehavior::ShowPaused => Decision::Show {
                        framing: Framing::Paused,
                        resolve_artwork: cfg.show_album_art,
                    },
                }
            },
        }
    }
}

/// Decides what to do with an observation.
pub fn decide(previous: &Option<TrackInfo>, observed: &Option<TrackInfo>, cfg: &AppConfig) -> (r:
    Decision)
    ensures
        r == decision_of(track_of(*previous), track_of(*observed), *cfg),
{
    if !tracks_meaningfully_different(previous, observed) {
        return Decision::Unchanged;
    }
    if !cfg.enable_on_launch {
        return Decision::Clear;
    }
    match observed {
        None => Decision::Clear,
        Some(track) => {
            if track.is_playing {
                Decision::Show { framing: Framing::Playing, resolve_artwork: cfg.show_album_art }
            } else {
                match cfg.idle_behavior {
                    IdleBehavior::ClearStatus => Decision::Clear,
                    IdleBehavior::ShowPaused => Decision::Show {
                        framing: Framing::Paused,
                        resolve_artwork: cfg.show_album_art,
                    },
                }
            }
        },
    }
}

/// The command that carries out a decision, if it asks for one. The
/// artwork counts only where the decision asked for it.
pub open spec fn command_of(
    decision: Decision,
    observed: Option<TrackView>,
    artwork: Option<Seq<char>>,
    cfg: AppConfig,
) -> Option<CommandView> {
    match decision {
        Decision::Unchanged => None,
        Decision::Clear => Some(CommandView::ClearPresence),
        Decision::Show { framing, resolve_artwork } => match observed {
            None => Some(CommandView::ClearPresence),
            Some(track) => {
                let shown = if resolve_artwork {
                    artwork
                } else {
                    None
                };
                Some(
                    match framing {
                        Framing::Playing => CommandView::UpdateTrack(track, shown, options_of(cfg)),
                        Framing::Paused => CommandView::SetPaused(track, shown, options_of(cfg)),
                    },
                )
            },
        },
    }
}

/// The value of an optional command.
pub open spec fn command_view(c: Option<DiscordCommand>) -> Option<CommandView> {
    match c {
        Some(command) => Some(command@),
        None => None,
    }
}

/// Builds the command that carries out a decision.
pub fn command_for(
    decision: Decision,
    observed: &Option<TrackInfo>,
    artwork: &Option<String>,
    cfg: &AppConfig,
) -> (r: Option<DiscordCommand>)
    ensures
        command_view(r) == command_of(decision, track_of(*observed), text_of(*artwork), *cfg),
{
    match decision {
        Decision::Unchanged => None,
        Decision::Clear => Some(DiscordCommand::ClearPresence),
        Decision::Show { framing, resolve_artwork } => match observed {
            None => Some(DiscordCommand::ClearPresence),
            Some(track) => {
                let shown = if resolve_artwork {
                    clone_text(artwork)
                } else {
                    None
                };
                let opts = build_activity_options(cfg);
                Some(
                    match framing {
                        Framing::Playing => DiscordCommand::UpdateTrack(track.clone(), shown, opts),
                        Framing::Paused => DiscordCommand::SetPaused(track.clone(), shown, opts),
                    },
                )
            },
        },
    }
}

/// The polling loop's memory: the observation of the cycle before.
#[derive(Debug)]
pub struct SyncLoop {
    previous: Option<TrackInfo>,
}

impl SyncLoop {
    /// The observation of the cycle before.
    pub closed spec fn previous(&self) -> Option<TrackView> {
        track_of(self.previous)
    }

    /// A loop that has observed nothing yet.
    pub fn new() -> (r: Self)
        ensures
            r.previous() is None,
    {
        SyncLoop { previous: None }
    }

    /// Takes in the observation of one cycle and decides what to do with
    /// it. After a wake-up the observation is compared with nothing, so
    /// that any track counts as a change. Whatever is decided, the
    /// observation becomes the one to compare the next with.
    pub fn observe(&mut self, observed: &Option<TrackInfo>, cfg: &AppConfig, woke: bool) -> (r:
        Decision)
        ensures
            r == decision_of(
                if woke {
                    None
                } else {
                    old(self).previous()
                },
                track_of(*observed),
                *cfg,
            ),
            final(self).previous() == track_of(*observed),
    {
        if woke {
            self.previous = None;
        }
        let r = decide(&self.previous, observed, cfg);
        self.previous = clone_track(observed);
        r
    }
}

/// A command is sent exactly when the observation is a change: a step that
/// differs in position or duration alone sends nothing, whatever the
/// configuration, and every change sends one command.
pub proof fn lemma_command_iff_changed(
    previous: Option<TrackView>,
    observed: Option<TrackView>,
    artwork: Option<Seq<char>>,
    cfg: AppConfig,
)
    ensures
        command_of(decision_of(previous, observed, cfg), observed, artwork, cfg) is Some
            <==> meaningfully_different(previous, observed),
        (previous is Some && observed is Some && same_identity(previous->0, observed->0))
            ==> decision_of(previous, observed, cfg) == Decision::Unchanged,
{
}

/// How many commands a run of observations sends, starting from `previous`.
pub open spec fn emissions(
    previous: Option<TrackView>,
    observations: Seq<Option<TrackView>>,
    cfg: AppConfig,
) -> nat
    decreases observations.len(),
{
    if observations.len() == 0 {
        0
    } else {
        let sent: nat = if decision_of(previous, observations[0], cfg) == Decision::Unchanged {
            0
        } else {
            1
        };
        sent + emissions(observations[0], observations.drop_first(), cfg)
    }
}

/// Nothing, a playing track, the same track further on, the track paused,
/// and nothing again: three commands are sent, for the track, for the pause
/// and for the end, whatever the configuration.
pub proof fn lemma_play_pause_stop_sends_three(
    playing: TrackView,
    moved: TrackView,
    paused: TrackView,
    cfg: AppConfig,
)
    requires
        playing.is_playing,
        same_identity(playing, moved),
        paused.name == playing.name,
        paused.artist == playing.artist,
        paused.album == playing.album,
        !paused.is_playing,
    ensures
        emissions(None, seq![None, Some(playing), Some(moved), Some(paused), None], cfg) == 3,
{
    let run = seq![None, Some(playing), Some(moved), Some(paused), None];
    let r1 = run.drop_first();
    let r2 = r1.drop_first();
    let r3 = r2.drop_first();
    let r4 = r3.drop_first();
    let r5 = r4.drop_first();
    assert(r5.len() == 0);
    assert(emissions(None, r5, cfg) == 0);
    assert(emissions(Some(paused), r4, cfg) == 1);
    assert(emissions(Some(moved), r3, cfg) == 2);
    assert(emissions(Some(playing), r2, cfg) == 2);
    assert(emissions(None, r1, cfg) == 3);
}

} // verus!
