//! User preferences that the synchronisation engine reads.

use vstd::prelude::*;

verus! {

/// Which of the track's fields is shown on the primary line.
#[derive(Debug, Clone, Copy, PartialEq, Eq, Structural)]
pub enum DisplayFormat {
    SongArtist,
    ArtistSong,
}

impl Default for DisplayFormat {
    fn default() -> (r: Self)
        ensures
            r == DisplayFormat::SongArtist,
    {
        DisplayFormat::SongArtist
    }
}

/// What the presence shows while the player is paused.
#[derive(Debug, Clone, Copy, PartialEq, Eq, Structural)]
pub enum IdleBehavior {
    ClearStatus,
    ShowPaused,
}

impl Default for IdleBehavior {
    fn default() -> (r: Self)
        ensures
            r == IdleBehavior::ClearStatus,
    {
        IdleBehavior::ClearStatus
    }
}

/// Shortest poll interval a stored configuration may hold, in seconds.
pub const MIN_POLL_INTERVAL_SECS: u64 = 2;

/// Longest poll interval a stored configuration may hold, in seconds.
pub const MAX_POLL_INTERVAL_SECS: u64 = 15;

/// A snapshot of the user's preferences.
#[derive(Debug, Clone, Copy, PartialEq, Eq, Structural)]
pub struct AppConfig {
    pub enable_on_launch: bool,
    pub show_album_art: bool,
    pub show_timestamps: bool,
    pub display_format: DisplayFormat,
    pub idle_behavior: IdleBehavior,
    pub poll_interval_secs: u64,
    pub launch_at_login: bool,
}

/// The value of a boolean preference that was never set.
pub fn default_true() -> (r: bool)
    ensures
        r,
{
    true
}

/// The poll interval of a configuration that never set one, in seconds.
pub fn default_poll_interval() -> (r: u64)
    ensures
        r == 5,
        MIN_POLL_INTERVAL_SECS <= r <= MAX_POLL_INTERVAL_SECS,
{
    5
}

/// The interval closest to `secs` that a stored configuration may hold.
pub open spec fn clamped_interval(secs: u64) -> u64 {
    if secs < MIN_POLL_INTERVAL_SECS {
        MIN_POLL_INTERVAL_SECS
    } else if secs > MAX_POLL_INTERVAL_SECS {
        MAX_POLL_INTERVAL_SECS
    } else {
        secs
    }
}

/// Brings a requested poll interval into the accepted range.
pub fn clamp_poll_interval(secs: u64) -> (r: u64)
    ensures
        r == clamped_interval(secs),
        MIN_POLL_INTERVAL_SECS <= r <= MAX_POLL_INTERVAL_SECS,
{
    if secs < MIN_POLL_INTERVAL_SECS {
        MIN_POLL_INTERVAL_SECS
    } else if secs > MAX_POLL_INTERVAL_SECS {
        MAX_POLL_INTERVAL_SECS
    } else {
        secs
    }
}

impl Default for AppConfig {
    fn default() -> (r: Self)
        ensures
            r == (AppConfig {
                enable_on_launch: true,
                show_album_art: true,
                show_timestamps: true,
                display_format: DisplayFormat::SongArtist,
                idle_behavior: IdleBehavior::ClearStatus,
                poll_interval_secs: 5,
                launch_at_login: false,
            }),
    {
        AppConfig {
            enable_on_launch: default_true(),
            show_album_art: default_true(),
            show_timestamps: default_true(),
            display_format: DisplayFormat::SongArtist,
            idle_behavior: IdleBehavior::ClearStatus,
            poll_interval_secs: default_poll_interval(),
            launch_at_login: false,
        }
    }
}

impl AppConfig {
    /// The configuration as it is stored: the same preferences with the poll
    /// interval brought into the accepted range.
    pub fn normalized(self) -> (r: Self)
        ensures
            r == (AppConfig { poll_interval_secs: clamped_interval(self.poll_interval_secs), ..self }),
    {
        AppConfig { poll_interval_secs: clamp_poll_interval(self.poll_interval_secs), ..self }
    }
}

/// What has to happen when a new configuration replaces the current one.
#[derive(Debug, Clone, Copy, PartialEq, Eq)]
pub struct ConfigChange {
    /// The configuration to keep and to store.
    pub stored: AppConfig,
    /// Whether to switch the start at login on or off, where that changed.
    pub autostart: Option<bool>,
    /// The new state of the menu's presence toggle, where that changed.
    pub presence_toggle: Option<bool>,
    /// Whether the presence has to be cleared.
    pub clear_presence: bool,
}

/// The consequences of replacing `current` by `requested`: the interval is
/// brought into range, a changed start at login and a changed presence
/// switch are passed on, and a disabled presence is cleared.
pub open spec fn config_change_of(current: AppConfig, requested: AppConfig) -> ConfigChange {
    ConfigChange {
        stored: AppConfig {
            poll_interval_secs: clamped_interval(requested.poll_interval_secs),
            ..requested
        },
        autostart: if requested.launch_at_login != current.launch_at_login {
            Some(requested.launch_at_login)
        } else {
            None
        },
        presence_toggle: if requested.enable_on_launch != current.enable_on_launch {
            Some(requested.enable_on_launch)
        } else {
            None
        },
        clear_presence: !requested.enable_on_launch,
    }
}

/// Works out what replacing the current configuration by the requested one
/// entails.
pub fn plan_config_change(current: &AppConfig, requested: AppConfig) -> (r: ConfigChange)
    ensures
        r == config_change_of(*current, requested),
{
    ConfigChange {
        stored: requested.normalized(),
        autostart: if requested.launch_at_login != current.launch_at_login {
            Some(requested.launch_at_login)
        } else {
            None
        },
        presence_toggle: if requested.enable_on_launch != current.enable_on_launch {
            Some(requested.enable_on_launch)
        } else {
            None
        },
        clear_presence: !requested.enable_on_launch,
    }
}

} // verus!
