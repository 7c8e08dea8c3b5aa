//! The payload that the presence broker displays.

use vstd::prelude::*;
use vstd::string::*;
use crate::config::DisplayFormat;
use crate::text::{truncate, truncated};
use crate::track::{text_of, TrackInfo, TrackView};

verus! {

/// The preferences that shape a payload. Each command carries its own copy.
#[derive(Debug, Clone, Copy, PartialEq, Eq, Structural)]
pub struct ActivityOptions {
    pub show_timestamps: bool,
    pub show_album_art: bool,
    pub display_format: DisplayFormat,
}

/// Whether a payload presents its track as playing or as paused.
#[derive(Debug, Clone, Copy, PartialEq, Eq, Structural)]
pub enum Framing {
    Playing,
    Paused,
}

/// When the track began and when it will end, in seconds since the epoch.
#[derive(Debug, Clone, Copy, PartialEq, Eq, Structural)]
pub struct Timestamps {
    pub start: i64,
    pub end: i64,
}

/// Everything the broker is asked to display for one track.
#[derive(Debug, PartialEq, Eq)]
pub struct ActivityPayload {
    pub details: String,
    pub state: String,
    pub large_image: String,
    pub large_text: String,
    pub small_image: String,
    pub small_text: String,
    pub timestamps: Option<Timestamps>,
}

/// The mathematical value of an [`ActivityPayload`].
pub struct PayloadView {
    pub details: Seq<char>,
    pub state: Seq<char>,
    pub large_image: Seq<char>,
    pub large_text: Seq<char>,
    pub small_image: Seq<char>,
    pub small_text: Seq<char>,
    pub timestamps: Option<Timestamps>,
}

impl View for ActivityPayload {
    type V = PayloadView;

    open spec fn view(&self) -> PayloadView {
        PayloadView {
            details: self.details@,
            state: self.state@,
            large_image: self.large_image@,
            large_text: self.large_text@,
            small_image: self.small_image@,
            small_text: self.small_text@,
            timestamps: self.timestamps,
        }
    }
}

impl Clone for ActivityPayload {
    fn clone(&self) -> (r: Self)
        ensures
            r@ == self@,
    {
        ActivityPayload {
            details: self.details.clone(),
            state: self.state.clone(),
            large_image: self.large_image.clone(),
            large_text: self.large_text.clone(),
            small_image: self.small_image.clone(),
            small_text: self.small_text.clone(),
            timestamps: self.timestamps,
        }
    }
}

/// The most characters a text field of a payload may hold.
pub const MAX_FIELD_CHARS: usize = 128;

/// The image token shown where no artwork is.
pub open spec fn default_image() -> Seq<char> {
    "apple_music_logo"@
}

/// The caption of the small image.
pub open spec fn player_caption() -> Seq<char> {
    "Apple Music"@
}

/// The state text of a paused track.
pub open spec fn paused_text() -> Seq<char> {
    "Paused"@
}

/// The primary line: the song or the artist, as the format asks.
pub open spec fn primary_line(track: TrackView, format: DisplayFormat) -> Seq<char> {
    match format {
        DisplayFormat::SongArtist => track.name,
        DisplayFormat::ArtistSong => track.artist,
    }
}

/// The secondary line of a playing track.
pub open spec fn secondary_line(track: TrackView, format: DisplayFormat) -> Seq<char> {
    match format {
        DisplayFormat::SongArtist => "by "@ + track.artist,
        DisplayFormat::ArtistSong => track.name,
    }
}

/// The large image: the artwork where it is wanted and known, else the
/// default token.
pub open spec fn large_image_of(artwork: Option<Seq<char>>, opts: ActivityOptions) -> Seq<char> {
    match artwork {
        Some(url) if opts.show_album_art => url,
        _ => default_image(),
    }
}

/// `v` brought into the range of `i64`.
pub open spec fn saturated(v: int) -> i64 {
    if v < i64::MIN {
        i64::MIN
    } else if v > i64::MAX {
        i64::MAX
    } else {
        v as i64
    }
}

/// Start and end of a track that is `position_secs` into its
/// `duration_secs` at the moment `now`. A time that leaves the range of
/// `i64` stays at the end of that range.
pub open spec fn timestamps_of(position_secs: u64, duration_secs: u64, now: i64) -> Timestamps {
    let start = saturated(now - saturated(position_secs as int));
    Timestamps { start, end: saturated(start + saturated(duration_secs as int)) }
}

/// The payload for a track under the given options and framing, at `now`.
/// A playing track shows its secondary line and, where wanted, its
/// timestamps; a paused one shows the paused text and no timestamps.
pub open spec fn payload_of(
    track: TrackView,
    artwork: Option<Seq<char>>,
    opts: ActivityOptions,
    framing: Framing,
    now: i64,
) -> PayloadView {
    PayloadView {
        details: truncated(primary_line(track, opts.display_format), MAX_FIELD_CHARS as nat),
        state: match framing {
            Framing::Playing => truncated(
                secondary_line(track, opts.display_format),
                MAX_FIELD_CHARS as nat,
            ),
            Framing::Paused => paused_text(),
        },
        large_image: large_image_of(artwork, opts),
        large_text: truncated(track.album, MAX_FIELD_CHARS as nat),
        small_image: default_image(),
        small_text: player_caption(),
        timestamps: if framing == Framing::Playing && opts.show_timestamps {
            Some(timestamps_of(track.position_secs, track.duration_secs, now))
        } else {
            None
        },
    }
}

/// A count of seconds as a signed number: itself where it fits, else the
/// largest value of `i64`.
pub fn seconds_offset(secs: u64) -> (r: i64)
    ensures
        r == saturated(secs as int),
        r >= 0,
{
    if secs > 0x7fff_ffff_ffff_ffffu64 {
        i64::MAX
    } else {
        secs as i64
    }
}

/// Computes the start and the end of a track from its position and duration.
pub fn track_timestamps(position_secs: u64, duration_secs: u64, now: i64) -> (r: Timestamps)
    ensures
        r == timestamps_of(position_secs, duration_secs, now),
{
    let position = seconds_offset(position_secs);
    let duration = seconds_offset(duration_secs);
    let start: i64 = if now < i64::MIN + position {
        i64::MIN
    } else {
        now - position
    };
    let end: i64 = if start > i64::MAX - duration {
        i64::MAX
    } else {
        start + duration
    };
    Timestamps { start, end }
}

/// Builds the payload for a track. The texts are cut to
/// [`MAX_FIELD_CHARS`] characters; the options are those handed in, never
/// any other configuration.
pub fn build_activity(
    track: &TrackInfo,
    artwork_url: &Option<String>,
    opts: &ActivityOptions,
    framing: Framing,
    now: i64,
) -> (r: ActivityPayload)
    ensures
        r@ == payload_of(track@, text_of(*artwork_url), *opts, framing, now),
{
    let details = match opts.display_format {
        DisplayFormat::SongArtist => truncate(track.name.as_str(), MAX_FIELD_CHARS).to_owned(),
        DisplayFormat::ArtistSong => truncate(track.artist.as_str(), MAX_FIELD_CHARS).to_owned(),
    };
    let state = match framing {
        Framing::Paused => "Paused".to_owned(),
        Framing::Playing => match opts.display_format {
            DisplayFormat::SongArtist => {
                let mut line = "by ".to_owned();
                line.append(track.artist.as_str());
                truncate(line.as_str(), MAX_FIELD_CHARS).to_owned()
            },
            DisplayFormat::ArtistSong => truncate(track.name.as_str(), MAX_FIELD_CHARS).to_owned(),
        },
    };
    let large_image = match artwork_url {
        Some(url) if opts.show_album_art => url.clone(),
        _ => "apple_music_logo".to_owned(),
    };
    let timestamps = match framing {
        Framing::Playing if opts.show_timestamps => Some(
            track_timestamps(track.position_secs, track.duration_secs, now),
        ),
        _ => None,
    };
    ActivityPayload {
        details,
        state,
        large_image,
        large_text: truncate(track.album.as_str(), MAX_FIELD_CHARS).to_owned(),
        small_image: "apple_music_logo".to_owned(),
        small_text: "Apple Music".to_owned(),
        timestamps,
    }
}

/// The details, the state and the caption of the large image hold at most
/// [`MAX_FIELD_CHARS`] characters, whatever the track and the framing.
pub proof fn lemma_payload_fields_fit(
    track: TrackView,
    artwork: Option<Seq<char>>,
    opts: ActivityOptions,
    framing: Framing,
    now: i64,
)
    ensures
        payload_of(track, artwork, opts, framing, now).details.len() <= MAX_FIELD_CHARS,
        payload_of(track, artwork, opts, framing, now).large_text.len() <= MAX_FIELD_CHARS,
        payload_of(track, artwork, opts, framing, now).state.len() <= MAX_FIELD_CHARS,
{
    reveal_strlit("Paused");
}

} // verus!
