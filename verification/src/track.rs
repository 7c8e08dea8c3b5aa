//! One observation of the media player.

use vstd::prelude::*;
use vstd::string::*;
use crate::text::{chars_of, string_of};

verus! {

/// What the player reported at one moment. The two times are in whole seconds.
#[derive(Debug, PartialEq, Eq)]
pub struct TrackInfo {
    pub name: String,
    pub artist: String,
    pub album: String,
    pub duration_secs: u64,
    pub position_secs: u64,
    pub is_playing: bool,
}

/// The mathematical value of a [`TrackInfo`].
pub struct TrackView {
    pub name: Seq<char>,
    pub artist: Seq<char>,
    pub album: Seq<char>,
    pub duration_secs: u64,
    pub position_secs: u64,
    pub is_playing: bool,
}

impl View for TrackInfo {
    type V = TrackView;

    open spec fn view(&self) -> TrackView {
        TrackView {
            name: self.name@,
            artist: self.artist@,
            album: self.album@,
            duration_secs: self.duration_secs,
            position_secs: self.position_secs,
            is_playing: self.is_playing,
        }
    }
}

impl Clone for TrackInfo {
    fn clone(&self) -> (r: Self)
        ensures
            r@ == self@,
    {
        TrackInfo {
            name: self.name.clone(),
            artist: self.artist.clone(),
            album: self.album.clone(),
            duration_secs: self.duration_secs,
            position_secs: self.position_secs,
            is_playing: self.is_playing,
        }
    }
}

/// The value of an optional text.
pub open spec fn text_of(t: Option<String>) -> Option<Seq<char>> {
    match t {
        Some(s) => Some(s@),
        None => None,
    }
}

/// The value of an optional observation.
pub open spec fn track_of(t: Option<TrackInfo>) -> Option<TrackView> {
    match t {
        Some(track) => Some(track@),
        None => None,
    }
}

/// A copy of an optional text.
pub fn clone_text(t: &Option<String>) -> (r: Option<String>)
    ensures
        text_of(r) == text_of(*t),
{
    match t {
        Some(s) => Some(s.clone()),
        None => None,
    }
}

/// A copy of an optional observation.
pub fn clone_track(t: &Option<TrackInfo>) -> (r: Option<TrackInfo>)
    ensures
        track_of(r) == track_of(*t),
{
    match t {
        Some(track) => Some(track.clone()),
        None => None,
    }
}

/// Why the player could not be observed.
#[derive(Debug, Clone, PartialEq, Eq)]
pub enum AppleMusicError {
    AppNotRunning,
    ScriptExecutionFailed(String),
    ParseError(String),
}

impl AppleMusicError {
    /// The text that describes the error.
    pub open spec fn message_of(self) -> Seq<char> {
        match self {
            AppleMusicError::AppNotRunning => "Music.app is not running"@,
            AppleMusicError::ScriptExecutionFailed(e) => "AppleScript failed: "@ + e@,
            AppleMusicError::ParseError(e) => "Parse error: "@ + e@,
        }
    }

    /// Describes the error in words.
    pub fn message(&self) -> (r: String)
        ensures
            r@ == self.message_of(),
    {
        match self {
            AppleMusicError::AppNotRunning => "Music.app is not running".to_owned(),
            AppleMusicError::ScriptExecutionFailed(e) => {
                let mut r = "AppleScript failed: ".to_owned();
                r.append(e.as_str());
                r
            },
            AppleMusicError::ParseError(e) => {
                let mut r = "Parse error: ".to_owned();
                r.append(e.as_str());
                r
            },
        }
    }
}

/// The decimal digits of a number.
pub open spec fn decimal(n: nat) -> Seq<char>
    decreases n,
{
    if n < 10 {
        seq![(0x30 + n) as char]
    } else {
        decimal(n / 10).push((0x30 + n % 10) as char)
    }
}

/// Writes a number in decimal digits.
pub fn decimal_string(n: usize) -> (r: String)
    ensures
        r@ == decimal(n as nat),
    decreases n,
{
    if n < 10 {
        let mut r = String::new();
        r.push((0x30 + n as u8) as char);
        assert(r@ =~= seq![(0x30 + n) as char]);
        r
    } else {
        let mut r = decimal_string(n / 10);
        r.push((0x30 + (n % 10) as u8) as char);
        r
    }
}

/// The fields of a report from `start` on, with the text up to `at` already
/// read as part of the current field. Fields are separated by `||`, taken
/// from the left.
pub open spec fn fields_from(s: Seq<char>, start: int, at: int) -> Seq<Seq<char>>
    decreases s.len() - at,
{
    if start < 0 || at < start || at >= s.len() {
        if 0 <= start <= s.len() {
            seq![s.subrange(start, s.len() as int)]
        } else {
            seq![Seq::empty()]
        }
    } else if at + 1 < s.len() && s[at] == '|' && s[at + 1] == '|' {
        seq![s.subrange(start, at)] + fields_from(s, at + 2, at + 2)
    } else {
        fields_from(s, start, at + 1)
    }
}

/// The fields of a report.
pub open spec fn fields_of(s: Seq<char>) -> Seq<Seq<char>> {
    fields_from(s, 0, 0)
}

/// The values of a list of texts.
pub open spec fn texts_of(fields: Seq<String>) -> Seq<Seq<char>> {
    fields.map_values(|f: String| f@)
}

/// Splits a report into its fields.
pub fn split_fields(response: &str) -> (fields: Vec<String>)
    ensures
        texts_of(fields@) == fields_of(response@),
        fields.len() >= 1,
{
    let chars = chars_of(response);
    let n = chars.len();
    let mut fields: Vec<String> = Vec::new();
    let mut start: usize = 0;
    let mut at: usize = 0;
    assert(texts_of(fields@) + fields_from(chars@, 0, 0) =~= fields_of(response@));
    while at < n
        invariant
            start <= at <= n,
            n == chars.len(),
            chars@ == response@,
            texts_of(fields@) + fields_from(chars@, start as int, at as int) == fields_of(
                response@,
            ),
        decreases n - at,
    {
        if at + 1 < n && chars[at] == '|' && chars[at + 1] == '|' {
            let ghost before = texts_of(fields@);
            let ghost rest = fields_from(chars@, at + 2, at + 2);
            let field = string_of(&chars, start, at);
            fields.push(field);
            assert(texts_of(fields@) =~= before.push(field@));
            assert(before.push(field@) + rest =~= before + (seq![field@] + rest));
            at += 2;
            start = at;
        } else {
            at += 1;
        }
    }
    let ghost before = texts_of(fields@);
    let field = string_of(&chars, start, n);
    fields.push(field);
    assert(texts_of(fields@) =~= before + seq![field@]);
    fields
}

/// The fields of a report that names a track, with the two times still as
/// the player wrote them.
#[derive(Debug, Clone, PartialEq, Eq)]
pub struct RawTrack {
    pub name: String,
    pub artist: String,
    pub album: String,
    pub duration: String,
    pub position: String,
    pub is_playing: bool,
}

/// The least number of fields in a report.
pub const REPORT_FIELDS: usize = 6;

/// The text of the error for a report with too few fields.
pub open spec fn too_few_fields_text(response: Seq<char>) -> Seq<char> {
    "Expected 6 fields, got "@ + decimal(fields_of(response).len()) + ": "@ + response
}

/// Reads the player's report. A report with fewer than six fields is a
/// parse error that names their number and quotes the report; one whose
/// first field is `stopped` means that nothing plays; any other yields its
/// first six fields, the last one read as true only where it is `true`.
pub fn parse_track_response(response: &str) -> (r: Result<RawTrack, AppleMusicError>)
    ensures
        match r {
            Ok(raw) => {
                let fields = fields_of(response@);
                &&& fields.len() >= REPORT_FIELDS
                &&& fields[0] != "stopped"@
                &&& raw.name@ == fields[0]
                &&& raw.artist@ == fields[1]
                &&& raw.album@ == fields[2]
                &&& raw.duration@ == fields[3]
                &&& raw.position@ == fields[4]
                &&& raw.is_playing == (fields[5] == "true"@)
            },
            Err(AppleMusicError::ParseError(text)) => {
                &&& fields_of(response@).len() < REPORT_FIELDS
                &&& text@ == too_few_fields_text(response@)
            },
            Err(AppleMusicError::AppNotRunning) => {
                &&& fields_of(response@).len() >= REPORT_FIELDS
                &&& fields_of(response@)[0] == "stopped"@
            },
            Err(AppleMusicError::ScriptExecutionFailed(_)) => false,
        },
{
    let fields = split_fields(response);
    proof {
        assert forall|i: int| 0 <= i < fields@.len() implies #[trigger] texts_of(fields@)[i]
            == fields@[i]@ by {}
    }
    if fields.len() < REPORT_FIELDS {
        let mut text = "Expected 6 fields, got ".to_owned();
        text.append(decimal_string(fields.len()).as_str());
        text.append(": ");
        text.append(response);
        return Err(AppleMusicError::ParseError(text));
    }
    if fields[0] == "stopped".to_owned() {
        return Err(AppleMusicError::AppNotRunning);
    }
    Ok(
        RawTrack {
            name: fields[0].clone(),
            artist: fields[1].clone(),
            album: fields[2].clone(),
            duration: fields[3].clone(),
            position: fields[4].clone(),
            is_playing: fields[5] == "true".to_owned(),
        },
    )
}

} // verus!
