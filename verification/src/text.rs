//! Text handling shared by the cache and the payload builder.

use vstd::prelude::*;
use vstd::string::*;

verus! {

/// `String::push` of the standard library: the character is appended to the
/// string and nothing else changes.
pub assume_specification[ String::push ](s: &mut String, ch: char)
    ensures
        final(s)@ == old(s)@.push(ch),
;

/// The characters of `s`, in order.
pub fn chars_of(s: &str) -> (out: Vec<char>)
    ensures
        out@ == s@,
{
    let mut out: Vec<char> = Vec::new();
    for c in it: s.chars()
        invariant
            it.seq() == s@,
            out@ == s@.take(it.index()),
    {
        out.push(c);
        assert(out@ =~= s@.take(it.index() + 1));
    }
    assert(out@ =~= s@);
    out
}

/// The string made of the characters `chars[from..to]`.
pub fn string_of(chars: &Vec<char>, from: usize, to: usize) -> (out: String)
    requires
        from <= to <= chars.len(),
    ensures
        out@ == chars@.subrange(from as int, to as int),
{
    let mut out = String::new();
    let mut i: usize = from;
    while i < to
        invariant
            from <= i <= to <= chars.len(),
            out@ == chars@.subrange(from as int, i as int),
        decreases to - i,
    {
        out.push(chars[i]);
        i += 1;
        assert(out@ =~= chars@.subrange(from as int, i as int));
    }
    out
}

/// `s` cut to its first `max_len` characters.
pub open spec fn truncated(s: Seq<char>, max_len: nat) -> Seq<char> {
    if s.len() <= max_len {
        s
    } else {
        s.take(max_len as int)
    }
}

/// Cuts `s` to at most `max_len` characters, counted as characters and not
/// as bytes.
pub fn truncate(s: &str, max_len: usize) -> (r: &str)
    ensures
        r@ == truncated(s@, max_len as nat),
        r@.len() <= max_len,
{
    let n = s.unicode_len();
    if n <= max_len {
        s
    } else {
        s.substring_char(0, max_len)
    }
}

/// The character that marks a shortened label.
pub const ELLIPSIS: char = '\u{2026}';

/// `text` as a menu label of at most `max_len` characters: unchanged where it
/// fits, else its first `max_len - 1` characters and an ellipsis.
pub open spec fn tray_label(text: Seq<char>, max_len: nat) -> Seq<char> {
    if text.len() <= max_len {
        text
    } else if max_len == 0 {
        seq![ELLIPSIS]
    } else {
        text.take(max_len - 1).push(ELLIPSIS)
    }
}

/// Shortens a menu label to `max_len` characters, ending a shortened one with
/// an ellipsis.
pub fn truncate_tray_label(text: &str, max_len: usize) -> (r: String)
    ensures
        r@ == tray_label(text@, max_len as nat),
        max_len > 0 ==> r@.len() <= max_len,
{
    let n = text.unicode_len();
    if n <= max_len {
        return text.to_owned();
    }
    let keep: usize = if max_len == 0 { 0 } else { max_len - 1 };
    let mut out = text.substring_char(0, keep).to_owned();
    out.push(ELLIPSIS);
    proof {
        assert(text@.take(0) =~= Seq::<char>::empty());
        assert(Seq::<char>::empty().push(ELLIPSIS) =~= seq![ELLIPSIS]);
    }
    out
}

/// Whether a byte passes through percent-encoding unchanged: an ASCII letter
/// or digit, `-`, `_`, `.` or `~`.
pub open spec fn is_unreserved(b: u8) -> bool {
    ||| 0x41 <= b <= 0x5A
    ||| 0x61 <= b <= 0x7A
    ||| 0x30 <= b <= 0x39
    ||| b == 0x2D
    ||| b == 0x5F
    ||| b == 0x2E
    ||| b == 0x7E
}

/// The upper-case hexadecimal digit for a value below sixteen.
pub open spec fn hex_digit_of(n: u8) -> char {
    if n < 10 {
        (0x30 + n) as char
    } else {
        (0x37 + n) as char
    }
}

/// What one byte becomes in a query string.
pub open spec fn encoded_byte(b: u8) -> Seq<char> {
    if is_unreserved(b) {
        seq![b as char]
    } else if b == 0x20 {
        seq!['+']
    } else {
        seq!['%', hex_digit_of(b / 16), hex_digit_of(b % 16)]
    }
}

/// What a run of bytes becomes in a query string: each byte's encoding, in
/// order.
pub open spec fn encoded_bytes(bytes: Seq<u8>) -> Seq<char>
    decreases bytes.len(),
{
    if bytes.len() == 0 {
        Seq::empty()
    } else {
        encoded_bytes(bytes.drop_last()) + encoded_byte(bytes.last())
    }
}

/// Whether a character may stand in an encoded query string.
pub open spec fn is_query_char(c: char) -> bool {
    ||| 'A' <= c <= 'Z'
    ||| 'a' <= c <= 'z'
    ||| '0' <= c <= '9'
    ||| c == '-'
    ||| c == '_'
    ||| c == '.'
    ||| c == '~'
    ||| c == '+'
    ||| c == '%'
}

/// An encoded query string holds nothing but unreserved characters, `+` and
/// `%` escapes.
pub proof fn lemma_encoded_bytes_are_query_chars(bytes: Seq<u8>)
    ensures
        forall|i: int| 0 <= i < encoded_bytes(bytes).len() ==> is_query_char(#[trigger] encoded_bytes(bytes)[i]),
    decreases bytes.len(),
{
    if bytes.len() > 0 {
        lemma_encoded_bytes_are_query_chars(bytes.drop_last());
        let b = bytes.last();
        let tail = encoded_byte(b);
        let head = encoded_bytes(bytes.drop_last());
        assert(forall|k: int| 0 <= k < tail.len() ==> is_query_char(#[trigger] tail[k]));
        assert forall|i: int| 0 <= i < encoded_bytes(bytes).len() implies is_query_char(
            #[trigger] encoded_bytes(bytes)[i],
        ) by {
            if i < head.len() {
                assert(encoded_bytes(bytes)[i] == head[i]);
            } else {
                assert(encoded_bytes(bytes)[i] == tail[i - head.len()]);
            }
        }
    }
}

fn hex_digit(n: u8) -> (c: char)
    requires
        n < 16,
    ensures
        c == hex_digit_of(n),
{
    if n < 10 {
        (0x30 + n) as char
    } else {
        (0x37 + n) as char
    }
}

/// Percent-encodes the UTF-8 bytes of `s` for use in a query string: the
/// unreserved bytes pass through, a space becomes `+`, and every other byte
/// becomes `%` and two upper-case hexadecimal digits.
pub fn urlencode(s: &str) -> (out: String)
    ensures
        out@ == encoded_bytes(s.spec_bytes()),
{
    let bytes = s.as_bytes();
    let mut out = String::new();
    let mut i: usize = 0;
    while i < bytes.len()
        invariant
            i <= bytes@.len(),
            bytes@ == s.spec_bytes(),
            out@ == encoded_bytes(bytes@.take(i as int)),
        decreases bytes@.len() - i,
    {
        let b: u8 = bytes[i];
        let ghost before = out@;
        let unreserved = (0x41 <= b && b <= 0x5A) || (0x61 <= b && b <= 0x7A) || (0x30 <= b && b
            <= 0x39) || b == 0x2D || b == 0x5F || b == 0x2E || b == 0x7E;
        if unreserved {
            out.push(b as char);
            assert(out@ =~= before + encoded_byte(b));
        } else if b == 0x20 {
            out.push('+');
            assert(out@ =~= before + encoded_byte(b));
        } else {
            out.push('%');
            out.push(hex_digit(b / 16));
            out.push(hex_digit(b % 16));
            assert(out@ =~= before + encoded_byte(b));
        }
        proof {
            let next = bytes@.take(i + 1);
            assert(next.drop_last() =~= bytes@.take(i as int));
            assert(next.last() == b);
        }
        i += 1;
    }
    assert(bytes@.take(i as int) =~= bytes@);
    out
}

/// Whether `c` is white space: a character with the Unicode property
/// White_Space. These are the controls from tab to carriage return, the
/// space, next line, the no-break space, the ogham space mark, the spaces
/// from en quad to hair space, the line and the paragraph separator, the
/// narrow no-break space, the medium mathematical space and the ideographic
/// space.
pub open spec fn is_whitespace_char(c: char) -> bool {
    ||| '\u{9}' <= c <= '\u{d}'
    ||| c == ' '
    ||| c == '\u{85}'
    ||| c == '\u{a0}'
    ||| c == '\u{1680}'
    ||| '\u{2000}' <= c <= '\u{200a}'
    ||| c == '\u{2028}'
    ||| c == '\u{2029}'
    ||| c == '\u{202f}'
    ||| c == '\u{205f}'
    ||| c == '\u{3000}'
}

/// Decides whether a character is white space.
pub fn is_whitespace(c: char) -> (r: bool)
    ensures
        r == is_whitespace_char(c),
{
    ('\u{9}' <= c && c <= '\u{d}') || c == ' ' || c == '\u{85}' || c == '\u{a0}' || c
        == '\u{1680}' || ('\u{2000}' <= c && c <= '\u{200a}') || c == '\u{2028}' || c
        == '\u{2029}' || c == '\u{202f}' || c == '\u{205f}' || c == '\u{3000}'
}

/// The first index at or after `from` that holds no white space, or the
/// length of `s`.
pub open spec fn skip_whitespace(s: Seq<char>, from: int) -> int
    decreases s.len() - from,
{
    if 0 <= from < s.len() && is_whitespace_char(s[from]) {
        skip_whitespace(s, from + 1)
    } else {
        from
    }
}

/// The end of the last run before `to` that does not end in white space.
pub open spec fn skip_whitespace_back(s: Seq<char>, to: int) -> int
    decreases to,
{
    if 0 < to <= s.len() && is_whitespace_char(s[to - 1]) {
        skip_whitespace_back(s, to - 1)
    } else {
        to
    }
}

/// `s` without the white space at its two ends.
pub open spec fn trimmed(s: Seq<char>) -> Seq<char> {
    let a = skip_whitespace(s, 0);
    let b = skip_whitespace_back(s, s.len() as int);
    if a >= b {
        Seq::empty()
    } else {
        s.subrange(a, b)
    }
}

/// `skip_whitespace` stops at the first character at or after `from` that
/// is no white space, or at the end.
pub proof fn lemma_skip_whitespace(s: Seq<char>, from: int)
    requires
        0 <= from <= s.len(),
    ensures
        from <= skip_whitespace(s, from) <= s.len(),
        forall|i: int| from <= i < skip_whitespace(s, from) ==> is_whitespace_char(#[trigger] s[i]),
        skip_whitespace(s, from) < s.len() ==> !is_whitespace_char(s[skip_whitespace(s, from)]),
    decreases s.len() - from,
{
    if from < s.len() && is_whitespace_char(s[from]) {
        lemma_skip_whitespace(s, from + 1);
    }
}

/// `skip_whitespace_back` stops behind the last character before `to` that
/// is no white space, or at the start.
pub proof fn lemma_skip_whitespace_back(s: Seq<char>, to: int)
    requires
        0 <= to <= s.len(),
    ensures
        0 <= skip_whitespace_back(s, to) <= to,
        forall|i: int|
            skip_whitespace_back(s, to) <= i < to ==> is_whitespace_char(#[trigger] s[i]),
        skip_whitespace_back(s, to) > 0 ==> !is_whitespace_char(s[skip_whitespace_back(s, to) - 1]),
    decreases to,
{
    if to > 0 && is_whitespace_char(s[to - 1]) {
        lemma_skip_whitespace_back(s, to - 1);
    }
}

/// A trimmed text neither begins nor ends with white space, and trimming it
/// again changes nothing.
pub proof fn lemma_trimmed(s: Seq<char>)
    ensures
        trimmed(s).len() <= s.len(),
        trimmed(s).len() > 0 ==> !is_whitespace_char(trimmed(s).first()) && !is_whitespace_char(
            trimmed(s).last(),
        ),
        trimmed(trimmed(s)) == trimmed(s),
{
    lemma_skip_whitespace(s, 0);
    lemma_skip_whitespace_back(s, s.len() as int);
    let t = trimmed(s);
    lemma_skip_whitespace(t, 0);
    lemma_skip_whitespace_back(t, t.len() as int);
    if t.len() > 0 {
        assert(t.subrange(0, t.len() as int) =~= t);
    }
}

/// Removes the white space at the two ends of `s`.
pub fn trim(s: &str) -> (r: &str)
    ensures
        r@ == trimmed(s@),
{
    let chars = chars_of(s);
    let n = chars.len();
    let mut a: usize = 0;
    while a < n && is_whitespace(chars[a])
        invariant
            a <= n,
            n == chars@.len(),
            skip_whitespace(chars@, 0) == skip_whitespace(chars@, a as int),
        decreases n - a,
    {
        a += 1;
    }
    let mut b: usize = n;
    while b > 0 && is_whitespace(chars[b - 1])
        invariant
            b <= n,
            n == chars@.len(),
            skip_whitespace_back(chars@, n as int) == skip_whitespace_back(chars@, b as int),
        decreases b,
    {
        b -= 1;
    }
    if a >= b {
        let r = s.substring_char(0, 0);
        assert(r@ =~= Seq::<char>::empty());
        r
    } else {
        s.substring_char(a, b)
    }
}

/// The lower-case form that `str::to_lowercase` gives a text.
pub uninterp spec fn lowercase_of(s: Seq<char>) -> Seq<char>;

/// `str::to_lowercase` of the standard library: the lower-case form of the
/// text by Unicode's rules, which depends on the text alone.
#[verifier::external_body]
fn lowercase(s: &str) -> (r: String)
    ensures
        r@ == lowercase_of(s@),
{
    s.to_lowercase()
}

/// The form under which a name is compared: lower case, without the white
/// space at its ends.
pub open spec fn normalized(s: Seq<char>) -> Seq<char> {
    trimmed(lowercase_of(s))
}

/// The key made of two texts: the trimmed first, followed by `::` and the
/// trimmed second where that is not empty.
pub open spec fn joined_key(artist: Seq<char>, album: Seq<char>) -> Seq<char> {
    let a = trimmed(artist);
    let b = trimmed(album);
    if b.len() == 0 {
        a
    } else {
        a + seq![':', ':'] + b
    }
}

/// The key under which artwork for an artist and an album is stored: the
/// normalized artist, followed by `::` and the normalized album where that
/// is not empty.
pub open spec fn cache_key_of(artist: Seq<char>, album: Seq<char>) -> Seq<char> {
    joined_key(lowercase_of(artist), lowercase_of(album))
}

/// A text that neither begins nor ends with white space is its own trimmed
/// form.
pub proof fn lemma_trimmed_of_clean_text(s: Seq<char>)
    requires
        s.len() > 0 ==> !is_whitespace_char(s.first()) && !is_whitespace_char(s.last()),
    ensures
        trimmed(s) == s,
{
    if s.len() > 0 {
        assert(s.subrange(0, s.len() as int) =~= s);
    }
}

/// White space around a text that neither begins nor ends with white space
/// is all that trimming removes.
pub proof fn lemma_trimmed_of_padded_text(before: Seq<char>, core: Seq<char>, after: Seq<char>)
    requires
        forall|i: int| 0 <= i < before.len() ==> is_whitespace_char(#[trigger] before[i]),
        forall|i: int| 0 <= i < after.len() ==> is_whitespace_char(#[trigger] after[i]),
        core.len() > 0 ==> !is_whitespace_char(core.first()) && !is_whitespace_char(core.last()),
    ensures
        trimmed(before + core + after) == core,
{
    let s = before + core + after;
    let a = before.len() as int;
    let b = a + core.len();
    lemma_skip_whitespace(s, 0);
    lemma_skip_whitespace_back(s, s.len() as int);
    let i = skip_whitespace(s, 0);
    let j = skip_whitespace_back(s, s.len() as int);
    assert forall|k: int| 0 <= k < a implies is_whitespace_char(#[trigger] s[k]) by {
        assert(s[k] == before[k]);
    }
    assert forall|k: int| b <= k < s.len() implies is_whitespace_char(#[trigger] s[k]) by {
        assert(s[k] == after[k - b]);
    }
    if core.len() > 0 {
        assert(s[a] == core.first());
        assert(s[b - 1] == core.last());
        if i < a {
            assert(is_whitespace_char(s[i]));
        }
        if i > a {
            assert(is_whitespace_char(s[a]));
        }
        if j > b {
            assert(is_whitespace_char(s[j - 1]));
        }
        if j < b {
            assert(is_whitespace_char(s[b - 1]));
        }
        assert(s.subrange(a, b) =~= core);
    } else {
        if i < s.len() {
            assert(is_whitespace_char(s[i]));
        }
        assert(Seq::<char>::empty() =~= core);
    }
}

/// Two artists that are alike but for case and outer white space, with two
/// albums that are so too, share their key.
pub proof fn lemma_cache_key_of_like_names(
    artist: Seq<char>,
    album: Seq<char>,
    other_artist: Seq<char>,
    other_album: Seq<char>,
)
    requires
        normalized(artist) == normalized(other_artist),
        normalized(album) == normalized(other_album),
    ensures
        cache_key_of(artist, album) == cache_key_of(other_artist, other_album),
{
}

/// The key of an artist without an album is the artist's normalized name,
/// which has no white space at its ends.
pub proof fn lemma_cache_key_of_artist_alone(artist: Seq<char>, album: Seq<char>)
    requires
        normalized(album).len() == 0,
    ensures
        cache_key_of(artist, album) == normalized(artist),
        trimmed(cache_key_of(artist, album)) == cache_key_of(artist, album),
{
    lemma_trimmed(lowercase_of(artist));
}

/// Joins two texts that are already in lower case into a key: each is
/// trimmed, and the second follows the first after `::` unless it is blank.
pub fn key_of_lowered(artist: &str, album: &str) -> (key: String)
    ensures
        key@ == joined_key(artist@, album@),
{
    let artist_clean = trim(artist);
    let album_clean = trim(album);
    let mut key = artist_clean.to_owned();
    if album_clean.unicode_len() == 0 {
        key
    } else {
        key.push(':');
        key.push(':');
        key.append(album_clean);
        assert(key@ =~= artist_clean@ + seq![':', ':'] + album_clean@);
        key
    }
}

/// Computes the cache key of an artist and an album.
pub fn cache_key(artist: &str, album: &str) -> (key: String)
    ensures
        key@ == cache_key_of(artist@, album@),
{
    let artist_lower = lowercase(artist);
    let album_lower = lowercase(album);
    key_of_lowered(artist_lower.as_str(), album_lower.as_str())
}

/// Whether `s` begins with `pat`.
pub open spec fn has_prefix(s: Seq<char>, pat: Seq<char>) -> bool {
    pat.len() <= s.len() && s.take(pat.len() as int) == pat
}

/// `s` with every occurrence of `from` replaced by `to`, the occurrences
/// taken from the left and never overlapping.
pub open spec fn replaced(s: Seq<char>, from: Seq<char>, to: Seq<char>) -> Seq<char>
    recommends
        from.len() > 0,
    decreases s.len(),
{
    if from.len() == 0 || s.len() == 0 {
        s
    } else if has_prefix(s, from) {
        to + replaced(s.skip(from.len() as int), from, to)
    } else {
        seq![s[0]] + replaced(s.skip(1), from, to)
    }
}

fn matches_at(text: &Vec<char>, at: usize, pat: &Vec<char>) -> (r: bool)
    requires
        at <= text.len(),
    ensures
        r == has_prefix(text@.skip(at as int), pat@),
{
    let m = pat.len();
    if text.len() - at < m {
        return false;
    }
    let ghost rest = text@.skip(at as int);
    let mut j: usize = 0;
    while j < m
        invariant
            j <= m,
            m == pat.len(),
            at + m <= text.len(),
            rest == text@.skip(at as int),
            forall|k: int| 0 <= k < j ==> text@[at + k] == pat@[k],
        decreases m - j,
    {
        if text[at + j] != pat[j] {
            assert(rest.take(m as int)[j as int] != pat@[j as int]);
            return false;
        }
        j += 1;
    }
    assert(rest.take(m as int) =~= pat@);
    true
}

/// Replaces every occurrence of `from` in `s` by `to`.
pub fn replace_all(s: &str, from: &str, to: &str) -> (out: String)
    requires
        from@.len() > 0,
    ensures
        out@ == replaced(s@, from@, to@),
{
    let text = chars_of(s);
    let pat = chars_of(from);
    let mut out = String::new();
    let mut i: usize = 0;
    assert(text@.skip(0) =~= text@);
    assert(out@ + replaced(s@, from@, to@) =~= replaced(s@, from@, to@));
    while i < text.len()
        invariant
            i <= text.len(),
            text@ == s@,
            pat@ == from@,
            pat@.len() > 0,
            out@ + replaced(text@.skip(i as int), from@, to@) == replaced(s@, from@, to@),
        decreases text.len() - i,
    {
        let ghost rest = text@.skip(i as int);
        let ghost before = out@;
        if matches_at(&text, i, &pat) {
            out.append(to);
            proof {
                let tail = replaced(rest.skip(pat@.len() as int), from@, to@);
                assert(rest.skip(pat@.len() as int) =~= text@.skip(i + pat@.len()));
                assert((before + to@) + tail =~= before + (to@ + tail));
            }
            i += pat.len();
        } else {
            out.push(text[i]);
            proof {
                let tail = replaced(rest.skip(1), from@, to@);
                assert(rest.skip(1) =~= text@.skip(i + 1));
                assert(before.push(rest[0]) + tail =~= before + (seq![rest[0]] + tail));
            }
            i += 1;
        }
    }
    assert(out@ + Seq::<char>::empty() =~= out@);
    out
}

} // verus!
