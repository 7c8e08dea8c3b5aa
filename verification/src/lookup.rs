//! The external artwork lookup: the request that is sent and what is made
//! of the answer.

use vstd::prelude::*;
use vstd::string::*;
use vstd::utf8::encode_utf8;
use crate::text::{
    encoded_bytes, has_prefix, is_whitespace_char, lemma_skip_whitespace,
    lemma_skip_whitespace_back, replace_all, replaced, skip_whitespace_back, trim, trimmed,
    urlencode,
};
use crate::track::text_of;

verus! {

/// How long a lookup may take before it counts as failed, in seconds.
pub const LOOKUP_TIMEOUT_SECS: u64 = 10;

/// The search term for an artist and an album: the artist alone where the
/// album is blank, else the artist, a space, and the album without the white
/// space at its ends.
pub open spec fn query_of(artist: Seq<char>, album: Seq<char>) -> Seq<char> {
    if trimmed(album).len() == 0 {
        artist
    } else {
        artist + seq![' '] + trimmed(album)
    }
}

/// Where neither the artist nor the album begins with white space and the
/// album is not blank, the search term is the artist, a space and the album,
/// trimmed as a whole.
pub proof fn lemma_query_is_the_trimmed_term(artist: Seq<char>, album: Seq<char>)
    requires
        artist.len() > 0,
        !is_whitespace_char(artist.first()),
        trimmed(album).len() > 0,
        !is_whitespace_char(album.first()),
    ensures
        query_of(artist, album) == trimmed(artist + seq![' '] + album),
{
    let term = artist + seq![' '] + album;
    let offset = artist.len() + 1;
    lemma_skip_whitespace(album, 0);
    lemma_skip_whitespace_back(album, album.len() as int);
    lemma_skip_whitespace(term, 0);
    lemma_skip_whitespace_back(term, term.len() as int);
    let b = skip_whitespace_back(album, album.len() as int);
    let j = skip_whitespace_back(term, term.len() as int);
    assert(term[0] == artist[0]);
    assert forall|k: int| offset + b <= k < term.len() implies is_whitespace_char(
        #[trigger] term[k],
    ) by {
        assert(term[k] == album[k - offset]);
    }
    assert(term[offset + b - 1] == album[b - 1]);
    if j > offset + b {
        assert(is_whitespace_char(term[j - 1]));
    }
    if j < offset + b {
        assert(is_whitespace_char(term[offset + b - 1]));
    }
    assert(term.subrange(0, j) =~= artist + seq![' '] + album.subrange(0, b));
}

/// Builds the search term for an artist and an album.
pub fn search_query(artist: &str, album: &str) -> (query: String)
    ensures
        query@ == query_of(artist@, album@),
{
    let album_trimmed = trim(album);
    let mut query = artist.to_owned();
    if album_trimmed.unicode_len() == 0 {
        query
    } else {
        query.push(' ');
        query.append(album_trimmed);
        assert(query@ =~= artist@ + seq![' '] + album_trimmed@);
        query
    }
}

/// The address of the lookup for an artist and an album: the endpoint, the
/// percent-encoded search term, and the request for one album.
pub open spec fn lookup_url_of(artist: Seq<char>, album: Seq<char>) -> Seq<char> {
    "https://itunes.apple.com/search?term="@ + encoded_bytes(
        encode_utf8(query_of(artist, album)),
    ) + "&media=music&entity=album&limit=1"@
}

/// Builds the address of the lookup for an artist and an album.
pub fn lookup_url(artist: &str, album: &str) -> (url: String)
    ensures
        url@ == lookup_url_of(artist@, album@),
{
    let query = search_query(artist, album);
    let term = urlencode(query.as_str());
    let mut url = "https://itunes.apple.com/search?term=".to_owned();
    url.append(term.as_str());
    url.append("&media=music&entity=album&limit=1");
    url
}

/// What came back from a lookup. A result may lack its artwork field.
#[derive(Debug, Clone, PartialEq, Eq)]
pub enum LookupResponse {
    /// The request failed or timed out.
    TransportFailed,
    /// The body was not the expected document.
    Undecodable,
    /// The artwork field of each result, in order.
    Results(Vec<Option<String>>),
}

/// The artwork address that the first result names, if there is a first
/// result and it names one.
pub open spec fn first_artwork(response: LookupResponse) -> Option<Seq<char>> {
    match response {
        LookupResponse::Results(results) => if results@.len() > 0 {
            text_of(results@[0])
        } else {
            None
        },
        _ => None,
    }
}

/// The size token of the small artwork.
pub open spec fn small_size_token() -> Seq<char> {
    "100x100"@
}

/// The size token of the large artwork.
pub open spec fn large_size_token() -> Seq<char> {
    "512x512"@
}

/// An artwork address with every small size token replaced by the large one.
pub open spec fn upscaled(url: Seq<char>) -> Seq<char> {
    replaced(url, small_size_token(), large_size_token())
}

/// Turns the address of the small artwork into that of the large one.
pub fn upscale(url: &str) -> (r: String)
    ensures
        r@ == upscaled(url@),
{
    proof {
        reveal_strlit("100x100");
    }
    replace_all(url, "100x100", "512x512")
}

/// The artwork that a lookup found: the first result's address, upscaled.
/// Every failure, an empty result list and a missing field all mean that
/// there is none.
pub open spec fn artwork_of(response: LookupResponse) -> Option<Seq<char>> {
    match first_artwork(response) {
        Some(url) => Some(upscaled(url)),
        None => None,
    }
}

/// Reads the artwork address out of a lookup's answer.
pub fn artwork_from_response(response: &LookupResponse) -> (r: Option<String>)
    ensures
        text_of(r) == artwork_of(*response),
{
    match response {
        LookupResponse::Results(results) => {
            if results.len() == 0 {
                None
            } else {
                match &results[0] {
                    Some(url) => Some(upscale(url.as_str())),
                    None => None,
                }
            }
        },
        _ => None,
    }
}

/// Whether `pat` occurs in `s` at some place.
pub open spec fn occurs_in(s: Seq<char>, pat: Seq<char>) -> bool {
    exists|i: int| 0 <= i <= s.len() && #[trigger] has_prefix(s.skip(i), pat)
}

/// A text in which `from` does not occur is left as it is.
pub proof fn lemma_replaced_without_occurrence(s: Seq<char>, from: Seq<char>, to: Seq<char>)
    requires
        from.len() > 0,
        !occurs_in(s, from),
    ensures
        replaced(s, from, to) == s,
    decreases s.len(),
{
    if s.len() > 0 {
        assert(s.skip(0) =~= s);
        assert(!has_prefix(s.skip(0), from));
        let rest = s.skip(1);
        assert forall|i: int| 0 <= i <= rest.len() implies !#[trigger] has_prefix(
            rest.skip(i),
            from,
        ) by {
            assert(rest.skip(i) =~= s.skip(i + 1));
            assert(!has_prefix(s.skip(i + 1), from));
        }
        lemma_replaced_without_occurrence(rest, from, to);
        assert(seq![s[0]] + rest =~= s);
    }
}

/// Where `from` stands once in a text, after `before` and in front of
/// `after`, with no occurrence that begins earlier and none in `after`, the
/// replacement changes that one place and nothing else.
pub proof fn lemma_replaced_single_occurrence(
    before: Seq<char>,
    after: Seq<char>,
    from: Seq<char>,
    to: Seq<char>,
)
    requires
        from.len() > 0,
        forall|i: int|
            0 <= i < before.len() ==> !#[trigger] has_prefix((before + from + after).skip(i), from),
        !occurs_in(after, from),
    ensures
        replaced(before + from + after, from, to) == before + to + after,
    decreases before.len(),
{
    let s = before + from + after;
    if before.len() == 0 {
        assert(s.take(from.len() as int) =~= from);
        assert(s.skip(from.len() as int) =~= after);
        lemma_replaced_without_occurrence(after, from, to);
        assert(to + after =~= before + to + after);
    } else {
        assert(s.skip(0) =~= s);
        assert(!has_prefix(s.skip(0), from));
        let shorter = before.skip(1);
        assert(s.skip(1) =~= shorter + from + after);
        assert forall|i: int| 0 <= i < shorter.len() implies !#[trigger] has_prefix(
            (shorter + from + after).skip(i),
            from,
        ) by {
            assert((shorter + from + after).skip(i) =~= s.skip(i + 1));
            assert(!has_prefix(s.skip(i + 1), from));
        }
        lemma_replaced_single_occurrence(shorter, after, from, to);
        assert(seq![s[0]] + (shorter + to + after) =~= before + to + after);
    }
}

/// Upscaling keeps the length of an address: the two size tokens are equally
/// long.
pub proof fn lemma_upscaled_keeps_length(url: Seq<char>)
    ensures
        upscaled(url).len() == url.len(),
{
    reveal_strlit("100x100");
    reveal_strlit("512x512");
    lemma_replaced_keeps_length(url, small_size_token(), large_size_token());
}

/// A replacement by a text of the same length keeps the length.
pub proof fn lemma_replaced_keeps_length(s: Seq<char>, from: Seq<char>, to: Seq<char>)
    requires
        from.len() > 0,
        from.len() == to.len(),
    ensures
        replaced(s, from, to).len() == s.len(),
    decreases s.len(),
{
    if s.len() > 0 {
        if has_prefix(s, from) {
            lemma_replaced_keeps_length(s.skip(from.len() as int), from, to);
        } else {
            lemma_replaced_keeps_length(s.skip(1), from, to);
        }
    }
}

/// Whether the place `i` of `s` lies inside an occurrence of `pat`.
pub open spec fn inside_occurrence(s: Seq<char>, pat: Seq<char>, i: int) -> bool {
    exists|k: int| 0 <= k <= i < k + pat.len() && #[trigger] has_prefix(s.skip(k), pat)
}

/// A replacement by a text of the same length changes no character that
/// lies outside every occurrence of the replaced text.
pub proof fn lemma_replaced_changes_only_occurrences(
    s: Seq<char>,
    from: Seq<char>,
    to: Seq<char>,
    i: int,
)
    requires
        from.len() > 0,
        from.len() == to.len(),
        0 <= i < s.len(),
        !inside_occurrence(s, from, i),
    ensures
        replaced(s, from, to).len() == s.len(),
        replaced(s, from, to)[i] == s[i],
    decreases s.len(),
{
    lemma_replaced_keeps_length(s, from, to);
    let m = from.len() as int;
    assert(s.skip(0) =~= s);
    if has_prefix(s, from) {
        let rest = s.skip(m);
        lemma_replaced_keeps_length(rest, from, to);
        if i < m {
            assert(has_prefix(s.skip(0), from));
            assert(false);
        } else {
            assert forall|k: int| 0 <= k <= i - m < k + from.len() implies !#[trigger] has_prefix(
                rest.skip(k),
                from,
            ) by {
                assert(rest.skip(k) =~= s.skip(k + m));
                assert(!has_prefix(s.skip(k + m), from));
            }
            lemma_replaced_changes_only_occurrences(rest, from, to, i - m);
        }
    } else if i > 0 {
        let rest = s.skip(1);
        lemma_replaced_keeps_length(rest, from, to);
        assert forall|k: int| 0 <= k <= i - 1 < k + from.len() implies !#[trigger] has_prefix(
            rest.skip(k),
            from,
        ) by {
            assert(rest.skip(k) =~= s.skip(k + 1));
            assert(!has_prefix(s.skip(k + 1), from));
        }
        lemma_replaced_changes_only_occurrences(rest, from, to, i - 1);
    }
}

/// Upscaling changes no character of an address outside its small size
/// tokens.
pub proof fn lemma_upscaled_changes_only_size_tokens(url: Seq<char>, i: int)
    requires
        0 <= i < url.len(),
        !inside_occurrence(url, small_size_token(), i),
    ensures
        upscaled(url).len() == url.len(),
        upscaled(url)[i] == url[i],
{
    reveal_strlit("100x100");
    reveal_strlit("512x512");
    lemma_replaced_changes_only_occurrences(url, small_size_token(), large_size_token(), i);
}

/// An address that holds the small size token once becomes the same address
/// with the large token in that place: what stands before and after the
/// token is unchanged.
pub proof fn lemma_upscaled_changes_only_size_token(before: Seq<char>, after: Seq<char>)
    requires
        forall|i: int|
            0 <= i < before.len() ==> !#[trigger] has_prefix(
                (before + small_size_token() + after).skip(i),
                small_size_token(),
            ),
        !occurs_in(after, small_size_token()),
    ensures
        upscaled(before + small_size_token() + after) == before + large_size_token() + after,
{
    reveal_strlit("100x100");
    lemma_replaced_single_occurrence(before, after, small_size_token(), large_size_token());
}

} // verus!
