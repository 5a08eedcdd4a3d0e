//! Filename parsing for metadata repair: pulls artist and title out of
//! common track filename patterns when no language model is available.
use vstd::prelude::*;
use crate::text::{
    char_is_numeric, chars_equal, chars_of, find, find_from, find_pattern, lemma_trim_start_skip,
    numeric_char, rfind_char, rfind_char_in, rfind_char_upto, string_of_range, sub_vec, trim,
    trim_range, trim_start_by,
};

verus! {

/// The filename without its extension (everything before the last '.').
pub open spec fn stem_of(f: Seq<char>) -> Seq<char> {
    match rfind_char(f, '.') {
        Some(i) => f.subrange(0, i),
        None => f,
    }
}

/// The separator of "Artist - Title".
pub open spec fn dash_separator() -> Seq<char> {
    seq![' ', '-', ' ']
}

/// The separator of "Artist_-_Title".
pub open spec fn underscore_separator() -> Seq<char> {
    seq!['_', '-', '_']
}

/// Where the artist/title separator starts: the first " - ", or failing
/// that the first "_-_".
pub open spec fn separator_at(stem: Seq<char>) -> Option<int> {
    match find(stem, dash_separator()) {
        Some(i) => Some(i),
        None => find(stem, underscore_separator()),
    }
}

/// Characters of a track number in front of an artist.
pub open spec fn is_track_number_char(c: char) -> bool {
    numeric_char(c) || c == ' '
}

pub open spec fn track_number_pred() -> spec_fn(char) -> bool {
    |c: char| is_track_number_char(c)
}

/// The artist without a leading track number: the whole leading run of
/// numeric characters and spaces is removed, and the rest trimmed.
pub open spec fn strip_track_number(a: Seq<char>) -> Seq<char> {
    trim(trim_start_by(a, track_number_pred()))
}

/// Characters removed from the front of a title that has no artist.
pub open spec fn is_number_prefix_char(c: char) -> bool {
    numeric_char(c) || c == '_' || c == ' ' || c == '.'
}

pub open spec fn number_prefix_pred() -> spec_fn(char) -> bool {
    |c: char| is_number_prefix_char(c)
}

/// (artist, title) parsed from a filename: "Artist - Title.ext",
/// "Artist_-_Title.ext" and "01 Artist - Title.ext" give an artist and a
/// title; anything else gives an empty artist and the stem without its
/// leading digits, underscores, spaces and dots.
pub open spec fn parse_filename(f: Seq<char>) -> (Seq<char>, Seq<char>) {
    let stem = stem_of(f);
    match separator_at(stem) {
        Some(i) => (
            strip_track_number(trim(stem.subrange(0, i))),
            trim(stem.subrange(i + 3, stem.len() as int)),
        ),
        None => (Seq::<char>::empty(), trim_start_by(stem, number_prefix_pred())),
    }
}

fn separator_chars(first: char) -> (v: Vec<char>)
    ensures
        v@ == seq![first, '-', first],
{
    let mut v: Vec<char> = Vec::new();
    v.push(first);
    v.push('-');
    v.push(first);
    assert(v@ =~= seq![first, '-', first]);
    v
}

/// Index of the first character of `v[lo..hi]` that is not a number-prefix
/// character.
fn skip_number_prefix(v: &Vec<char>, lo: usize, hi: usize) -> (k: usize)
    requires
        lo <= hi <= v@.len(),
    ensures
        lo <= k <= hi,
        trim_start_by(v@.subrange(lo as int, hi as int), number_prefix_pred()) == v@.subrange(
            k as int,
            hi as int,
        ),
{
    let ghost s = v@.subrange(lo as int, hi as int);
    let mut k = lo;
    while k < hi && (char_is_numeric(v[k]) || v[k] == '_' || v[k] == ' ' || v[k] == '.')
        invariant
            lo <= k <= hi,
            hi <= v@.len(),
            s == v@.subrange(lo as int, hi as int),
            forall|i: int| 0 <= i < k - lo ==> is_number_prefix_char(#[trigger] s[i]),
        decreases hi - k,
    {
        assert(s[k - lo] == v@[k as int]);
        k = k + 1;
    }
    proof {
        let p = number_prefix_pred();
        assert forall|i: int| 0 <= i < k - lo implies p(#[trigger] s[i]) by {}
        lemma_trim_start_skip(s, p, k - lo);
        assert(s.subrange(k - lo, s.len() as int) =~= v@.subrange(k as int, hi as int));
        let rest = v@.subrange(k as int, hi as int);
        if rest.len() > 0 {
            assert(rest[0] == v@[k as int]);
        }
    }
    k
}

/// Index of the first character of `v[lo..hi]` that is neither numeric nor
/// a space.
fn skip_track_number(v: &Vec<char>, lo: usize, hi: usize) -> (k: usize)
    requires
        lo <= hi <= v@.len(),
    ensures
        lo <= k <= hi,
        trim_start_by(v@.subrange(lo as int, hi as int), track_number_pred()) == v@.subrange(
            k as int,
            hi as int,
        ),
{
    let ghost s = v@.subrange(lo as int, hi as int);
    let mut k = lo;
    while k < hi && (char_is_numeric(v[k]) || v[k] == ' ')
        invariant
            lo <= k <= hi,
            hi <= v@.len(),
            s == v@.subrange(lo as int, hi as int),
            forall|i: int| 0 <= i < k - lo ==> is_track_number_char(#[trigger] s[i]),
        decreases hi - k,
    {
        assert(s[k - lo] == v@[k as int]);
        k = k + 1;
    }
    proof {
        let p = track_number_pred();
        assert forall|i: int| 0 <= i < k - lo implies p(#[trigger] s[i]) by {}
        lemma_trim_start_skip(s, p, k - lo);
        assert(s.subrange(k - lo, s.len() as int) =~= v@.subrange(k as int, hi as int));
        let rest = v@.subrange(k as int, hi as int);
        if rest.len() > 0 {
            assert(rest[0] == v@[k as int]);
        }
    }
    k
}

/// Simple filename parser: extracts (artist, title) from common patterns.
/// Used as a fallback when the language model is not available.
pub fn parse_filename_simple(filename: &str) -> (r: (String, String))
    ensures
        r.0@ == parse_filename(filename@).0,
        r.1@ == parse_filename(filename@).1,
{
    let v = chars_of(filename);
    let stem_end = match rfind_char_in(&v, '.') {
        Some(i) => i,
        None => v.len(),
    };
    proof {
        match rfind_char(v@, '.') {
            Some(i) => {
                lemma_rfind_char_in_range(v@, '.', v@.len() as int);
            },
            None => {},
        }
    }
    let stem = sub_vec(&v, 0, stem_end);
    assert(stem@ == stem_of(filename@)) by {
        if rfind_char(v@, '.') is None {
            assert(v@.subrange(0, v@.len() as int) =~= v@);
        }
    }
    let dash = separator_chars(' ');
    let underscore = separator_chars('_');
    let sep = match find_pattern(&stem, &dash) {
        Some(i) => Some(i),
        None => find_pattern(&stem, &underscore),
    };
    match sep {
        Some(i) => {
            proof {
                lemma_find_in_range(stem@, if find(stem@, dash@) is Some { dash@ } else { underscore@ });
            }
            let (a0, a1) = trim_range(&stem, 0, i);
            let k = skip_track_number(&stem, a0, a1);
            let (b0, b1) = trim_range(&stem, k, a1);
            let artist = string_of_range(&stem, b0, b1);
            let (t0, t1) = trim_range(&stem, i + 3, stem.len());
            (artist, string_of_range(&stem, t0, t1))
        },
        None => {
            let k = skip_number_prefix(&stem, 0, stem.len());
            assert(stem@.subrange(0, stem@.len() as int) =~= stem@);
            (String::new(), string_of_range(&stem, k, stem.len()))
        },
    }
}

/// A found pattern lies inside the sequence.
pub proof fn lemma_find_in_range(s: Seq<char>, pat: Seq<char>)
    ensures
        find(s, pat) matches Some(i) ==> 0 <= i && i + pat.len() <= s.len(),
{
    lemma_find_from_in_range(s, pat, 0);
}

proof fn lemma_find_from_in_range(s: Seq<char>, pat: Seq<char>, from: int)
    ensures
        find_from(s, pat, from) matches Some(i) ==> from <= i && 0 <= i && i + pat.len() <= s.len(),
    decreases s.len() - from,
{
    if from < 0 || from + pat.len() > s.len() {
    } else if s.subrange(from, from + pat.len()) == pat {
    } else if from >= s.len() {
    } else {
        lemma_find_from_in_range(s, pat, from + 1);
    }
}

/// A found character lies inside the searched prefix.
pub proof fn lemma_rfind_char_in_range(s: Seq<char>, c: char, upto: int)
    ensures
        rfind_char_upto(s, c, upto) matches Some(i) ==> 0 <= i < upto,
    decreases upto,
{
    if upto <= 0 {
    } else if s[upto - 1] == c {
    } else {
        lemma_rfind_char_in_range(s, c, upto - 1);
    }
}

/// Whether an optional field counts as missing: absent or empty.
pub open spec fn field_missing(f: Option<Seq<char>>) -> bool {
    match f {
        Some(s) => s.len() == 0,
        None => true,
    }
}

/// Whether a track needs metadata repair: its artist is missing or
/// "Unknown Artist", or its title or genre is missing.
pub open spec fn needs_repair_spec(
    title: Option<Seq<char>>,
    artist: Option<Seq<char>>,
    genre: Option<Seq<char>>,
) -> bool {
    let artist_missing = match artist {
        Some(a) => a.len() == 0 || a == "Unknown Artist"@,
        None => true,
    };
    artist_missing || field_missing(title) || field_missing(genre)
}

pub open spec fn opt_view(o: Option<String>) -> Option<Seq<char>> {
    match o {
        Some(s) => Some(s@),
        None => None,
    }
}

/// Whether a track with these fields needs metadata repair.
pub fn needs_repair(title: &Option<String>, artist: &Option<String>, genre: &Option<String>) -> (r: bool)
    ensures
        r == needs_repair_spec(opt_view(*title), opt_view(*artist), opt_view(*genre)),
{
    let artist_missing = match artist {
        Some(a) => {
            let av = chars_of(a.as_str());
            let unknown = chars_of("Unknown Artist");
            av.len() == 0 || chars_equal(&av, &unknown)
        },
        None => true,
    };
    let title_missing = match title {
        Some(t) => t.as_str().unicode_len() == 0,
        None => true,
    };
    let genre_missing = match genre {
        Some(g) => g.as_str().unicode_len() == 0,
        None => true,
    };
    artist_missing || title_missing || genre_missing
}

/// A track needs repair exactly when one of its fields is unusable: the
/// genre or the title is absent or empty, or the artist is absent, empty
/// or the placeholder "Unknown Artist". In particular a track with no
/// genre tag needs repair whatever its title and artist.
pub proof fn law_needs_repair_when_a_field_is_missing(
    title: Option<Seq<char>>,
    artist: Option<Seq<char>>,
    genre: Option<Seq<char>>,
)
    ensures
        genre is None ==> needs_repair_spec(title, artist, genre),
        genre == Some(Seq::<char>::empty()) ==> needs_repair_spec(title, artist, genre),
        title is None ==> needs_repair_spec(title, artist, genre),
        title == Some(Seq::<char>::empty()) ==> needs_repair_spec(title, artist, genre),
        artist is None ==> needs_repair_spec(title, artist, genre),
        artist == Some(Seq::<char>::empty()) ==> needs_repair_spec(title, artist, genre),
        artist == Some("Unknown Artist"@) ==> needs_repair_spec(title, artist, genre),
        (title matches Some(t) && t.len() > 0) && (genre matches Some(g) && g.len() > 0) && (
        artist matches Some(a) && a.len() > 0 && a != "Unknown Artist"@) ==> !needs_repair_spec(
            title,
            artist,
            genre,
        ),
{
    if genre == Some(Seq::<char>::empty()) {
        assert(genre->0.len() == 0);
    }
    if title == Some(Seq::<char>::empty()) {
        assert(title->0.len() == 0);
    }
    if artist == Some(Seq::<char>::empty()) {
        assert(artist->0.len() == 0);
    }
}

} // verus!
