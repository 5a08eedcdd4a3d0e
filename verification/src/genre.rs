//! Genre families for genre-adaptive key profile weights. Genre inference
//! is keyword matching against known genre labels; tracks without genre
//! metadata use the balanced default.
use vstd::prelude::*;
use crate::text::{chars_of, contains, contains_pattern, lowercase_of, to_lowercase};

verus! {

/// The profile family a genre label selects.
#[derive(Debug, Clone, Copy, PartialEq, Eq, Structural)]
pub enum GenreFamily {
    Electronic,
    Classical,
    RockPop,
    HipHop,
    Jazz,
    /// Unknown, empty or absent genre: balanced weights.
    Default,
}

/// Number of keywords that mark each family.
pub open spec fn keyword_count(f: GenreFamily) -> nat {
    match f {
        GenreFamily::Electronic => 17,
        GenreFamily::Classical => 9,
        GenreFamily::RockPop => 9,
        GenreFamily::HipHop => 8,
        GenreFamily::Jazz => 5,
        GenreFamily::Default => 0,
    }
}

/// The `i`-th keyword of a family (lower case).
pub open spec fn keyword(f: GenreFamily, i: int) -> Seq<char> {
    match f {
        GenreFamily::Electronic => {
            if i == 0 { "electronic"@ } else if i == 1 { "edm"@ } else if i == 2 { "house"@ }
            else if i == 3 { "techno"@ } else if i == 4 { "trance"@ } else if i == 5 { "dubstep"@ }
            else if i == 6 { "drum & bass"@ } else if i == 7 { "dnb"@ } else if i == 8 { "garage"@ }
            else if i == 9 { "bass"@ } else if i == 10 { "disco"@ } else if i == 11 { "synth"@ }
            else if i == 12 { "ambient"@ } else if i == 13 { "idm"@ } else if i == 14 { "breakbeat"@ }
            else if i == 15 { "electro"@ } else { "minimal"@ }
        },
        GenreFamily::Classical => {
            if i == 0 { "classical"@ } else if i == 1 { "orchestral"@ } else if i == 2 { "symphony"@ }
            else if i == 3 { "baroque"@ } else if i == 4 { "chamber"@ } else if i == 5 { "opera"@ }
            else if i == 6 { "piano"@ } else if i == 7 { "string quartet"@ } else { "concerto"@ }
        },
        GenreFamily::RockPop => {
            if i == 0 { "rock"@ } else if i == 1 { "pop"@ } else if i == 2 { "indie"@ }
            else if i == 3 { "alternative"@ } else if i == 4 { "punk"@ } else if i == 5 { "metal"@ }
            else if i == 6 { "folk"@ } else if i == 7 { "country"@ } else { "blues"@ }
        },
        GenreFamily::HipHop => {
            if i == 0 { "hip"@ } else if i == 1 { "hop"@ } else if i == 2 { "rap"@ }
            else if i == 3 { "r&b"@ } else if i == 4 { "rnb"@ } else if i == 5 { "soul"@ }
            else if i == 6 { "trap"@ } else { "funk"@ }
        },
        GenreFamily::Jazz => {
            if i == 0 { "jazz"@ } else if i == 1 { "swing"@ } else if i == 2 { "bebop"@ }
            else if i == 3 { "fusion"@ } else { "smooth jazz"@ }
        },
        GenreFamily::Default => Seq::<char>::empty(),
    }
}

/// Whether `genre` contains one of the family's keywords.
pub open spec fn has_keyword(genre: Seq<char>, f: GenreFamily) -> bool {
    exists|i: int| 0 <= i < keyword_count(f) && contains(genre, #[trigger] keyword(f, i))
}

fn keyword_str(f: GenreFamily, i: usize) -> (k: &'static str)
    requires
        i < keyword_count(f),
    ensures
        k@ == keyword(f, i as int),
{
    match f {
        GenreFamily::Electronic => {
            if i == 0 { "electronic" } else if i == 1 { "edm" } else if i == 2 { "house" }
            else if i == 3 { "techno" } else if i == 4 { "trance" } else if i == 5 { "dubstep" }
            else if i == 6 { "drum & bass" } else if i == 7 { "dnb" } else if i == 8 { "garage" }
            else if i == 9 { "bass" } else if i == 10 { "disco" } else if i == 11 { "synth" }
            else if i == 12 { "ambient" } else if i == 13 { "idm" } else if i == 14 { "breakbeat" }
            else if i == 15 { "electro" } else { "minimal" }
        },
        GenreFamily::Classical => {
            if i == 0 { "classical" } else if i == 1 { "orchestral" } else if i == 2 { "symphony" }
            else if i == 3 { "baroque" } else if i == 4 { "chamber" } else if i == 5 { "opera" }
            else if i == 6 { "piano" } else if i == 7 { "string quartet" } else { "concerto" }
        },
        GenreFamily::RockPop => {
            if i == 0 { "rock" } else if i == 1 { "pop" } else if i == 2 { "indie" }
            else if i == 3 { "alternative" } else if i == 4 { "punk" } else if i == 5 { "metal" }
            else if i == 6 { "folk" } else if i == 7 { "country" } else { "blues" }
        },
        GenreFamily::HipHop => {
            if i == 0 { "hip" } else if i == 1 { "hop" } else if i == 2 { "rap" }
            else if i == 3 { "r&b" } else if i == 4 { "rnb" } else if i == 5 { "soul" }
            else if i == 6 { "trap" } else { "funk" }
        },
        GenreFamily::Jazz => {
            if i == 0 { "jazz" } else if i == 1 { "swing" } else if i == 2 { "bebop" }
            else if i == 3 { "fusion" } else { "smooth jazz" }
        },
        GenreFamily::Default => "",
    }
}

fn keyword_total(f: GenreFamily) -> (n: usize)
    ensures
        n == keyword_count(f),
{
    match f {
        GenreFamily::Electronic => 17,
        GenreFamily::Classical => 9,
        GenreFamily::RockPop => 9,
        GenreFamily::HipHop => 8,
        GenreFamily::Jazz => 5,
        GenreFamily::Default => 0,
    }
}

fn matches_family(genre: &Vec<char>, f: GenreFamily) -> (r: bool)
    ensures
        r == has_keyword(genre@, f),
{
    let n = keyword_total(f);
    let mut i: usize = 0;
    while i < n
        invariant
            n == keyword_count(f),
            i <= n,
            forall|j: int| 0 <= j < i ==> !contains(genre@, #[trigger] keyword(f, j)),
        decreases n - i,
    {
        let k = chars_of(keyword_str(f, i));
        if contains_pattern(genre, &k) {
            assert(contains(genre@, keyword(f, i as int)));
            return true;
        }
        i = i + 1;
    }
    false
}

/// Whether a (lower-cased) genre label names an electronic genre.
pub fn is_electronic(genre: &str) -> (r: bool)
    ensures
        r == has_keyword(genre@, GenreFamily::Electronic),
{
    matches_family(&chars_of(genre), GenreFamily::Electronic)
}

/// Whether a (lower-cased) genre label names a classical genre.
pub fn is_classical(genre: &str) -> (r: bool)
    ensures
        r == has_keyword(genre@, GenreFamily::Classical),
{
    matches_family(&chars_of(genre), GenreFamily::Classical)
}

/// Whether a (lower-cased) genre label names a rock or pop genre.
pub fn is_rock_pop(genre: &str) -> (r: bool)
    ensures
        r == has_keyword(genre@, GenreFamily::RockPop),
{
    matches_family(&chars_of(genre), GenreFamily::RockPop)
}

/// Whether a (lower-cased) genre label names a hip-hop or R&B genre.
pub fn is_hip_hop(genre: &str) -> (r: bool)
    ensures
        r == has_keyword(genre@, GenreFamily::HipHop),
{
    matches_family(&chars_of(genre), GenreFamily::HipHop)
}

/// Whether a (lower-cased) genre label names a jazz genre.
pub fn is_jazz(genre: &str) -> (r: bool)
    ensures
        r == has_keyword(genre@, GenreFamily::Jazz),
{
    matches_family(&chars_of(genre), GenreFamily::Jazz)
}

/// The family a lower-cased genre label selects: the first of electronic,
/// classical, rock/pop, hip-hop and jazz whose keywords it contains.
pub open spec fn family_of_lowercase(g: Seq<char>) -> GenreFamily {
    if has_keyword(g, GenreFamily::Electronic) {
        GenreFamily::Electronic
    } else if has_keyword(g, GenreFamily::Classical) {
        GenreFamily::Classical
    } else if has_keyword(g, GenreFamily::RockPop) {
        GenreFamily::RockPop
    } else if has_keyword(g, GenreFamily::HipHop) {
        GenreFamily::HipHop
    } else if has_keyword(g, GenreFamily::Jazz) {
        GenreFamily::Jazz
    } else {
        GenreFamily::Default
    }
}

/// The family selected by optional genre metadata: absent or empty gives
/// the default; otherwise the label is lower-cased and matched.
pub open spec fn genre_family_spec(genre: Option<Seq<char>>) -> GenreFamily {
    match genre {
        Some(g) => if g.len() == 0 {
            GenreFamily::Default
        } else {
            family_of_lowercase(lowercase_of(g))
        },
        None => GenreFamily::Default,
    }
}

/// Select the key-profile family for a track's genre metadata.
pub fn genre_family(genre: Option<&str>) -> (f: GenreFamily)
    ensures
        f == genre_family_spec(match genre {
            Some(g) => Some(g@),
            None => None,
        }),
{
    match genre {
        Some(g) => {
            if g.unicode_len() == 0 {
                return GenreFamily::Default;
            }
            let lower = to_lowercase(g);
            let v = chars_of(lower.as_str());
            if matches_family(&v, GenreFamily::Electronic) {
                GenreFamily::Electronic
            } else if matches_family(&v, GenreFamily::Classical) {
                GenreFamily::Classical
            } else if matches_family(&v, GenreFamily::RockPop) {
                GenreFamily::RockPop
            } else if matches_family(&v, GenreFamily::HipHop) {
                GenreFamily::HipHop
            } else if matches_family(&v, GenreFamily::Jazz) {
                GenreFamily::Jazz
            } else {
                GenreFamily::Default
            }
        },
        None => GenreFamily::Default,
    }
}

} // verus!
