//! The canonical 24-key vocabulary (indices 0-11 major, 12-23 minor, tonic
//! C, C#, ..., B), its Camelot labels, and the harmonic compatibility
//! between two keys.
use vstd::prelude::*;
use crate::repair::nat_text;

verus! {

/// Number of keys in the vocabulary.
pub const KEY_COUNT: usize = 24;

/// Standard name of key `i`.
pub open spec fn key_name(i: int) -> Seq<char> {
    if i == 0 { "C major"@ } else if i == 1 { "C# major"@ } else if i == 2 { "D major"@ }
    else if i == 3 { "D# major"@ } else if i == 4 { "E major"@ } else if i == 5 { "F major"@ }
    else if i == 6 { "F# major"@ } else if i == 7 { "G major"@ } else if i == 8 { "G# major"@ }
    else if i == 9 { "A major"@ } else if i == 10 { "A# major"@ } else if i == 11 { "B major"@ }
    else if i == 12 { "C minor"@ } else if i == 13 { "C# minor"@ } else if i == 14 { "D minor"@ }
    else if i == 15 { "D# minor"@ } else if i == 16 { "E minor"@ } else if i == 17 { "F minor"@ }
    else if i == 18 { "F# minor"@ } else if i == 19 { "G minor"@ } else if i == 20 { "G# minor"@ }
    else if i == 21 { "A minor"@ } else if i == 22 { "A# minor"@ } else { "B minor"@ }
}

/// Camelot wheel label of key `i`.
pub open spec fn camelot_name(i: int) -> Seq<char> {
    if i == 0 { "8B"@ } else if i == 1 { "3B"@ } else if i == 2 { "10B"@ }
    else if i == 3 { "5B"@ } else if i == 4 { "12B"@ } else if i == 5 { "7B"@ }
    else if i == 6 { "2B"@ } else if i == 7 { "9B"@ } else if i == 8 { "4B"@ }
    else if i == 9 { "11B"@ } else if i == 10 { "6B"@ } else if i == 11 { "1B"@ }
    else if i == 12 { "5A"@ } else if i == 13 { "12A"@ } else if i == 14 { "7A"@ }
    else if i == 15 { "2A"@ } else if i == 16 { "9A"@ } else if i == 17 { "4A"@ }
    else if i == 18 { "11A"@ } else if i == 19 { "6A"@ } else if i == 20 { "1A"@ }
    else if i == 21 { "8A"@ } else if i == 22 { "3A"@ } else { "10A"@ }
}

/// The number (1-12) on the Camelot wheel of key `i`, as its label shows.
pub open spec fn camelot_number(i: int) -> int {
    let t = i % 12;
    if i < 12 {
        if t == 0 { 8 } else if t == 1 { 3 } else if t == 2 { 10 } else if t == 3 { 5 }
        else if t == 4 { 12 } else if t == 5 { 7 } else if t == 6 { 2 } else if t == 7 { 9 }
        else if t == 8 { 4 } else if t == 9 { 11 } else if t == 10 { 6 } else { 1 }
    } else {
        if t == 0 { 5 } else if t == 1 { 12 } else if t == 2 { 7 } else if t == 3 { 2 }
        else if t == 4 { 9 } else if t == 5 { 4 } else if t == 6 { 11 } else if t == 7 { 6 }
        else if t == 8 { 1 } else if t == 9 { 8 } else if t == 10 { 3 } else { 10 }
    }
}

fn key_name_str(i: usize) -> (s: &'static str)
    requires
        i < KEY_COUNT,
    ensures
        s@ == key_name(i as int),
{
    if i == 0 { "C major" } else if i == 1 { "C# major" } else if i == 2 { "D major" }
    else if i == 3 { "D# major" } else if i == 4 { "E major" } else if i == 5 { "F major" }
    else if i == 6 { "F# major" } else if i == 7 { "G major" } else if i == 8 { "G# major" }
    else if i == 9 { "A major" } else if i == 10 { "A# major" } else if i == 11 { "B major" }
    else if i == 12 { "C minor" } else if i == 13 { "C# minor" } else if i == 14 { "D minor" }
    else if i == 15 { "D# minor" } else if i == 16 { "E minor" } else if i == 17 { "F minor" }
    else if i == 18 { "F# minor" } else if i == 19 { "G minor" } else if i == 20 { "G# minor" }
    else if i == 21 { "A minor" } else if i == 22 { "A# minor" } else { "B minor" }
}

fn camelot_name_str(i: usize) -> (s: &'static str)
    requires
        i < KEY_COUNT,
    ensures
        s@ == camelot_name(i as int),
{
    if i == 0 { "8B" } else if i == 1 { "3B" } else if i == 2 { "10B" }
    else if i == 3 { "5B" } else if i == 4 { "12B" } else if i == 5 { "7B" }
    else if i == 6 { "2B" } else if i == 7 { "9B" } else if i == 8 { "4B" }
    else if i == 9 { "11B" } else if i == 10 { "6B" } else if i == 11 { "1B" }
    else if i == 12 { "5A" } else if i == 13 { "12A" } else if i == 14 { "7A" }
    else if i == 15 { "2A" } else if i == 16 { "9A" } else if i == 17 { "4A" }
    else if i == 18 { "11A" } else if i == 19 { "6A" } else if i == 20 { "1A" }
    else if i == 21 { "8A" } else if i == 22 { "3A" } else { "10A" }
}

/// Key name and Camelot notation for a model output index (0-23), or
/// `None` for any other index.
pub fn index_to_key(idx: usize) -> (r: Option<(&'static str, &'static str)>)
    ensures
        idx < KEY_COUNT ==> (r matches Some((s, c)) && s@ == key_name(idx as int) && c@ == camelot_name(
            idx as int,
        )),
        idx >= KEY_COUNT ==> r is None,
{
    if idx < KEY_COUNT {
        Some((key_name_str(idx), camelot_name_str(idx)))
    } else {
        None
    }
}

/// The standard label of a primary key index, if there is one.
pub fn primary_key_label(primary: Option<u8>) -> (r: Option<&'static str>)
    requires
        primary matches Some(i) ==> i < KEY_COUNT,
    ensures
        match primary {
            Some(i) => r matches Some(s) && s@ == key_name(i as int),
            None => r is None,
        },
{
    match primary {
        Some(i) => Some(key_name_str(i as usize)),
        None => None,
    }
}

/// The Camelot label of a primary key index, if there is one.
pub fn primary_camelot(primary: Option<u8>) -> (r: Option<&'static str>)
    requires
        primary matches Some(i) ==> i < KEY_COUNT,
    ensures
        match primary {
            Some(i) => r matches Some(s) && s@ == camelot_name(i as int),
            None => r is None,
        },
{
    match primary {
        Some(i) => Some(camelot_name_str(i as usize)),
        None => None,
    }
}

/// Distance in semitones between the tonics of two keys, around the
/// circle (0-6).
pub open spec fn tonic_distance(a: int, b: int) -> int {
    let d = if a % 12 >= b % 12 { a % 12 - b % 12 } else { b % 12 - a % 12 };
    if d <= 12 - d { d } else { 12 - d }
}

/// Whether key `i` is minor.
pub open spec fn is_minor_key(i: int) -> bool {
    i >= 12
}

/// Whether keys `a` and `b`, of different modes, are relative major and
/// minor: the minor tonic lies nine semitones above the major tonic (A
/// minor is C major's relative).
pub open spec fn is_relative(a: int, b: int) -> bool {
    if !is_minor_key(a) && is_minor_key(b) {
        b % 12 == (a % 12 + 9) % 12
    } else if is_minor_key(a) && !is_minor_key(b) {
        a % 12 == (b % 12 + 9) % 12
    } else {
        false
    }
}

/// Musical compatibility of two keys, in tenths: 10 same key; 8 a perfect
/// fifth apart in the same mode (Camelot neighbours); 7 relative major and
/// minor; 6 parallel major and minor (same tonic); 4 a semitone apart in
/// the same mode; 0 otherwise.
pub open spec fn compat_tenths(a: int, b: int) -> int {
    if a == b {
        10
    } else if is_minor_key(a) == is_minor_key(b) {
        let d = tonic_distance(a, b);
        if d == 5 { 8 } else if d == 1 { 4 } else { 0 }
    } else if is_relative(a, b) {
        7
    } else if tonic_distance(a, b) == 0 {
        6
    } else {
        0
    }
}

/// Musical compatibility between two key indices, in tenths (the weight
/// that the posterior-weighted compatibility multiplies in).
pub fn key_compat_tenths(a: usize, b: usize) -> (r: u8)
    ensures
        r == compat_tenths(a as int, b as int),
{
    if a == b {
        return 10;
    }
    let a_tonic = (a % 12) as i32;
    let b_tonic = (b % 12) as i32;
    let a_minor = a >= 12;
    let b_minor = b >= 12;
    let diff = if a_tonic >= b_tonic {
        a_tonic - b_tonic
    } else {
        b_tonic - a_tonic
    };
    let semitone_dist = if diff <= 12 - diff {
        diff
    } else {
        12 - diff
    };
    if a_minor == b_minor {
        if semitone_dist == 5 {
            8
        } else if semitone_dist == 1 {
            4
        } else {
            0
        }
    } else {
        let (major_tonic, minor_tonic) = if a_minor {
            (b_tonic, a_tonic)
        } else {
            (a_tonic, b_tonic)
        };
        if (major_tonic + 9) % 12 == minor_tonic {
            7
        } else if semitone_dist == 0 {
            6
        } else {
            0
        }
    }
}

/// Compatibility is symmetric, and a key is fully compatible with itself.
pub proof fn law_compat_symmetric(a: int, b: int)
    requires
        0 <= a,
        0 <= b,
    ensures
        compat_tenths(a, b) == compat_tenths(b, a),
        compat_tenths(a, a) == 10,
        0 <= compat_tenths(a, b) <= 10,
{
}

/// Two different keys of the same mode are a fifth apart (weight 8)
/// exactly when they are neighbours on the Camelot wheel (numbers ±1,
/// with 12 next to 1).
pub proof fn law_fifth_is_camelot_neighbour(a: int, b: int)
    requires
        0 <= a < 24,
        0 <= b < 24,
        a != b,
        is_minor_key(a) == is_minor_key(b),
    ensures
        (compat_tenths(a, b) == 8) <==> (camelot_number(a) - camelot_number(b) == 1 || camelot_number(
            b,
        ) - camelot_number(a) == 1 || (camelot_number(a) == 12 && camelot_number(b) == 1) || (
        camelot_number(a) == 1 && camelot_number(b) == 12)),
{
}

/// Keys of different mode have weight 7 exactly when they are relative
/// major and minor, which is exactly when they share a Camelot number.
pub proof fn law_relative_shares_camelot_number(a: int, b: int)
    requires
        0 <= a < 24,
        0 <= b < 24,
        is_minor_key(a) != is_minor_key(b),
    ensures
        (compat_tenths(a, b) == 7) <==> is_relative(a, b),
        is_relative(a, b) <==> camelot_number(a) == camelot_number(b),
{
}

/// The hour of key `i` on the Camelot wheel, from its tonic: each fifth
/// up (seven semitones) is one hour on, with C major at 8 and C minor at
/// 5; hours run 1-12.
pub open spec fn wheel_hour(i: int) -> int {
    let r = (7 * (i % 12) + if is_minor_key(i) { 5int } else { 8int }) % 12;
    if r == 0 {
        12
    } else {
        r
    }
}

/// The Camelot letter of key `i`: 'B' for major, 'A' for minor.
pub open spec fn camelot_letter(i: int) -> char {
    if is_minor_key(i) {
        'A'
    } else {
        'B'
    }
}

/// Every key's Camelot number is its hour on the wheel, and its Camelot
/// label is that number in decimal followed by the letter of its mode.
pub proof fn law_camelot_label_shows_wheel_hour(i: int)
    requires
        0 <= i < KEY_COUNT,
    ensures
        camelot_number(i) == wheel_hour(i),
        camelot_name(i) == nat_text(camelot_number(i) as nat).push(camelot_letter(i)),
{
    assert(nat_text(1) == seq!['1']);
    assert(nat_text(10) =~= seq!['1', '0']);
    assert(nat_text(11) =~= seq!['1', '1']);
    assert(nat_text(12) =~= seq!['1', '2']);
    if i == 0 {
        reveal_strlit("8B");
        assert(camelot_number(i) == wheel_hour(i));
        assert(camelot_name(i) =~= nat_text(8nat).push('B'));
    } else if i == 1 {
        reveal_strlit("3B");
        assert(camelot_number(i) == wheel_hour(i));
        assert(camelot_name(i) =~= nat_text(3nat).push('B'));
    } else if i == 2 {
        reveal_strlit("10B");
        assert(camelot_number(i) == wheel_hour(i));
        assert(camelot_name(i) =~= nat_text(10nat).push('B'));
    } else if i == 3 {
        reveal_strlit("5B");
        assert(camelot_number(i) == wheel_hour(i));
        assert(camelot_name(i) =~= nat_text(5nat).push('B'));
    } else if i == 4 {
        reveal_strlit("12B");
        assert(camelot_number(i) == wheel_hour(i));
        assert(camelot_name(i) =~= nat_text(12nat).push('B'));
    } else if i == 5 {
        reveal_strlit("7B");
        assert(camelot_number(i) == wheel_hour(i));
        assert(camelot_name(i) =~= nat_text(7nat).push('B'));
    } else if i == 6 {
        reveal_strlit("2B");
        assert(camelot_number(i) == wheel_hour(i));
        assert(camelot_name(i) =~= nat_text(2nat).push('B'));
    } else if i == 7 {
        reveal_strlit("9B");
        assert(camelot_number(i) == wheel_hour(i));
        assert(camelot_name(i) =~= nat_text(9nat).push('B'));
    } else if i == 8 {
        reveal_strlit("4B");
        assert(camelot_number(i) == wheel_hour(i));
        assert(camelot_name(i) =~= nat_text(4nat).push('B'));
    } else if i == 9 {
        reveal_strlit("11B");
        assert(camelot_number(i) == wheel_hour(i));
        assert(camelot_name(i) =~= nat_text(11nat).push('B'));
    } else if i == 10 {
        reveal_strlit("6B");
        assert(camelot_number(i) == wheel_hour(i));
        assert(camelot_name(i) =~= nat_text(6nat).push('B'));
    } else if i == 11 {
        reveal_strlit("1B");
        assert(camelot_number(i) == wheel_hour(i));
        assert(camelot_name(i) =~= nat_text(1nat).push('B'));
    } else if i == 12 {
        reveal_strlit("5A");
        assert(camelot_number(i) == wheel_hour(i));
        assert(camelot_name(i) =~= nat_text(5nat).push('A'));
    } else if i == 13 {
        reveal_strlit("12A");
        assert(camelot_number(i) == wheel_hour(i));
        assert(camelot_name(i) =~= nat_text(12nat).push('A'));
    } else if i == 14 {
        reveal_strlit("7A");
        assert(camelot_number(i) == wheel_hour(i));
        assert(camelot_name(i) =~= nat_text(7nat).push('A'));
    } else if i == 15 {
        reveal_strlit("2A");
        assert(camelot_number(i) == wheel_hour(i));
        assert(camelot_name(i) =~= nat_text(2nat).push('A'));
    } else if i == 16 {
        reveal_strlit("9A");
        assert(camelot_number(i) == wheel_hour(i));
        assert(camelot_name(i) =~= nat_text(9nat).push('A'));
    } else if i == 17 {
        reveal_strlit("4A");
        assert(camelot_number(i) == wheel_hour(i));
        assert(camelot_name(i) =~= nat_text(4nat).push('A'));
    } else if i == 18 {
        reveal_strlit("11A");
        assert(camelot_number(i) == wheel_hour(i));
        assert(camelot_name(i) =~= nat_text(11nat).push('A'));
    } else if i == 19 {
        reveal_strlit("6A");
        assert(camelot_number(i) == wheel_hour(i));
        assert(camelot_name(i) =~= nat_text(6nat).push('A'));
    } else if i == 20 {
        reveal_strlit("1A");
        assert(camelot_number(i) == wheel_hour(i));
        assert(camelot_name(i) =~= nat_text(1nat).push('A'));
    } else if i == 21 {
        reveal_strlit("8A");
        assert(camelot_number(i) == wheel_hour(i));
        assert(camelot_name(i) =~= nat_text(8nat).push('A'));
    } else if i == 22 {
        reveal_strlit("3A");
        assert(camelot_number(i) == wheel_hour(i));
        assert(camelot_name(i) =~= nat_text(3nat).push('A'));
    } else if i == 23 {
        reveal_strlit("10A");
        assert(camelot_number(i) == wheel_hour(i));
        assert(camelot_name(i) =~= nat_text(10nat).push('A'));
    }
}

} // verus!
