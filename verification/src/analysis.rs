//! Vocabulary of the key-analysis pipeline that carries no sample data:
//! profile sets, confidence tiers, stage timings, and the rotation of a
//! key profile to another tonic.
use vstd::prelude::*;

verus! {

/// Which of the two Beatport-derived EDM profile sets a vote uses.
#[derive(Debug, Clone, Copy, PartialEq, Eq, Structural)]
pub enum EdmProfile {
    /// Faraldo braw — median profiles from Beatport corpus.
    Braw,
    /// Faraldo bgate — braw with 4 least relevant elements zeroed.
    Bgate,
}

/// How much the analysis models agree on a track's key.
#[derive(Debug, Clone, Copy, PartialEq, Eq, Structural)]
pub enum ConfidenceTier {
    High,
    Medium,
    Low,
    /// Analysis has not completed or no models have reported.
    Unknown,
}

/// Milliseconds spent in each stage of a key detection.
#[derive(Debug, Clone, Copy, PartialEq, Eq, Structural)]
pub struct StageTimings {
    pub spectrogram: u64,
    pub hpss: u64,
    pub chromagram: u64,
    pub ensemble: u64,
}

/// Image format of an embedded cover picture, as the tag reader reports it.
#[derive(Debug, Clone, PartialEq, Eq)]
pub enum CoverMime {
    Png,
    Jpeg,
    Tiff,
    Bmp,
    Gif,
    /// Some other MIME type.
    Unknown(String),
}

/// File extension a cover is cached under: by its format, and "jpg" when
/// the format is unknown or absent (most embedded covers are JPEG).
pub open spec fn cover_extension(mime: Option<CoverMime>) -> Seq<char> {
    match mime {
        Some(CoverMime::Png) => "png"@,
        Some(CoverMime::Tiff) => "tif"@,
        Some(CoverMime::Bmp) => "bmp"@,
        Some(CoverMime::Gif) => "gif"@,
        _ => "jpg"@,
    }
}

/// The file extension for a cover picture of format `mime`.
pub fn ext_for_mime(mime: Option<&CoverMime>) -> (ext: &'static str)
    ensures
        ext@ == cover_extension(
            match mime {
                Some(m) => Some(*m),
                None => None,
            },
        ),
{
    match mime {
        Some(CoverMime::Png) => "png",
        Some(CoverMime::Jpeg) => "jpg",
        Some(CoverMime::Tiff) => "tif",
        Some(CoverMime::Bmp) => "bmp",
        Some(CoverMime::Gif) => "gif",
        _ => "jpg",
    }
}

/// `p` rotated so that its tonic moves up by `shift` semitones: entry `i`
/// of the result is entry `i - shift` (mod 12) of `p`.
pub open spec fn rotated<T>(p: Seq<T>, shift: int) -> Seq<T> {
    Seq::new(12, |i: int| p[(i + 12 - shift) % 12])
}

/// Rotates a 12-bin key profile to the tonic `shift`.
pub fn rotate<T: Copy>(profile: &[T; 12], shift: usize) -> (out: [T; 12])
    requires
        shift <= 12,
    ensures
        out@ == rotated(profile@, shift as int),
{
    let mut out: [T; 12] = *profile;
    let mut i: usize = 0;
    while i < 12
        invariant
            i <= 12,
            shift <= 12,
            out@.len() == 12,
            forall|j: int| 0 <= j < i ==> out@[j] == profile@[(j + 12 - shift) % 12],
        decreases 12 - i,
    {
        let src = (i + 12 - shift) % 12;
        out[i] = profile[src];
        i = i + 1;
    }
    assert(out@ =~= rotated(profile@, shift as int));
    out
}

/// `p` (six octave blocks of twelve semitones) with each block rotated by
/// `shift` semitones independently.
pub open spec fn rotated_72<T>(p: Seq<T>, shift: int) -> Seq<T> {
    Seq::new(72, |k: int| p[(k / 12) * 12 + ((k % 12) + 12 - shift) % 12])
}

/// Rotates a 72-bin (six-octave) profile to the tonic `shift`, octave by
/// octave.
pub fn rotate_72<T: Copy>(profile: &[T; 72], shift: usize) -> (out: [T; 72])
    requires
        shift <= 12,
    ensures
        out@ == rotated_72(profile@, shift as int),
{
    let mut out: [T; 72] = *profile;
    let mut o: usize = 0;
    while o < 6
        invariant
            o <= 6,
            shift <= 12,
            out@.len() == 72,
            forall|k: int| 0 <= k < o * 12 ==> out@[k] == profile@[(k / 12) * 12 + ((k % 12) + 12
                - shift) % 12],
        decreases 6 - o,
    {
        let mut s: usize = 0;
        while s < 12
            invariant
                o < 6,
                s <= 12,
                shift <= 12,
                out@.len() == 72,
                forall|k: int| 0 <= k < o * 12 + s ==> out@[k] == profile@[(k / 12) * 12 + ((k % 12)
                    + 12 - shift) % 12],
            decreases 12 - s,
        {
            let src = o * 12 + ((s + 12 - shift) % 12);
            proof {
                let k = o * 12 + s;
                assert(k / 12 == o && k % 12 == s) by (nonlinear_arith)
                    requires
                        k == o * 12 + s,
                        s < 12,
                ;
            }
            out[o * 12 + s] = profile[src];
            s = s + 1;
        }
        o = o + 1;
    }
    assert(out@ =~= rotated_72(profile@, shift as int));
    out
}

proof fn lemma_mod12(x: int)
    requires
        0 <= x < 36,
    ensures
        x % 12 == (if x < 12 {
            x
        } else if x < 24 {
            x - 12
        } else {
            x - 24
        }),
{
    if x < 12 {
        assert(x % 12 == x) by (nonlinear_arith)
            requires
                0 <= x < 12,
        ;
    } else if x < 24 {
        assert(x % 12 == x - 12) by (nonlinear_arith)
            requires
                12 <= x < 24,
        ;
    } else {
        assert(x % 12 == x - 24) by (nonlinear_arith)
            requires
                24 <= x < 36,
        ;
    }
}

/// Rotating by `a` and then by `b` is rotating by `a + b` (mod 12);
/// rotating by 0 or by 12 changes nothing.
pub proof fn law_rotation_composes<T>(p: Seq<T>, a: int, b: int)
    requires
        p.len() == 12,
        0 <= a <= 12,
        0 <= b <= 12,
    ensures
        rotated(rotated(p, a), b) == rotated(p, (a + b) % 12),
        rotated(p, 0) == p,
        rotated(p, 12) == p,
{
    lemma_mod12(a + b);
    let c = (a + b) % 12;
    assert forall|i: int| 0 <= i < 12 implies #[trigger] rotated(rotated(p, a), b)[i] == rotated(
        p,
        c,
    )[i] by {
        lemma_mod12(i + 12 - b);
        let j = (i + 12 - b) % 12;
        lemma_mod12(j + 12 - a);
        lemma_mod12(i + 12 - c);
    }
    assert(rotated(rotated(p, a), b) =~= rotated(p, c));
    assert forall|i: int| 0 <= i < 12 implies #[trigger] rotated(p, 0)[i] == p[i] by {
        lemma_mod12(i + 12);
    }
    assert forall|i: int| 0 <= i < 12 implies #[trigger] rotated(p, 12)[i] == p[i] by {
        lemma_mod12(i);
    }
    assert(rotated(p, 0) =~= p);
    assert(rotated(p, 12) =~= p);
}

} // verus!
