//! Setlist analysis: library-matching normalisation and the harmonic flow
//! summary of a matched DJ setlist.
use vstd::prelude::*;
use crate::text::{
    alphanumeric_char, char_is_alphanumeric, char_is_whitespace, chars_of, is_white_space,
    lowercase_of, string_push, to_lowercase, trim, trim_end_by, trim_range, trim_start_by,
    white_space_pred,
};

verus! {

/// Characters kept for matching: alphanumerics and the plain space.
pub open spec fn keep_for_matching(c: char) -> bool {
    alphanumeric_char(c) || c == ' '
}

/// The characters of `s` kept for matching, in order.
pub open spec fn kept_chars(s: Seq<char>) -> Seq<char>
    decreases s.len(),
{
    if s.len() == 0 {
        Seq::<char>::empty()
    } else if keep_for_matching(s[0]) {
        seq![s[0]] + kept_chars(s.drop_first())
    } else {
        kept_chars(s.drop_first())
    }
}

/// The whitespace-separated words of `s` joined by single spaces, given
/// whether a word was already written (`written`) and whether whitespace
/// followed it (`gap`).
pub open spec fn join_words(s: Seq<char>, written: bool, gap: bool) -> Seq<char>
    decreases s.len(),
{
    if s.len() == 0 {
        Seq::<char>::empty()
    } else if is_white_space(s[0]) {
        join_words(s.drop_first(), written, true)
    } else if written && gap {
        seq![' ', s[0]] + join_words(s.drop_first(), true, false)
    } else {
        seq![s[0]] + join_words(s.drop_first(), true, false)
    }
}

/// Normalised form used to compare track names: lower case, trimmed,
/// only alphanumerics and spaces kept, words joined by single spaces.
pub open spec fn normalized(s: Seq<char>) -> Seq<char> {
    join_words(kept_chars(trim(lowercase_of(s))), false, false)
}

proof fn lemma_kept_chars_step(s: Seq<char>, i: int)
    requires
        0 <= i < s.len(),
    ensures
        kept_chars(s.subrange(i, s.len() as int)) == (if keep_for_matching(s[i]) {
            seq![s[i]]
        } else {
            Seq::<char>::empty()
        }) + kept_chars(s.subrange(i + 1, s.len() as int)),
{
    let t = s.subrange(i, s.len() as int);
    assert(t[0] == s[i]);
    assert(t.drop_first() =~= s.subrange(i + 1, s.len() as int));
    if !keep_for_matching(s[i]) {
        assert(Seq::<char>::empty() + kept_chars(s.subrange(i + 1, s.len() as int)) =~= kept_chars(
            s.subrange(i + 1, s.len() as int),
        ));
    }
}

proof fn lemma_join_words_step(c: char, rest: Seq<char>, written: bool, gap: bool)
    ensures
        join_words(seq![c] + rest, written, gap) == (if is_white_space(c) {
            join_words(rest, written, true)
        } else if written && gap {
            seq![' ', c] + join_words(rest, true, false)
        } else {
            seq![c] + join_words(rest, true, false)
        }),
{
    let s = seq![c] + rest;
    assert(s[0] == c);
    assert(s.drop_first() =~= rest);
}

/// Whether `r` reads as words joined by single spaces: every character is
/// a plain space or a non-whitespace alphanumeric, no space comes first
/// or last, and no two spaces are adjacent.
pub open spec fn single_spaced_words(r: Seq<char>) -> bool {
    &&& forall|i: int|
        0 <= i < r.len() ==> #[trigger] r[i] == ' ' || (alphanumeric_char(r[i])
            && !is_white_space(r[i]))
    &&& r.len() > 0 ==> r[0] != ' ' && r[r.len() - 1] != ' '
    &&& forall|i: int| #![trigger r[i]] 0 <= i < r.len() - 1 ==> !(r[i] == ' ' && r[i + 1] == ' ')
}

proof fn lemma_kept_chars_kept(s: Seq<char>)
    ensures
        forall|i: int|
            0 <= i < kept_chars(s).len() ==> keep_for_matching(#[trigger] kept_chars(s)[i]),
    decreases s.len(),
{
    if s.len() > 0 {
        let rest = kept_chars(s.drop_first());
        lemma_kept_chars_kept(s.drop_first());
        if keep_for_matching(s[0]) {
            let k = kept_chars(s);
            assert(k == seq![s[0]] + rest);
            assert forall|i: int| 0 <= i < k.len() implies keep_for_matching(#[trigger] k[i]) by {
                if i > 0 {
                    assert(k[i] == rest[i - 1]);
                }
            }
        }
    }
}

proof fn lemma_join_words_shape(t: Seq<char>, written: bool, gap: bool)
    requires
        forall|i: int| 0 <= i < t.len() ==> keep_for_matching(#[trigger] t[i]),
    ensures
        ({
            let r = join_words(t, written, gap);
            &&& forall|i: int|
                0 <= i < r.len() ==> #[trigger] r[i] == ' ' || (alphanumeric_char(r[i])
                    && !is_white_space(r[i]))
            &&& r.len() > 0 ==> r[r.len() - 1] != ' '
            &&& !written && r.len() > 0 ==> r[0] != ' '
            &&& forall|i: int| #![trigger r[i]] 0 <= i < r.len() - 1 ==> !(r[i] == ' ' && r[i + 1]
                == ' ')
        }),
    decreases t.len(),
{
    if t.len() > 0 {
        let c = t[0];
        let rest = t.drop_first();
        assert forall|i: int| 0 <= i < rest.len() implies keep_for_matching(#[trigger] rest[i]) by {
            assert(rest[i] == t[i + 1]);
        }
        assert(is_white_space(' '));
        if is_white_space(c) {
            lemma_join_words_shape(rest, written, true);
        } else {
            lemma_join_words_shape(rest, true, false);
            let r2 = join_words(rest, true, false);
            let r = join_words(t, written, gap);
            assert(keep_for_matching(c));
            assert(c != ' ');
            if written && gap {
                assert(r == seq![' ', c] + r2);
                assert forall|i: int| 0 <= i < r.len() implies #[trigger] r[i] == ' ' || (
                alphanumeric_char(r[i]) && !is_white_space(r[i])) by {
                    if i >= 2 {
                        assert(r[i] == r2[i - 2]);
                    }
                }
                assert forall|i: int| #![trigger r[i]] 0 <= i < r.len() - 1 implies !(r[i] == ' '
                    && r[i + 1] == ' ') by {
                    if i >= 2 {
                        assert(r[i] == r2[i - 2]);
                        assert(r[i + 1] == r2[i - 1]);
                    }
                }
                if r2.len() > 0 {
                    assert(r[r.len() - 1] == r2[r2.len() - 1]);
                }
            } else {
                assert(r == seq![c] + r2);
                assert forall|i: int| 0 <= i < r.len() implies #[trigger] r[i] == ' ' || (
                alphanumeric_char(r[i]) && !is_white_space(r[i])) by {
                    if i >= 1 {
                        assert(r[i] == r2[i - 1]);
                    }
                }
                assert forall|i: int| #![trigger r[i]] 0 <= i < r.len() - 1 implies !(r[i] == ' '
                    && r[i + 1] == ' ') by {
                    if i >= 1 {
                        assert(r[i] == r2[i - 1]);
                        assert(r[i + 1] == r2[i]);
                    }
                }
                if r2.len() > 0 {
                    assert(r[r.len() - 1] == r2[r2.len() - 1]);
                }
            }
        }
    }
}

/// A normalised name is words joined by single spaces: only plain spaces
/// and non-whitespace alphanumerics, no space at either end, no two spaces
/// in a row.
pub proof fn law_normalized_is_single_spaced(s: Seq<char>)
    ensures
        single_spaced_words(normalized(s)),
{
    let k = kept_chars(trim(lowercase_of(s)));
    lemma_kept_chars_kept(trim(lowercase_of(s)));
    lemma_join_words_shape(k, false, false);
}

proof fn lemma_kept_chars_all_kept(t: Seq<char>)
    requires
        forall|i: int| 0 <= i < t.len() ==> keep_for_matching(#[trigger] t[i]),
    ensures
        kept_chars(t) == t,
    decreases t.len(),
{
    if t.len() > 0 {
        let rest = t.drop_first();
        assert forall|i: int| 0 <= i < rest.len() implies keep_for_matching(#[trigger] rest[i]) by {
            assert(rest[i] == t[i + 1]);
        }
        assert(keep_for_matching(t[0]));
        lemma_kept_chars_all_kept(rest);
        assert(seq![t[0]] + rest =~= t);
    }
}

proof fn lemma_join_words_fixed(t: Seq<char>, written: bool)
    requires
        forall|i: int|
            0 <= i < t.len() ==> #[trigger] t[i] == ' ' || !is_white_space(t[i]),
        forall|i: int| #![trigger t[i]] 0 <= i < t.len() - 1 ==> !(t[i] == ' ' && t[i + 1] == ' '),
        t.len() > 0 ==> t[t.len() - 1] != ' ',
        !written && t.len() > 0 ==> t[0] != ' ',
    ensures
        join_words(t, written, false) == t,
    decreases t.len(),
{
    if t.len() > 0 {
        let c = t[0];
        let rest = t.drop_first();
        assert forall|i: int| 0 <= i < rest.len() implies #[trigger] rest[i] == ' ' || !is_white_space(
            rest[i],
        ) by {
            assert(rest[i] == t[i + 1]);
        }
        assert forall|i: int| #![trigger rest[i]] 0 <= i < rest.len() - 1 implies !(rest[i] == ' '
            && rest[i + 1] == ' ') by {
            assert(rest[i] == t[i + 1]);
            assert(rest[i + 1] == t[i + 2]);
        }
        if rest.len() > 0 {
            assert(rest[rest.len() - 1] == t[t.len() - 1]);
        }
        if c == ' ' {
            assert(is_white_space(' '));
            assert(rest.len() > 0);
            let d = rest[0];
            assert(d == t[1]);
            assert(d != ' ');
            let tail = rest.drop_first();
            assert forall|i: int| 0 <= i < tail.len() implies #[trigger] tail[i] == ' '
                || !is_white_space(tail[i]) by {
                assert(tail[i] == rest[i + 1]);
            }
            assert forall|i: int| #![trigger tail[i]] 0 <= i < tail.len() - 1 implies !(tail[i]
                == ' ' && tail[i + 1] == ' ') by {
                assert(tail[i] == rest[i + 1]);
                assert(tail[i + 1] == rest[i + 2]);
            }
            if tail.len() > 0 {
                assert(tail[tail.len() - 1] == rest[rest.len() - 1]);
            }
            lemma_join_words_fixed(tail, true);
            assert(seq![d] + tail =~= rest);
            lemma_join_words_step(d, tail, true, true);
            assert(seq![c] + rest =~= t);
            lemma_join_words_step(c, rest, written, false);
            assert(seq![' ', d] + tail =~= t);
        } else {
            assert(!is_white_space(c));
            lemma_join_words_fixed(rest, true);
            assert(seq![c] + rest =~= t);
            lemma_join_words_step(c, rest, written, false);
        }
    }
}

/// A normalised name whose lowercase is itself normalises to itself:
/// normalising it a second time changes nothing.
pub proof fn law_normalize_twice_when_lowercase_is_fixed(s: Seq<char>)
    requires
        lowercase_of(normalized(s)) == normalized(s),
    ensures
        normalized(normalized(s)) == normalized(s),
{
    let r = normalized(s);
    law_normalized_is_single_spaced(s);
    assert(is_white_space(' '));
    if r.len() > 0 {
        assert(!is_white_space(r[0]));
        assert(!is_white_space(r.last()));
        assert(trim_start_by(r, white_space_pred()) == r);
        assert(trim_end_by(r, white_space_pred()) == r);
    } else {
        assert(trim_start_by(r, white_space_pred()) == r);
        assert(trim_end_by(r, white_space_pred()) == r);
    }
    assert(trim(lowercase_of(r)) == r);
    assert forall|i: int| 0 <= i < r.len() implies keep_for_matching(#[trigger] r[i]) by {}
    lemma_kept_chars_all_kept(r);
    assert forall|i: int| 0 <= i < r.len() implies #[trigger] r[i] == ' ' || !is_white_space(r[i]) by {}
    lemma_join_words_fixed(r, false);
}

/// Normalise a string for comparison: lowercase, trim, keep alphanumerics
/// and spaces, and collapse runs of whitespace into single spaces.
pub fn normalize_string(s: &str) -> (r: String)
    ensures
        r@ == normalized(s@),
{
    let lower = to_lowercase(s);
    let v = chars_of(lower.as_str());
    let (a, b) = trim_range(&v, 0, v.len());
    proof {
        assert(v@.subrange(0, v@.len() as int) =~= v@);
    }
    let ghost t = v@.subrange(a as int, b as int);
    let mut out = String::new();
    let mut written = false;
    let mut gap = false;
    let mut i = a;
    proof {
        assert(t.subrange(0, t.len() as int) =~= t);
        assert(out@ + join_words(kept_chars(t), false, false) =~= join_words(kept_chars(t), false, false));
    }
    while i < b
        invariant
            a <= i <= b,
            b <= v@.len(),
            t == v@.subrange(a as int, b as int),
            normalized(s@) == join_words(kept_chars(t), false, false),
            join_words(kept_chars(t), false, false) == out@ + join_words(
                kept_chars(t.subrange(i - a, t.len() as int)),
                written,
                gap,
            ),
        decreases b - i,
    {
        let c = v[i];
        proof {
            assert(t[i - a] == c);
            lemma_kept_chars_step(t, i - a);
            assert(t.subrange(i - a + 1, t.len() as int) =~= t.subrange(i + 1 - a, t.len() as int));
        }
        let ghost rest = kept_chars(t.subrange(i + 1 - a, t.len() as int));
        if char_is_alphanumeric(c) || c == ' ' {
            proof {
                lemma_join_words_step(c, rest, written, gap);
            }
            if char_is_whitespace(c) {
                gap = true;
            } else {
                if written && gap {
                    string_push(&mut out, ' ');
                    proof {
                        assert(seq![' ', c] =~= seq![' '] + seq![c]);
                    }
                }
                let ghost before = out@;
                string_push(&mut out, c);
                written = true;
                gap = false;
            }
            proof {
                assert(out@ + join_words(rest, written, gap) =~= join_words(kept_chars(t), false, false));
            }
        } else {
            proof {
                assert(Seq::<char>::empty() + rest =~= rest);
            }
        }
        i = i + 1;
    }
    proof {
        assert(t.subrange(b - a, t.len() as int) =~= Seq::<char>::empty());
        assert(out@ + Seq::<char>::empty() =~= out@);
    }
    out
}

/// A single parsed track from a DJ setlist.
#[derive(Debug, Clone)]
pub struct ParsedTrack {
    /// 1-indexed position in the set.
    pub position: usize,
    pub artist: String,
    pub title: String,
    /// "00:23:15" if available.
    pub timestamp: Option<String>,
    /// Key info, if the tracklist includes it.
    pub key_hint: Option<String>,
}

/// The full parsed setlist.
#[derive(Debug, Clone)]
pub struct ParsedSetlist {
    pub set_name: Option<String>,
    pub dj_name: Option<String>,
    pub tracks: Vec<ParsedTrack>,
}

/// What the flow summary reads of one setlist entry: whether it matched a
/// library track, and that track's Camelot key and energy level.
pub struct TrackFlowInput {
    pub matched: bool,
    pub key_camelot: Option<String>,
    pub energy_level: Option<i32>,
}

/// The integer and text parts of a setlist's harmonic-flow summary.
pub struct FlowSummary {
    pub total_tracks: usize,
    pub matched_locally: usize,
    pub unmatched: usize,
    /// Camelot keys of the matched tracks that have one, in set order.
    pub key_flow: Vec<String>,
    /// Energy level per entry (None when unmatched or unknown).
    pub energy_arc: Vec<Option<i32>>,
    /// Per-entry harmonic flow label ("Opening: 8A", "8A → 9A", ...).
    pub flow_labels: Vec<String>,
}

/// The library key an entry contributes: its match's key, if it matched.
pub open spec fn entry_key(t: TrackFlowInput) -> Option<Seq<char>> {
    if t.matched {
        match t.key_camelot {
            Some(k) => Some(k@),
            None => None,
        }
    } else {
        None
    }
}

/// The energy an entry contributes: its match's energy, if it matched.
pub open spec fn entry_energy(t: TrackFlowInput) -> Option<i32> {
    if t.matched {
        t.energy_level
    } else {
        None
    }
}

/// Number of entries that matched a library track.
pub open spec fn count_matched(s: Seq<TrackFlowInput>) -> nat
    decreases s.len(),
{
    if s.len() == 0 {
        0
    } else {
        count_matched(s.drop_last()) + if s.last().matched {
            1nat
        } else {
            0nat
        }
    }
}

/// The keys of the entries that contribute one, in order.
pub open spec fn key_flow_of(s: Seq<TrackFlowInput>) -> Seq<Seq<char>>
    decreases s.len(),
{
    if s.len() == 0 {
        Seq::<Seq<char>>::empty()
    } else {
        match entry_key(s.last()) {
            Some(k) => key_flow_of(s.drop_last()).push(k),
            None => key_flow_of(s.drop_last()),
        }
    }
}

/// The flow label of the opening entry.
pub open spec fn opening_label(k: Option<Seq<char>>) -> Seq<char> {
    match k {
        Some(k) => "Opening: "@ + k,
        None => "Opening (unmatched)"@,
    }
}

/// The flow label of an entry after the first, from the previous and the
/// current entry's keys ("?" for a missing key).
pub open spec fn transition_label(prev: Option<Seq<char>>, curr: Option<Seq<char>>) -> Seq<char> {
    match (prev, curr) {
        (Some(p), Some(c)) => p + " → "@ + c,
        (Some(p), None) => p + " → ?"@,
        (None, Some(c)) => "? → "@ + c,
        (None, None) => "? → ?"@,
    }
}

/// The flow label of entry `i`.
pub open spec fn flow_label(s: Seq<TrackFlowInput>, i: int) -> Seq<char> {
    if i == 0 {
        opening_label(entry_key(s[0]))
    } else {
        transition_label(entry_key(s[i - 1]), entry_key(s[i]))
    }
}

fn entry_key_of(t: &TrackFlowInput) -> (k: Option<&String>)
    ensures
        match k {
            Some(s) => entry_key(*t) == Some(s@),
            None => entry_key(*t) is None,
        },
{
    if t.matched {
        match &t.key_camelot {
            Some(k) => Some(k),
            None => None,
        }
    } else {
        None
    }
}

fn opening_label_of(k: Option<&String>) -> (r: String)
    ensures
        r@ == opening_label(match k {
            Some(s) => Some(s@),
            None => None,
        }),
{
    match k {
        Some(k) => {
            let mut r = String::from_str("Opening: ");
            r.append(k.as_str());
            r
        },
        None => String::from_str("Opening (unmatched)"),
    }
}

fn transition_label_of(prev: Option<&String>, curr: Option<&String>) -> (r: String)
    ensures
        r@ == transition_label(
            match prev {
                Some(s) => Some(s@),
                None => None,
            },
            match curr {
                Some(s) => Some(s@),
                None => None,
            },
        ),
{
    match (prev, curr) {
        (Some(p), Some(c)) => {
            let mut r = String::from_str(p.as_str());
            r.append(" → ");
            r.append(c.as_str());
            r
        },
        (Some(p), None) => {
            let mut r = String::from_str(p.as_str());
            r.append(" → ?");
            r
        },
        (None, Some(c)) => {
            let mut r = String::from_str("? → ");
            r.append(c.as_str());
            r
        },
        (None, None) => String::from_str("? → ?"),
    }
}

/// Harmonic flow of a matched setlist: counts, key flow, energy arc and a
/// flow label for every entry.
pub fn analyze_flow(tracks: &Vec<TrackFlowInput>) -> (r: FlowSummary)
    ensures
        r.total_tracks == tracks@.len(),
        r.matched_locally == count_matched(tracks@),
        r.unmatched == tracks@.len() - count_matched(tracks@),
        r.key_flow@.map_values(|k: String| k@) == key_flow_of(tracks@),
        r.energy_arc@ == tracks@.map_values(|t: TrackFlowInput| entry_energy(t)),
        r.flow_labels@.len() == tracks@.len(),
        forall|i: int| 0 <= i < tracks@.len() ==> #[trigger] r.flow_labels@[i]@ == flow_label(tracks@, i),
{
    let n = tracks.len();
    let mut matched: usize = 0;
    let mut key_flow: Vec<String> = Vec::new();
    let mut energy_arc: Vec<Option<i32>> = Vec::new();
    let mut labels: Vec<String> = Vec::new();
    let mut i: usize = 0;
    while i < n
        invariant
            n == tracks@.len(),
            i <= n,
            matched == count_matched(tracks@.subrange(0, i as int)),
            matched <= i,
            key_flow@.map_values(|k: String| k@) == key_flow_of(tracks@.subrange(0, i as int)),
            energy_arc@ == tracks@.subrange(0, i as int).map_values(|t: TrackFlowInput| entry_energy(t)),
            labels@.len() == i,
            forall|j: int| 0 <= j < i ==> #[trigger] labels@[j]@ == flow_label(tracks@, j),
        decreases n - i,
    {
        let t = &tracks[i];
        let ghost pre = tracks@.subrange(0, i as int);
        let ghost post = tracks@.subrange(0, i + 1);
        proof {
            assert(post.drop_last() =~= pre);
            assert(post.last() == tracks@[i as int]);
        }
        if t.matched {
            matched = matched + 1;
        }
        let k = entry_key_of(t);
        match k {
            Some(key) => {
                key_flow.push(key.clone());
            },
            None => {},
        }
        proof {
            assert(key_flow@.map_values(|k: String| k@) =~= key_flow_of(post));
        }
        energy_arc.push(if t.matched {
            t.energy_level
        } else {
            None
        });
        proof {
            assert(energy_arc@ =~= post.map_values(|t: TrackFlowInput| entry_energy(t)));
        }
        let label = if i == 0 {
            opening_label_of(k)
        } else {
            transition_label_of(entry_key_of(&tracks[i - 1]), k)
        };
        labels.push(label);
        i = i + 1;
    }
    proof {
        assert(tracks@.subrange(0, n as int) =~= tracks@);
    }
    FlowSummary {
        total_tracks: n,
        matched_locally: matched,
        unmatched: n - matched,
        key_flow,
        energy_arc,
        flow_labels: labels,
    }
}

/// The flow label of a later entry reads from the earlier track to the
/// later one: when entries `i - 1` and `i` both carry a library key, the
/// label is the previous key, an arrow, then the current key; a side
/// without a key reads "?". The opening entry's label names its own key.
pub proof fn law_flow_label_reads_forward(s: Seq<TrackFlowInput>, i: int)
    requires
        0 <= i < s.len(),
    ensures
        i > 0 && entry_key(s[i - 1]) is Some && entry_key(s[i]) is Some ==> flow_label(s, i)
            == entry_key(s[i - 1])->0 + " → "@ + entry_key(s[i])->0,
        i > 0 && entry_key(s[i - 1]) is Some && entry_key(s[i]) is None ==> flow_label(s, i)
            == entry_key(s[i - 1])->0 + " → ?"@,
        i > 0 && entry_key(s[i - 1]) is None && entry_key(s[i]) is Some ==> flow_label(s, i)
            == "? → "@ + entry_key(s[i])->0,
        i > 0 && entry_key(s[i - 1]) is None && entry_key(s[i]) is None ==> flow_label(s, i)
            == "? → ?"@,
        i == 0 && entry_key(s[0]) is Some ==> flow_label(s, 0) == "Opening: "@ + entry_key(s[0])->0,
        i == 0 && entry_key(s[0]) is None ==> flow_label(s, 0) == "Opening (unmatched)"@,
{
}

/// Consecutive flow labels chain: the key a label ends on is the key the
/// next label starts from, so the labels read through the set in order.
pub proof fn law_flow_labels_chain(s: Seq<TrackFlowInput>, i: int)
    requires
        0 <= i,
        i + 1 < s.len(),
        entry_key(s[i]) is Some,
        entry_key(s[i + 1]) is Some,
        i > 0 ==> entry_key(s[i - 1]) is Some,
    ensures
        ({
            let k = entry_key(s[i])->0;
            let here = flow_label(s, i);
            let next = flow_label(s, i + 1);
            &&& here.len() >= k.len()
            &&& here.subrange(here.len() - k.len(), here.len() as int) == k
            &&& next.len() >= k.len()
            &&& next.subrange(0, k.len() as int) == k
        }),
{
    let k = entry_key(s[i])->0;
    let here = flow_label(s, i);
    let next = flow_label(s, i + 1);
    law_flow_label_reads_forward(s, i);
    law_flow_label_reads_forward(s, i + 1);
    assert(next.subrange(0, k.len() as int) =~= k);
    if i == 0 {
        assert(here.subrange(here.len() - k.len(), here.len() as int) =~= k);
    } else {
        assert(here.subrange(here.len() - k.len(), here.len() as int) =~= k);
    }
}

} // verus!
