//! Segmenting a track for key analysis and reading a key timeline: the
//! centred analysis window, the equal segments a spectrogram is split into,
//! and whether the per-segment keys modulate, abstain, and where they shift.
use vstd::prelude::*;
use crate::metadata::opt_view;

verus! {

/// Analysis sample rate in Hz.
pub const SAMPLE_RATE: usize = 22050;

/// Longest stretch of a track analysed for its key, in seconds.
pub const MAX_ANALYSIS_SECONDS: usize = 180;

/// Longest stretch of a track analysed for its key, in samples.
pub const MAX_ANALYSIS_SAMPLES: usize = 3969000;

/// Number of segments a key timeline splits a track into.
pub const TIMELINE_SEGMENTS: usize = 8;

/// The sample range `[start, end)` analysed out of `len` samples: all of
/// them when they fit in `max`, otherwise the `max` samples in the middle.
pub fn analysis_window(len: usize, max: usize) -> (r: (usize, usize))
    ensures
        len <= max ==> r == (0usize, len),
        len > max ==> r.0 == (len - max) / 2 && r.1 == r.0 + max,
        r.0 <= r.1 <= len,
{
    if len <= max {
        (0, len)
    } else {
        let start = (len - max) / 2;
        (start, start + max)
    }
}

/// First frame of segment `i` when `frames` frames are split into `count`
/// equal segments.
pub open spec fn seg_start(frames: nat, count: nat, i: nat) -> nat {
    i * (frames / count)
}

/// End (exclusive) of segment `i`: the last segment takes the remainder.
pub open spec fn seg_end(frames: nat, count: nat, i: nat) -> nat {
    if i + 1 == count {
        frames
    } else {
        (i + 1) * (frames / count)
    }
}

proof fn lemma_segment_fits(frames: nat, count: nat, i: nat)
    requires
        count > 0,
        i < count,
    ensures
        seg_start(frames, count, i) <= seg_end(frames, count, i) <= frames,
        (i + 1) * (frames / count) <= frames,
{
    let per = frames / count;
    assert(per * count <= frames) by (nonlinear_arith)
        requires
            per == frames / count,
            count > 0,
    ;
    assert((i + 1) * per <= frames) by (nonlinear_arith)
        requires
            i + 1 <= count,
            per * count <= frames,
            per >= 0,
    ;
    assert(i * per <= (i + 1) * per) by (nonlinear_arith)
        requires
            per >= 0,
    ;
}

/// Frame range `[start, end)` of segment `i` of `count` equal segments.
pub fn segment_bounds(frames: usize, count: usize, i: usize) -> (r: (usize, usize))
    requires
        count > 0,
        i < count,
    ensures
        r.0 == seg_start(frames as nat, count as nat, i as nat),
        r.1 == seg_end(frames as nat, count as nat, i as nat),
        r.0 <= r.1 <= frames,
{
    proof {
        lemma_segment_fits(frames as nat, count as nat, i as nat);
    }
    let per = frames / count;
    let start = i * per;
    let end = if i == count - 1 {
        frames
    } else {
        (i + 1) * per
    };
    (start, end)
}

/// The segments tile the frames: the first starts at frame 0, the last ends
/// at the final frame, and each segment ends where the next one starts.
pub proof fn law_segments_tile(frames: nat, count: nat, i: nat)
    requires
        count > 0,
        i < count,
    ensures
        seg_start(frames, count, 0) == 0,
        seg_end(frames, count, (count - 1) as nat) == frames,
        i + 1 < count ==> seg_end(frames, count, i) == seg_start(frames, count, i + 1),
        seg_start(frames, count, i) <= seg_end(frames, count, i) <= frames,
{
    lemma_segment_fits(frames, count, i);
}

/// Views of the per-segment keys: `None` for a segment without a stable
/// key, otherwise its Camelot label.
pub open spec fn keys_view(keys: Seq<Option<String>>) -> Seq<Option<Seq<char>>> {
    keys.map_values(|k: Option<String>| opt_view(k))
}

/// Whether entry `i` is a stable segment with a non-empty key.
pub open spec fn labelled(ks: Seq<Option<Seq<char>>>, i: int) -> bool {
    ks[i] is Some && ks[i]->0.len() > 0
}

/// Whether two stable segments carry different non-empty keys.
pub open spec fn modulates_spec(ks: Seq<Option<Seq<char>>>) -> bool {
    exists|i: int, j: int|
        0 <= i < ks.len() && 0 <= j < ks.len() && #[trigger] labelled(ks, i) && #[trigger] labelled(
            ks,
            j,
        ) && ks[i]->0 != ks[j]->0
}

/// Whether no segment has a stable key.
pub open spec fn all_unstable(ks: Seq<Option<Seq<char>>>) -> bool {
    forall|i: int| 0 <= i < ks.len() ==> (#[trigger] ks[i]) is None
}

/// A point of a modulation summary.
#[derive(Debug, Clone, Copy, PartialEq, Eq, Structural)]
pub enum ModulationEvent {
    /// The first stable segment: the track opens in its key.
    Opens(usize),
    /// A stable segment whose key differs from the previous stable one.
    ShiftsAt(usize),
}

/// Events of the first `n` segments, and the key of the last stable one.
pub open spec fn events_upto(ks: Seq<Option<Seq<char>>>, n: nat) -> (
    Seq<ModulationEvent>,
    Option<Seq<char>>,
)
    decreases n,
{
    if n == 0 {
        (Seq::empty(), None)
    } else {
        let (ev, prev) = events_upto(ks, (n - 1) as nat);
        let i = n - 1;
        match ks[i] {
            None => (ev, prev),
            Some(k) => match prev {
                None => (ev.push(ModulationEvent::Opens(i as usize)), Some(k)),
                Some(p) => if p != k {
                    (ev.push(ModulationEvent::ShiftsAt(i as usize)), Some(k))
                } else {
                    (ev, Some(k))
                },
            },
        }
    }
}

/// What a key timeline reports about its segments.
#[derive(Debug, Clone, PartialEq, Eq)]
pub struct TimelineVerdict {
    /// Two stable segments disagree on the key.
    pub modulates: bool,
    /// No segment has a stable key ("no stable key").
    pub abstained: bool,
    /// The global key is not shown: the timeline abstains, or the global
    /// key's confidence is below the threshold.
    pub global_key_hidden: bool,
    /// Where the key opens and shifts; empty unless the track modulates.
    pub events: Vec<ModulationEvent>,
}

/// Whether two stable segments carry different non-empty keys.
fn keys_modulate(keys: &Vec<Option<String>>) -> (r: bool)
    ensures
        r == modulates_spec(keys_view(keys@)),
{
    let ghost ks = keys_view(keys@);
    let mut first: Option<usize> = None;
    let mut i: usize = 0;
    while i < keys.len()
        invariant
            i <= keys@.len(),
            ks == keys_view(keys@),
            ks.len() == keys@.len(),
            match first {
                None => forall|j: int| 0 <= j < i ==> !#[trigger] labelled(ks, j),
                Some(f) => f < i && labelled(ks, f as int) && forall|j: int|
                    0 <= j < i && #[trigger] labelled(ks, j) ==> ks[j]->0 == ks[f as int]->0,
            },
        decreases keys@.len() - i,
    {
        match &keys[i] {
            Some(k) => {
                if k.as_str().unicode_len() > 0 {
                    proof {
                        assert(ks[i as int] == opt_view(keys@[i as int]));
                    }
                    match first {
                        None => {
                            first = Some(i);
                        },
                        Some(f) => {
                            let same = match &keys[f] {
                                Some(fk) => *fk == *k,
                                None => false,
                            };
                            proof {
                                assert(ks[f as int] == opt_view(keys@[f as int]));
                            }
                            if !same {
                                proof {
                                    assert(labelled(ks, f as int) && labelled(ks, i as int));
                                }
                                return true;
                            }
                        },
                    }
                } else {
                    proof {
                        assert(ks[i as int] == opt_view(keys@[i as int]));
                    }
                }
            },
            None => {
                proof {
                    assert(ks[i as int] == opt_view(keys@[i as int]));
                }
            },
        }
        i = i + 1;
    }
    proof {
        if modulates_spec(ks) {
            let (a, b) = choose|a: int, b: int|
                0 <= a < ks.len() && 0 <= b < ks.len() && #[trigger] labelled(ks, a)
                    && #[trigger] labelled(ks, b) && ks[a]->0 != ks[b]->0;
            assert(labelled(ks, a));
        }
    }
    false
}

/// Whether no segment has a stable key.
fn keys_all_unstable(keys: &Vec<Option<String>>) -> (r: bool)
    ensures
        r == all_unstable(keys_view(keys@)),
{
    let ghost ks = keys_view(keys@);
    let mut i: usize = 0;
    while i < keys.len()
        invariant
            i <= keys@.len(),
            ks == keys_view(keys@),
            forall|j: int| 0 <= j < i ==> (#[trigger] ks[j]) is None,
        decreases keys@.len() - i,
    {
        proof {
            assert(ks[i as int] == opt_view(keys@[i as int]));
        }
        if keys[i].is_some() {
            return false;
        }
        i = i + 1;
    }
    true
}

/// Where the key opens and shifts along the stable segments.
fn modulation_events(keys: &Vec<Option<String>>) -> (ev: Vec<ModulationEvent>)
    ensures
        ev@ == events_upto(keys_view(keys@), keys@.len()).0,
{
    let ghost ks = keys_view(keys@);
    let mut ev: Vec<ModulationEvent> = Vec::new();
    let mut prev: Option<usize> = None;
    let mut i: usize = 0;
    while i < keys.len()
        invariant
            i <= keys@.len(),
            ks == keys_view(keys@),
            ks.len() == keys@.len(),
            ev@ == events_upto(ks, i as nat).0,
            match prev {
                None => events_upto(ks, i as nat).1 is None,
                Some(p) => p < i && ks[p as int] is Some && events_upto(ks, i as nat).1 == Some(
                    ks[p as int]->0,
                ),
            },
        decreases keys@.len() - i,
    {
        proof {
            assert(ks[i as int] == opt_view(keys@[i as int]));
        }
        match &keys[i] {
            Some(k) => {
                match prev {
                    None => {
                        ev.push(ModulationEvent::Opens(i));
                    },
                    Some(p) => {
                        proof {
                            assert(ks[p as int] == opt_view(keys@[p as int]));
                        }
                        let same = match &keys[p] {
                            Some(pk) => *pk == *k,
                            None => false,
                        };
                        if !same {
                            ev.push(ModulationEvent::ShiftsAt(i));
                        }
                    },
                }
                prev = Some(i);
            },
            None => {},
        }
        i = i + 1;
    }
    ev
}

/// Reads a timeline from its per-segment keys (`None` for a segment below
/// the confidence threshold, else its Camelot label) and whether the global
/// key fell below the threshold.
pub fn timeline_verdict(keys: &Vec<Option<String>>, global_below_threshold: bool) -> (v:
    TimelineVerdict)
    ensures
        v.modulates == modulates_spec(keys_view(keys@)),
        v.abstained == all_unstable(keys_view(keys@)),
        v.global_key_hidden == (v.abstained || global_below_threshold),
        v.events@ == (if v.modulates {
            events_upto(keys_view(keys@), keys@.len()).0
        } else {
            Seq::empty()
        }),
{
    let modulates = keys_modulate(keys);
    let abstained = keys_all_unstable(keys);
    let global_key_hidden = abstained || global_below_threshold;
    let events = if modulates {
        modulation_events(keys)
    } else {
        Vec::new()
    };
    TimelineVerdict { modulates, abstained, global_key_hidden, events }
}

/// Until the first shift, every stable key seen equals the key the track
/// opened in, and that is the key last seen.
proof fn lemma_no_shift_same_key(ks: Seq<Option<Seq<char>>>, n: nat)
    requires
        n <= ks.len(),
        forall|k: int|
            0 <= k < events_upto(ks, n).0.len() ==> !(#[trigger] events_upto(ks, n).0[k] is ShiftsAt),
    ensures
        forall|j: int|
            0 <= j < n && #[trigger] ks[j] is Some ==> events_upto(ks, n).1 == Some(ks[j]->0),
        events_upto(ks, n).1 is None ==> forall|j: int| 0 <= j < n ==> #[trigger] ks[j] is None,
    decreases n,
{
    if n > 0 {
        let (ev, prev) = events_upto(ks, (n - 1) as nat);
        let cur = events_upto(ks, n).0;
        assert forall|k: int| 0 <= k < ev.len() implies !(#[trigger] ev[k] is ShiftsAt) by {
            assert(cur[k] == ev[k]);
        }
        lemma_no_shift_same_key(ks, (n - 1) as nat);
        let i = n - 1;
        if ks[i] is Some {
            if prev is Some {
                if prev->0 != ks[i]->0 {
                    assert(cur[cur.len() - 1] is ShiftsAt);
                }
            }
        }
    }
}

/// A timeline whose stable segments carry two different keys reports at
/// least one shift.
pub proof fn law_modulation_reports_a_shift(ks: Seq<Option<Seq<char>>>)
    requires
        modulates_spec(ks),
    ensures
        exists|k: int|
            0 <= k < events_upto(ks, ks.len()).0.len() && (#[trigger] events_upto(
                ks,
                ks.len(),
            ).0[k]) is ShiftsAt,
{
    let (a, b) = choose|a: int, b: int|
        0 <= a < ks.len() && 0 <= b < ks.len() && #[trigger] labelled(ks, a) && #[trigger] labelled(
            ks,
            b,
        ) && ks[a]->0 != ks[b]->0;
    if !exists|k: int|
        0 <= k < events_upto(ks, ks.len()).0.len() && (#[trigger] events_upto(ks, ks.len()).0[k]) is ShiftsAt {
        lemma_no_shift_same_key(ks, ks.len());
        assert(ks[a] is Some);
        assert(ks[b] is Some);
    }
}

/// The segment an event points at.
pub open spec fn event_segment(e: ModulationEvent) -> int {
    match e {
        ModulationEvent::Opens(i) => i as int,
        ModulationEvent::ShiftsAt(i) => i as int,
    }
}

/// Every segment strictly between `j` and `i` is unstable.
pub open spec fn unstable_between(ks: Seq<Option<Seq<char>>>, j: int, i: int) -> bool {
    forall|m: int| j < m < i ==> (#[trigger] ks[m]) is None
}

/// Segment `i` is the first stable one: the track opens in its key.
pub open spec fn opens_at(ks: Seq<Option<Seq<char>>>, i: int) -> bool {
    &&& 0 <= i < ks.len()
    &&& ks[i] is Some
    &&& forall|j: int| 0 <= j < i ==> (#[trigger] ks[j]) is None
}

/// Segment `i` is stable and its key differs from the key of the nearest
/// earlier stable segment.
pub open spec fn shifts_at(ks: Seq<Option<Seq<char>>>, i: int) -> bool {
    &&& 0 <= i < ks.len()
    &&& ks[i] is Some
    &&& exists|j: int|
        0 <= j < i && ks[j] is Some && #[trigger] unstable_between(ks, j, i) && ks[j]->0 != ks[i]->0
}

proof fn lemma_events_characterised(ks: Seq<Option<Seq<char>>>, n: nat)
    requires
        n <= ks.len(),
        ks.len() <= usize::MAX,
    ensures
        ({
            let (ev, prev) = events_upto(ks, n);
            &&& forall|k: int|
                0 <= k < ev.len() ==> {
                    &&& 0 <= event_segment(#[trigger] ev[k]) < n
                    &&& ev[k] is Opens ==> opens_at(ks, event_segment(ev[k]))
                    &&& ev[k] is ShiftsAt ==> shifts_at(ks, event_segment(ev[k]))
                }
            &&& forall|i: int|
                0 <= i < n && #[trigger] opens_at(ks, i) ==> exists|k: int|
                    0 <= k < ev.len() && #[trigger] ev[k] == ModulationEvent::Opens(i as usize)
            &&& forall|i: int|
                0 <= i < n && #[trigger] shifts_at(ks, i) ==> exists|k: int|
                    0 <= k < ev.len() && #[trigger] ev[k] == ModulationEvent::ShiftsAt(i as usize)
            &&& forall|a: int, b: int|
                0 <= a < b < ev.len() ==> event_segment(#[trigger] ev[a]) < event_segment(
                    #[trigger] ev[b],
                )
            &&& prev is None <==> forall|j: int| 0 <= j < n ==> (#[trigger] ks[j]) is None
            &&& prev is Some ==> exists|j: int|
                0 <= j < n && ks[j] == prev && #[trigger] unstable_between(ks, j, n as int)
        }),
    decreases n,
{
    if n > 0 {
        let i = n - 1;
        lemma_events_characterised(ks, i as nat);
        let (ev0, prev0) = events_upto(ks, i as nat);
        let (ev, prev) = events_upto(ks, n);
        assert((i as usize) as int == i);
        match ks[i] {
            None => {
                assert(ev == ev0 && prev == prev0);
                assert forall|i2: int| 0 <= i2 < n && #[trigger] opens_at(ks, i2) implies exists|k: int|
                    0 <= k < ev.len() && #[trigger] ev[k] == ModulationEvent::Opens(i2 as usize) by {
                    assert(i2 != i);
                }
                assert forall|i2: int| 0 <= i2 < n && #[trigger] shifts_at(ks, i2) implies exists|
                    k: int,
                | 0 <= k < ev.len() && #[trigger] ev[k] == ModulationEvent::ShiftsAt(i2 as usize) by {
                    assert(i2 != i);
                }
                if prev0 is Some {
                    let j0 = choose|j: int|
                        0 <= j < i && ks[j] == prev0 && #[trigger] unstable_between(ks, j, i);
                    assert(unstable_between(ks, j0, n as int));
                }
            },
            Some(key) => {
                match prev0 {
                    None => {
                        let e = ModulationEvent::Opens(i as usize);
                        assert(ev == ev0.push(e));
                        assert(opens_at(ks, i));
                        assert forall|k: int| 0 <= k < ev.len() implies {
                            &&& 0 <= event_segment(#[trigger] ev[k]) < n
                            &&& ev[k] is Opens ==> opens_at(ks, event_segment(ev[k]))
                            &&& ev[k] is ShiftsAt ==> shifts_at(ks, event_segment(ev[k]))
                        } by {
                            if k < ev0.len() {
                                assert(ev[k] == ev0[k]);
                            }
                        }
                        assert forall|i2: int| 0 <= i2 < n && #[trigger] opens_at(ks, i2) implies exists|
                            k: int,
                        | 0 <= k < ev.len() && #[trigger] ev[k] == ModulationEvent::Opens(i2 as usize) by {
                            if i2 == i {
                                assert(ev[ev0.len() as int] == e);
                            } else {
                                let k0 = choose|k: int|
                                    0 <= k < ev0.len() && #[trigger] ev0[k] == ModulationEvent::Opens(
                                        i2 as usize,
                                    );
                                assert(ev[k0] == ev0[k0]);
                            }
                        }
                        assert forall|i2: int| 0 <= i2 < n && #[trigger] shifts_at(ks, i2) implies exists|
                            k: int,
                        | 0 <= k < ev.len() && #[trigger] ev[k] == ModulationEvent::ShiftsAt(i2 as usize) by {
                            if i2 == i {
                                let j = choose|j: int|
                                    0 <= j < i && ks[j] is Some && #[trigger] unstable_between(ks, j, i)
                                        && ks[j]->0 != ks[i]->0;
                                assert(ks[j] is None);
                            } else {
                                let k0 = choose|k: int|
                                    0 <= k < ev0.len() && #[trigger] ev0[k] == ModulationEvent::ShiftsAt(
                                        i2 as usize,
                                    );
                                assert(ev[k0] == ev0[k0]);
                            }
                        }
                        assert forall|a: int, b: int| 0 <= a < b < ev.len() implies event_segment(
                            #[trigger] ev[a],
                        ) < event_segment(#[trigger] ev[b]) by {
                            assert(ev[a] == ev0[a]);
                            if b < ev0.len() {
                                assert(ev[b] == ev0[b]);
                            }
                        }
                        assert(unstable_between(ks, i, n as int));
                    },
                    Some(p) => {
                        let j0 = choose|j: int|
                            0 <= j < i && ks[j] == prev0 && #[trigger] unstable_between(ks, j, i);
                        assert(!opens_at(ks, i)) by {
                            assert(ks[j0] is Some);
                        }
                        if p != key {
                            let e = ModulationEvent::ShiftsAt(i as usize);
                            assert(ev == ev0.push(e));
                            assert(shifts_at(ks, i));
                            assert forall|k: int| 0 <= k < ev.len() implies {
                                &&& 0 <= event_segment(#[trigger] ev[k]) < n
                                &&& ev[k] is Opens ==> opens_at(ks, event_segment(ev[k]))
                                &&& ev[k] is ShiftsAt ==> shifts_at(ks, event_segment(ev[k]))
                            } by {
                                if k < ev0.len() {
                                    assert(ev[k] == ev0[k]);
                                }
                            }
                            assert forall|i2: int| 0 <= i2 < n && #[trigger] opens_at(ks, i2) implies exists|
                                k: int,
                            | 0 <= k < ev.len() && #[trigger] ev[k] == ModulationEvent::Opens(i2 as usize) by {
                                let k0 = choose|k: int|
                                    0 <= k < ev0.len() && #[trigger] ev0[k] == ModulationEvent::Opens(
                                        i2 as usize,
                                    );
                                assert(ev[k0] == ev0[k0]);
                            }
                            assert forall|i2: int| 0 <= i2 < n && #[trigger] shifts_at(ks, i2) implies exists|
                                k: int,
                            | 0 <= k < ev.len() && #[trigger] ev[k] == ModulationEvent::ShiftsAt(i2 as usize) by {
                                if i2 == i {
                                    assert(ev[ev0.len() as int] == e);
                                } else {
                                    let k0 = choose|k: int|
                                        0 <= k < ev0.len() && #[trigger] ev0[k]
                                            == ModulationEvent::ShiftsAt(i2 as usize);
                                    assert(ev[k0] == ev0[k0]);
                                }
                            }
                            assert forall|a: int, b: int| 0 <= a < b < ev.len() implies event_segment(
                                #[trigger] ev[a],
                            ) < event_segment(#[trigger] ev[b]) by {
                                assert(ev[a] == ev0[a]);
                                if b < ev0.len() {
                                    assert(ev[b] == ev0[b]);
                                }
                            }
                        } else {
                            assert(ev == ev0);
                            assert(!shifts_at(ks, i)) by {
                                if shifts_at(ks, i) {
                                    let j = choose|j: int|
                                        0 <= j < i && ks[j] is Some && #[trigger] unstable_between(ks, j, i)
                                            && ks[j]->0 != ks[i]->0;
                                    if j < j0 {
                                        assert(ks[j0] is None);
                                    } else if j > j0 {
                                        assert(ks[j] is None);
                                    }
                                }
                            }
                            assert forall|i2: int| 0 <= i2 < n && #[trigger] opens_at(ks, i2) implies exists|
                                k: int,
                            | 0 <= k < ev.len() && #[trigger] ev[k] == ModulationEvent::Opens(i2 as usize) by {
                                assert(i2 != i);
                            }
                            assert forall|i2: int| 0 <= i2 < n && #[trigger] shifts_at(ks, i2) implies exists|
                                k: int,
                            | 0 <= k < ev.len() && #[trigger] ev[k] == ModulationEvent::ShiftsAt(i2 as usize) by {
                                assert(i2 != i);
                            }
                        }
                        assert(unstable_between(ks, i, n as int));
                    },
                }
            },
        }
    }
}

/// The modulation summary marks exactly the key changes along the stable
/// segments, in segment order: one `Opens` at the first stable segment,
/// and a `ShiftsAt` at each stable segment whose key differs from that of
/// the nearest earlier stable segment. Unstable segments never carry an
/// event, and a key that returns unchanged after unstable segments is no
/// shift.
pub proof fn law_events_mark_key_changes(ks: Seq<Option<Seq<char>>>)
    requires
        ks.len() <= usize::MAX,
    ensures
        ({
            let ev = events_upto(ks, ks.len()).0;
            &&& forall|k: int|
                0 <= k < ev.len() ==> {
                    &&& ks[event_segment(#[trigger] ev[k])] is Some
                    &&& ev[k] is Opens ==> opens_at(ks, event_segment(ev[k]))
                    &&& ev[k] is ShiftsAt ==> shifts_at(ks, event_segment(ev[k]))
                }
            &&& forall|i: int|
                #[trigger] opens_at(ks, i) ==> exists|k: int|
                    0 <= k < ev.len() && #[trigger] ev[k] == ModulationEvent::Opens(i as usize)
            &&& forall|i: int|
                #[trigger] shifts_at(ks, i) ==> exists|k: int|
                    0 <= k < ev.len() && #[trigger] ev[k] == ModulationEvent::ShiftsAt(i as usize)
            &&& forall|a: int, b: int|
                0 <= a < b < ev.len() ==> event_segment(#[trigger] ev[a]) < event_segment(
                    #[trigger] ev[b],
                )
        }),
{
    lemma_events_characterised(ks, ks.len());
}

} // verus!
