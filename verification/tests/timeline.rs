use tunelock::timeline::{
    analysis_window, segment_bounds, timeline_verdict, ModulationEvent, MAX_ANALYSIS_SAMPLES,
    TIMELINE_SEGMENTS,
};

#[test]
fn analysis_window_takes_the_middle() {
    assert_eq!(MAX_ANALYSIS_SAMPLES, 180 * 22050);
    assert_eq!(analysis_window(1000, MAX_ANALYSIS_SAMPLES), (0, 1000));
    assert_eq!(analysis_window(MAX_ANALYSIS_SAMPLES, MAX_ANALYSIS_SAMPLES), (0, MAX_ANALYSIS_SAMPLES));
    let len = MAX_ANALYSIS_SAMPLES + 1001;
    assert_eq!(analysis_window(len, MAX_ANALYSIS_SAMPLES), (500, 500 + MAX_ANALYSIS_SAMPLES));
}

#[test]
fn segments_tile_the_frames() {
    let frames = 803;
    let mut expected_start = 0;
    for i in 0..TIMELINE_SEGMENTS {
        let (s, e) = segment_bounds(frames, TIMELINE_SEGMENTS, i);
        assert_eq!(s, expected_start);
        assert!(s <= e);
        expected_start = e;
    }
    assert_eq!(expected_start, frames);
    assert_eq!(segment_bounds(803, 8, 0), (0, 100));
    assert_eq!(segment_bounds(803, 8, 7), (700, 803));
    // Fewer frames than segments: only the last segment is non-empty.
    assert_eq!(segment_bounds(5, 8, 3), (0, 0));
    assert_eq!(segment_bounds(5, 8, 7), (0, 5));
}

fn keys(k: &[Option<&str>]) -> Vec<Option<String>> {
    k.iter().map(|x| x.map(|s| s.to_string())).collect()
}

#[test]
fn modulation_opens_then_shifts() {
    let v = timeline_verdict(&keys(&[Some("5A"), Some("12A")]), false);
    assert!(v.modulates);
    assert!(!v.abstained);
    assert_eq!(v.events, vec![ModulationEvent::Opens(0), ModulationEvent::ShiftsAt(1)]);
}

#[test]
fn steady_key_does_not_modulate() {
    let v = timeline_verdict(&keys(&[Some("8A"), None, Some("8A"), Some("8A")]), false);
    assert!(!v.modulates);
    assert!(!v.abstained);
    assert!(v.events.is_empty());
}

#[test]
fn unstable_segments_are_skipped_in_the_summary() {
    let v = timeline_verdict(&keys(&[None, Some("8A"), None, Some("9A"), Some("8A")]), false);
    assert!(v.modulates);
    assert_eq!(
        v.events,
        vec![ModulationEvent::Opens(1), ModulationEvent::ShiftsAt(3), ModulationEvent::ShiftsAt(4)]
    );
}

#[test]
fn abstention() {
    assert!(timeline_verdict(&keys(&[None, None]), false).abstained);
    assert!(timeline_verdict(&keys(&[]), false).abstained);
    // A stable segment with a weak global key: no abstention, but the
    // global key is not shown.
    let weak = timeline_verdict(&keys(&[Some("8A")]), true);
    assert!(!weak.abstained);
    assert!(weak.global_key_hidden);
    let firm = timeline_verdict(&keys(&[Some("8A")]), false);
    assert!(!firm.abstained && !firm.global_key_hidden);
    assert!(timeline_verdict(&keys(&[None]), false).global_key_hidden);
}
