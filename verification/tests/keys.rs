use tunelock::keys::{index_to_key, key_compat_tenths, primary_camelot, primary_key_label};

#[test]
fn test_key_index_mapping() {
    let (std, cam) = index_to_key(0).unwrap();
    assert_eq!(std, "C major");
    assert_eq!(cam, "8B");

    let (std, cam) = index_to_key(21).unwrap();
    assert_eq!(std, "A minor");
    assert_eq!(cam, "8A");
}

#[test]
fn index_to_key_rejects_indices_past_the_vocabulary() {
    assert!(index_to_key(23).is_some());
    assert!(index_to_key(24).is_none());
    assert!(index_to_key(1000).is_none());
}

#[test]
fn primary_labels_follow_the_vocabulary() {
    assert_eq!(primary_key_label(Some(21)), Some("A minor"));
    assert_eq!(primary_camelot(Some(21)), Some("8A"));
    assert_eq!(primary_key_label(None), None);
    assert_eq!(primary_camelot(None), None);
}

#[test]
fn key_compatibility_in_tenths() {
    // Same key.
    assert_eq!(key_compat_tenths(0, 0), 10);
    // C major to G major: a fifth.
    assert_eq!(key_compat_tenths(0, 7), 8);
    // C major to F major: a fourth, the other Camelot neighbour.
    assert_eq!(key_compat_tenths(0, 5), 8);
    // A minor to C major: relative keys.
    assert_eq!(key_compat_tenths(21, 0), 7);
    // C major to C minor: parallel keys.
    assert_eq!(key_compat_tenths(0, 12), 6);
    // C major to C# major: a semitone.
    assert_eq!(key_compat_tenths(0, 1), 4);
    // C major to D major: a whole tone is none of the relations.
    assert_eq!(key_compat_tenths(0, 2), 0);
    // C major to D# minor: three semitones, but not the relative minor.
    assert_eq!(key_compat_tenths(0, 15), 0);
    // C major to A minor, and E minor to G major: relatives.
    assert_eq!(key_compat_tenths(0, 21), 7);
    assert_eq!(key_compat_tenths(16, 7), 7);
    // C major to F# major: a tritone.
    assert_eq!(key_compat_tenths(0, 6), 0);
    // Symmetric.
    assert_eq!(key_compat_tenths(7, 0), key_compat_tenths(0, 7));
    assert_eq!(key_compat_tenths(0, 21), key_compat_tenths(21, 0));
}
