use tunelock::genre::{genre_family, is_classical, is_electronic, is_hip_hop, is_jazz, is_rock_pop, GenreFamily};
use tunelock::metadata::{needs_repair, parse_filename_simple};
use tunelock::setlist::{analyze_flow, normalize_string, TrackFlowInput};
use tunelock::text::trim_str;

#[test]
fn filename_with_dash_separator() {
    assert_eq!(
        parse_filename_simple("Daft Punk - One More Time.mp3"),
        ("Daft Punk".to_string(), "One More Time".to_string())
    );
    assert_eq!(
        parse_filename_simple("Artist_-_Title.flac"),
        ("Artist".to_string(), "Title".to_string())
    );
    // Only the extension after the last dot is dropped.
    assert_eq!(parse_filename_simple("a.b - c.mp3"), ("a.b".to_string(), "c".to_string()));
}

#[test]
fn filename_track_number_prefix() {
    // The whole leading track number is stripped from the artist.
    assert_eq!(
        parse_filename_simple("01 Artist - Title.mp3"),
        ("Artist".to_string(), "Title".to_string())
    );
    assert_eq!(
        parse_filename_simple("  07 12 Artist 2 - Title.mp3"),
        ("Artist 2".to_string(), "Title".to_string())
    );
    // Without a separator the number prefix is trimmed from the title.
    assert_eq!(parse_filename_simple("01_Title.mp3"), (String::new(), "Title".to_string()));
    assert_eq!(parse_filename_simple("noextension"), (String::new(), "noextension".to_string()));
}

#[test]
fn metadata_repair_selection() {
    let s = |x: &str| Some(x.to_string());
    assert!(needs_repair(&s("Title"), &s("Unknown Artist"), &s("house")));
    assert!(needs_repair(&s("Title"), &None, &s("house")));
    assert!(needs_repair(&s(""), &s("Artist"), &s("house")));
    assert!(needs_repair(&s("Title"), &s("Artist"), &s("")));
    assert!(!needs_repair(&s("Title"), &s("Artist"), &s("house")));
}

#[test]
fn normalization_for_matching() {
    assert_eq!(normalize_string("  Hello,  World! "), "hello world");
    assert_eq!(normalize_string("Daft-Punk"), "daftpunk");
    assert_eq!(normalize_string("   "), "");
    // A tab is neither alphanumeric nor a plain space, so it is dropped
    // before the words are split.
    assert_eq!(normalize_string("One\tMore  Time"), "onemore time");
}

#[test]
fn trimming() {
    assert_eq!(trim_str("  a b \n"), "a b");
    assert_eq!(trim_str(""), "");
}

#[test]
fn genre_keywords() {
    assert!(is_electronic("deep house"));
    assert!(is_classical("baroque"));
    assert!(is_rock_pop("indie rock"));
    assert!(is_hip_hop("trap"));
    assert!(is_jazz("bebop"));
    assert!(!is_jazz("polka"));
}

#[test]
fn genre_families() {
    assert_eq!(genre_family(Some("Electronic")), GenreFamily::Electronic);
    assert_eq!(genre_family(Some("Deep House")), GenreFamily::Electronic);
    assert_eq!(genre_family(Some("Classical")), GenreFamily::Classical);
    assert_eq!(genre_family(Some("Rock")), GenreFamily::RockPop);
    assert_eq!(genre_family(Some("Hip Hop")), GenreFamily::HipHop);
    assert_eq!(genre_family(Some("Jazz")), GenreFamily::Jazz);
    assert_eq!(genre_family(Some("Polka")), GenreFamily::Default);
    assert_eq!(genre_family(Some("")), GenreFamily::Default);
    assert_eq!(genre_family(None), GenreFamily::Default);
}

#[test]
fn harmonic_flow_summary() {
    let t = |matched: bool, key: Option<&str>, energy: Option<i32>| TrackFlowInput {
        matched,
        key_camelot: key.map(|k| k.to_string()),
        energy_level: energy,
    };
    let tracks = vec![
        t(true, Some("8A"), Some(5)),
        t(false, None, None),
        t(true, Some("9A"), Some(7)),
        t(true, None, Some(3)),
    ];
    let s = analyze_flow(&tracks);
    assert_eq!(s.total_tracks, 4);
    assert_eq!(s.matched_locally, 3);
    assert_eq!(s.unmatched, 1);
    assert_eq!(s.key_flow, vec!["8A".to_string(), "9A".to_string()]);
    assert_eq!(s.energy_arc, vec![Some(5), None, Some(7), Some(3)]);
    assert_eq!(s.flow_labels, vec!["Opening: 8A", "8A → ?", "? → 9A", "9A → ?"]);

    let first_unmatched = analyze_flow(&vec![t(false, Some("1A"), Some(2)), t(true, Some("1A"), None)]);
    assert_eq!(first_unmatched.flow_labels, vec!["Opening (unmatched)", "? → 1A"]);
    assert_eq!(first_unmatched.energy_arc, vec![None, None]);
}

#[test]
fn trimming_agrees_with_std_whitespace() {
    for u in 0u32..=0x3100 {
        if let Some(c) = char::from_u32(u) {
            let s = format!("{}x{}", c, c);
            assert_eq!(trim_str(&s), s.trim(), "code point {:#x}", u);
        }
    }
}

#[test]
fn normalised_names_are_single_spaced_words() {
    let r = normalize_string("  Daft   Punk!! ");
    assert_eq!(r, "daft punk");
    for input in ["  A  b\t c ", "--", "x\u{3000}y", " Ünïcode  NAME 12 "] {
        let r = normalize_string(input);
        assert!(!r.starts_with(' ') && !r.ends_with(' '));
        assert!(!r.contains("  "));
        assert!(r.chars().all(|c| c == ' ' || (c.is_alphanumeric() && !c.is_whitespace())));
    }
}

#[test]
fn normalising_twice_changes_nothing() {
    for input in ["  Daft   Punk!! ", "  A  b\t c ", "x\u{3000}y", " Ünïcode  NAME 12 ", "Daft-Punk"] {
        let once = normalize_string(input);
        assert_eq!(once.to_lowercase(), once);
        assert_eq!(normalize_string(&once), once);
    }
}
