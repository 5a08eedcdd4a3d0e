use tunelock::assist::TrackMetadata;
use tunelock::repair::{
    chunk_proposals, genre_inferences, genre_prompt, repair_prompt, InferenceReply, ProposalReply,
    DEFAULT_CONFIDENCE_BITS, FILENAME_PARSE_CONFIDENCE_BITS,
};

fn track(id: i64, filename: &str, title: Option<&str>, artist: Option<&str>) -> TrackMetadata {
    TrackMetadata {
        track_id: id,
        filename: filename.to_string(),
        title: title.map(|s| s.to_string()),
        artist: artist.map(|s| s.to_string()),
        album: None,
        genre: None,
    }
}

#[test]
fn repair_prompt_lists_the_batch() {
    let needs = vec![
        track(-7, "01 A - \"B\".mp3", None, Some("A")),
        track(12, "x.mp3", Some("T"), None),
        track(3, "y.mp3", None, None),
    ];
    let p = repair_prompt(&needs, 0, 2);
    assert_eq!(
        p,
        "Analyze these tracks and propose metadata repairs:\n\n[\
{\"trackId\": -7, \"filename\": \"01 A - \\\"B\\\".mp3\", \"currentTitle\": \"\", \"currentArtist\": \"A\", \"currentAlbum\": \"\", \"currentGenre\": \"\"},\n\
{\"trackId\": 12, \"filename\": \"x.mp3\", \"currentTitle\": \"T\", \"currentArtist\": \"\", \"currentAlbum\": \"\", \"currentGenre\": \"\"}]"
    );
    assert_eq!(repair_prompt(&needs, 1, 1), "Analyze these tracks and propose metadata repairs:\n\n[]");
}

#[test]
fn failed_model_falls_back_to_filename_parsing() {
    let needs = vec![
        track(1, "01 Daft Punk - One More Time.mp3", None, Some("Unknown Artist")),
        track(2, "Artist_-_Title.flac", Some("Old"), None),
    ];
    let r = chunk_proposals(&needs, 0, 2, None);
    assert_eq!(r.len(), 2);
    assert_eq!(r[0].track_id, 1);
    assert_eq!(r[0].proposed_artist.as_deref(), Some("Daft Punk"));
    assert_eq!(r[0].proposed_title.as_deref(), Some("One More Time"));
    assert_eq!(r[0].current_artist.as_deref(), Some("Unknown Artist"));
    assert_eq!(r[0].confidence_bits, FILENAME_PARSE_CONFIDENCE_BITS);
    assert_eq!(f64::from_bits(r[0].confidence_bits), 0.7);
    assert_eq!(r[0].source, "filename_parse");
    assert_eq!(r[1].current_title.as_deref(), Some("Old"));
    assert_eq!(r[1].proposed_artist.as_deref(), Some("Artist"));
    assert!(r[1].proposed_genre.is_none());
}

#[test]
fn model_proposals_are_matched_to_tracks_by_id() {
    let needs = vec![track(10, "a.mp3", None, None), track(20, "b.mp3", Some("B"), None)];
    let reply = vec![
        ProposalReply {
            track_id: Some(20),
            proposed_artist: Some("Someone".to_string()),
            proposed_title: None,
            proposed_album: None,
            proposed_genre: Some("house".to_string()),
            confidence_bits: Some(0.9f64.to_bits()),
        },
        ProposalReply {
            track_id: Some(99),
            proposed_artist: None,
            proposed_title: None,
            proposed_album: None,
            proposed_genre: None,
            confidence_bits: None,
        },
        ProposalReply {
            track_id: None,
            proposed_artist: None,
            proposed_title: None,
            proposed_album: None,
            proposed_genre: None,
            confidence_bits: None,
        },
        ProposalReply {
            track_id: Some(10),
            proposed_artist: None,
            proposed_title: Some("T".to_string()),
            proposed_album: None,
            proposed_genre: None,
            confidence_bits: None,
        },
    ];
    let r = chunk_proposals(&needs, 0, 1, Some(reply));
    assert_eq!(r.len(), 2);
    assert_eq!(r[0].track_id, 20);
    assert_eq!(r[0].filename, "b.mp3");
    assert_eq!(r[0].current_title.as_deref(), Some("B"));
    assert_eq!(r[0].proposed_genre.as_deref(), Some("house"));
    assert_eq!(f64::from_bits(r[0].confidence_bits), 0.9);
    assert_eq!(r[0].source, "llm_inference");
    assert_eq!(r[1].track_id, 10);
    assert_eq!(r[1].confidence_bits, DEFAULT_CONFIDENCE_BITS);
    assert_eq!(f64::from_bits(r[1].confidence_bits), 0.5);
}

#[test]
fn genre_prompt_and_inferences() {
    let tracks = vec![track(5, "f.mp3", Some("T"), Some("A"))];
    assert_eq!(
        genre_prompt(&tracks, 0, 1),
        "Infer genres for these tracks:\n\n[{\"trackId\": 5, \"filename\": \"f.mp3\", \"title\": \"T\", \"artist\": \"A\"}]"
    );
    let reply = vec![
        InferenceReply { track_id: Some(5), genre: None, confidence_bits: None, reasoning: None },
        InferenceReply { track_id: None, genre: Some("jazz".to_string()), confidence_bits: None, reasoning: None },
        InferenceReply {
            track_id: Some(6),
            genre: Some("jazz".to_string()),
            confidence_bits: Some(0.8f64.to_bits()),
            reasoning: Some("swing".to_string()),
        },
    ];
    let r = genre_inferences(&reply);
    assert_eq!(r.len(), 2);
    assert_eq!(r[0].track_id, 5);
    assert_eq!(r[0].inferred_genre, "electronic");
    assert_eq!(f64::from_bits(r[0].confidence_bits), 0.5);
    assert_eq!(r[1].inferred_genre, "jazz");
    assert_eq!(r[1].reasoning.as_deref(), Some("swing"));
}
