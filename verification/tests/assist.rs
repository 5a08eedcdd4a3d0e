use tunelock::assist::{
    batch_ranges, brace_span, chat_reply, escape_quotes, find_track_id, json_candidate,
    parse_llm_json, prompt_messages, tracks_needing_repair, tracks_with_artist, ChatMessage,
    TrackMetadata, PROMPT_BATCH,
};

#[test]
fn prompt_has_system_then_user_message() {
    let m = prompt_messages("be brief", "hello");
    assert_eq!(m.len(), 2);
    assert_eq!(m[0].role, "system");
    assert_eq!(m[0].content, "be brief");
    assert_eq!(m[1].role, "user");
    assert_eq!(m[1].content, "hello");
}

#[test]
fn chat_reply_prefers_the_server_error() {
    let msg = || Some(ChatMessage { role: "assistant".to_string(), content: "hi".to_string() });
    assert_eq!(chat_reply(msg(), Some("model not found".to_string())), Err("model not found".to_string()));
    assert_eq!(chat_reply(msg(), None), Ok("hi".to_string()));
    assert_eq!(chat_reply(None, None), Ok(String::new()));
}

#[test]
fn fences_are_stripped_from_json_replies() {
    assert_eq!(json_candidate("```json\n{\"a\": 1}\n```"), "{\"a\": 1}");
    assert_eq!(json_candidate("  ```\n[1, 2]\n```  "), "[1, 2]");
    assert_eq!(json_candidate(" {\"a\": 1} "), "{\"a\": 1}");
    // A leading fence without a closing one falls back to the whole reply.
    assert_eq!(json_candidate("```json {\"a\": 1}"), "```json {\"a\": 1}");
}

#[test]
fn brace_span_finds_first_open_and_last_close() {
    assert_eq!(brace_span("Sure! {\"a\": {\"b\": 2}} done"), Some((6, 20)));
    assert_eq!(brace_span("no json here"), None);
    assert_eq!(brace_span("} {"), Some((2, 0)));
}

#[test]
fn llm_json_parsing() {
    let v = parse_llm_json("```json\n{\"description\": \"warm up\"}\n```");
    assert_eq!(v["description"], "warm up");
    let v = parse_llm_json("Here is the plan: {\"trackIds\": [1, 2]} hope it helps");
    assert_eq!(v["trackIds"][1], 2);
    // An unfenced reply that parses is returned whole, not its inner span.
    let v = parse_llm_json("[{\"a\": 1}]");
    assert!(v.is_array());
    assert_eq!(v[0]["a"], 1);
}

#[test]
fn replies_without_json_fall_back_to_raw_text() {
    assert_eq!(parse_llm_json("hello"), serde_json::Value::String("hello".to_string()));
    let broken = "broken {\"a\": } text";
    assert_eq!(parse_llm_json(broken), serde_json::Value::String(broken.to_string()));
    assert_eq!(parse_llm_json("}{"), serde_json::Value::String("}{".to_string()));
    assert_eq!(parse_llm_json("} {"), serde_json::Value::String("} {".to_string()));
}

#[test]
fn quotes_are_escaped_for_prompts() {
    assert_eq!(escape_quotes("Say \"Hi\""), "Say \\\"Hi\\\"");
    assert_eq!(escape_quotes("plain"), "plain");
    assert_eq!(escape_quotes(""), "");
}

fn track(id: i64, title: Option<&str>, artist: Option<&str>, genre: Option<&str>) -> TrackMetadata {
    TrackMetadata {
        track_id: id,
        filename: format!("{}.mp3", id),
        title: title.map(|s| s.to_string()),
        artist: artist.map(|s| s.to_string()),
        album: None,
        genre: genre.map(|s| s.to_string()),
    }
}

#[test]
fn repair_and_genre_selection() {
    let tracks = vec![
        track(1, Some("A"), Some("X"), Some("house")),
        track(2, Some("B"), Some("Unknown Artist"), Some("house")),
        track(3, None, Some("Y"), Some("techno")),
        track(4, Some("D"), None, None),
    ];
    assert_eq!(tracks_needing_repair(&tracks), vec![1, 2, 3]);
    assert_eq!(tracks_with_artist(&tracks), vec![0, 1, 2]);
}

#[test]
fn prompts_are_batched_like_chunks() {
    assert_eq!(PROMPT_BATCH, 50);
    assert_eq!(batch_ranges(120, 50), vec![(0, 50), (50, 100), (100, 120)]);
    assert_eq!(batch_ranges(100, 50), vec![(0, 50), (50, 100)]);
    assert_eq!(batch_ranges(3, 50), vec![(0, 3)]);
    assert!(batch_ranges(0, 50).is_empty());
}

#[test]
fn proposals_find_their_track() {
    let ids = vec![10, 20, 20, 30];
    assert_eq!(find_track_id(&ids, 20), Some(1));
    assert_eq!(find_track_id(&ids, 30), Some(3));
    assert_eq!(find_track_id(&ids, 99), None);
}
