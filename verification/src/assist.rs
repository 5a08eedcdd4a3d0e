//! The text side of the optional LLM assist features: chat messages and
//! status, cleaning a model's reply down to its JSON, quoting values for a
//! prompt, and choosing and batching the tracks a prompt covers.
use vstd::prelude::*;
use crate::metadata::{needs_repair, needs_repair_spec, opt_view};
use crate::text::{chars_of, matches_at, string_of_range, string_push, trim, trim_range};

verus! {

/// Model info as the local LLM server lists it.
#[derive(Debug, Clone)]
pub struct OllamaModel {
    pub name: String,
    pub size: Option<u64>,
}

/// Status of the LLM integration.
#[derive(Debug, Clone)]
pub struct AssistStatus {
    pub available: bool,
    pub ollama_url: String,
    pub models: Vec<OllamaModel>,
    pub selected_model: Option<String>,
    pub enabled: bool,
}

/// Chat message in the server's format.
#[derive(Debug, Clone)]
pub struct ChatMessage {
    /// "system", "user" or "assistant".
    pub role: String,
    pub content: String,
}

/// A natural-language set plan.
#[derive(Debug, Clone)]
pub struct SetPlan {
    pub description: String,
    pub track_ids: Vec<i64>,
    pub reasoning: String,
}

/// The two messages of a simple prompt: the system instructions, then the
/// user's request.
pub fn prompt_messages(system: &str, user: &str) -> (m: Vec<ChatMessage>)
    ensures
        m@.len() == 2,
        m@[0].role@ == "system"@,
        m@[0].content@ == system@,
        m@[1].role@ == "user"@,
        m@[1].content@ == user@,
{
    let mut m: Vec<ChatMessage> = Vec::new();
    m.push(ChatMessage { role: "system".to_owned(), content: system.to_owned() });
    m.push(ChatMessage { role: "user".to_owned(), content: user.to_owned() });
    m
}

/// What a chat reply yields: the server's error text if it reported one,
/// otherwise the reply's content, empty when the reply has no message.
pub fn chat_reply(message: Option<ChatMessage>, error: Option<String>) -> (r: Result<
    String,
    String,
>)
    ensures
        match error {
            Some(e) => r == Err::<String, String>(e),
            None => match message {
                Some(msg) => r == Ok::<String, String>(msg.content),
                None => r matches Ok(s) && s@.len() == 0,
            },
        },
{
    match error {
        Some(e) => Err(e),
        None => match message {
            Some(msg) => Ok(msg.content),
            None => Ok(String::new()),
        },
    }
}

/// Whether `s` begins with `p`.
pub open spec fn starts_with(s: Seq<char>, p: Seq<char>) -> bool {
    p.len() <= s.len() && s.subrange(0, p.len() as int) == p
}

/// Whether `s` ends with `p`.
pub open spec fn ends_with(s: Seq<char>, p: Seq<char>) -> bool {
    p.len() <= s.len() && s.subrange(s.len() - p.len(), s.len() as int) == p
}

/// A code fence.
pub open spec fn fence() -> Seq<char> {
    seq!['`', '`', '`']
}

/// A code fence tagged as JSON.
pub open spec fn json_fence() -> Seq<char> {
    seq!['`', '`', '`', 'j', 's', 'o', 'n']
}

/// The text a reply is first parsed from: the trimmed reply with a leading
/// fence (tagged or not) and a trailing fence removed and trimmed again.
/// Where no leading fence is found, or no trailing one after it, the whole
/// reply takes the place of the fenced part.
pub open spec fn json_candidate_spec(r: Seq<char>) -> Seq<char> {
    let t = trim(r);
    let a = if starts_with(t, json_fence()) {
        t.subrange(7, t.len() as int)
    } else if starts_with(t, fence()) {
        t.subrange(3, t.len() as int)
    } else {
        r
    };
    let b = trim(a);
    let c = if ends_with(b, fence()) {
        b.subrange(0, b.len() - 3)
    } else {
        r
    };
    trim(c)
}

/// Strips the code fences a model may wrap its JSON in.
pub fn json_candidate(response: &str) -> (c: String)
    ensures
        c@ == json_candidate_spec(response@),
{
    let v = chars_of(response);
    let n = v.len();
    proof {
        reveal_strlit("```json");
        reveal_strlit("```");
    }
    let fj = chars_of("```json");
    let f3 = chars_of("```");
    assert(fj@ =~= json_fence());
    assert(f3@ =~= fence());
    let ghost r = v@;
    assert(r.subrange(0, n as int) =~= r);
    let (t0, t1) = trim_range(&v, 0, n);
    let ghost t = r.subrange(t0 as int, t1 as int);
    let (a0, a1) = if t1 - t0 >= 7 && matches_at(&v, &fj, t0) {
        assert(t.subrange(0, 7) =~= r.subrange(t0 as int, t0 + 7));
        assert(t.subrange(7, t.len() as int) =~= r.subrange(t0 + 7, t1 as int));
        (t0 + 7, t1)
    } else if t1 - t0 >= 3 && matches_at(&v, &f3, t0) {
        assert(t1 - t0 >= 7 ==> t.subrange(0, 7) =~= r.subrange(t0 as int, t0 + 7));
        assert(t.subrange(0, 3) =~= r.subrange(t0 as int, t0 + 3));
        assert(t.subrange(3, t.len() as int) =~= r.subrange(t0 + 3, t1 as int));
        (t0 + 3, t1)
    } else {
        assert(t1 - t0 >= 7 ==> t.subrange(0, 7) =~= r.subrange(t0 as int, t0 + 7));
        assert(t1 - t0 >= 3 ==> t.subrange(0, 3) =~= r.subrange(t0 as int, t0 + 3));
        (0, n)
    };
    let (b0, b1) = trim_range(&v, a0, a1);
    let ghost b = r.subrange(b0 as int, b1 as int);
    let (c0, c1) = if b1 - b0 >= 3 && matches_at(&v, &f3, b1 - 3) {
        assert(b.subrange(b.len() - 3, b.len() as int) =~= r.subrange(b1 - 3, b1 as int));
        assert(b.subrange(0, b.len() - 3) =~= r.subrange(b0 as int, b1 - 3));
        (b0, b1 - 3)
    } else {
        assert(b1 - b0 >= 3 ==> b.subrange(b.len() - 3, b.len() as int) =~= r.subrange(
            b1 - 3,
            b1 as int,
        ));
        (0, n)
    };
    let (d0, d1) = trim_range(&v, c0, c1);
    string_of_range(&v, d0, d1)
}

/// First index of `c` in `s` at or after `from`.
pub open spec fn find_char_from(s: Seq<char>, c: char, from: int) -> Option<int>
    decreases s.len() - from,
{
    if from < 0 || from >= s.len() {
        None
    } else if s[from] == c {
        Some(from)
    } else {
        find_char_from(s, c, from + 1)
    }
}

/// Last index of `c` in the first `upto` characters of `s`.
pub open spec fn rfind_char_before(s: Seq<char>, c: char, upto: int) -> Option<int>
    decreases upto,
{
    if upto <= 0 {
        None
    } else if s[upto - 1] == c {
        Some(upto - 1)
    } else {
        rfind_char_before(s, c, upto - 1)
    }
}

/// The span from the first `{` to the last `}` of a reply, both included,
/// when the reply holds both.
pub open spec fn brace_span_spec(r: Seq<char>) -> Option<(int, int)> {
    match (find_char_from(r, '{', 0), rfind_char_before(r, '}', r.len() as int)) {
        (Some(s), Some(e)) => Some((s, e)),
        _ => None,
    }
}

proof fn lemma_find_char_in_range(s: Seq<char>, c: char, from: int)
    requires
        0 <= from,
    ensures
        find_char_from(s, c, from) matches Some(i) ==> from <= i < s.len() && s[i] == c,
    decreases s.len() - from,
{
    if from < s.len() && s[from] != c {
        lemma_find_char_in_range(s, c, from + 1);
    }
}

proof fn lemma_rfind_char_in_range(s: Seq<char>, c: char, upto: int)
    requires
        upto <= s.len(),
    ensures
        rfind_char_before(s, c, upto) matches Some(i) ==> 0 <= i < upto && s[i] == c,
    decreases upto,
{
    if upto > 0 && s[upto - 1] != c {
        lemma_rfind_char_in_range(s, c, upto - 1);
    }
}

/// The first `{` and the last `}` of a reply, when it holds both.
pub fn brace_span(response: &str) -> (r: Option<(usize, usize)>)
    ensures
        match brace_span_spec(response@) {
            Some((s, e)) => r == Some((s as usize, e as usize)) && 0 <= s < response@.len() && 0
                <= e < response@.len(),
            None => r is None,
        },
        r matches Some((a, b)) ==> brace_span_spec(response@) == Some((a as int, b as int)),
{
    let v = chars_of(response);
    let n = v.len();
    let mut s: usize = 0;
    while s < n && v[s] != '{'
        invariant
            s <= n,
            n == v@.len(),
            find_char_from(v@, '{', 0) == find_char_from(v@, '{', s as int),
        decreases n - s,
    {
        s = s + 1;
    }
    let mut e: usize = n;
    while e > 0 && v[e - 1] != '}'
        invariant
            e <= n,
            n == v@.len(),
            rfind_char_before(v@, '}', n as int) == rfind_char_before(v@, '}', e as int),
        decreases e,
    {
        e = e - 1;
    }
    proof {
        lemma_find_char_in_range(v@, '{', 0);
        lemma_rfind_char_in_range(v@, '}', n as int);
    }
    if s < n && e > 0 {
        Some((s, e - 1))
    } else {
        None
    }
}

/// `serde_json::Value`, carried opaquely.
#[verifier::external_type_specification]
#[verifier::external_body]
pub struct ExJsonValue(serde_json::Value);

/// `serde_json::Error`, carried opaquely.
#[verifier::external_type_specification]
#[verifier::external_body]
pub struct ExJsonError(serde_json::Error);

/// Whether serde_json accepts `text` as one JSON value (surrounding
/// whitespace allowed).
pub uninterp spec fn is_json_text(text: Seq<char>) -> bool;

/// The JSON value serde_json parses from `text`, where it accepts it.
pub uninterp spec fn json_value_of(text: Seq<char>) -> serde_json::Value;

/// `serde_json::from_str::<serde_json::Value>`: parses `text` as one JSON
/// value. Whether parsing succeeds, and the value it yields, depend on the
/// text alone and are named by `is_json_text` and `json_value_of`.
#[verifier::external_body]
fn parse_json(text: &str) -> (r: Result<serde_json::Value, serde_json::Error>)
    ensures
        r is Ok <==> is_json_text(text@),
        r matches Ok(v) ==> v == json_value_of(text@),
{
    serde_json::from_str::<serde_json::Value>(text)
}

/// The JSON string value holding `text`.
pub uninterp spec fn json_string_value(text: Seq<char>) -> serde_json::Value;

/// `serde_json::Value::String`: wraps `text` as a JSON string value.
#[verifier::external_body]
fn json_string(text: String) -> (v: serde_json::Value)
    ensures
        v == json_string_value(text@),
{
    serde_json::Value::String(text)
}

/// What a model's reply is read as: the JSON value of the reply with its
/// code fences stripped if that parses; otherwise the value of the text
/// from its first `{` to its last `}` if that span exists and parses;
/// otherwise the raw reply as a JSON string.
pub open spec fn llm_json_value(r: Seq<char>) -> serde_json::Value {
    let c = json_candidate_spec(r);
    if is_json_text(c) {
        json_value_of(c)
    } else {
        match brace_span_spec(r) {
            Some((s, e)) => if s <= e + 1 && is_json_text(r.subrange(s, e + 1)) {
                json_value_of(r.subrange(s, e + 1))
            } else {
                json_string_value(r)
            },
            None => json_string_value(r),
        }
    }
}

/// Reads a model's reply as JSON: first the reply with its code fences
/// stripped, then the text from its first `{` to its last `}`; where
/// neither parses, the raw reply as a JSON string.
pub fn parse_llm_json(response: &str) -> (v: serde_json::Value)
    ensures
        v == llm_json_value(response@),
{
    let cleaned = json_candidate(response);
    match parse_json(cleaned.as_str()) {
        Ok(v) => v,
        Err(_) => {
            let chars = chars_of(response);
            match brace_span(response) {
                Some((s, e)) => {
                    proof {
                        assert(brace_span_spec(response@) == Some((s as int, e as int)));
                    }
                    assert(e < chars.len());
                    if s <= e + 1 {
                        let span = string_of_range(&chars, s, e + 1);
                        match parse_json(span.as_str()) {
                            Ok(v) => v,
                            Err(_) => json_string(response.to_owned()),
                        }
                    } else {
                        json_string(response.to_owned())
                    }
                },
                None => json_string(response.to_owned()),
            }
        },
    }
}

/// `s` with every double quote preceded by a backslash.
pub open spec fn escape_quotes_spec(s: Seq<char>) -> Seq<char>
    decreases s.len(),
{
    if s.len() == 0 {
        Seq::empty()
    } else if s.last() == '"' {
        escape_quotes_spec(s.drop_last()) + seq!['\\', '"']
    } else {
        escape_quotes_spec(s.drop_last()).push(s.last())
    }
}

/// Escapes the double quotes of a value placed inside a JSON string of a
/// prompt.
pub fn escape_quotes(s: &str) -> (r: String)
    ensures
        r@ == escape_quotes_spec(s@),
{
    let v = chars_of(s);
    let mut r = String::new();
    let mut i: usize = 0;
    while i < v.len()
        invariant
            i <= v@.len(),
            v@ == s@,
            r@ == escape_quotes_spec(v@.subrange(0, i as int)),
        decreases v@.len() - i,
    {
        let c = v[i];
        assert(v@.subrange(0, i + 1).drop_last() =~= v@.subrange(0, i as int));
        if c == '"' {
            string_push(&mut r, '\\');
            string_push(&mut r, '"');
            assert(r@ =~= escape_quotes_spec(v@.subrange(0, i + 1)));
        } else {
            string_push(&mut r, c);
        }
        i = i + 1;
    }
    assert(v@.subrange(0, v@.len() as int) =~= v@);
    r
}

/// Escaping adds exactly one backslash before each double quote and
/// changes nothing else: removing the added backslashes gives the text back.
pub open spec fn unescape_quotes_spec(s: Seq<char>) -> Seq<char>
    decreases s.len(),
{
    if s.len() == 0 {
        Seq::empty()
    } else if s.len() >= 2 && s.last() == '"' && s[s.len() - 2] == '\\' {
        unescape_quotes_spec(s.subrange(0, s.len() - 2)).push('"')
    } else {
        unescape_quotes_spec(s.drop_last()).push(s.last())
    }
}

/// Undoing the escape gives back the text that was escaped.
pub proof fn law_escape_round_trip(s: Seq<char>)
    ensures
        unescape_quotes_spec(escape_quotes_spec(s)) == s,
    decreases s.len(),
{
    if s.len() > 0 {
        law_escape_round_trip(s.drop_last());
        let e = escape_quotes_spec(s);
        let p = escape_quotes_spec(s.drop_last());
        if s.last() == '"' {
            assert(e.subrange(0, e.len() - 2) =~= p);
        } else {
            assert(e.drop_last() =~= p);
        }
        assert(s.drop_last().push(s.last()) =~= s);
    }
}

/// A library track as the metadata-repair feature reads it.
#[derive(Debug, Clone)]
pub struct TrackMetadata {
    pub track_id: i64,
    pub filename: String,
    pub title: Option<String>,
    pub artist: Option<String>,
    pub album: Option<String>,
    pub genre: Option<String>,
}

/// Whether a library track needs repair.
pub open spec fn track_needs_repair(t: TrackMetadata) -> bool {
    needs_repair_spec(opt_view(t.title), opt_view(t.artist), opt_view(t.genre))
}

/// Indices, ascending, of the first `n` tracks that satisfy `needs`.
pub open spec fn repair_indices(s: Seq<TrackMetadata>, n: nat) -> Seq<usize>
    decreases n,
{
    if n == 0 {
        Seq::empty()
    } else if track_needs_repair(s[n - 1]) {
        repair_indices(s, (n - 1) as nat).push((n - 1) as usize)
    } else {
        repair_indices(s, (n - 1) as nat)
    }
}

/// Indices of the tracks whose artist, title or genre is missing (an
/// "Unknown Artist" counts as missing), in library order.
pub fn tracks_needing_repair(tracks: &Vec<TrackMetadata>) -> (r: Vec<usize>)
    ensures
        r@ == repair_indices(tracks@, tracks@.len()),
{
    let mut r: Vec<usize> = Vec::new();
    let mut i: usize = 0;
    while i < tracks.len()
        invariant
            i <= tracks@.len(),
            r@ == repair_indices(tracks@, i as nat),
        decreases tracks@.len() - i,
    {
        let t = &tracks[i];
        if needs_repair(&t.title, &t.artist, &t.genre) {
            r.push(i);
        }
        i = i + 1;
    }
    r
}

/// Indices, ascending, of the first `n` tracks with an artist.
pub open spec fn artist_indices(s: Seq<TrackMetadata>, n: nat) -> Seq<usize>
    decreases n,
{
    if n == 0 {
        Seq::empty()
    } else if s[n - 1].artist is Some {
        artist_indices(s, (n - 1) as nat).push((n - 1) as usize)
    } else {
        artist_indices(s, (n - 1) as nat)
    }
}

/// Indices of the tracks the genre inference asks about: those with an
/// artist, in library order.
pub fn tracks_with_artist(tracks: &Vec<TrackMetadata>) -> (r: Vec<usize>)
    ensures
        r@ == artist_indices(tracks@, tracks@.len()),
{
    let mut r: Vec<usize> = Vec::new();
    let mut i: usize = 0;
    while i < tracks.len()
        invariant
            i <= tracks@.len(),
            r@ == artist_indices(tracks@, i as nat),
        decreases tracks@.len() - i,
    {
        if tracks[i].artist.is_some() {
            r.push(i);
        }
        i = i + 1;
    }
    r
}

/// Largest number of tracks sent to the model in one prompt.
pub const PROMPT_BATCH: usize = 50;

/// Whether `b` splits `[0, n)` into consecutive runs of `size` items, the
/// last run possibly shorter.
pub open spec fn is_batching(b: Seq<(usize, usize)>, n: nat, size: nat) -> bool {
    &&& (n == 0 <==> b.len() == 0)
    &&& b.len() > 0 ==> b[0].0 == 0 && b[b.len() - 1].1 == n
    &&& forall|i: int| 0 <= i < b.len() ==> (#[trigger] b[i]).0 < b[i].1 <= n
    &&& forall|i: int| 0 <= i < b.len() ==> #[trigger] b[i].1 - b[i].0 <= size
    &&& forall|i: int| 0 <= i < b.len() - 1 ==> #[trigger] b[i].1 - b[i].0 == size
    &&& forall|i: int| 0 < i < b.len() ==> #[trigger] b[i].0 == b[i - 1].1
}

/// The `[start, end)` ranges `slice::chunks(size)` splits `n` items into.
pub fn batch_ranges(n: usize, size: usize) -> (b: Vec<(usize, usize)>)
    requires
        size > 0,
    ensures
        is_batching(b@, n as nat, size as nat),
{
    let mut b: Vec<(usize, usize)> = Vec::new();
    let mut start: usize = 0;
    while start < n
        invariant
            start <= n,
            size > 0,
            b@.len() == 0 ==> start == 0,
            b@.len() > 0 ==> b@[0].0 == 0 && b@[b@.len() - 1].1 == start,
            forall|i: int| 0 <= i < b@.len() ==> (#[trigger] b@[i]).0 < b@[i].1 <= start,
            forall|i: int| 0 <= i < b@.len() ==> #[trigger] b@[i].1 - b@[i].0 == size,
            forall|i: int| 0 < i < b@.len() ==> #[trigger] b@[i].0 == b@[i - 1].1,
        decreases n - start,
    {
        let end = if n - start > size {
            start + size
        } else {
            n
        };
        if end < n {
            assert(end - start == size);
        }
        b.push((start, end));
        if end == n && end - start != size {
            start = end;
            proof {
                assert(b@[b@.len() - 1].1 == n);
            }
            assert(is_batching(b@, n as nat, size as nat));
            return b;
        }
        start = end;
    }
    b
}

/// The position, among `ids`, of the first track with id `tid`.
pub open spec fn first_with_id(ids: Seq<i64>, tid: i64, from: int) -> Option<int>
    decreases ids.len() - from,
{
    if from < 0 || from >= ids.len() {
        None
    } else if ids[from] == tid {
        Some(from)
    } else {
        first_with_id(ids, tid, from + 1)
    }
}

/// A found position lies in range and holds the id.
pub proof fn lemma_first_with_id_in_range(ids: Seq<i64>, tid: i64, from: int)
    requires
        0 <= from,
    ensures
        first_with_id(ids, tid, from) matches Some(i) ==> from <= i < ids.len() && ids[i] == tid,
    decreases ids.len() - from,
{
    if from < ids.len() && ids[from] != tid {
        lemma_first_with_id_in_range(ids, tid, from + 1);
    }
}

/// Finds the track a model's proposal refers to by its id.
pub fn find_track_id(ids: &Vec<i64>, tid: i64) -> (r: Option<usize>)
    ensures
        match first_with_id(ids@, tid, 0) {
            Some(i) => r == Some(i as usize),
            None => r is None,
        },
{
    let mut i: usize = 0;
    while i < ids.len()
        invariant
            i <= ids@.len(),
            first_with_id(ids@, tid, 0) == first_with_id(ids@, tid, i as int),
        decreases ids@.len() - i,
    {
        if ids[i] == tid {
            return Some(i);
        }
        i = i + 1;
    }
    None
}

} // verus!
