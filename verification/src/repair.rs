//! The decisions of the metadata-repair and genre-inference assist
//! features around each call to the model: the prompt for a batch of
//! tracks, and the proposals or inferences made of the model's reply (or,
//! for repair, of the filenames when the model fails). Proposals are only
//! proposals: they carry the track's current fields beside the proposed
//! ones, for the user to review. Confidences are carried as the bit
//! patterns of their `f64` values.
use vstd::prelude::*;
use crate::assist::{escape_quotes, escape_quotes_spec, first_with_id, find_track_id, TrackMetadata};
use crate::metadata::{opt_view, parse_filename, parse_filename_simple};
use crate::text::{chars_of, string_push};

verus! {

/// `0.5`, the confidence of a model proposal that names none.
pub const DEFAULT_CONFIDENCE_BITS: u64 = 0x3FE0_0000_0000_0000;

/// `0.7`, the confidence of a proposal parsed from the filename.
pub const FILENAME_PARSE_CONFIDENCE_BITS: u64 = 0x3FE6_6666_6666_6666;

/// Decimal digit `d` as a character.
pub open spec fn digit_char(d: int) -> char {
    (d + 48) as char
}

/// Decimal notation of a natural number, without leading zeros.
pub open spec fn nat_text(n: nat) -> Seq<char>
    decreases n,
{
    if n < 10 {
        seq![digit_char(n as int)]
    } else {
        nat_text(n / 10).push(digit_char((n % 10) as int))
    }
}

/// Decimal notation of an integer, with a leading '-' when negative.
pub open spec fn int_text(n: int) -> Seq<char> {
    if n < 0 {
        seq!['-'] + nat_text((-n) as nat)
    } else {
        nat_text(n as nat)
    }
}

/// std's `to_string` on an `i64` (its `Display`): decimal notation, with a
/// leading '-' for a negative number and no leading zeros.
#[verifier::external_body]
fn decimal_text(n: i64) -> (s: String)
    ensures
        s@ == int_text(n as int),
{
    n.to_string()
}

/// Appends the characters of `t` to `s`.
fn append(s: &mut String, t: &str)
    ensures
        final(s)@ == old(s)@ + t@,
{
    let v = chars_of(t);
    let mut i: usize = 0;
    while i < v.len()
        invariant
            i <= v@.len(),
            v@ == t@,
            s@ == old(s)@ + t@.subrange(0, i as int),
        decreases v@.len() - i,
    {
        string_push(s, v[i]);
        i = i + 1;
        assert(s@ =~= old(s)@ + t@.subrange(0, i as int));
    }
    assert(t@.subrange(0, t@.len() as int) =~= t@);
}

/// The text of an optional field, empty when absent.
pub open spec fn opt_text(o: Option<String>) -> Seq<char> {
    match o {
        Some(x) => x@,
        None => Seq::empty(),
    }
}

fn opt_str(o: &Option<String>) -> (r: &str)
    ensures
        r@ == opt_text(*o),
{
    proof {
        reveal_strlit("");
    }
    match o {
        Some(x) => x.as_str(),
        None => "",
    }
}

fn clone_opt(o: &Option<String>) -> (r: Option<String>)
    ensures
        opt_view(r) == opt_view(*o),
{
    match o {
        Some(x) => Some(x.clone()),
        None => None,
    }
}

/// The lines of a prompt's track list, joined by ",\n".
pub open spec fn joined_lines(lines: Seq<Seq<char>>) -> Seq<char>
    decreases lines.len(),
{
    if lines.len() == 0 {
        Seq::empty()
    } else if lines.len() == 1 {
        lines[0]
    } else {
        joined_lines(lines.drop_last()) + ",\n"@ + lines.last()
    }
}

/// The views of a list of strings.
pub open spec fn line_views(v: Seq<String>) -> Seq<Seq<char>> {
    v.map_values(|s: String| s@)
}

/// `header`, the lines joined by ",\n", then "]".
fn bracketed(header: &str, lines: &Vec<String>) -> (s: String)
    ensures
        s@ == header@ + joined_lines(line_views(lines@)) + "]"@,
{
    let mut s = String::new();
    append(&mut s, header);
    let mut i: usize = 0;
    assert(s@ =~= header@ + joined_lines(line_views(lines@).subrange(0, 0)));
    while i < lines.len()
        invariant
            i <= lines@.len(),
            s@ == header@ + joined_lines(line_views(lines@).subrange(0, i as int)),
        decreases lines@.len() - i,
    {
        let ghost before = line_views(lines@).subrange(0, i as int);
        let ghost after = line_views(lines@).subrange(0, i + 1);
        assert(after.drop_last() =~= before);
        assert(after.last() == lines@[i as int]@);
        if i > 0 {
            append(&mut s, ",\n");
        }
        append(&mut s, lines[i].as_str());
        proof {
            if i == 0 {
                assert(joined_lines(before) =~= Seq::<char>::empty());
                assert(s@ =~= header@ + joined_lines(after));
            } else {
                assert(s@ =~= header@ + joined_lines(after));
            }
        }
        i = i + 1;
    }
    assert(line_views(lines@).subrange(0, lines@.len() as int) =~= line_views(lines@));
    append(&mut s, "]");
    s
}

/// One track's line in a repair prompt.
pub open spec fn repair_line(t: TrackMetadata) -> Seq<char> {
    "{\"trackId\": "@ + int_text(t.track_id as int) + ", \"filename\": \""@ + escape_quotes_spec(
        t.filename@,
    ) + "\", \"currentTitle\": \""@ + escape_quotes_spec(opt_text(t.title))
        + "\", \"currentArtist\": \""@ + escape_quotes_spec(opt_text(t.artist))
        + "\", \"currentAlbum\": \""@ + escape_quotes_spec(opt_text(t.album))
        + "\", \"currentGenre\": \""@ + escape_quotes_spec(opt_text(t.genre)) + "\"}"@
}

fn repair_line_text(t: &TrackMetadata) -> (s: String)
    ensures
        s@ == repair_line(*t),
{
    let mut s = String::new();
    append(&mut s, "{\"trackId\": ");
    append(&mut s, decimal_text(t.track_id).as_str());
    append(&mut s, ", \"filename\": \"");
    append(&mut s, escape_quotes(t.filename.as_str()).as_str());
    append(&mut s, "\", \"currentTitle\": \"");
    append(&mut s, escape_quotes(opt_str(&t.title)).as_str());
    append(&mut s, "\", \"currentArtist\": \"");
    append(&mut s, escape_quotes(opt_str(&t.artist)).as_str());
    append(&mut s, "\", \"currentAlbum\": \"");
    append(&mut s, escape_quotes(opt_str(&t.album)).as_str());
    append(&mut s, "\", \"currentGenre\": \"");
    append(&mut s, escape_quotes(opt_str(&t.genre)).as_str());
    append(&mut s, "\"}");
    proof {
        reveal_strlit("");
        assert(Seq::<char>::empty() + "{\"trackId\": "@ =~= "{\"trackId\": "@);
    }
    s
}

/// The repair prompt for the tracks `needs[start..end]`.
pub open spec fn repair_prompt_spec(needs: Seq<TrackMetadata>, start: int, end: int) -> Seq<char> {
    "Analyze these tracks and propose metadata repairs:\n\n["@ + joined_lines(
        needs.subrange(start, end).map_values(|t: TrackMetadata| repair_line(t)),
    ) + "]"@
}

/// The prompt asking the model to repair the metadata of `needs[start..end]`.
pub fn repair_prompt(needs: &Vec<TrackMetadata>, start: usize, end: usize) -> (s: String)
    requires
        start <= end <= needs@.len(),
    ensures
        s@ == repair_prompt_spec(needs@, start as int, end as int),
{
    let mut lines: Vec<String> = Vec::new();
    let mut i = start;
    while i < end
        invariant
            start <= i <= end <= needs@.len(),
            line_views(lines@) == needs@.subrange(start as int, i as int).map_values(
                |t: TrackMetadata| repair_line(t),
            ),
        decreases end - i,
    {
        let line = repair_line_text(&needs[i]);
        let ghost prev = lines@;
        assert(line_views(prev).len() == prev.len());
        assert(prev.len() == i - start);
        lines.push(line);
        proof {
            let want = needs@.subrange(start as int, i + 1).map_values(|t: TrackMetadata| repair_line(t));
            let had = needs@.subrange(start as int, i as int).map_values(|t: TrackMetadata| repair_line(t));
            assert forall|k: int| 0 <= k < want.len() implies #[trigger] line_views(lines@)[k]
                == want[k] by {
                if k < had.len() {
                    assert(lines@[k] == prev[k]);
                    assert(line_views(prev)[k] == had[k]);
                }
            }
            assert(line_views(lines@).len() == want.len());
            assert(line_views(lines@) =~= want);
        }
        i = i + 1;
    }
    bracketed("Analyze these tracks and propose metadata repairs:\n\n[", &lines)
}

/// A metadata repair proposal.
#[derive(Debug, Clone)]
pub struct MetadataProposal {
    pub track_id: i64,
    pub filename: String,
    pub current_artist: Option<String>,
    pub current_title: Option<String>,
    pub current_album: Option<String>,
    pub current_genre: Option<String>,
    pub proposed_artist: Option<String>,
    pub proposed_title: Option<String>,
    pub proposed_album: Option<String>,
    pub proposed_genre: Option<String>,
    /// Bit pattern of the confidence (0.0-1.0).
    pub confidence_bits: u64,
    /// "filename_parse" or "llm_inference".
    pub source: String,
}

/// One proposal of the model's reply, as far as it could be read.
#[derive(Debug, Clone)]
pub struct ProposalReply {
    pub track_id: Option<i64>,
    pub proposed_artist: Option<String>,
    pub proposed_title: Option<String>,
    pub proposed_album: Option<String>,
    pub proposed_genre: Option<String>,
    /// Bit pattern of the confidence, when the reply gives a number.
    pub confidence_bits: Option<u64>,
}

/// A proposal for `t` carries `t`'s id, filename and current fields.
pub open spec fn copies_current(r: MetadataProposal, t: TrackMetadata) -> bool {
    &&& r.track_id == t.track_id
    &&& r.filename@ == t.filename@
    &&& opt_view(r.current_artist) == opt_view(t.artist)
    &&& opt_view(r.current_title) == opt_view(t.title)
    &&& opt_view(r.current_album) == opt_view(t.album)
    &&& opt_view(r.current_genre) == opt_view(t.genre)
}

/// The proposal made for `t` from its filename alone: the parsed artist
/// and title, confidence 0.7.
pub open spec fn is_fallback_proposal(r: MetadataProposal, t: TrackMetadata) -> bool {
    &&& copies_current(r, t)
    &&& opt_view(r.proposed_artist) == Some(parse_filename(t.filename@).0)
    &&& opt_view(r.proposed_title) == Some(parse_filename(t.filename@).1)
    &&& r.proposed_album is None
    &&& r.proposed_genre is None
    &&& r.confidence_bits == FILENAME_PARSE_CONFIDENCE_BITS
    &&& r.source@ == "filename_parse"@
}

/// The proposal made for `t` from the model's proposal `p`: its proposed
/// fields, and its confidence or 0.5.
pub open spec fn is_llm_proposal(r: MetadataProposal, t: TrackMetadata, p: ProposalReply) -> bool {
    &&& copies_current(r, t)
    &&& opt_view(r.proposed_artist) == opt_view(p.proposed_artist)
    &&& opt_view(r.proposed_title) == opt_view(p.proposed_title)
    &&& opt_view(r.proposed_album) == opt_view(p.proposed_album)
    &&& opt_view(r.proposed_genre) == opt_view(p.proposed_genre)
    &&& r.confidence_bits == (match p.confidence_bits {
        Some(b) => b,
        None => DEFAULT_CONFIDENCE_BITS,
    })
    &&& r.source@ == "llm_inference"@
}

/// The ids of a list of tracks.
pub open spec fn ids_of(needs: Seq<TrackMetadata>) -> Seq<i64> {
    needs.map_values(|t: TrackMetadata| t.track_id)
}

/// For each model proposal, in order, that names a track id found among
/// `needs`: the position of the first such track and of the proposal.
pub open spec fn llm_matches(needs: Seq<TrackMetadata>, ps: Seq<ProposalReply>) -> Seq<(int, int)>
    decreases ps.len(),
{
    if ps.len() == 0 {
        Seq::empty()
    } else {
        let prev = llm_matches(needs, ps.drop_last());
        let j = ps.len() - 1;
        match ps[j].track_id {
            Some(tid) => match first_with_id(ids_of(needs), tid, 0) {
                Some(k) => prev.push((k, j)),
                None => prev,
            },
            None => prev,
        }
    }
}

fn fallback_proposal(t: &TrackMetadata) -> (r: MetadataProposal)
    ensures
        is_fallback_proposal(r, *t),
{
    let (artist, title) = parse_filename_simple(t.filename.as_str());
    MetadataProposal {
        track_id: t.track_id,
        filename: t.filename.clone(),
        current_artist: clone_opt(&t.artist),
        current_title: clone_opt(&t.title),
        current_album: clone_opt(&t.album),
        current_genre: clone_opt(&t.genre),
        proposed_artist: Some(artist),
        proposed_title: Some(title),
        proposed_album: None,
        proposed_genre: None,
        confidence_bits: FILENAME_PARSE_CONFIDENCE_BITS,
        source: "filename_parse".to_owned(),
    }
}

fn llm_proposal(t: &TrackMetadata, p: &ProposalReply) -> (r: MetadataProposal)
    ensures
        is_llm_proposal(r, *t, *p),
{
    MetadataProposal {
        track_id: t.track_id,
        filename: t.filename.clone(),
        current_artist: clone_opt(&t.artist),
        current_title: clone_opt(&t.title),
        current_album: clone_opt(&t.album),
        current_genre: clone_opt(&t.genre),
        proposed_artist: clone_opt(&p.proposed_artist),
        proposed_title: clone_opt(&p.proposed_title),
        proposed_album: clone_opt(&p.proposed_album),
        proposed_genre: clone_opt(&p.proposed_genre),
        confidence_bits: match p.confidence_bits {
            Some(b) => b,
            None => DEFAULT_CONFIDENCE_BITS,
        },
        source: "llm_inference".to_owned(),
    }
}

/// The proposals for the batch `needs[start..end]`: with no reply from the
/// model, one filename-parse proposal per track of the batch; with a
/// reply, one proposal per model proposal whose id names a track of
/// `needs`, for the first track with that id.
pub fn chunk_proposals(
    needs: &Vec<TrackMetadata>,
    start: usize,
    end: usize,
    reply: Option<Vec<ProposalReply>>,
) -> (r: Vec<MetadataProposal>)
    requires
        start <= end <= needs@.len(),
    ensures
        reply is None ==> r@.len() == end - start && forall|i: int|
            0 <= i < end - start ==> is_fallback_proposal(#[trigger] r@[i], needs@[start + i]),
        reply matches Some(ps) ==> r@.len() == llm_matches(needs@, ps@).len() && forall|i: int|
            0 <= i < r@.len() ==> is_llm_proposal(
                #[trigger] r@[i],
                needs@[llm_matches(needs@, ps@)[i].0],
                ps@[llm_matches(needs@, ps@)[i].1],
            ),
{
    let mut r: Vec<MetadataProposal> = Vec::new();
    match reply {
        None => {
            let mut i = start;
            while i < end
                invariant
                    start <= i <= end <= needs@.len(),
                    r@.len() == i - start,
                    forall|k: int|
                        0 <= k < i - start ==> is_fallback_proposal(
                            #[trigger] r@[k],
                            needs@[start + k],
                        ),
                decreases end - i,
            {
                r.push(fallback_proposal(&needs[i]));
                i = i + 1;
            }
        },
        Some(ps) => {
            let mut ids: Vec<i64> = Vec::new();
            let mut k: usize = 0;
            while k < needs.len()
                invariant
                    k <= needs@.len(),
                    ids@ == ids_of(needs@).subrange(0, k as int),
                decreases needs@.len() - k,
            {
                ids.push(needs[k].track_id);
                k = k + 1;
                assert(ids@ =~= ids_of(needs@).subrange(0, k as int));
            }
            assert(ids_of(needs@).subrange(0, needs@.len() as int) =~= ids_of(needs@));
            let mut j: usize = 0;
            while j < ps.len()
                invariant
                    j <= ps@.len(),
                    ids@ == ids_of(needs@),
                    r@.len() == llm_matches(needs@, ps@.subrange(0, j as int)).len(),
                    forall|i: int|
                        0 <= i < r@.len() ==> is_llm_proposal(
                            #[trigger] r@[i],
                            needs@[llm_matches(needs@, ps@.subrange(0, j as int))[i].0],
                            ps@[llm_matches(needs@, ps@.subrange(0, j as int))[i].1],
                        ),
                    forall|i: int|
                        0 <= i < llm_matches(needs@, ps@.subrange(0, j as int)).len() ==> {
                            let m = #[trigger] llm_matches(needs@, ps@.subrange(0, j as int))[i];
                            0 <= m.0 < needs@.len() && 0 <= m.1 < j
                        },
                decreases ps@.len() - j,
            {
                let ghost before = llm_matches(needs@, ps@.subrange(0, j as int));
                let ghost sub = ps@.subrange(0, j + 1);
                assert(sub.drop_last() =~= ps@.subrange(0, j as int));
                assert(sub[sub.len() - 1] == ps@[j as int]);
                let p = &ps[j];
                match p.track_id {
                    Some(tid) => {
                        let found = find_track_id(&ids, tid);
                        match found {
                            Some(k) => {
                                proof {
                                    crate::assist::lemma_first_with_id_in_range(ids@, tid, 0);
                                    let f = first_with_id(ids@, tid, 0);
                                    assert(ids@.len() == ids.len());
                                    assert(f == Some(k as int));
                                    assert(first_with_id(ids_of(needs@), tid, 0) == Some(
                                        k as int,
                                    ));
                                    assert(sub[j as int].track_id == Some(tid));
                                }
                                r.push(llm_proposal(&needs[k], p));
                                proof {
                                    let after = llm_matches(needs@, sub);
                                    assert(after == before.push((k as int, j as int)));
                                    assert forall|i: int|
                                        0 <= i < r@.len() implies is_llm_proposal(
                                        #[trigger] r@[i],
                                        needs@[after[i].0],
                                        ps@[after[i].1],
                                    ) by {
                                        if i < before.len() {
                                            assert(after[i] == before[i]);
                                        }
                                    }
                                }
                            },
                            None => {},
                        }
                    },
                    None => {},
                }
                j = j + 1;
            }
            assert(ps@.subrange(0, ps@.len() as int) =~= ps@);
        },
    }
    r
}

/// One track's line in a genre-inference prompt.
pub open spec fn genre_line(t: TrackMetadata) -> Seq<char> {
    "{\"trackId\": "@ + int_text(t.track_id as int) + ", \"filename\": \""@ + escape_quotes_spec(
        t.filename@,
    ) + "\", \"title\": \""@ + escape_quotes_spec(opt_text(t.title)) + "\", \"artist\": \""@
        + escape_quotes_spec(opt_text(t.artist)) + "\"}"@
}

fn genre_line_text(t: &TrackMetadata) -> (s: String)
    ensures
        s@ == genre_line(*t),
{
    let mut s = String::new();
    append(&mut s, "{\"trackId\": ");
    append(&mut s, decimal_text(t.track_id).as_str());
    append(&mut s, ", \"filename\": \"");
    append(&mut s, escape_quotes(t.filename.as_str()).as_str());
    append(&mut s, "\", \"title\": \"");
    append(&mut s, escape_quotes(opt_str(&t.title)).as_str());
    append(&mut s, "\", \"artist\": \"");
    append(&mut s, escape_quotes(opt_str(&t.artist)).as_str());
    append(&mut s, "\"}");
    proof {
        reveal_strlit("");
        assert(Seq::<char>::empty() + "{\"trackId\": "@ =~= "{\"trackId\": "@);
    }
    s
}

/// The genre-inference prompt for the tracks `tracks[start..end]`.
pub open spec fn genre_prompt_spec(tracks: Seq<TrackMetadata>, start: int, end: int) -> Seq<char> {
    "Infer genres for these tracks:\n\n["@ + joined_lines(
        tracks.subrange(start, end).map_values(|t: TrackMetadata| genre_line(t)),
    ) + "]"@
}

/// The prompt asking the model for the genres of `tracks[start..end]`.
pub fn genre_prompt(tracks: &Vec<TrackMetadata>, start: usize, end: usize) -> (s: String)
    requires
        start <= end <= tracks@.len(),
    ensures
        s@ == genre_prompt_spec(tracks@, start as int, end as int),
{
    let mut lines: Vec<String> = Vec::new();
    let mut i = start;
    while i < end
        invariant
            start <= i <= end <= tracks@.len(),
            line_views(lines@) == tracks@.subrange(start as int, i as int).map_values(
                |t: TrackMetadata| genre_line(t),
            ),
        decreases end - i,
    {
        let line = genre_line_text(&tracks[i]);
        let ghost prev = lines@;
        assert(line_views(prev).len() == prev.len());
        assert(prev.len() == i - start);
        lines.push(line);
        proof {
            let want = tracks@.subrange(start as int, i + 1).map_values(|t: TrackMetadata| genre_line(t));
            let had = tracks@.subrange(start as int, i as int).map_values(|t: TrackMetadata| genre_line(t));
            assert forall|k: int| 0 <= k < want.len() implies #[trigger] line_views(lines@)[k]
                == want[k] by {
                if k < had.len() {
                    assert(lines@[k] == prev[k]);
                    assert(line_views(prev)[k] == had[k]);
                }
            }
            assert(line_views(lines@).len() == want.len());
            assert(line_views(lines@) =~= want);
        }
        i = i + 1;
    }
    bracketed("Infer genres for these tracks:\n\n[", &lines)
}

/// A genre inference.
#[derive(Debug, Clone)]
pub struct GenreInference {
    pub track_id: i64,
    pub inferred_genre: String,
    /// Bit pattern of the confidence (0.0-1.0).
    pub confidence_bits: u64,
    pub reasoning: Option<String>,
}

/// One inference of the model's reply, as far as it could be read.
#[derive(Debug, Clone)]
pub struct InferenceReply {
    pub track_id: Option<i64>,
    pub genre: Option<String>,
    /// Bit pattern of the confidence, when the reply gives a number.
    pub confidence_bits: Option<u64>,
    pub reasoning: Option<String>,
}

/// The inference made of `p`, which names track `tid`: its genre or
/// "electronic", its confidence or 0.5, and its reasoning.
pub open spec fn is_inference(r: GenreInference, tid: i64, p: InferenceReply) -> bool {
    &&& r.track_id == tid
    &&& r.inferred_genre@ == (match p.genre {
        Some(g) => g@,
        None => "electronic"@,
    })
    &&& r.confidence_bits == (match p.confidence_bits {
        Some(b) => b,
        None => DEFAULT_CONFIDENCE_BITS,
    })
    &&& opt_view(r.reasoning) == opt_view(p.reasoning)
}

/// The positions, in order, of the model's inferences that name a track id.
pub open spec fn named_inferences(ps: Seq<InferenceReply>) -> Seq<int>
    decreases ps.len(),
{
    if ps.len() == 0 {
        Seq::empty()
    } else if ps.last().track_id is Some {
        named_inferences(ps.drop_last()).push(ps.len() - 1)
    } else {
        named_inferences(ps.drop_last())
    }
}

/// The inferences made of the model's reply: one for each reply entry that
/// names a track id, in order.
pub fn genre_inferences(reply: &Vec<InferenceReply>) -> (r: Vec<GenreInference>)
    ensures
        r@.len() == named_inferences(reply@).len(),
        forall|i: int|
            0 <= i < r@.len() ==> is_inference(
                #[trigger] r@[i],
                reply@[named_inferences(reply@)[i]].track_id->0,
                reply@[named_inferences(reply@)[i]],
            ),
{
    let mut r: Vec<GenreInference> = Vec::new();
    let mut j: usize = 0;
    while j < reply.len()
        invariant
            j <= reply@.len(),
            r@.len() == named_inferences(reply@.subrange(0, j as int)).len(),
            forall|i: int|
                0 <= i < named_inferences(reply@.subrange(0, j as int)).len() ==> {
                    let m = #[trigger] named_inferences(reply@.subrange(0, j as int))[i];
                    0 <= m < j && reply@[m].track_id is Some
                },
            forall|i: int|
                0 <= i < r@.len() ==> is_inference(
                    #[trigger] r@[i],
                    reply@[named_inferences(reply@.subrange(0, j as int))[i]].track_id->0,
                    reply@[named_inferences(reply@.subrange(0, j as int))[i]],
                ),
        decreases reply@.len() - j,
    {
        let ghost before = named_inferences(reply@.subrange(0, j as int));
        let ghost sub = reply@.subrange(0, j + 1);
        assert(sub.drop_last() =~= reply@.subrange(0, j as int));
        assert(sub.last() == reply@[j as int]);
        let p = &reply[j];
        match p.track_id {
            Some(tid) => {
                let genre = match &p.genre {
                    Some(g) => g.clone(),
                    None => "electronic".to_owned(),
                };
                r.push(
                    GenreInference {
                        track_id: tid,
                        inferred_genre: genre,
                        confidence_bits: match p.confidence_bits {
                            Some(b) => b,
                            None => DEFAULT_CONFIDENCE_BITS,
                        },
                        reasoning: clone_opt(&p.reasoning),
                    },
                );
                proof {
                    let after = named_inferences(sub);
                    assert(after == before.push(j as int));
                    assert forall|i: int| 0 <= i < r@.len() implies is_inference(
                        #[trigger] r@[i],
                        reply@[after[i]].track_id->0,
                        reply@[after[i]],
                    ) by {
                        if i < before.len() {
                            assert(after[i] == before[i]);
                        }
                    }
                }
            },
            None => {},
        }
        j = j + 1;
    }
    assert(reply@.subrange(0, reply@.len() as int) =~= reply@);
    r
}

} // verus!
