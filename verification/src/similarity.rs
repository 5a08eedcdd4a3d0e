//! Token overlap between two normalised names: the whitespace-separated
//! words of each, and how many distinct words they share and cover
//! together. The similarity of two names is the first count over the
//! second.
use vstd::prelude::*;
use crate::text::{char_is_whitespace, chars_of, is_white_space, string_push};

verus! {

broadcast use vstd::seq_lib::group_seq_properties;

/// The pending word, as a list of zero or one words.
pub open spec fn flush(cur: Seq<char>) -> Seq<Seq<char>> {
    if cur.len() > 0 {
        seq![cur]
    } else {
        Seq::empty()
    }
}

/// The words of `s` from index `i` on, `cur` being the word read so far.
pub open spec fn words_from(s: Seq<char>, i: int, cur: Seq<char>) -> Seq<Seq<char>>
    decreases s.len() - i,
{
    if i < 0 || i >= s.len() {
        flush(cur)
    } else if is_white_space(s[i]) {
        flush(cur) + words_from(s, i + 1, Seq::empty())
    } else {
        words_from(s, i + 1, cur.push(s[i]))
    }
}

/// `str::split_whitespace`: the maximal runs of non-whitespace characters.
pub open spec fn words(s: Seq<char>) -> Seq<Seq<char>> {
    words_from(s, 0, Seq::empty())
}

/// The distinct words of `s`.
pub open spec fn token_set(s: Seq<char>) -> Set<Seq<char>> {
    words(s).to_set()
}

/// The views of a list of strings.
pub open spec fn views(v: Seq<String>) -> Seq<Seq<char>> {
    v.map_values(|s: String| s@)
}

/// The words of a string, in order.
fn split_words(s: &str) -> (w: Vec<String>)
    ensures
        views(w@) == words(s@),
{
    let v = chars_of(s);
    let n = v.len();
    let mut out: Vec<String> = Vec::new();
    let mut cur = String::new();
    let mut i: usize = 0;
    while i < n
        invariant
            n == v@.len(),
            v@ == s@,
            i <= n,
            views(out@) + words_from(v@, i as int, cur@) == words(v@),
        decreases n - i,
    {
        let c = v[i];
        let ghost before = views(out@);
        let ghost cur_before = cur@;
        if char_is_whitespace(c) {
            proof {
                assert(words_from(v@, i as int, cur_before) == flush(cur_before) + words_from(
                    v@,
                    i + 1,
                    Seq::empty(),
                ));
            }
            if cur.as_str().unicode_len() > 0 {
                out.push(cur);
                proof {
                    assert(views(out@) =~= before + flush(cur_before));
                }
            } else {
                proof {
                    assert(flush(cur_before) =~= Seq::<Seq<char>>::empty());
                    assert(views(out@) =~= before + flush(cur_before));
                }
            }
            cur = String::new();
            proof {
                assert((before + flush(cur_before)) + words_from(v@, i + 1, cur@) =~= before + (
                flush(cur_before) + words_from(v@, i + 1, Seq::empty())));
            }
        } else {
            string_push(&mut cur, c);
            proof {
                assert(words_from(v@, i as int, cur_before) == words_from(
                    v@,
                    i + 1,
                    cur_before.push(c),
                ));
            }
        }
        i = i + 1;
    }
    proof {
        assert(words_from(v@, n as int, cur@) == flush(cur@));
    }
    if cur.as_str().unicode_len() > 0 {
        let ghost before = views(out@);
        out.push(cur);
        proof {
            assert(views(out@) =~= before + flush(cur@));
        }
    } else {
        proof {
            assert(flush(cur@) =~= Seq::<Seq<char>>::empty());
            assert(views(out@) + flush(cur@) =~= views(out@));
        }
    }
    out
}

/// Whether `d` holds a string equal to `x`.
fn holds(d: &Vec<String>, x: &String) -> (r: bool)
    ensures
        r == views(d@).contains(x@),
{
    let mut k: usize = 0;
    while k < d.len()
        invariant
            k <= d@.len(),
            forall|j: int| 0 <= j < k ==> (#[trigger] d@[j])@ != x@,
        decreases d@.len() - k,
    {
        if d[k] == *x {
            proof {
                assert(views(d@)[k as int] == x@);
            }
            return true;
        }
        k = k + 1;
    }
    proof {
        if views(d@).contains(x@) {
            let j = choose|j: int| 0 <= j < views(d@).len() && views(d@)[j] == x@;
            assert(d@[j]@ == x@);
        }
    }
    false
}

/// The distinct strings of `w`, each once.
fn distinct(w: &Vec<String>) -> (d: Vec<String>)
    ensures
        views(d@).no_duplicates(),
        views(d@).to_set() == views(w@).to_set(),
{
    let mut d: Vec<String> = Vec::new();
    let mut i: usize = 0;
    while i < w.len()
        invariant
            i <= w@.len(),
            views(d@).no_duplicates(),
            views(d@).to_set() == views(w@).subrange(0, i as int).to_set(),
        decreases w@.len() - i,
    {
        let x = &w[i];
        let ghost before = views(d@);
        proof {
            assert(views(w@).subrange(0, i + 1) =~= views(w@).subrange(0, i as int).push(x@));
            views(w@).subrange(0, i as int).lemma_push_to_set_commute(x@);
        }
        if !holds(&d, x) {
            d.push(x.clone());
            proof {
                assert(views(d@) =~= before.push(x@));
                before.lemma_push_to_set_commute(x@);
                assert forall|a: int, b: int|
                    0 <= a < views(d@).len() && 0 <= b < views(d@).len() && a != b implies views(
                    d@,
                )[a] != views(d@)[b] by {
                    if a < before.len() && b < before.len() {
                    } else if a == before.len() {
                        assert(before.contains(views(d@)[b]) || b == a);
                    } else {
                        assert(before.contains(views(d@)[a]));
                    }
                }
            }
        } else {
            proof {
                assert(before.to_set().insert(x@) =~= before.to_set());
            }
        }
        i = i + 1;
    }
    proof {
        assert(views(w@).subrange(0, w@.len() as int) =~= views(w@));
    }
    d
}

/// Number of distinct words two names share, and number of distinct words
/// they hold together.
pub fn token_overlap(a: &str, b: &str) -> (r: (usize, usize))
    ensures
        r.0 == token_set(a@).intersect(token_set(b@)).len(),
        r.1 == token_set(a@).union(token_set(b@)).len(),
{
    let wa = split_words(a);
    let wb = split_words(b);
    let da = distinct(&wa);
    let db = distinct(&wb);
    let ghost sa = token_set(a@);
    let ghost sb = token_set(b@);
    // Shared words.
    let ghost mut shared: Seq<Seq<char>> = Seq::empty();
    let mut count: usize = 0;
    let mut i: usize = 0;
    while i < da.len()
        invariant
            i <= da@.len(),
            views(da@).no_duplicates(),
            views(da@).to_set() == sa,
            views(db@).to_set() == sb,
            shared.no_duplicates(),
            shared.to_set() == views(da@).subrange(0, i as int).to_set().intersect(sb),
            count == shared.len(),
            shared.len() <= i,
        decreases da@.len() - i,
    {
        let x = &da[i];
        proof {
            assert(views(da@).subrange(0, i + 1) =~= views(da@).subrange(0, i as int).push(x@));
            views(da@).subrange(0, i as int).lemma_push_to_set_commute(x@);
            assert(!views(da@).subrange(0, i as int).contains(x@)) by {
                if views(da@).subrange(0, i as int).contains(x@) {
                    let j = choose|j: int|
                        0 <= j < i && views(da@).subrange(0, i as int)[j] == x@;
                    assert(views(da@)[j] == views(da@)[i as int]);
                }
            }
        }
        if holds(&db, x) {
            proof {
                let old_shared = shared;
                shared = shared.push(x@);
                old_shared.lemma_push_to_set_commute(x@);
                assert(!views(da@).subrange(0, i as int).to_set().contains(x@));
                assert(!old_shared.to_set().contains(x@));
                assert(!old_shared.contains(x@));
                assert forall|p: int, q: int|
                    0 <= p < shared.len() && 0 <= q < shared.len() && p != q implies shared[p]
                    != shared[q] by {
                    if p < old_shared.len() && q < old_shared.len() {
                    } else if p == old_shared.len() {
                        assert(old_shared.contains(shared[q]));
                    } else {
                        assert(old_shared.contains(shared[p]));
                    }
                }
                assert(shared.to_set() =~= views(da@).subrange(0, i + 1).to_set().intersect(sb));
            }
            count = count + 1;
        } else {
            proof {
                assert(shared.to_set() =~= views(da@).subrange(0, i + 1).to_set().intersect(sb));
            }
        }
        i = i + 1;
    }
    proof {
        assert(views(da@).subrange(0, da@.len() as int) =~= views(da@));
        shared.unique_seq_to_set();
    }
    // All words of both names.
    let mut all: Vec<String> = Vec::new();
    let mut k: usize = 0;
    while k < wa.len()
        invariant
            k <= wa@.len(),
            views(all@) == views(wa@).subrange(0, k as int),
        decreases wa@.len() - k,
    {
        let c = wa[k].clone();
        let ghost before = views(all@);
        all.push(c);
        proof {
            assert(views(all@) =~= before.push(c@));
            assert(views(wa@).subrange(0, k + 1) =~= views(wa@).subrange(0, k as int).push(c@));
            assert(views(all@) =~= views(wa@).subrange(0, k + 1));
        }
        k = k + 1;
    }
    let mut k: usize = 0;
    while k < wb.len()
        invariant
            k <= wb@.len(),
            views(all@) == views(wa@) + views(wb@).subrange(0, k as int),
        decreases wb@.len() - k,
    {
        let c = wb[k].clone();
        let ghost before = views(all@);
        all.push(c);
        proof {
            assert(views(all@) =~= before.push(c@));
            assert(views(wb@).subrange(0, k + 1) =~= views(wb@).subrange(0, k as int).push(c@));
            assert(views(all@) =~= views(wa@) + views(wb@).subrange(0, k + 1));
        }
        k = k + 1;
    }
    proof {
        assert(views(wa@).subrange(0, wa@.len() as int) =~= views(wa@));
        assert(views(wb@).subrange(0, wb@.len() as int) =~= views(wb@));
        vstd::seq_lib::seq_to_set_distributes_over_add(views(wa@), views(wb@));
    }
    let du = distinct(&all);
    proof {
        views(du@).unique_seq_to_set();
    }
    (count, du.len())
}

/// Token overlap is symmetric: swapping the names changes neither count.
pub proof fn law_overlap_symmetric(a: Seq<char>, b: Seq<char>)
    ensures
        token_set(a).intersect(token_set(b)) == token_set(b).intersect(token_set(a)),
        token_set(a).union(token_set(b)) == token_set(b).union(token_set(a)),
{
    assert(token_set(a).intersect(token_set(b)) =~= token_set(b).intersect(token_set(a)));
    assert(token_set(a).union(token_set(b)) =~= token_set(b).union(token_set(a)));
}

/// The shared words never outnumber the words of both names, so the
/// similarity lies between 0 and 1; a name shares all its words with
/// itself, so its similarity to itself is 1 when it has any word.
pub proof fn law_overlap_bounded(a: Seq<char>, b: Seq<char>)
    ensures
        token_set(a).intersect(token_set(b)).len() <= token_set(a).union(token_set(b)).len(),
        token_set(a).intersect(token_set(a)).len() == token_set(a).union(token_set(a)).len(),
{
    vstd::seq_lib::seq_to_set_is_finite(words(a));
    vstd::seq_lib::seq_to_set_is_finite(words(b));
    assert(token_set(a).intersect(token_set(b)).subset_of(token_set(a).union(token_set(b))));
    vstd::set_lib::lemma_len_subset(
        token_set(a).intersect(token_set(b)),
        token_set(a).union(token_set(b)),
    );
    assert(token_set(a).intersect(token_set(a)) =~= token_set(a).union(token_set(a)));
}

} // verus!
