//! Conversation search: the full-text query built from what the user typed, the
//! highlighted spans read out of marked text, and how title and message hits are
//! ranked, merged and cut to one hit per conversation.
use vstd::prelude::*;

use crate::text::{
    append_str, byte_len, char_utf8_width, chars_of, lemma_utf8_len_prefix, lemma_utf8_len_step,
    lowercase_of, occurs_at, occurs_at_exec, push_char, split_words, to_lowercase, trim, trimmed,
    utf8_len, utf8_width, words,
};

verus! {

/// The most hits a search returns.
pub const MAX_SEARCH_RESULTS: usize = 100;

// ----- the full-text query -----

/// `w` with each `"` doubled, as the full-text syntax quotes it.
pub open spec fn quote_escaped(w: Seq<char>) -> Seq<char>
    decreases w.len(),
{
    if w.len() == 0 {
        Seq::empty()
    } else {
        quote_escaped(w.drop_last()) + if w.last() == '"' { seq!['"', '"'] } else { seq![w.last()] }
    }
}

/// One word as a quoted prefix term: `"word"*`.
pub open spec fn fts_term(w: Seq<char>) -> Seq<char> {
    seq!['"'] + quote_escaped(w) + seq!['"', '*']
}

/// Terms joined by ` AND `.
pub open spec fn join_terms(ts: Seq<Seq<char>>) -> Seq<char>
    decreases ts.len(),
{
    if ts.len() == 0 {
        Seq::empty()
    } else if ts.len() == 1 {
        ts[0]
    } else {
        join_terms(ts.drop_last()) + " AND "@ + ts.last()
    }
}

/// The full-text query for what the user typed: every word as a prefix term, all of
/// them required; `None` where nothing but whitespace was typed.
pub open spec fn fts_query_spec(query: Seq<char>) -> Option<Seq<char>> {
    let ws = words(query);
    if ws.len() == 0 {
        None
    } else {
        Some(join_terms(ws.map_values(|w: Seq<char>| fts_term(w))))
    }
}

fn append_term(out: &mut String, word: &str)
    ensures
        final(out)@ == old(out)@ + fts_term(word@),
{
    let chars = chars_of(word);
    push_char(out, '"');
    let ghost base = out@;
    let mut i: usize = 0;
    while i < chars.len()
        invariant
            i <= chars@.len(),
            chars@ == word@,
            out@ == base + quote_escaped(chars@.take(i as int)),
        decreases chars.len() - i,
    {
        let c = chars[i];
        if c == '"' {
            push_char(out, '"');
            push_char(out, '"');
        } else {
            push_char(out, c);
        }
        proof {
            assert(chars@.take(i + 1).drop_last() =~= chars@.take(i as int));
        }
        i += 1;
    }
    push_char(out, '"');
    push_char(out, '*');
    assert(chars@.take(chars@.len() as int) =~= word@);
    assert(out@ =~= old(out)@ + fts_term(word@));
}

/// The full-text query for what the user typed.
pub fn fts_query(query: &str) -> (r: Option<String>)
    ensures
        match r {
            Some(q) => fts_query_spec(query@) == Some(q@),
            None => fts_query_spec(query@) is None,
        },
{
    let ws = split_words(query);
    let ghost wv = ws@.map_values(|w: String| w@);
    let ghost terms = wv.map_values(|w: Seq<char>| fts_term(w));
    if ws.len() == 0 {
        return None;
    }
    let mut out = String::new();
    let mut i: usize = 0;
    while i < ws.len()
        invariant
            i <= ws@.len(),
            wv == ws@.map_values(|w: String| w@),
            terms == wv.map_values(|w: Seq<char>| fts_term(w)),
            out@ == join_terms(terms.take(i as int)),
        decreases ws.len() - i,
    {
        if i > 0 {
            append_str(&mut out, " AND ");
        }
        append_term(&mut out, ws[i].as_str());
        proof {
            assert(terms.take(i + 1).drop_last() =~= terms.take(i as int));
            assert(terms.take(i + 1).last() == fts_term(ws@[i as int]@));
            if i == 0 {
                assert(terms.take(0).len() == 0);
                assert(out@ =~= join_terms(terms.take(1)));
            }
        }
        i += 1;
    }
    assert(terms.take(ws@.len() as int) =~= terms);
    Some(out)
}

// ----- marked text -----

/// A span of bytes, start inclusive, end exclusive.
pub type Span = (usize, usize);

/// Reads marked text from the left: `\u{1}` opens a span at the current end of the
/// plain text, `\u{2}` closes the open span (kept where it is not empty), and every
/// other character is plain text. Gives the plain text, the closed spans, and where the
/// open span starts, if one is open.
pub open spec fn mark_scan(s: Seq<char>) -> (Seq<char>, Seq<(nat, nat)>, Option<nat>)
    decreases s.len(),
{
    if s.len() == 0 {
        (Seq::empty(), Seq::empty(), None)
    } else {
        let (plain, spans, open) = mark_scan(s.drop_last());
        let c = s.last();
        if c == '\u{1}' {
            (plain, spans, Some(utf8_len(plain)))
        } else if c == '\u{2}' {
            match open {
                Some(start) => if start < utf8_len(plain) {
                    (plain, spans.push((start, utf8_len(plain))), None)
                } else {
                    (plain, spans, None)
                },
                None => (plain, spans, None),
            }
        } else {
            (plain.push(c), spans, open)
        }
    }
}

/// The plain text of marked text and its highlighted byte spans; a span still open at
/// the end closes there.
pub open spec fn marked_text_spec(s: Seq<char>) -> (Seq<char>, Seq<(nat, nat)>) {
    let (plain, spans, open) = mark_scan(s);
    match open {
        Some(start) => if start < utf8_len(plain) {
            (plain, spans.push((start, utf8_len(plain))))
        } else {
            (plain, spans)
        },
        None => (plain, spans),
    }
}

pub open spec fn spans_view(spans: Seq<Span>) -> Seq<(nat, nat)> {
    spans.map_values(|sp: Span| (sp.0 as nat, sp.1 as nat))
}

/// The plain text of marked text and its highlighted spans.
pub fn marked_text(marked: &str) -> (r: (String, Vec<Span>))
    ensures
        r.0@ == marked_text_spec(marked@).0,
        spans_view(r.1@) == marked_text_spec(marked@).1,
{
    let chars = chars_of(marked);
    let total = byte_len(marked);
    let mut plain = String::new();
    let mut plain_len: usize = 0;
    let mut spans: Vec<Span> = Vec::new();
    let mut open: Option<usize> = None;
    let mut i: usize = 0;
    while i < chars.len()
        invariant
            i <= chars@.len(),
            chars@ == marked@,
            total == utf8_len(marked@),
            plain_len == utf8_len(plain@),
            plain_len <= utf8_len(chars@.take(i as int)),
            (plain@, spans_view(spans@), match open { Some(o) => Some(o as nat), None => None::<nat> })
                == mark_scan(chars@.take(i as int)),
        decreases chars.len() - i,
    {
        proof {
            assert(chars@.take(i + 1).drop_last() =~= chars@.take(i as int));
            lemma_utf8_len_step(chars@, i as int);
            lemma_utf8_len_prefix(chars@, i + 1);
            assert(chars@.take(chars@.len() as int) =~= chars@);
        }
        let c = chars[i];
        if c == '\u{1}' {
            open = Some(plain_len);
        } else if c == '\u{2}' {
            match open {
                Some(start) => {
                    if start < plain_len {
                        let ghost prev = spans@;
                        spans.push((start, plain_len));
                        assert(spans_view(spans@) =~= spans_view(prev).push((start as nat, plain_len as nat)));
                    }
                },
                None => {},
            }
            open = None;
        } else {
            let ghost before = plain@;
            push_char(&mut plain, c);
            proof {
                assert(plain@.drop_last() =~= before);
            }
            plain_len = plain_len + char_utf8_width(c);
        }
        i += 1;
    }
    assert(chars@.take(chars@.len() as int) =~= chars@);
    match open {
        Some(start) => {
            if start < plain_len {
                let ghost prev = spans@;
                spans.push((start, plain_len));
                assert(spans_view(spans@) =~= spans_view(prev).push((start as nat, plain_len as nat)));
            }
        },
        None => {},
    }
    (plain, spans)
}

// ----- ranking -----

/// One search hit: the conversation, the message that matched (for a message hit),
/// the texts shown with their highlighted spans, and when the conversation changed.
#[derive(Clone, Debug, PartialEq, Eq)]
pub struct ConversationSearchResult {
    pub conversation_id: u64,
    pub message_id: Option<u64>,
    pub message_sequence: Option<i64>,
    pub title: String,
    pub title_highlights: Vec<Span>,
    pub snippet: String,
    pub snippet_highlights: Vec<Span>,
    pub updated_at: i64,
}

/// A hit with where it came from (0 for a title hit, 1 for a message hit) and its rank
/// key, which orders hits as the full-text rank orders them.
#[derive(Debug)]
pub struct RankedSearchResult {
    pub result: ConversationSearchResult,
    pub source: u8,
    pub rank: u64,
}

/// The key that orders the bits of `f64` ranks as `f64::total_cmp` orders the ranks:
/// negative numbers (sign bit set) reversed below the others.
pub open spec fn rank_key_spec(bits: u64) -> u64 {
    if bits >= 0x8000_0000_0000_0000 {
        (u64::MAX - bits) as u64
    } else {
        (bits + 0x8000_0000_0000_0000) as u64
    }
}

/// The rank key of the bits of an `f64` rank.
pub fn rank_key(bits: u64) -> (key: u64)
    ensures
        key == rank_key_spec(bits),
{
    if bits >= 0x8000_0000_0000_0000 {
        u64::MAX - bits
    } else {
        bits + 0x8000_0000_0000_0000
    }
}

/// The order of hits: title hits before message hits, then by rank, then the most
/// recently changed conversation first.
pub open spec fn ranked_before(a: RankedSearchResult, b: RankedSearchResult) -> bool {
    a.source < b.source || (a.source == b.source && (a.rank < b.rank || (a.rank == b.rank
        && a.result.updated_at > b.result.updated_at)))
}

/// Where `x` goes in `sorted`: after every hit that it does not come before.
pub open spec fn insert_ranked(sorted: Seq<RankedSearchResult>, x: RankedSearchResult) -> Seq<RankedSearchResult>
    decreases sorted.len(),
{
    if sorted.len() == 0 {
        seq![x]
    } else if ranked_before(x, sorted.last()) {
        insert_ranked(sorted.drop_last(), x).push(sorted.last())
    } else {
        sorted.push(x)
    }
}

/// The stable sort of hits in rank order.
pub open spec fn sort_ranked(s: Seq<RankedSearchResult>) -> Seq<RankedSearchResult>
    decreases s.len(),
{
    if s.len() == 0 {
        Seq::empty()
    } else {
        insert_ranked(sort_ranked(s.drop_last()), s.last())
    }
}

/// Whether a hit of the conversation occurs in `s`.
pub open spec fn has_conversation(s: Seq<RankedSearchResult>, id: u64) -> bool {
    exists|j: int| 0 <= j < s.len() && #[trigger] s[j].result.conversation_id == id
}

/// The first hit of each conversation, in order.
pub open spec fn first_per_conversation(s: Seq<RankedSearchResult>) -> Seq<ConversationSearchResult>
    decreases s.len(),
{
    if s.len() == 0 {
        Seq::empty()
    } else {
        let kept = first_per_conversation(s.drop_last());
        if has_conversation(s.drop_last(), s.last().result.conversation_id) {
            kept
        } else {
            kept.push(s.last().result)
        }
    }
}

/// At most `limit` elements from the front.
pub open spec fn at_most<T>(s: Seq<T>, limit: nat) -> Seq<T> {
    if s.len() > limit { s.take(limit as int) } else { s }
}

/// How many hits a search may return: what the caller asked for, at most a hundred.
pub open spec fn search_limit_spec(limit: usize) -> nat {
    if limit > MAX_SEARCH_RESULTS { MAX_SEARCH_RESULTS as nat } else { limit as nat }
}

/// The hits of a search: all candidates in rank order, the first of each conversation,
/// at most the search limit of them.
pub open spec fn search_results_spec(candidates: Seq<RankedSearchResult>, limit: usize) -> Seq<ConversationSearchResult> {
    at_most(first_per_conversation(sort_ranked(candidates)), search_limit_spec(limit))
}

/// How many hits a search may return.
pub fn search_limit(limit: usize) -> (n: usize)
    ensures
        n == search_limit_spec(limit),
{
    if limit > MAX_SEARCH_RESULTS { MAX_SEARCH_RESULTS } else { limit }
}

fn comes_before(x: &RankedSearchResult, y: &RankedSearchResult) -> (b: bool)
    ensures
        b == ranked_before(*x, *y),
{
    x.source < y.source || (x.source == y.source && (x.rank < y.rank || (x.rank == y.rank
        && x.result.updated_at > y.result.updated_at)))
}

fn insert_hit(sorted: &mut Vec<RankedSearchResult>, x: RankedSearchResult)
    ensures
        final(sorted)@ == insert_ranked(old(sorted)@, x),
{
    let ghost old_view = sorted@;
    let mut k = sorted.len();
    assert(old_view.take(k as int) =~= old_view);
    assert(old_view.skip(k as int) =~= Seq::<RankedSearchResult>::empty());
    let mut go = k > 0 && comes_before(&x, &sorted[k - 1]);
    while go
        invariant
            k <= sorted@.len(),
            sorted@ == old_view,
            insert_ranked(old_view, x) == insert_ranked(old_view.take(k as int), x) + old_view.skip(k as int),
            go == (k > 0 && ranked_before(x, old_view[k - 1])),
        decreases k,
    {
        proof {
            assert(old_view.take(k as int).drop_last() =~= old_view.take(k - 1));
            assert(old_view.take(k as int).last() == old_view[k - 1]);
            assert(old_view.skip(k - 1) =~= seq![old_view[k - 1]] + old_view.skip(k as int));
            assert(insert_ranked(old_view.take(k - 1), x).push(old_view[k - 1]) + old_view.skip(k as int)
                =~= insert_ranked(old_view.take(k - 1), x) + old_view.skip(k - 1));
        }
        k = k - 1;
        go = k > 0 && comes_before(&x, &sorted[k - 1]);
    }
    proof {
        if k > 0 {
            assert(old_view.take(k as int).last() == old_view[k - 1]);
        } else {
            assert(old_view.take(0) =~= Seq::<RankedSearchResult>::empty());
        }
    }
    sorted.insert(k, x);
    assert(sorted@ =~= old_view.take(k as int).push(x) + old_view.skip(k as int));
}

/// The candidates in rank order (a stable sort).
fn sort_hits(candidates: Vec<RankedSearchResult>) -> (sorted: Vec<RankedSearchResult>)
    ensures
        sorted@ == sort_ranked(candidates@),
{
    let ghost all = candidates@;
    let mut rest = candidates;
    let mut sorted: Vec<RankedSearchResult> = Vec::new();
    let ghost mut i: int = 0;
    assert(all.take(0) =~= Seq::<RankedSearchResult>::empty());
    while rest.len() > 0
        invariant
            0 <= i <= all.len(),
            rest@ == all.skip(i),
            sorted@ == sort_ranked(all.take(i)),
        decreases rest.len(),
    {
        proof {
            assert(all.take(i + 1).drop_last() =~= all.take(i));
            assert(all.skip(i)[0] == all[i]);
        }
        let hit = rest.remove(0);
        insert_hit(&mut sorted, hit);
        proof {
            i = i + 1;
            assert(rest@ =~= all.skip(i));
        }
    }
    assert(all.take(i) =~= all);
    sorted
}

fn contains_id(ids: &Vec<u64>, id: u64) -> (b: bool)
    ensures
        b == ids@.contains(id),
{
    let mut j: usize = 0;
    while j < ids.len()
        invariant
            j <= ids@.len(),
            forall|k: int| 0 <= k < j ==> ids@[k] != id,
        decreases ids.len() - j,
    {
        if ids[j] == id {
            return true;
        }
        j += 1;
    }
    false
}

/// The hits of a search from the title and message candidates.
pub fn search_results(candidates: Vec<RankedSearchResult>, limit: usize) -> (results: Vec<ConversationSearchResult>)
    ensures
        results@ == search_results_spec(candidates@, limit),
{
    let lim = search_limit(limit);
    let sorted = sort_hits(candidates);
    let ghost all = sorted@;
    let mut rest = sorted;
    let mut seen: Vec<u64> = Vec::new();
    let mut results: Vec<ConversationSearchResult> = Vec::new();
    let ghost mut i: int = 0;
    assert(all.take(0) =~= Seq::<RankedSearchResult>::empty());
    while rest.len() > 0 && results.len() < lim
        invariant
            0 <= i <= all.len(),
            rest@ == all.skip(i),
            lim == search_limit_spec(limit),
            results@.len() <= lim,
            results@ == at_most(first_per_conversation(all.take(i)), lim as nat),
            results@.len() < lim ==> results@ == first_per_conversation(all.take(i)),
            forall|id: u64| #[trigger] seen@.contains(id) == has_conversation(all.take(i), id),
        decreases rest.len(),
    {
        proof {
            assert(all.take(i + 1).drop_last() =~= all.take(i));
            assert(all.skip(i)[0] == all[i]);
        }
        let hit = rest.remove(0);
        let id = hit.result.conversation_id;
        let dup = contains_id(&seen, id);
        proof {
            assert forall|x: u64| has_conversation(all.take(i + 1), x) == (has_conversation(all.take(i), x) || x == id) by {
                if has_conversation(all.take(i + 1), x) {
                    let j = choose|j: int| 0 <= j < all.take(i + 1).len() && #[trigger] all.take(i + 1)[j].result.conversation_id == x;
                    if j < i {
                        assert(all.take(i)[j] == all.take(i + 1)[j]);
                    }
                }
                if has_conversation(all.take(i), x) {
                    let j = choose|j: int| 0 <= j < all.take(i).len() && #[trigger] all.take(i)[j].result.conversation_id == x;
                    assert(all.take(i + 1)[j] == all.take(i)[j]);
                }
                if x == id {
                    assert(all.take(i + 1)[i] == all[i]);
                }
            }
        }
        let ghost seen_before = seen@;
        let ghost results_before = results@;
        if !dup {
            seen.push(id);
            results.push(hit.result);
        }
        proof {
            i = i + 1;
            assert(rest@ =~= all.skip(i));
            assert forall|x: u64| #[trigger] seen@.contains(x) == has_conversation(all.take(i), x) by {
                if !dup {
                    assert(seen@ == seen_before.push(id));
                    if x == id {
                        assert(seen@[seen@.len() - 1] == id);
                    }
                    if seen_before.contains(x) {
                        let k = choose|k: int| 0 <= k < seen_before.len() && seen_before[k] == x;
                        assert(seen@[k] == x);
                    }
                    if seen@.contains(x) && x != id {
                        let k = choose|k: int| 0 <= k < seen@.len() && seen@[k] == x;
                        assert(k < seen@.len() - 1);
                        assert(seen_before[k] == x);
                    }
                }
            }
        }
    }
    proof {
        if rest@.len() == 0 {
            assert(all.take(i) =~= all);
        } else {
            lemma_at_most_grows(all, i, lim as nat);
        }
    }
    results
}

/// Keeping the first of each conversation only ever appends.
proof fn lemma_first_per_conversation_prefix(s: Seq<RankedSearchResult>, i: int)
    requires
        0 <= i <= s.len(),
    ensures
        first_per_conversation(s.take(i)).len() <= first_per_conversation(s).len(),
        first_per_conversation(s.take(i)) == first_per_conversation(s).take(first_per_conversation(s.take(i)).len() as int),
    decreases s.len() - i,
{
    if i < s.len() {
        lemma_first_per_conversation_prefix(s, i + 1);
        assert(s.take(i + 1).drop_last() =~= s.take(i));
        let a = first_per_conversation(s.take(i));
        let b = first_per_conversation(s.take(i + 1));
        assert(b == a || b == a.push(s.take(i + 1).last().result));
        assert(b.take(a.len() as int) =~= a);
        assert(first_per_conversation(s).take(a.len() as int) =~= b.take(a.len() as int));
    } else {
        assert(s.take(i) =~= s);
        assert(first_per_conversation(s).take(first_per_conversation(s).len() as int) =~= first_per_conversation(s));
    }
}

/// Once `lim` hits are kept from a prefix, the whole list gives the same first `lim`.
proof fn lemma_at_most_grows(s: Seq<RankedSearchResult>, i: int, lim: nat)
    requires
        0 <= i <= s.len(),
        first_per_conversation(s.take(i)).len() >= lim,
    ensures
        at_most(first_per_conversation(s.take(i)), lim) == at_most(first_per_conversation(s), lim),
{
    lemma_first_per_conversation_prefix(s, i);
    let a = first_per_conversation(s.take(i));
    let b = first_per_conversation(s);
    assert(a.take(lim as int) =~= b.take(lim as int));
}

/// Whether hits are in rank order: no hit comes before an earlier one.
pub open spec fn in_rank_order(s: Seq<RankedSearchResult>) -> bool {
    forall|i: int, j: int| 0 <= i < j < s.len() ==> !ranked_before(#[trigger] s[j], #[trigger] s[i])
}

proof fn lemma_insert_ranked(t: Seq<RankedSearchResult>, x: RankedSearchResult)
    requires
        in_rank_order(t),
    ensures
        in_rank_order(insert_ranked(t, x)),
        insert_ranked(t, x).to_multiset() == t.to_multiset().insert(x),
        forall|e: RankedSearchResult| #[trigger] insert_ranked(t, x).contains(e) <==> (t.contains(e) || e == x),
    decreases t.len(),
{
    broadcast use vstd::seq_lib::group_to_multiset_ensures;
    let r = insert_ranked(t, x);
    if t.len() == 0 {
        assert(r =~= t.push(x));
    } else if ranked_before(x, t.last()) {
        let t0 = t.drop_last();
        assert(in_rank_order(t0)) by {
            assert forall|i: int, j: int| 0 <= i < j < t0.len() implies !ranked_before(#[trigger] t0[j], #[trigger] t0[i]) by {
                assert(t0[i] == t[i] && t0[j] == t[j]);
            }
        }
        lemma_insert_ranked(t0, x);
        let r0 = insert_ranked(t0, x);
        assert(r == r0.push(t.last()));
        assert forall|i: int, j: int| 0 <= i < j < r.len() implies !ranked_before(#[trigger] r[j], #[trigger] r[i]) by {
            if j == r.len() - 1 {
                assert(r[j] == t.last());
                assert(r0.contains(r[i]));
                if r[i] != x {
                    assert(t0.contains(r[i]));
                    let k = choose|k: int| 0 <= k < t0.len() && t0[k] == r[i];
                    assert(t[k] == t0[k]);
                    assert(!ranked_before(t[t.len() - 1], t[k]));
                }
            } else {
                assert(r[i] == r0[i] && r[j] == r0[j]);
            }
        }
        assert(t =~= t0.push(t.last()));
        assert(r.to_multiset() =~= t.to_multiset().insert(x));
        assert forall|e: RankedSearchResult| #[trigger] r.contains(e) <==> (t.contains(e) || e == x) by {
            if r.contains(e) {
                let k = choose|k: int| 0 <= k < r.len() && r[k] == e;
                if k < r.len() - 1 {
                    assert(r0[k] == e);
                    assert(r0.contains(e));
                    if e != x {
                        let m = choose|m: int| 0 <= m < t0.len() && t0[m] == e;
                        assert(t[m] == e);
                    }
                } else {
                    assert(t[t.len() - 1] == e);
                }
            }
            if t.contains(e) {
                let k = choose|k: int| 0 <= k < t.len() && t[k] == e;
                if k < t.len() - 1 {
                    assert(t0[k] == e);
                    assert(r0.contains(e));
                    let m = choose|m: int| 0 <= m < r0.len() && r0[m] == e;
                    assert(r[m] == e);
                } else {
                    assert(r[r.len() - 1] == e);
                }
            }
            if e == x {
                assert(r0.contains(x));
                let m = choose|m: int| 0 <= m < r0.len() && r0[m] == x;
                assert(r[m] == x);
            }
        }
    } else {
        assert(r == t.push(x));
        assert forall|i: int, j: int| 0 <= i < j < r.len() implies !ranked_before(#[trigger] r[j], #[trigger] r[i]) by {
            if j == r.len() - 1 {
                assert(r[j] == x);
                assert(r[i] == t[i]);
                if i < t.len() - 1 {
                    assert(!ranked_before(t[t.len() - 1], t[i]));
                }
            } else {
                assert(r[i] == t[i] && r[j] == t[j]);
            }
        }
        assert forall|e: RankedSearchResult| #[trigger] r.contains(e) <==> (t.contains(e) || e == x) by {
            if r.contains(e) {
                let k = choose|k: int| 0 <= k < r.len() && r[k] == e;
                if k < t.len() {
                    assert(t[k] == e);
                }
            }
            if t.contains(e) {
                let k = choose|k: int| 0 <= k < t.len() && t[k] == e;
                assert(r[k] == e);
            }
            if e == x {
                assert(r[r.len() - 1] == x);
            }
        }
    }
}

/// Search ranking sorts the candidates: the result is in rank order and holds exactly
/// the candidates.
pub proof fn lemma_ranking_sorts(candidates: Seq<RankedSearchResult>)
    ensures
        in_rank_order(sort_ranked(candidates)),
        sort_ranked(candidates).to_multiset() == candidates.to_multiset(),
    decreases candidates.len(),
{
    broadcast use vstd::seq_lib::group_to_multiset_ensures;
    if candidates.len() == 0 {
        assert(candidates =~= Seq::<RankedSearchResult>::empty());
    } else {
        let c0 = candidates.drop_last();
        lemma_ranking_sorts(c0);
        lemma_insert_ranked(sort_ranked(c0), candidates.last());
        assert(candidates =~= c0.push(candidates.last()));
    }
}

proof fn lemma_first_per_conversation_distinct(s: Seq<RankedSearchResult>)
    ensures
        forall|i: int, j: int| 0 <= i < j < first_per_conversation(s).len()
            ==> #[trigger] first_per_conversation(s)[i].conversation_id != #[trigger] first_per_conversation(s)[j].conversation_id,
        forall|k: int| 0 <= k < first_per_conversation(s).len()
            ==> has_conversation(s, #[trigger] first_per_conversation(s)[k].conversation_id),
        first_per_conversation(s).len() <= s.len(),
    decreases s.len(),
{
    if s.len() > 0 {
        let s0 = s.drop_last();
        lemma_first_per_conversation_distinct(s0);
        let kept = first_per_conversation(s0);
        let r = first_per_conversation(s);
        assert forall|k: int| 0 <= k < r.len() implies has_conversation(s, #[trigger] r[k].conversation_id) by {
            if k < kept.len() {
                assert(r[k] == kept[k]);
                let m = choose|m: int| 0 <= m < s0.len() && #[trigger] s0[m].result.conversation_id == kept[k].conversation_id;
                assert(s[m] == s0[m]);
            } else {
                assert(s[s.len() - 1].result.conversation_id == r[k].conversation_id);
            }
        }
        assert forall|i: int, j: int| 0 <= i < j < r.len()
            implies #[trigger] r[i].conversation_id != #[trigger] r[j].conversation_id by {
            if j < kept.len() {
                assert(r[i] == kept[i] && r[j] == kept[j]);
            } else {
                assert(r[i] == kept[i]);
                assert(has_conversation(s0, kept[i].conversation_id));
            }
        }
    }
}

/// A search returns at most the search limit of hits, at most a hundred, and never two
/// of one conversation.
pub proof fn lemma_search_results_bounded_and_distinct(candidates: Seq<RankedSearchResult>, limit: usize)
    ensures
        search_results_spec(candidates, limit).len() <= limit,
        search_results_spec(candidates, limit).len() <= MAX_SEARCH_RESULTS,
        forall|i: int, j: int| 0 <= i < j < search_results_spec(candidates, limit).len()
            ==> #[trigger] search_results_spec(candidates, limit)[i].conversation_id
                != #[trigger] search_results_spec(candidates, limit)[j].conversation_id,
{
    let all = first_per_conversation(sort_ranked(candidates));
    lemma_first_per_conversation_distinct(sort_ranked(candidates));
    let r = search_results_spec(candidates, limit);
    assert forall|i: int, j: int| 0 <= i < j < r.len()
        implies #[trigger] r[i].conversation_id != #[trigger] r[j].conversation_id by {
        assert(r[i] == all[i] && r[j] == all[j]);
    }
}

// ----- the application store's search -----

/// The query of the application store: trimmed, then lowercased.
pub open spec fn normalized_query_spec(query: Seq<char>) -> Seq<char> {
    lowercase_of(trimmed(query))
}

pub fn normalized_query(query: &str) -> (q: String)
    ensures
        q@ == normalized_query_spec(query@),
{
    let t = trim(query);
    to_lowercase(t.as_str())
}

/// The pattern that finds a normalized query anywhere in a lowercased text.
pub fn like_pattern(query: &str) -> (pattern: String)
    ensures
        pattern@ == seq!['%'] + query@ + seq!['%'],
{
    let mut pattern = String::new();
    push_char(&mut pattern, '%');
    append_str(&mut pattern, query);
    push_char(&mut pattern, '%');
    pattern
}

/// The character positions where `needle` occurs in `hay` from position `p` on,
/// scanning left to right and resuming after each occurrence (`str::match_indices`).
pub open spec fn match_starts(hay: Seq<char>, needle: Seq<char>, p: int) -> Seq<int>
    decreases hay.len() - p,
{
    if needle.len() == 0 || p < 0 || p + needle.len() > hay.len() {
        Seq::empty()
    } else if occurs_at(hay, needle, p) {
        seq![p] + match_starts(hay, needle, p + needle.len())
    } else {
        match_starts(hay, needle, p + 1)
    }
}

/// Character positions as byte spans of the match.
pub open spec fn match_spans(hay: Seq<char>, needle: Seq<char>, starts: Seq<int>) -> Seq<(nat, nat)> {
    starts.map_values(|p: int| (utf8_len(hay.take(p)), utf8_len(hay.take(p)) + utf8_len(needle)))
}

/// The byte spans where a query occurs in the lowercased text; none for an empty query.
pub open spec fn highlights_spec(value: Seq<char>, query: Seq<char>) -> Seq<(nat, nat)> {
    if query.len() == 0 {
        Seq::empty()
    } else {
        let hay = lowercase_of(value);
        match_spans(hay, query, match_starts(hay, query, 0))
    }
}

proof fn lemma_utf8_len_concat(a: Seq<char>, b: Seq<char>)
    ensures
        utf8_len(a + b) == utf8_len(a) + utf8_len(b),
    decreases b.len(),
{
    if b.len() > 0 {
        lemma_utf8_len_concat(a, b.drop_last());
        assert((a + b).drop_last() =~= a + b.drop_last());
    } else {
        assert(a + b =~= a);
    }
}

/// Where a query occurs in a text, as byte spans of the lowercased text.
pub fn highlights(value: &str, query: &str) -> (spans: Vec<Span>)
    ensures
        spans_view(spans@) == highlights_spec(value@, query@),
{
    let needle = chars_of(query);
    if needle.len() == 0 {
        return Vec::new();
    }
    let lower = to_lowercase(value);
    let total = byte_len(lower.as_str());
    let hay = chars_of(lower.as_str());
    let ghost h = hay@;
    let ghost q = needle@;
    let needle_bytes = byte_len(query);
    let mut spans: Vec<Span> = Vec::new();
    let mut p: usize = 0;
    let mut b: usize = 0;
    assert(h.take(0) =~= Seq::<char>::empty());
    while needle.len() <= hay.len() - p
        invariant
            h == hay@,
            q == needle@,
            h == lowercase_of(value@),
            q == query@,
            q.len() > 0,
            total == utf8_len(h),
            needle_bytes == utf8_len(q),
            p <= h.len(),
            b == utf8_len(h.take(p as int)),
            spans_view(spans@) + match_spans(h, q, match_starts(h, q, p as int))
                == match_spans(h, q, match_starts(h, q, 0)),
        decreases h.len() - p,
    {
        proof {
            lemma_utf8_len_prefix(h, p as int);
        }
        if occurs_at_exec(&hay, &needle, p) {
            let ghost prev = spans@;
            proof {
                assert(h.take(p + q.len()) =~= h.take(p as int) + q);
                lemma_utf8_len_concat(h.take(p as int), q);
                lemma_utf8_len_prefix(h, p + q.len());
                let rest = match_starts(h, q, p + q.len());
                assert(match_starts(h, q, p as int) == seq![p as int] + rest);
                assert(match_spans(h, q, seq![p as int] + rest)
                    =~= seq![(utf8_len(h.take(p as int)), utf8_len(h.take(p as int)) + utf8_len(q))] + match_spans(h, q, rest));
            }
            spans.push((b, b + needle_bytes));
            proof {
                assert(spans_view(spans@) =~= spans_view(prev).push((b as nat, (b + needle_bytes) as nat)));
            }
            p = p + needle.len();
            b = b + needle_bytes;
        } else {
            proof {
                lemma_utf8_len_step(h, p as int);
                lemma_utf8_len_prefix(h, p + 1);
            }
            b = b + char_utf8_width(hay[p]);
            p = p + 1;
        }
    }
    assert(match_starts(h, q, p as int) =~= Seq::<int>::empty());
    assert(match_spans(h, q, Seq::<int>::empty()) =~= Seq::<(nat, nat)>::empty());
    spans
}

} // verus!
