//! Mathematical model of the scanner and the line-comment filter: how a
//! line of text splits into raw tokens around a set of single-character
//! symbol breakers, how a token sequence is cut at a comment marker, and the
//! laws they obey (whitespace-only lines scan to nothing; scanning is
//! idempotent up to whitespace normalization, before and after filtering).

use vstd::prelude::*;

use crate::chars::is_space_char;

verus! {

/// Length of the maximal run of non-whitespace, non-breaker characters at
/// the front of `line`.
pub open spec fn run_len(line: Seq<char>, bs: Seq<char>) -> nat
    decreases line.len(),
{
    if line.len() == 0 || is_space_char(line[0]) || bs.contains(line[0]) {
        0
    } else {
        (1 + run_len(line.skip(1), bs)) as nat
    }
}

/// Length of the first token when `line` starts with a non-whitespace
/// character: a breaker is a one-character token of its own; anything else
/// starts a maximal run of non-whitespace, non-breaker characters.
pub open spec fn first_token_len(line: Seq<char>, bs: Seq<char>) -> int {
    if bs.contains(line[0]) {
        1
    } else {
        1 + run_len(line.skip(1), bs) as int
    }
}

proof fn lemma_run_len_le(line: Seq<char>, bs: Seq<char>)
    ensures
        run_len(line, bs) <= line.len(),
    decreases line.len(),
{
    if !(line.len() == 0 || is_space_char(line[0]) || bs.contains(line[0])) {
        lemma_run_len_le(line.skip(1), bs);
    }
}

/// The raw token sequence that scanning `line` with breaker set `bs` yields:
/// leading whitespace is skipped, then the first token (see
/// `first_token_len`) is taken and the rest of the line is scanned.
pub open spec fn scan(line: Seq<char>, bs: Seq<char>) -> Seq<Seq<char>>
    decreases line.len(),
    via scan_decreases
{
    if line.len() == 0 {
        Seq::empty()
    } else if is_space_char(line[0]) {
        scan(line.skip(1), bs)
    } else {
        seq![line.take(first_token_len(line, bs))] + scan(
            line.skip(first_token_len(line, bs)),
            bs,
        )
    }
}

#[via_fn]
proof fn scan_decreases(line: Seq<char>, bs: Seq<char>) {
    if line.len() > 0 && !is_space_char(line[0]) {
        lemma_run_len_le(line.skip(1), bs);
    }
}

/// Every character of the front run is neither whitespace nor a breaker.
proof fn lemma_run_len_chars(line: Seq<char>, bs: Seq<char>)
    ensures
        forall|k: int|
            0 <= k < run_len(line, bs) ==> !is_space_char(line[k]) && !bs.contains(line[k]),
    decreases line.len(),
{
    if !(line.len() == 0 || is_space_char(line[0]) || bs.contains(line[0])) {
        lemma_run_len_le(line.skip(1), bs);
        lemma_run_len_chars(line.skip(1), bs);
        assert forall|k: int|
            0 <= k < run_len(line, bs) implies !is_space_char(line[k]) && !bs.contains(
            line[k],
        ) by {
            if k > 0 {
                assert(line.skip(1)[k - 1] == line[k]);
            }
        }
    }
}

/// The front run stops exactly at position `q` when the characters before it
/// are plain token characters and `q` sits at the end, at whitespace or at a
/// breaker.
pub proof fn lemma_run_len_range(line: Seq<char>, bs: Seq<char>, p: int, q: int)
    requires
        0 <= p <= q <= line.len(),
        forall|k: int| p <= k < q ==> !is_space_char(line[k]) && !bs.contains(line[k]),
        q == line.len() || is_space_char(line[q]) || bs.contains(line[q]),
    ensures
        run_len(line.skip(p), bs) == q - p,
    decreases q - p,
{
    let l = line.skip(p);
    if p == q {
        if q < line.len() {
            assert(l[0] == line[p]);
        }
    } else {
        assert(l[0] == line[p]);
        assert(l.skip(1) =~= line.skip(p + 1));
        lemma_run_len_range(line, bs, p + 1, q);
    }
}

/// A well-formed raw token: nonempty, free of whitespace, and either a lone
/// breaker character or entirely free of breaker characters.
pub open spec fn token_ok(t: Seq<char>, bs: Seq<char>) -> bool {
    &&& t.len() >= 1
    &&& forall|k: int| 0 <= k < t.len() ==> !is_space_char(t[k])
    &&& if bs.contains(t[0]) {
        t.len() == 1
    } else {
        forall|k: int| 0 <= k < t.len() ==> !bs.contains(t[k])
    }
}

/// Every token the scanner yields is well formed.
pub proof fn lemma_scan_tokens_ok(line: Seq<char>, bs: Seq<char>)
    ensures
        forall|k: int| 0 <= k < scan(line, bs).len() ==> token_ok(#[trigger] scan(line, bs)[k], bs),
    decreases line.len(),
{
    if line.len() == 0 {
        assert(scan(line, bs).len() == 0);
    } else if is_space_char(line[0]) {
        lemma_scan_tokens_ok(line.skip(1), bs);
        assert(scan(line, bs) == scan(line.skip(1), bs));
    } else {
        let n = first_token_len(line, bs);
        lemma_run_len_le(line.skip(1), bs);
        let t = line.take(n);
        assert(t[0] == line[0]);
        if bs.contains(line[0]) {
            assert(token_ok(t, bs));
        } else {
            lemma_run_len_chars(line.skip(1), bs);
            assert forall|k: int| 0 <= k < t.len() implies !is_space_char(t[k]) && !bs.contains(
                t[k],
            ) by {
                if k > 0 {
                    assert(line.skip(1)[k - 1] == line[k]);
                }
            }
            assert(token_ok(t, bs));
        }
        lemma_scan_tokens_ok(line.skip(n), bs);
        assert forall|k: int| 0 <= k < scan(line, bs).len() implies token_ok(
            #[trigger] scan(line, bs)[k],
            bs,
        ) by {
            if k == 0 {
                assert(scan(line, bs)[0] == t);
            } else {
                assert(scan(line, bs)[k] == scan(line.skip(n), bs)[k - 1]);
            }
        }
    }
}

/// A line-comment marker at position `i`: a `/` token followed immediately
/// by another `/` token.
pub open spec fn marker_at(ts: Seq<Seq<char>>, i: int) -> bool {
    0 <= i && i + 1 < ts.len() && ts[i] == seq!['/'] && ts[i + 1] == seq!['/']
}

/// The token sequence cut at the first line-comment marker at or after `i`,
/// unchanged when there is none.
pub open spec fn filter_from(ts: Seq<Seq<char>>, i: int) -> Seq<Seq<char>>
    decreases ts.len() - i,
{
    if i < 0 || i >= ts.len() {
        ts
    } else if marker_at(ts, i) {
        ts.take(i)
    } else {
        filter_from(ts, i + 1)
    }
}

/// The token sequence with the first line-comment marker and everything
/// after it dropped; unchanged when no marker occurs.
pub open spec fn filter_comments(ts: Seq<Seq<char>>) -> Seq<Seq<char>> {
    filter_from(ts, 0)
}

/// The token texts joined with one separating space between consecutive
/// tokens.
pub open spec fn join_tokens(ts: Seq<Seq<char>>) -> Seq<char>
    decreases ts.len(),
{
    if ts.len() == 0 {
        Seq::empty()
    } else if ts.len() == 1 {
        ts[0]
    } else {
        ts[0] + seq![' '] + join_tokens(ts.skip(1))
    }
}

/// The front run of `w + r` is all of `w` when `w` holds only plain token
/// characters and `r` opens with whitespace, a breaker, or nothing.
proof fn lemma_run_len_concat(w: Seq<char>, r: Seq<char>, bs: Seq<char>)
    requires
        forall|k: int| 0 <= k < w.len() ==> !is_space_char(w[k]) && !bs.contains(w[k]),
        r.len() == 0 || is_space_char(r[0]) || bs.contains(r[0]),
    ensures
        run_len(w + r, bs) == w.len(),
    decreases w.len(),
{
    if w.len() == 0 {
        assert(w + r =~= r);
    } else {
        assert((w + r)[0] == w[0]);
        assert((w + r).skip(1) =~= w.skip(1) + r);
        lemma_run_len_concat(w.skip(1), r, bs);
    }
}

/// Scanning a line that opens with a well-formed token followed by
/// whitespace (or nothing) yields that token first, then the scan of the
/// rest.
proof fn lemma_scan_token_prefix(t: Seq<char>, r: Seq<char>, bs: Seq<char>)
    requires
        token_ok(t, bs),
        r.len() == 0 || is_space_char(r[0]),
    ensures
        scan(t + r, bs) == seq![t] + scan(r, bs),
{
    let line = t + r;
    assert(line[0] == t[0]);
    if bs.contains(t[0]) {
        assert(first_token_len(line, bs) == 1);
        assert(line.take(1) =~= t);
        assert(line.skip(1) =~= r);
    } else {
        assert(line.skip(1) =~= t.skip(1) + r);
        assert forall|k: int|
            0 <= k < t.skip(1).len() implies !is_space_char(t.skip(1)[k]) && !bs.contains(
            t.skip(1)[k],
        ) by {
            assert(t.skip(1)[k] == t[k + 1]);
        }
        lemma_run_len_concat(t.skip(1), r, bs);
        assert(first_token_len(line, bs) == t.len());
        assert(line.take(t.len() as int) =~= t);
        assert(line.skip(t.len() as int) =~= r);
    }
}

/// Re-scanning the space-joined texts of well-formed tokens gives those
/// tokens back.
proof fn lemma_scan_join(ts: Seq<Seq<char>>, bs: Seq<char>)
    requires
        forall|k: int| 0 <= k < ts.len() ==> token_ok(#[trigger] ts[k], bs),
    ensures
        scan(join_tokens(ts), bs) == ts,
    decreases ts.len(),
{
    if ts.len() == 0 {
        assert(ts =~= Seq::<Seq<char>>::empty());
    } else if ts.len() == 1 {
        assert(ts[0] + Seq::<char>::empty() =~= ts[0]);
        lemma_scan_token_prefix(ts[0], Seq::empty(), bs);
        assert(scan(join_tokens(ts), bs) =~= ts);
    } else {
        let rest = seq![' '] + join_tokens(ts.skip(1));
        assert(ts[0] + seq![' '] + join_tokens(ts.skip(1)) =~= ts[0] + rest);
        lemma_scan_token_prefix(ts[0], rest, bs);
        assert(rest.skip(1) =~= join_tokens(ts.skip(1)));
        lemma_scan_join(ts.skip(1), bs);
        assert(scan(rest, bs) == scan(join_tokens(ts.skip(1)), bs));
        assert(seq![ts[0]] + ts.skip(1) =~= ts);
    }
}

/// Law: scanning is idempotent up to whitespace normalization. Joining the
/// tokens of a scan with single spaces and scanning again yields the same
/// token sequence.
pub proof fn lemma_scan_round_trip(line: Seq<char>, bs: Seq<char>)
    ensures
        scan(join_tokens(scan(line, bs)), bs) == scan(line, bs),
{
    lemma_scan_tokens_ok(line, bs);
    lemma_scan_join(scan(line, bs), bs);
}

/// The comment filter yields a prefix of its input.
proof fn lemma_filter_from_prefix(ts: Seq<Seq<char>>, i: int)
    ensures
        exists|k: int|
            0 <= k <= ts.len() && filter_from(ts, i) == #[trigger] ts.take(k),
    decreases ts.len() - i,
{
    if i < 0 || i >= ts.len() {
        assert(ts.take(ts.len() as int) =~= ts);
    } else if marker_at(ts, i) {
        assert(filter_from(ts, i) == ts.take(i));
    } else {
        lemma_filter_from_prefix(ts, i + 1);
    }
}

/// Law: the round trip holds of the emitted token texts as well. Joining
/// the tokens that survive the comment filter with single spaces and
/// scanning again yields exactly those tokens.
pub proof fn lemma_filtered_scan_round_trip(line: Seq<char>, bs: Seq<char>)
    ensures
        scan(join_tokens(filter_comments(scan(line, bs))), bs)
            == filter_comments(scan(line, bs)),
{
    let ts = scan(line, bs);
    let fts = filter_comments(ts);
    lemma_scan_tokens_ok(line, bs);
    lemma_filter_from_prefix(ts, 0);
    let k = choose|k: int| 0 <= k <= ts.len() && fts == ts.take(k);
    assert forall|j: int| 0 <= j < fts.len() implies token_ok(#[trigger] fts[j], bs) by {
        assert(fts[j] == ts[j]);
    }
    lemma_scan_join(fts, bs);
}

/// Law: a line of nothing but whitespace (the empty line included) scans to
/// the empty token sequence.
pub proof fn lemma_scan_whitespace(line: Seq<char>, bs: Seq<char>)
    requires
        forall|k: int| 0 <= k < line.len() ==> is_space_char(line[k]),
    ensures
        scan(line, bs) == Seq::<Seq<char>>::empty(),
    decreases line.len(),
{
    if line.len() > 0 {
        assert forall|k: int| 0 <= k < line.skip(1).len() implies is_space_char(
            line.skip(1)[k],
        ) by {
            assert(line.skip(1)[k] == line[k + 1]);
        }
        lemma_scan_whitespace(line.skip(1), bs);
    }
}

} // verus!
