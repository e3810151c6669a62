//! The engine's laws, stated and proved over the model: what cleaning never
//! touches, what it always removes, and that it has nothing left to do on
//! its own output.
use vstd::prelude::*;

use crate::model::{all_values_empty, clean_query, evaluate_rule, filter_pairs, host_or_empty,
    interleave_upto, link_segments, links_of, segs_concat, url_host, url_query_pairs, QueryPair};
use crate::parsing_core::{link_outcomes, repl_of, repls_of, spliced_text};
use crate::parsing_params::{instagram_hosts, spotify_hosts, substack_host_ok, twitter_hosts,
    youtube_hosts};

verus! {

/// A URL whose host a rule does not accept is never cleaned by that rule.
pub proof fn lemma_unaccepted_host_not_cleaned(
    raw: Seq<char>,
    hosts: Seq<Seq<char>>,
    params: Seq<Seq<char>>,
)
    ensures
        !hosts.contains(host_or_empty(url_host(raw))) ==> evaluate_rule(raw, hosts, params) is None,
{
}

/// A URL whose host no site of the table accepts is never cleaned at all:
/// no rule yields an outcome, and splicing keeps the link verbatim.
pub proof fn lemma_unrecognized_host_never_cleaned(link: Seq<char>)
    ensures
        ({
            let h = host_or_empty(url_host(link));
            (!youtube_hosts().contains(h) && !twitter_hosts().contains(h)
                && !instagram_hosts().contains(h) && !spotify_hosts().contains(h)
                && !substack_host_ok(h)) ==> link_outcomes(link) == Seq::<Seq<char>>::empty()
                && repl_of(link) == link
        }),
{
    let h = host_or_empty(url_host(link));
    if !youtube_hosts().contains(h) && !twitter_hosts().contains(h) && !instagram_hosts().contains(
        h,
    ) && !spotify_hosts().contains(h) && !substack_host_ok(h) {
        assert(link_outcomes(link) =~= Seq::<Seq<char>>::empty());
    }
}

/// A query whose values are all empty is never cleaned, whatever its keys.
pub proof fn lemma_empty_values_not_cleaned(ps: Seq<QueryPair>, params: Seq<Seq<char>>)
    ensures
        all_values_empty(ps) ==> clean_query(ps, params) is None,
{
}

/// The same, at the URL level: whatever the rule, such a URL is left alone.
pub proof fn lemma_empty_values_url_not_cleaned(
    raw: Seq<char>,
    hosts: Seq<Seq<char>>,
    params: Seq<Seq<char>>,
)
    ensures
        all_values_empty(url_query_pairs(raw)) ==> evaluate_rule(raw, hosts, params) is None,
{
}

/// The positions, in the original query, of the pairs one rule keeps.
pub open spec fn kept_indices(ps: Seq<QueryPair>, params: Seq<Seq<char>>) -> Seq<int>
    decreases ps.len(),
{
    if ps.len() == 0 {
        Seq::empty()
    } else {
        let rest = kept_indices(ps.drop_last(), params);
        if params.contains(ps.last().0) {
            rest
        } else {
            rest.push(ps.len() - 1)
        }
    }
}

/// What filtering a query does, exactly: every pair whose key is a tracking
/// parameter is absent from the result; every other pair is present with
/// its key and value unchanged; and the surviving pairs keep their relative
/// order (their original positions are strictly increasing).
pub proof fn lemma_filter_exact(ps: Seq<QueryPair>, params: Seq<Seq<char>>)
    ensures
        ({
            let kept = filter_pairs(ps, params);
            let idx = kept_indices(ps, params);
            &&& kept.len() == idx.len()
            &&& forall|k: int| 0 <= k < idx.len() ==> 0 <= #[trigger] idx[k] < ps.len()
            &&& forall|k: int| 0 <= k < idx.len() ==> kept[k] == ps[#[trigger] idx[k]]
            &&& forall|k: int| 0 <= k < kept.len() ==> !params.contains(#[trigger] kept[k].0)
            &&& forall|k1: int, k2: int|
                0 <= k1 < k2 < idx.len() ==> #[trigger] idx[k1] < #[trigger] idx[k2]
            &&& forall|i: int|
                0 <= i < ps.len() && !params.contains(ps[i].0) ==> #[trigger] kept_indices(
                    ps,
                    params,
                ).contains(i)
        }),
    decreases ps.len(),
{
    let kept = filter_pairs(ps, params);
    let idx = kept_indices(ps, params);
    if ps.len() > 0 {
        let prev = ps.drop_last();
        lemma_filter_exact(prev, params);
        let kept0 = filter_pairs(prev, params);
        let idx0 = kept_indices(prev, params);
        assert(forall|i: int| 0 <= i < prev.len() ==> prev[i] == ps[i]);
        if params.contains(ps.last().0) {
            assert(kept == kept0 && idx == idx0);
            assert forall|i: int|
                0 <= i < ps.len() && !params.contains(ps[i].0) implies #[trigger] kept_indices(
                ps,
                params,
            ).contains(i) by {
                assert(i < prev.len());
                assert(idx0.contains(i));
            }
        } else {
            assert(kept == kept0.push(ps.last()) && idx == idx0.push(ps.len() - 1));
            assert forall|k: int| 0 <= k < idx.len() implies kept[k] == ps[#[trigger] idx[k]] by {
                if k < idx0.len() {
                    assert(kept[k] == kept0[k] && idx[k] == idx0[k]);
                }
            }
            assert forall|i: int|
                0 <= i < ps.len() && !params.contains(ps[i].0) implies #[trigger] kept_indices(
                ps,
                params,
            ).contains(i) by {
                if i < prev.len() {
                    assert(idx0.contains(i));
                    let k = choose|k: int| 0 <= k < idx0.len() && idx0[k] == i;
                    assert(idx[k] == i);
                } else {
                    assert(idx.last() == i);
                }
            }
        }
    }
}

/// Filtering keeps a query with no tracking key unchanged.
proof fn lemma_filter_identity(ps: Seq<QueryPair>, params: Seq<Seq<char>>)
    requires
        forall|i: int| 0 <= i < ps.len() ==> !params.contains(#[trigger] ps[i].0),
    ensures
        filter_pairs(ps, params) == ps,
    decreases ps.len(),
{
    if ps.len() > 0 {
        lemma_filter_identity(ps.drop_last(), params);
        assert(filter_pairs(ps, params) =~= ps);
    }
}

/// Idempotence: the pairs one cleaning keeps give a second cleaning nothing
/// to do, whatever the query or the rule.
pub proof fn lemma_clean_idempotent(ps: Seq<QueryPair>, params: Seq<Seq<char>>)
    ensures
        clean_query(filter_pairs(ps, params), params) is None,
{
    let kept = filter_pairs(ps, params);
    lemma_filter_exact(ps, params);
    lemma_filter_identity(kept, params);
}

/// Idempotence at the URL level: a URL whose parsed query pairs are already
/// the filtered pairs of another is never changed again by the same rule.
pub proof fn lemma_evaluate_idempotent(
    raw1: Seq<char>,
    raw2: Seq<char>,
    hosts: Seq<Seq<char>>,
    params: Seq<Seq<char>>,
)
    ensures
        url_query_pairs(raw2) == filter_pairs(url_query_pairs(raw1), params) ==> evaluate_rule(
            raw2,
            hosts,
            params,
        ) is None,
{
    if url_query_pairs(raw2) == filter_pairs(url_query_pairs(raw1), params) {
        lemma_clean_idempotent(url_query_pairs(raw1), params);
    }
}

/// Text outside link spans is carried through splicing byte-for-byte: in
/// the interleaving of the first `n` gaps of a segmentation with any
/// replacements at all, the `i`-th gap stands verbatim at the offset where
/// the first `i` pieces end. With the links themselves as replacements the
/// interleaving is the original text, with the engine's replacements it is
/// the rebuilt text, so both hold the same gap at their respective offsets.
pub proof fn lemma_gap_preserved(
    segs: Seq<(Seq<char>, Seq<char>)>,
    repls: Seq<Seq<char>>,
    i: int,
    n: int,
)
    requires
        0 <= i < n,
    ensures
        ({
            let whole = interleave_upto(segs, repls, n);
            let off = interleave_upto(segs, repls, i).len() as int;
            &&& off + segs[i].0.len() <= whole.len()
            &&& whole.subrange(off, off + segs[i].0.len()) == segs[i].0
        }),
    decreases n,
{
    let whole = interleave_upto(segs, repls, n);
    let off = interleave_upto(segs, repls, i).len() as int;
    if i == n - 1 {
        let prev = interleave_upto(segs, repls, i);
        assert(whole == prev + segs[i].0 + repls[i]);
        assert(whole.subrange(off, off + segs[i].0.len()) =~= segs[i].0);
    } else {
        lemma_gap_preserved(segs, repls, i, n - 1);
        let sub = interleave_upto(segs, repls, n - 1);
        assert(whole == sub + segs[n - 1].0 + repls[n - 1]);
        assert(whole.subrange(off, off + segs[i].0.len()) =~= sub.subrange(
            off,
            off + segs[i].0.len(),
        ));
    }
}

/// The same, applied to the engine: the rebuilt text of `spliced_text`
/// holds every gap of the segmentation verbatim, at the offset where its
/// first `i` pieces end, and the original text (the concatenation of the
/// segmentation) holds the same gap at its own offset.
pub proof fn lemma_sanitized_text_keeps_gaps(text: Seq<char>, i: int)
    requires
        0 <= i < link_segments(text).len() - 1,
    ensures
        ({
            let segs = link_segments(text);
            let out = spliced_text(text);
            let off = interleave_upto(segs, repls_of(segs), i).len() as int;
            let orig = segs_concat(segs);
            let ooff = interleave_upto(segs, links_of(segs), i).len() as int;
            &&& off + segs[i].0.len() <= out.len()
            &&& out.subrange(off, off + segs[i].0.len()) == segs[i].0
            &&& ooff + segs[i].0.len() <= orig.len()
            &&& orig.subrange(ooff, ooff + segs[i].0.len()) == segs[i].0
        }),
{
    let segs = link_segments(text);
    let n = segs.len() as int;
    lemma_gap_preserved(segs, repls_of(segs), i, n - 1);
    lemma_gap_preserved(segs, links_of(segs), i, n);
    let inner = interleave_upto(segs, repls_of(segs), n - 1);
    let off = interleave_upto(segs, repls_of(segs), i).len() as int;
    assert(spliced_text(text) == inner + segs.last().0);
    assert(spliced_text(text).subrange(off, off + segs[i].0.len()) =~= inner.subrange(
        off,
        off + segs[i].0.len(),
    ));
}

/// The rebuilt text ends with the text after the last link, verbatim.
pub proof fn lemma_sanitized_text_keeps_tail(text: Seq<char>)
    requires
        link_segments(text).len() >= 1,
    ensures
        ({
            let segs = link_segments(text);
            let out = spliced_text(text);
            &&& segs.last().0.len() <= out.len()
            &&& out.subrange(out.len() - segs.last().0.len(), out.len() as int) == segs.last().0
        }),
{
    let segs = link_segments(text);
    let inner = interleave_upto(segs, repls_of(segs), segs.len() - 1);
    assert(spliced_text(text) == inner + segs.last().0);
    assert(spliced_text(text).subrange(
        spliced_text(text).len() - segs.last().0.len(),
        spliced_text(text).len() as int,
    ) =~= segs.last().0);
}

} // verus!
