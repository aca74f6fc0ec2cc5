//! Merging the answers of several API queries: round robin, without
//! duplicates, up to the search's limit.

use vstd::prelude::*;
use crate::aninzb::results::SearchResult;
use crate::aninzb::config::{result_limit, result_limit_of};
use crate::plugin::opt_chars;
use crate::text::{chars_eq, chars_of};

verus! {

/// Whether `sets` holds, in order, the sequences `spec`.
pub open spec fn holds_sets<T>(sets: Seq<Vec<T>>, spec: Seq<Seq<T>>) -> bool {
    sets.len() == spec.len() && forall|i: int| 0 <= i < sets.len() ==> (#[trigger] sets[i])@ == spec[i]
}

/// The contents of each vector.
pub open spec fn seqs_of<T>(sets: Seq<Vec<T>>) -> Seq<Seq<T>> {
    sets.map_values(|v: Vec<T>| v@)
}

/// The items at position `r` of the first `n` sequences, in order of the sequences.
pub open spec fn round_of<T>(sets: Seq<Seq<T>>, r: int, n: int) -> Seq<T>
    decreases n,
{
    if n <= 0 {
        Seq::empty()
    } else if r < sets[n - 1].len() {
        round_of(sets, r, n - 1).push(sets[n - 1][r])
    } else {
        round_of(sets, r, n - 1)
    }
}

/// The first `rounds` rounds of taking one item from each sequence in turn.
pub open spec fn rounds_of<T>(sets: Seq<Seq<T>>, rounds: int) -> Seq<T>
    decreases rounds,
{
    if rounds <= 0 {
        Seq::empty()
    } else {
        rounds_of(sets, rounds - 1) + round_of(sets, rounds - 1, sets.len() as int)
    }
}

/// The length of the longest sequence.
pub open spec fn longest<T>(sets: Seq<Seq<T>>) -> nat
    decreases sets.len(),
{
    if sets.len() == 0 {
        0
    } else if sets.last().len() > longest(sets.drop_last()) {
        sets.last().len()
    } else {
        longest(sets.drop_last())
    }
}

/// All items of the sequences, taken round robin: the first of each, then the
/// second of each, and so on.
pub open spec fn round_robin<T>(sets: Seq<Seq<T>>) -> Seq<T> {
    rounds_of(sets, longest(sets) as int)
}

/// What is left of `s` after `r` rounds.
pub open spec fn rest_after<T>(s: Seq<T>, r: int) -> Seq<T> {
    if r < s.len() {
        s.subrange(r, s.len() as int)
    } else {
        Seq::empty()
    }
}

proof fn lemma_longest_bounds<T>(sets: Seq<Seq<T>>)
    ensures
        forall|i: int| 0 <= i < sets.len() ==> (#[trigger] sets[i]).len() <= longest(sets),
    decreases sets.len(),
{
    if sets.len() > 0 {
        lemma_longest_bounds(sets.drop_last());
        assert forall|i: int| 0 <= i < sets.len() implies (#[trigger] sets[i]).len() <= longest(sets) by {
            if i < sets.len() - 1 {
                assert(sets[i] == sets.drop_last()[i]);
            }
        }
    }
}

fn longest_exec<T>(sets: &Vec<Vec<T>>, Ghost(spec): Ghost<Seq<Seq<T>>>) -> (n: usize)
    requires
        holds_sets(sets@, spec),
    ensures
        n == longest(spec),
{
    let mut n: usize = 0;
    let mut i: usize = 0;
    while i < sets.len()
        invariant
            holds_sets(sets@, spec),
            i <= sets@.len(),
            n == longest(spec.subrange(0, i as int)),
        decreases sets@.len() - i,
    {
        proof {
            assert(spec.subrange(0, i + 1).drop_last() =~= spec.subrange(0, i as int));
            assert(spec.subrange(0, i + 1).last() == sets@[i as int]@);
        }
        if sets[i].len() > n {
            n = sets[i].len();
        }
        i = i + 1;
    }
    proof {
        assert(spec.subrange(0, spec.len() as int) =~= spec);
    }
    n
}

proof fn lemma_rest_step<T>(s: Seq<T>, r: int)
    requires
        0 <= r < s.len(),
    ensures
        rest_after(s, r).len() > 0,
        rest_after(s, r)[0] == s[r],
        rest_after(s, r).drop_first() =~= rest_after(s, r + 1),
{
}

/// All items of `sets`, taken round robin.
pub fn interleave<T>(sets: Vec<Vec<T>>) -> (out: Vec<T>)
    ensures
        out@ == round_robin(seqs_of(sets@)),
{
    let ghost spec: Seq<Seq<T>> = seqs_of(sets@);
    let mut sets = sets;
    proof {
        assert(holds_sets(sets@, spec));
    }
    let rounds = longest_exec(&sets, Ghost(spec));
    let n = sets.len();
    let mut out: Vec<T> = Vec::new();
    let mut r: usize = 0;
    while r < rounds
        invariant
            r <= rounds,
            rounds == longest(spec),
            n == spec.len(),
            sets@.len() == n,
            forall|i: int| 0 <= i < n ==> (#[trigger] sets@[i])@ == rest_after(spec[i], r as int),
            out@ == rounds_of(spec, r as int),
        decreases rounds - r,
    {
        let mut i: usize = 0;
        while i < n
            invariant
                r < rounds,
                i <= n,
                n == spec.len(),
                sets@.len() == n,
                forall|k: int| 0 <= k < i ==> (#[trigger] sets@[k])@ == rest_after(spec[k], r + 1),
                forall|k: int| i <= k < n ==> (#[trigger] sets@[k])@ == rest_after(spec[k], r as int),
                out@ == rounds_of(spec, r as int) + round_of(spec, r as int, i as int),
            decreases n - i,
        {
            let ghost before_sets = sets@;
            let ghost before_out = out@;
            let mut v = sets.remove(i);
            proof {
                assert(v@ == rest_after(spec[i as int], r as int));
            }
            if v.len() > 0 {
                proof {
                    assert((r as int) < spec[i as int].len());
                    lemma_rest_step(spec[i as int], r as int);
                }
                let x = v.remove(0);
                out.push(x);
                proof {
                    assert(out@ =~= rounds_of(spec, r as int) + round_of(spec, r as int, i + 1));
                }
            } else {
                proof {
                    assert(!((r as int) < spec[i as int].len()));
                    assert(out@ =~= rounds_of(spec, r as int) + round_of(spec, r as int, i + 1));
                }
            }
            sets.insert(i, v);
            proof {
                assert forall|k: int| 0 <= k < i + 1 implies (#[trigger] sets@[k])@ == rest_after(spec[k], r + 1) by {
                    if k < i {
                        assert(sets@[k] == before_sets[k]);
                    }
                }
                assert forall|k: int| i + 1 <= k < n implies (#[trigger] sets@[k])@ == rest_after(spec[k], r as int) by {
                    assert(sets@[k] == before_sets[k]);
                }
            }
            i = i + 1;
        }
        proof {
            assert(out@ =~= rounds_of(spec, r + 1));
        }
        r = r + 1;
    }
    out
}

/// The key by which results are told apart: the GUID, else the download URL, else the title.
pub open spec fn result_key(r: SearchResult) -> Seq<char> {
    match r.guid {
        Some(g) => g@,
        None => match r.download_url {
            Some(u) => u@,
            None => r.title@,
        },
    }
}

/// The keys of a sequence of results.
pub open spec fn keys_of(s: Seq<SearchResult>) -> Seq<Seq<char>> {
    s.map_values(|r: SearchResult| result_key(r))
}

/// The results of `s` whose key was not seen before, in order.
pub open spec fn first_of_each_key(s: Seq<SearchResult>) -> Seq<SearchResult>
    decreases s.len(),
{
    if s.len() == 0 {
        Seq::empty()
    } else {
        let prev = first_of_each_key(s.drop_last());
        if keys_of(prev).contains(result_key(s.last())) {
            prev
        } else {
            prev.push(s.last())
        }
    }
}

/// At most the first `limit` items of `s`.
pub open spec fn at_most<T>(s: Seq<T>, limit: int) -> Seq<T> {
    if s.len() <= limit {
        s
    } else {
        s.take(limit)
    }
}

/// The merged answer: the results taken round robin, the first of each key
/// kept, at most `limit` of them.
pub open spec fn merged_results(sets: Seq<Seq<SearchResult>>, limit: int) -> Seq<SearchResult> {
    at_most(first_of_each_key(round_robin(sets)), limit)
}

/// The key of a result.
pub fn dedupe_key(r: &SearchResult) -> (k: String)
    ensures
        k@ == result_key(*r),
{
    match &r.guid {
        Some(g) => g.clone(),
        None => match &r.download_url {
            Some(u) => u.clone(),
            None => r.title.clone(),
        },
    }
}

fn key_seen(seen: &Vec<String>, key: &String) -> (b: bool)
    ensures
        b == seen@.map_values(|s: String| s@).contains(key@),
{
    let kc = chars_of(key.as_str());
    let mut i: usize = 0;
    while i < seen.len()
        invariant
            i <= seen@.len(),
            kc@ == key@,
            forall|k: int| 0 <= k < i ==> seen@[k]@ != key@,
        decreases seen@.len() - i,
    {
        if chars_eq(&chars_of(seen[i].as_str()), &kc) {
            proof {
                assert(seen@.map_values(|s: String| s@)[i as int] == key@);
            }
            return true;
        }
        i = i + 1;
    }
    proof {
        let m = seen@.map_values(|s: String| s@);
        if m.contains(key@) {
            let k = choose|k: int| 0 <= k < m.len() && m[k] == key@;
            assert(seen@[k]@ == key@);
        }
    }
    false
}

/// Merges the answers of several queries: round robin over the answers, each
/// key once, at most `limit` results.
pub fn merge_api_result_sets(result_sets: Vec<Vec<SearchResult>>, limit: usize) -> (out: Vec<SearchResult>)
    ensures
        out@ == merged_results(seqs_of(result_sets@), limit as int),
{
    let mut all = interleave(result_sets);
    let ghost items = all@;
    let mut out: Vec<SearchResult> = Vec::new();
    let mut seen: Vec<String> = Vec::new();
    let total = all.len();
    let mut k: usize = 0;
    while k < total
        invariant
            k <= total,
            total == items.len(),
            all@ == items.subrange(k as int, items.len() as int),
            out@ == at_most(first_of_each_key(items.subrange(0, k as int)), limit as int),
            out@.len() < limit ==> seen@.map_values(|s: String| s@) == keys_of(out@),
        decreases total - k,
    {
        let ghost pre = items.subrange(0, k as int);
        proof {
            assert(items.subrange(0, k + 1).drop_last() =~= pre);
            assert(items.subrange(0, k + 1).last() == items[k as int]);
            assert(all@[0] == items[k as int]);
        }
        let x = all.remove(0);
        proof {
            assert(all@ =~= items.subrange(k + 1, items.len() as int));
        }
        if out.len() < limit {
            let key = dedupe_key(&x);
            if !key_seen(&seen, &key) {
                let ghost before_out = out@;
                let ghost before_seen = seen@;
                out.push(x);
                seen.push(key);
                proof {
                    assert(seen@.map_values(|s: String| s@) =~= before_seen.map_values(|s: String| s@).push(key@));
                    assert(keys_of(out@) =~= keys_of(before_out).push(result_key(x)));
                }
            }
        } else {
            proof {
                let d = first_of_each_key(pre);
                assert(d.len() >= limit);
                let d2 = first_of_each_key(items.subrange(0, k + 1));
                assert(d2 == d || d2 == d.push(x));
                if d2 == d.push(x) {
                    assert(d2.take(limit as int) =~= d.take(limit as int));
                }
            }
        }
        k = k + 1;
    }
    proof {
        assert(items.subrange(0, total as int) =~= items);
    }
    out
}

/// Law: merged results never repeat a key and never exceed the limit.
pub proof fn merged_results_are_distinct(sets: Seq<Seq<SearchResult>>, limit: int)
    requires
        limit >= 0,
    ensures
        merged_results(sets, limit).len() <= limit,
        forall|a: int, b: int|
            0 <= a < b < merged_results(sets, limit).len() ==> result_key(merged_results(sets, limit)[a])
                != result_key(merged_results(sets, limit)[b]),
{
    let all = first_of_each_key(round_robin(sets));
    lemma_first_of_each_key_distinct(round_robin(sets));
    let m = merged_results(sets, limit);
    assert forall|a: int, b: int| 0 <= a < b < m.len() implies result_key(m[a]) != result_key(m[b]) by {
        assert(m[a] == all[a]);
        assert(m[b] == all[b]);
    }
}

proof fn lemma_first_of_each_key_distinct(s: Seq<SearchResult>)
    ensures
        forall|a: int, b: int|
            0 <= a < b < first_of_each_key(s).len() ==> result_key(first_of_each_key(s)[a])
                != result_key(first_of_each_key(s)[b]),
    decreases s.len(),
{
    if s.len() > 0 {
        lemma_first_of_each_key_distinct(s.drop_last());
        let prev = first_of_each_key(s.drop_last());
        if !keys_of(prev).contains(result_key(s.last())) {
            let d = prev.push(s.last());
            assert forall|a: int, b: int| 0 <= a < b < d.len() implies result_key(d[a]) != result_key(d[b]) by {
                if b == prev.len() {
                    assert(keys_of(prev)[a] == result_key(prev[a]));
                    assert(d[a] == prev[a]);
                } else {
                    assert(d[a] == prev[a]);
                    assert(d[b] == prev[b]);
                }
            }
        }
    }
}

/// Whether `x` is one of the items of `sets`.
pub open spec fn is_answer<T>(sets: Seq<Seq<T>>, x: T) -> bool {
    exists|i: int, j: int| 0 <= i < sets.len() && 0 <= j < sets[i].len() && #[trigger] sets[i][j] == x
}

proof fn lemma_round_of_items<T>(sets: Seq<Seq<T>>, r: int, n: int)
    requires
        0 <= r,
        0 <= n <= sets.len(),
    ensures
        forall|k: int| 0 <= k < round_of(sets, r, n).len() ==> is_answer(sets, #[trigger] round_of(sets, r, n)[k]),
        forall|i: int| 0 <= i < n && r < sets[i].len() ==> round_of(sets, r, n).contains(#[trigger] sets[i][r]),
    decreases n,
{
    if n > 0 {
        lemma_round_of_items(sets, r, n - 1);
        let prev = round_of(sets, r, n - 1);
        if r < sets[n - 1].len() {
            let cur = prev.push(sets[n - 1][r]);
            assert forall|k: int| 0 <= k < cur.len() implies is_answer(sets, #[trigger] cur[k]) by {
                if k < prev.len() {
                    assert(cur[k] == prev[k]);
                } else {
                    assert(sets[n - 1][r] == cur[k]);
                }
            }
            assert forall|i: int| 0 <= i < n && r < sets[i].len() implies cur.contains(#[trigger] sets[i][r]) by {
                if i < n - 1 {
                    let k = choose|k: int| 0 <= k < prev.len() && prev[k] == sets[i][r];
                    assert(cur[k] == sets[i][r]);
                } else {
                    assert(cur[prev.len() as int] == sets[i][r]);
                }
            }
        }
    }
}

proof fn lemma_rounds_of_items<T>(sets: Seq<Seq<T>>, rounds: int)
    requires
        0 <= rounds,
    ensures
        forall|k: int| 0 <= k < rounds_of(sets, rounds).len() ==> is_answer(sets, #[trigger] rounds_of(sets, rounds)[k]),
        forall|i: int, j: int|
            0 <= i < sets.len() && 0 <= j < rounds && j < sets[i].len() ==> rounds_of(sets, rounds).contains(
                #[trigger] sets[i][j],
            ),
    decreases rounds,
{
    if rounds > 0 {
        lemma_rounds_of_items(sets, rounds - 1);
        lemma_round_of_items(sets, rounds - 1, sets.len() as int);
        let prev = rounds_of(sets, rounds - 1);
        let last = round_of(sets, rounds - 1, sets.len() as int);
        let all = prev + last;
        assert forall|k: int| 0 <= k < all.len() implies is_answer(sets, #[trigger] all[k]) by {
            if k < prev.len() {
                assert(all[k] == prev[k]);
            } else {
                assert(all[k] == last[k - prev.len()]);
            }
        }
        assert forall|i: int, j: int|
            0 <= i < sets.len() && 0 <= j < rounds && j < sets[i].len() implies all.contains(
                #[trigger] sets[i][j],
            ) by {
            if j < rounds - 1 {
                let k = choose|k: int| 0 <= k < prev.len() && prev[k] == sets[i][j];
                assert(all[k] == sets[i][j]);
            } else {
                let k = choose|k: int| 0 <= k < last.len() && last[k] == sets[i][j];
                assert(all[prev.len() + k] == sets[i][j]);
            }
        }
    }
}

proof fn lemma_first_of_each_key_items(s: Seq<SearchResult>)
    ensures
        forall|k: int| 0 <= k < first_of_each_key(s).len() ==> s.contains(#[trigger] first_of_each_key(s)[k]),
        forall|k: int| 0 <= k < s.len() ==> keys_of(first_of_each_key(s)).contains(result_key(#[trigger] s[k])),
    decreases s.len(),
{
    if s.len() > 0 {
        let init = s.drop_last();
        lemma_first_of_each_key_items(init);
        let prev = first_of_each_key(init);
        let cur = first_of_each_key(s);
        assert forall|k: int| 0 <= k < cur.len() implies s.contains(#[trigger] cur[k]) by {
            if k < prev.len() {
                assert(cur[k] == prev[k]);
                let m = choose|m: int| 0 <= m < init.len() && init[m] == prev[k];
                assert(s[m] == init[m]);
            } else {
                assert(cur[k] == s[s.len() - 1]);
            }
        }
        assert forall|k: int| 0 <= k < s.len() implies keys_of(cur).contains(result_key(#[trigger] s[k])) by {
            if k < s.len() - 1 {
                assert(s[k] == init[k]);
                let m = choose|m: int| 0 <= m < keys_of(prev).len() && keys_of(prev)[m] == result_key(init[k]);
                if cur != prev {
                    assert(keys_of(cur)[m] == keys_of(prev)[m]);
                }
            } else if cur != prev {
                assert(keys_of(cur)[prev.len() as int] == result_key(s[k]));
            }
        }
    }
}

/// Law: every merged result is one of the answers; and while fewer than
/// `limit` results came out, every answer is represented by its key.
pub proof fn merged_results_come_from_the_answers(sets: Seq<Seq<SearchResult>>, limit: int)
    requires
        limit >= 0,
    ensures
        forall|k: int|
            0 <= k < merged_results(sets, limit).len() ==> is_answer(sets, #[trigger] merged_results(sets, limit)[k]),
        merged_results(sets, limit).len() < limit ==> forall|i: int, j: int|
            0 <= i < sets.len() && 0 <= j < sets[i].len() ==> keys_of(merged_results(sets, limit)).contains(
                result_key(#[trigger] sets[i][j]),
            ),
{
    let rr = round_robin(sets);
    let firsts = first_of_each_key(rr);
    let m = merged_results(sets, limit);
    lemma_rounds_of_items(sets, longest(sets) as int);
    lemma_longest_bounds(sets);
    lemma_first_of_each_key_items(rr);
    assert forall|k: int| 0 <= k < m.len() implies is_answer(sets, #[trigger] m[k]) by {
        assert(m[k] == firsts[k]);
        let n = choose|n: int| 0 <= n < rr.len() && rr[n] == firsts[k];
        assert(is_answer(sets, rr[n]));
    }
    if m.len() < limit {
        assert(m == firsts);
        assert forall|i: int, j: int| 0 <= i < sets.len() && 0 <= j < sets[i].len() implies keys_of(m).contains(
            result_key(#[trigger] sets[i][j]),
        ) by {
            assert(sets[i].len() <= longest(sets));
            assert(rr.contains(sets[i][j]));
            let n = choose|n: int| 0 <= n < rr.len() && rr[n] == sets[i][j];
            assert(keys_of(firsts).contains(result_key(rr[n])));
        }
    }
}

/// The answers of the queries that succeeded, in order.
pub open spec fn answered<E>(o: Seq<Result<Vec<SearchResult>, E>>) -> Seq<Vec<SearchResult>>
    decreases o.len(),
{
    if o.len() == 0 {
        Seq::empty()
    } else {
        match o.last() {
            Ok(v) => answered(o.drop_last()).push(v),
            Err(_) => answered(o.drop_last()),
        }
    }
}

/// The failure of the first query that failed.
pub open spec fn first_failure<E>(o: Seq<Result<Vec<SearchResult>, E>>) -> Option<E>
    decreases o.len(),
{
    if o.len() == 0 {
        None
    } else {
        match first_failure(o.drop_last()) {
            Some(e) => Some(e),
            None => match o.last() {
                Err(e) => Some(e),
                Ok(_) => None,
            },
        }
    }
}

/// What a search returns from the outcomes of its queries: the first failure
/// when no query succeeded, else the merged answers of those that did, up to
/// the search's result limit.
pub open spec fn search_outcome<E>(o: Seq<Result<Vec<SearchResult>, E>>, request_limit: usize) -> Result<
    Seq<SearchResult>,
    E,
> {
    if answered(o).len() == 0 && first_failure(o) is Some {
        Err(first_failure(o)->0)
    } else {
        Ok(merged_results(seqs_of(answered(o)), result_limit_of(request_limit) as int))
    }
}

/// Combines the outcomes of a search's queries: a failing query is passed
/// over while another one answered.
pub fn combine_api_search_results<E>(
    outcomes: Vec<Result<Vec<SearchResult>, E>>,
    request_limit: usize,
) -> (r: Result<Vec<SearchResult>, E>)
    ensures
        match search_outcome(outcomes@, request_limit) {
            Ok(results) => r matches Ok(v) && v@ == results,
            Err(e) => r == Err::<Vec<SearchResult>, E>(e),
        },
{
    let ghost all = outcomes@;
    let mut outcomes = outcomes;
    let mut sets: Vec<Vec<SearchResult>> = Vec::new();
    let mut failure: Option<E> = None;
    let total = outcomes.len();
    let mut k: usize = 0;
    while k < total
        invariant
            k <= total,
            total == all.len(),
            outcomes@ == all.subrange(k as int, all.len() as int),
            sets@ == answered(all.subrange(0, k as int)),
            failure == first_failure(all.subrange(0, k as int)),
        decreases total - k,
    {
        proof {
            assert(all.subrange(0, k + 1).drop_last() =~= all.subrange(0, k as int));
            assert(all.subrange(0, k + 1).last() == all[k as int]);
            assert(outcomes@[0] == all[k as int]);
        }
        let o = outcomes.remove(0);
        proof {
            assert(outcomes@ =~= all.subrange(k + 1, all.len() as int));
        }
        match o {
            Ok(v) => {
                sets.push(v);
            },
            Err(e) => {
                if failure.is_none() {
                    failure = Some(e);
                }
            },
        }
        k = k + 1;
    }
    proof {
        assert(all.subrange(0, total as int) =~= all);
    }
    if sets.len() == 0 {
        if let Some(e) = failure {
            return Err(e);
        }
    }
    Ok(merge_api_result_sets(sets, result_limit(request_limit)))
}

proof fn lemma_answered_holds<E>(o: Seq<Result<Vec<SearchResult>, E>>, k: int)
    requires
        0 <= k < o.len(),
        o[k] is Ok,
    ensures
        exists|i: int| 0 <= i < answered(o).len() && #[trigger] answered(o)[i] == o[k]->Ok_0,
    decreases o.len(),
{
    let init = o.drop_last();
    if k < o.len() - 1 {
        assert(init[k] == o[k]);
        lemma_answered_holds(init, k);
        let i = choose|i: int| 0 <= i < answered(init).len() && #[trigger] answered(init)[i] == init[k]->Ok_0;
        match o.last() {
            Ok(v) => {
                assert(answered(o) == answered(init).push(v));
                assert(answered(o)[i] == answered(init)[i]);
            },
            Err(_) => {
                assert(answered(o) == answered(init));
            },
        }
    } else {
        assert(o.last() == o[k]);
        match o.last() {
            Ok(v) => {
                assert(answered(o) == answered(init).push(v));
                assert(answered(o)[answered(init).len() as int] == v);
            },
            Err(_) => {},
        }
    }
}

proof fn lemma_merged_nonempty(sets: Seq<Seq<SearchResult>>, i: int, limit: int)
    requires
        0 <= i < sets.len(),
        sets[i].len() > 0,
        limit >= 1,
    ensures
        merged_results(sets, limit).len() >= 1,
{
    let rr = round_robin(sets);
    lemma_rounds_of_items(sets, longest(sets) as int);
    lemma_longest_bounds(sets);
    assert(sets[i].len() <= longest(sets));
    assert(rr.contains(sets[i][0]));
    let n = choose|n: int| 0 <= n < rr.len() && rr[n] == sets[i][0];
    lemma_first_of_each_key_items(rr);
    assert(keys_of(first_of_each_key(rr)).contains(result_key(rr[n])));
    assert(first_of_each_key(rr).len() >= 1);
}

/// Law: once any query of a search answered, the search succeeds; it returns
/// at most the request's limit of results, or at most 50 when the request
/// names no limit (0) or a larger one; and when an answer holds a result, the
/// search returns at least one.
pub proof fn searches_return_up_to_their_limit<E>(
    outcomes: Seq<Result<Vec<SearchResult>, E>>,
    request_limit: usize,
    k: int,
)
    requires
        0 <= k < outcomes.len(),
        outcomes[k] is Ok,
    ensures
        search_outcome(outcomes, request_limit) is Ok,
        search_outcome(outcomes, request_limit) matches Ok(results) && results.len() <= (if request_limit
            == 0 || request_limit > 50 {
            50
        } else {
            request_limit as int
        }),
        outcomes[k]->Ok_0@.len() > 0 ==> (search_outcome(outcomes, request_limit) matches Ok(results)
            && results.len() >= 1),
{
    lemma_answered_holds(outcomes, k);
    let sets = seqs_of(answered(outcomes));
    let i = choose|i: int| 0 <= i < answered(outcomes).len() && #[trigger] answered(outcomes)[i] == outcomes[k]->Ok_0;
    let limit = result_limit_of(request_limit) as int;
    merged_results_are_distinct(sets, limit);
    assert(sets[i] == outcomes[k]->Ok_0@);
    if outcomes[k]->Ok_0@.len() > 0 {
        lemma_merged_nonempty(sets, i, limit);
    }
}

} // verus!
