//! Counting, ranking and order statistics used by the metrics snapshots:
//! occurrence tallies of string keys, selection of the highest-ranked
//! entries, and percentiles over latency windows.

use vstd::prelude::*;

verus! {

// ---------------------------------------------------------------------------
// Occurrence counts
// ---------------------------------------------------------------------------

/// Number of occurrences of `k` in `keys`.
pub open spec fn count_of(keys: Seq<Seq<char>>, k: Seq<char>) -> nat
    decreases keys.len(),
{
    if keys.len() == 0 {
        0
    } else {
        count_of(keys.drop_last(), k) + (if keys.last() == k {
            1nat
        } else {
            0nat
        })
    }
}

pub proof fn lemma_count_le_len(keys: Seq<Seq<char>>, k: Seq<char>)
    ensures
        count_of(keys, k) <= keys.len(),
    decreases keys.len(),
{
    if keys.len() > 0 {
        lemma_count_le_len(keys.drop_last(), k);
    }
}

pub proof fn lemma_count_positive(keys: Seq<Seq<char>>, k: Seq<char>)
    ensures
        count_of(keys, k) >= 1 <==> keys.contains(k),
    decreases keys.len(),
{
    if keys.len() > 0 {
        lemma_count_positive(keys.drop_last(), k);
        if keys.drop_last().contains(k) {
            let i = choose|i: int| 0 <= i < keys.drop_last().len() && keys.drop_last()[i] == k;
            assert(keys[i] == k);
        }
        if keys.contains(k) && keys.last() != k {
            let i = choose|i: int| 0 <= i < keys.len() && keys[i] == k;
            assert(i < keys.len() - 1);
            assert(keys.drop_last()[i] == k);
        }
    }
}

// ---------------------------------------------------------------------------
// Top-n tallies
// ---------------------------------------------------------------------------

/// `top` is a valid top-`n` tally of `keys`: at most `n` distinct keys, each
/// with its exact occurrence count, ordered by count (highest first), and no
/// key left out that occurs more often than the last one kept. Only the order
/// among equal counts is left open.
pub open spec fn is_top_tally(top: Seq<(Seq<char>, u64)>, keys: Seq<Seq<char>>, n: nat) -> bool {
    &&& top.len() <= n
    &&& forall|i: int|
        0 <= i < top.len() ==> #[trigger] top[i].1 == count_of(keys, top[i].0) && top[i].1 >= 1
    &&& forall|i: int, j: int| 0 <= i < j < top.len() ==> #[trigger] top[i].0 != #[trigger] top[j].0
    &&& forall|i: int, j: int| 0 <= i < j < top.len() ==> #[trigger] top[i].1 >= #[trigger] top[j].1
    &&& forall|k: Seq<char>|
        #![trigger count_of(keys, k)]
        count_of(keys, k) >= 1 && (forall|i: int| 0 <= i < top.len() ==> top[i].0 != k) ==> {
            &&& top.len() == n
            &&& n > 0 ==> count_of(keys, k) <= top[n - 1].1
        }
}

/// Pairs (key, count) with their key as characters.
pub open spec fn tally_view(v: Seq<(String, u64)>) -> Seq<(Seq<char>, u64)> {
    v.map_values(|e: (String, u64)| (e.0@, e.1))
}

/// Indices `sel` pick `min(k, ranks.len())` distinct positions, highest rank
/// first, and every position left out ranks no higher than any picked one.
pub open spec fn is_top_selection(sel: Seq<usize>, ranks: Seq<u64>, k: nat) -> bool {
    &&& sel.len() == (if k < ranks.len() { k } else { ranks.len() })
    &&& forall|i: int| 0 <= i < sel.len() ==> #[trigger] sel[i] < ranks.len()
    &&& forall|i: int, j: int| 0 <= i < j < sel.len() ==> #[trigger] sel[i] != #[trigger] sel[j]
    &&& forall|i: int, j: int|
        0 <= i < j < sel.len() ==> ranks[#[trigger] sel[i] as int] >= ranks[#[trigger] sel[j] as int]
    &&& forall|j: int, i: int|
        #![trigger ranks[j], sel[i]]
        0 <= j < ranks.len() && 0 <= i < sel.len() && !sel.contains(j as usize) ==> ranks[j]
            <= ranks[sel[i] as int]
}

/// The character contents of a list of strings.
pub open spec fn key_views(v: Seq<String>) -> Seq<Seq<char>> {
    v.map_values(|x: String| x@)
}

/// Tally of `keys`: the `n` most frequent distinct keys with their counts,
/// most frequent first.
pub fn tally_top(keys: &Vec<String>, n: usize) -> (r: Vec<(String, u64)>)
    ensures
        is_top_tally(tally_view(r@), key_views(keys@), n as nat),
{
    let ghost kv = key_views(keys@);
    let mut names: Vec<String> = Vec::new();
    let mut cnts: Vec<u64> = Vec::new();
    let mut i: usize = 0;
    while i < keys.len()
        invariant
            i <= keys.len(),
            kv == key_views(keys@),
            names.len() == cnts.len(),
            names.len() <= i,
            forall|a: int, b: int| 0 <= a < b < names.len() ==> #[trigger] names@[a]@ != #[trigger] names@[b]@,
            forall|j: int| 0 <= j < names.len() ==> #[trigger] cnts@[j] == count_of(kv.take(i as int), names@[j]@) && cnts@[j] >= 1,
            forall|k: Seq<char>| #[trigger] count_of(kv.take(i as int), k) >= 1 ==> exists|j: int| 0 <= j < names.len() && names@[j]@ == k,
        decreases keys.len() - i,
    {
        let ghost pre = kv.take(i as int);
        assert(kv.take(i + 1).drop_last() =~= pre);
        assert(kv.take(i + 1).last() == keys@[i as int]@);
        proof {
            lemma_count_le_len(pre, keys@[i as int]@);
        }
        let mut j: usize = 0;
        let mut found: Option<usize> = None;
        while j < names.len()
            invariant
                i < keys.len(),
                j <= names.len(),
                found is None ==> forall|m: int| 0 <= m < j ==> names@[m]@ != keys@[i as int]@,
                found matches Some(f) ==> f < names.len() && names@[f as int]@ == keys@[i as int]@,
            decreases names.len() - j,
        {
            if found.is_none() && names[j] == keys[i] {
                found = Some(j);
            }
            j = j + 1;
        }
        match found {
            Some(f) => {
                let c = cnts.remove(f);
                cnts.insert(f, c + 1);
                proof {
                    assert forall|m: int| 0 <= m < names.len() implies #[trigger] cnts@[m] == count_of(kv.take(i + 1), names@[m]@) && cnts@[m] >= 1 by {
                        if m != f as int {
                            assert(names@[m]@ != names@[f as int]@);
                        }
                    }
                    assert forall|k: Seq<char>| #[trigger] count_of(kv.take(i + 1), k) >= 1 implies exists|j2: int| 0 <= j2 < names.len() && names@[j2]@ == k by {
                        if k == keys@[i as int]@ {
                            assert(names@[f as int]@ == k);
                        } else {
                            assert(count_of(pre, k) >= 1);
                        }
                    }
                }
            },
            None => {
                let ghost old_names = names@;
                let ghost old_cnts = cnts@;
                names.push(keys[i].clone());
                cnts.push(1);
                proof {
                    assert(count_of(pre, keys@[i as int]@) == 0) by {
                        if count_of(pre, keys@[i as int]@) >= 1 {
                            let w = choose|w: int| 0 <= w < old_names.len() && old_names[w]@ == keys@[i as int]@;
                        }
                    }
                    assert forall|a: int, b: int| 0 <= a < b < names.len() implies #[trigger] names@[a]@ != #[trigger] names@[b]@ by {
                        if b == names.len() - 1 {
                            assert(names@[a] == old_names[a]);
                        }
                    }
                    assert forall|m: int| 0 <= m < names.len() implies #[trigger] cnts@[m] == count_of(kv.take(i + 1), names@[m]@) && cnts@[m] >= 1 by {
                        if m < old_names.len() {
                            assert(names@[m] == old_names[m]);
                            assert(names@[m]@ != keys@[i as int]@);
                        }
                    }
                    assert forall|k: Seq<char>| #[trigger] count_of(kv.take(i + 1), k) >= 1 implies exists|j2: int| 0 <= j2 < names.len() && names@[j2]@ == k by {
                        if k == keys@[i as int]@ {
                            assert(names@[old_names.len() as int]@ == k);
                        } else {
                            assert(count_of(pre, k) >= 1);
                            let w = choose|w: int| 0 <= w < old_names.len() && old_names[w]@ == k;
                            assert(names@[w] == old_names[w]);
                        }
                    }
                }
            },
        }
        i = i + 1;
    }
    assert(kv.take(keys.len() as int) =~= kv);
    let sel = select_top(&cnts, n);
    let mut out: Vec<(String, u64)> = Vec::new();
    let mut t: usize = 0;
    while t < sel.len()
        invariant
            t <= sel.len(),
            names.len() == cnts.len(),
            is_top_selection(sel@, cnts@, n as nat),
            out.len() == t,
            forall|m: int| 0 <= m < t ==> #[trigger] out@[m] == (names@[sel@[m] as int], cnts@[sel@[m] as int]),
        decreases sel.len() - t,
    {
        let idx = sel[t];
        out.push((names[idx].clone(), cnts[idx]));
        t = t + 1;
    }
    proof {
        let tv = tally_view(out@);
        assert forall|m: int| 0 <= m < tv.len() implies #[trigger] tv[m] == (names@[sel@[m] as int]@, cnts@[sel@[m] as int]) by {}
        assert forall|a: int, b: int| 0 <= a < b < tv.len() implies #[trigger] tv[a].0 != #[trigger] tv[b].0 by {
            assert(sel@[a] != sel@[b]);
        }
        assert forall|a: int, b: int| 0 <= a < b < tv.len() implies #[trigger] tv[a].1 >= #[trigger] tv[b].1 by {
            assert(cnts@[sel@[a] as int] >= cnts@[sel@[b] as int]);
        }
        assert forall|k: Seq<char>|
            #![trigger count_of(kv, k)]
            count_of(kv, k) >= 1 && (forall|m: int| 0 <= m < tv.len() ==> tv[m].0 != k) implies {
                &&& tv.len() == n
                &&& n > 0 ==> count_of(kv, k) <= tv[n - 1].1
            } by {
            let w = choose|w: int| 0 <= w < names.len() && names@[w]@ == k;
            assert(!sel@.contains(w as usize)) by {
                if sel@.contains(w as usize) {
                    let m = choose|m: int| 0 <= m < sel.len() && sel@[m] == w as usize;
                    assert(tv[m].0 == k);
                }
            }
            if tv.len() < n {
                assert(sel@.contains(w as usize));
            }
            if n > 0 {
                assert(cnts@[w] <= cnts@[sel@[n - 1] as int]);
            }
        }
    }
    out
}


// ---------------------------------------------------------------------------
// Percentiles
// ---------------------------------------------------------------------------

pub open spec fn leq_u64() -> spec_fn(u64, u64) -> bool {
    |a: u64, b: u64| a <= b
}

/// Index of the `q`-th percentile in a sorted window of `len` values:
/// `floor(len * q / 100)`, capped at the last index.
pub open spec fn pct_index(len: nat, q: nat) -> int {
    let i = (len * q) / 100;
    if i < len - 1 {
        i as int
    } else {
        len - 1
    }
}

/// The `q`-th percentile of `lat` (0 for an empty window).
pub open spec fn percentile(lat: Seq<u64>, q: nat) -> u64 {
    if lat.len() == 0 {
        0
    } else {
        lat.sort_by(leq_u64())[pct_index(lat.len(), q)]
    }
}

proof fn lemma_leq_total()
    ensures
        vstd::relations::total_ordering(leq_u64()),
{
}

/// The values of `v`, in ascending order.
pub fn sorted_values(v: &Vec<u64>) -> (r: Vec<u64>)
    ensures
        r@ == v@.sort_by(leq_u64()),
        r@.len() == v@.len(),
{
    broadcast use vstd::seq_lib::group_to_multiset_ensures;

    let mut out: Vec<u64> = Vec::new();
    let mut i: usize = 0;
    while i < v.len()
        invariant
            i <= v.len(),
            vstd::relations::sorted_by(out@, leq_u64()),
            out@.to_multiset() == v@.take(i as int).to_multiset(),
        decreases v.len() - i,
    {
        let x = v[i];
        let mut j: usize = 0;
        while j < out.len() && out[j] <= x
            invariant
                j <= out.len(),
                forall|m: int| 0 <= m < j ==> out@[m] <= x,
            decreases out.len() - j,
        {
            j = j + 1;
        }
        let ghost prev = out@;
        out.insert(j, x);
        proof {
            assert(out@ == prev.insert(j as int, x));
            vstd::seq_lib::to_multiset_insert(prev, j as int, x);
            vstd::seq_lib::to_multiset_build(v@.take(i as int), x);
            assert(v@.take(i + 1) =~= v@.take(i as int).push(x));
            assert(v@.take(i as int).push(x).to_multiset() == v@.take(i as int).to_multiset().insert(x));
            assert forall|a: int, b: int| 0 <= a < b < out@.len() implies #[trigger] leq_u64()(out@[a], out@[b]) by {
                assert(leq_u64()(prev[0], prev[0]) || true);
                if a < j && b < j {
                    assert(leq_u64()(prev[a], prev[b]));
                } else if a < j && b == j {
                } else if a < j && b > j {
                    assert(leq_u64()(prev[a], prev[b - 1]));
                } else if a == j {
                    if j < prev.len() {
                        assert(prev[j as int] > x);
                        assert(leq_u64()(prev[j as int], prev[b - 1]) || b - 1 == j);
                    }
                } else {
                    assert(leq_u64()(prev[a - 1], prev[b - 1]));
                }
            }
        }
        i = i + 1;
    }
    proof {
        assert(v@.take(v.len() as int) =~= v@);
        lemma_leq_total();
        v@.lemma_sort_by_ensures(leq_u64());
        vstd::seq_lib::lemma_sorted_unique(out@, v@.sort_by(leq_u64()), leq_u64());
        assert(out@.to_multiset().len() == out@.len());
        assert(v@.to_multiset().len() == v@.len());
    }
    out
}

fn pick(sorted: &Vec<u64>, q: u64) -> (r: u64)
    requires
        sorted.len() > 0,
        q < 100,
    ensures
        r == sorted@[pct_index(sorted.len() as nat, q as nat)],
{
    let n = sorted.len();
    proof {
        assert((n as nat * q as nat) / 100 <= n as nat) by (nonlinear_arith)
            requires
                q < 100,
        ;
    }
    let idx = ((n as u128 * q as u128) / 100) as usize;
    let i = if idx < n - 1 { idx } else { n - 1 };
    sorted[i]
}

/// The 50th, 95th and 99th percentiles of a latency window (zeros when empty).
pub fn percentiles(latencies: &std::collections::VecDeque<u64>) -> (r: (u64, u64, u64))
    ensures
        r == (percentile(latencies@, 50), percentile(latencies@, 95), percentile(latencies@, 99)),
{
    if latencies.len() == 0 {
        return (0, 0, 0);
    }
    let mut v: Vec<u64> = Vec::new();
    let mut i: usize = 0;
    while i < latencies.len()
        invariant
            i <= latencies@.len(),
            v@ == latencies@.take(i as int),
        decreases latencies@.len() - i,
    {
        v.push(latencies[i]);
        i = i + 1;
        assert(v@ =~= latencies@.take(i as int));
    }
    assert(v@ =~= latencies@);
    let sorted = sorted_values(&v);
    (pick(&sorted, 50), pick(&sorted, 95), pick(&sorted, 99))
}

/// Number of `true` entries.
pub open spec fn count_true(s: Seq<bool>) -> nat
    decreases s.len(),
{
    if s.len() == 0 {
        0
    } else {
        count_true(s.drop_last()) + (if s.last() {
            1nat
        } else {
            0nat
        })
    }
}

proof fn lemma_count_true_all(s: Seq<bool>)
    requires
        forall|i: int| 0 <= i < s.len() ==> s[i],
    ensures
        count_true(s) == s.len(),
    decreases s.len(),
{
    if s.len() > 0 {
        lemma_count_true_all(s.drop_last());
    }
}

proof fn lemma_count_true_set(s: Seq<bool>, i: int)
    requires
        0 <= i < s.len(),
        !s[i],
    ensures
        count_true(s.update(i, true)) == count_true(s) + 1,
    decreases s.len(),
{
    if i < s.len() - 1 {
        lemma_count_true_set(s.drop_last(), i);
        assert(s.update(i, true).drop_last() =~= s.drop_last().update(i, true));
    } else {
        assert(s.update(i, true).drop_last() =~= s.drop_last());
    }
}

/// Selection of the `k` highest-ranked positions, highest first.
pub fn select_top(ranks: &Vec<u64>, k: usize) -> (sel: Vec<usize>)
    ensures
        is_top_selection(sel@, ranks@, k as nat),
        sel.len() < k ==> forall|j: int| 0 <= j < ranks.len() ==> #[trigger] sel@.contains(j as usize),
{
    let n = ranks.len();
    let limit = if k < n { k } else { n };
    let mut sel: Vec<usize> = Vec::new();
    let mut taken: Vec<bool> = Vec::new();
    let mut t: usize = 0;
    while t < n
        invariant
            t <= n,
            taken@.len() == t,
            forall|i: int| 0 <= i < t ==> !taken@[i],
        decreases n - t,
    {
        taken.push(false);
        t = t + 1;
    }
    proof {
        assert forall|i: int| 0 <= i < n implies !taken@[i] by {}
        assert(count_true(taken@) == 0) by {
            lemma_count_none(taken@);
        }
    }
    while sel.len() < limit
        invariant
            n == ranks.len(),
            limit == (if k < n { k } else { n }),
            limit <= n,
            sel.len() <= limit,
            taken@.len() == n,
            count_true(taken@) == sel.len(),
            forall|j: int| 0 <= j < n ==> (taken@[j] <==> sel@.contains(j as usize)),
            forall|i: int| 0 <= i < sel.len() ==> #[trigger] sel@[i] < n,
            forall|i: int, j: int| 0 <= i < j < sel.len() ==> #[trigger] sel@[i] != #[trigger] sel@[j],
            forall|i: int, j: int|
                0 <= i < j < sel.len() ==> ranks@[#[trigger] sel@[i] as int] >= ranks@[#[trigger] sel@[j] as int],
            forall|j: int, i: int|
                #![trigger ranks@[j], sel@[i]]
                0 <= j < n && 0 <= i < sel.len() && !sel@.contains(j as usize) ==> ranks@[j]
                    <= ranks@[sel@[i] as int],
        decreases limit - sel.len(),
    {
        let mut best: usize = n;
        let mut j: usize = 0;
        while j < n
            invariant
                n == ranks.len(),
                taken@.len() == n,
                j <= n,
                best == n || (best < j && !taken@[best as int]),
                best < n ==> forall|m: int| 0 <= m < j && !taken@[m] ==> ranks@[m] <= ranks@[best as int],
                best == n ==> forall|m: int| 0 <= m < j ==> taken@[m],
            decreases n - j,
        {
            if !taken[j] {
                if best == n || ranks[j] > ranks[best] {
                    best = j;
                }
            }
            j = j + 1;
        }
        if best == n {
            proof {
                lemma_count_true_all(taken@);
            }
            assert(false);
        }
        let ghost prev = sel@;
        let ghost prev_taken = taken@;
        proof {
            lemma_count_true_set(taken@, best as int);
        }
        taken.remove(best);
        taken.insert(best, true);
        assert(taken@ =~= prev_taken.update(best as int, true));
        sel.push(best);
        proof {
            assert(!prev.contains(best));
            assert forall|j2: int| 0 <= j2 < n implies (taken@[j2] <==> sel@.contains(j2 as usize)) by {
                if j2 == best as int {
                    assert(sel@[prev.len() as int] == best);
                } else {
                    if sel@.contains(j2 as usize) {
                        let w = choose|w: int| 0 <= w < sel@.len() && sel@[w] == j2 as usize;
                        if w < prev.len() {
                            assert(prev[w] == j2 as usize);
                        }
                    }
                    if prev.contains(j2 as usize) {
                        let w = choose|w: int| 0 <= w < prev.len() && prev[w] == j2 as usize;
                        assert(sel@[w] == j2 as usize);
                    }
                }
            }
            assert forall|i: int, j2: int|
                0 <= i < j2 < sel.len() implies ranks@[#[trigger] sel@[i] as int] >= ranks@[#[trigger] sel@[j2] as int] by {
                if j2 == sel.len() - 1 {
                    assert(sel@[i] == prev[i]);
                    assert(!prev_taken[best as int]);
                }
            }
            assert forall|i: int, j2: int| 0 <= i < j2 < sel.len() implies #[trigger] sel@[i] != #[trigger] sel@[j2] by {
                if j2 == sel.len() - 1 {
                    assert(prev[i] == sel@[i]);
                    assert(prev.contains(prev[i]));
                }
            }
            assert forall|j2: int, i: int|
                #![trigger ranks@[j2], sel@[i]]
                0 <= j2 < n && 0 <= i < sel.len() && !sel@.contains(j2 as usize) implies ranks@[j2]
                    <= ranks@[sel@[i] as int] by {
                assert(!prev.contains(j2 as usize)) by {
                    if prev.contains(j2 as usize) {
                        let w = choose|w: int| 0 <= w < prev.len() && prev[w] == j2 as usize;
                        assert(sel@[w] == j2 as usize);
                    }
                }
                assert(!prev_taken[j2]);
                if i < prev.len() {
                    assert(sel@[i] == prev[i]);
                }
            }
        }
    }
    proof {
        if sel.len() < k {
            lemma_count_true_full(taken@);
            assert forall|j: int| 0 <= j < ranks.len() implies #[trigger] sel@.contains(j as usize) by {
                assert(taken@[j]);
            }
        }
    }
    sel
}

pub proof fn lemma_count_true_le(s: Seq<bool>)
    ensures
        count_true(s) <= s.len(),
    decreases s.len(),
{
    if s.len() > 0 {
        lemma_count_true_le(s.drop_last());
    }
}

proof fn lemma_count_true_full(s: Seq<bool>)
    requires
        count_true(s) == s.len(),
    ensures
        forall|i: int| 0 <= i < s.len() ==> s[i],
    decreases s.len(),
{
    if s.len() > 0 {
        lemma_count_true_le(s.drop_last());
        lemma_count_true_full(s.drop_last());
        assert forall|i: int| 0 <= i < s.len() implies s[i] by {
            if i < s.len() - 1 {
                assert(s.drop_last()[i] == s[i]);
            }
        }
    }
}

proof fn lemma_count_none(s: Seq<bool>)
    requires
        forall|i: int| 0 <= i < s.len() ==> !s[i],
    ensures
        count_true(s) == 0,
    decreases s.len(),
{
    if s.len() > 0 {
        lemma_count_none(s.drop_last());
    }
}

} // verus!
