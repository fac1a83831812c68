//! Frecency ranking: how often each account was used, turned into a dense
//! competition rank.
//!
//! An account's frequency is the number of history entries for it within
//! its partition. Its rank is one more than the number of *distinct
//! frequency values* strictly greater than its own, so equally frequent
//! accounts tie, and the next distinct group follows at the next rank.
//! Accounts with no history have no rank at all.

use vstd::prelude::*;

use crate::store::{CacheStore, HistoryNew};

verus! {

/// Whether a history entry is for partition `p` and account `a`.
pub open spec fn hist_match(h: HistoryNew, p: Seq<char>, a: Seq<char>) -> bool {
    h.partition@ == p && h.account@ == a
}

/// How many entries of `hist` are for partition `p` and account `a`.
pub open spec fn freq(hist: Seq<HistoryNew>, p: Seq<char>, a: Seq<char>) -> nat
    decreases hist.len(),
{
    if hist.len() == 0 {
        0
    } else {
        freq(hist.drop_last(), p, a) + if hist_match(hist.last(), p, a) {
            1nat
        } else {
            0nat
        }
    }
}

/// The accounts that appear in `hist` for partition `p`.
pub open spec fn accounts_with_history(hist: Seq<HistoryNew>, p: Seq<char>) -> Set<Seq<char>> {
    Set::new(
        |a: Seq<char>|
            exists|j: int| 0 <= j < hist.len() && hist_match(#[trigger] hist[j], p, a),
    )
}

/// The distinct frequency values that occur for partition `p`.
pub open spec fn freq_values(hist: Seq<HistoryNew>, p: Seq<char>) -> Set<nat> {
    accounts_with_history(hist, p).map(|a: Seq<char>| freq(hist, p, a))
}

/// The dense competition rank of account `a`: 1 plus the number of
/// distinct frequency values strictly greater than its own. Rank 1 is the
/// most-used group; ties share a rank and do not skip the next one.
pub open spec fn spec_rank(hist: Seq<HistoryNew>, p: Seq<char>, a: Seq<char>) -> int {
    1 + freq_values(hist, p).filter(|f: nat| f > freq(hist, p, a)).len() as int
}

/// The rank of account `a`, or `None` when it has no history for `p`.
pub open spec fn spec_score(hist: Seq<HistoryNew>, p: Seq<char>, a: Seq<char>) -> Option<int> {
    if freq(hist, p, a) == 0 {
        None
    } else {
        Some(spec_rank(hist, p, a))
    }
}

/// One step of `freq` along a prefix.
proof fn lemma_freq_step(hist: Seq<HistoryNew>, i: int, p: Seq<char>, a: Seq<char>)
    requires
        0 <= i < hist.len(),
    ensures
        freq(hist.take(i + 1), p, a) == freq(hist.take(i), p, a) + if hist_match(hist[i], p, a) {
            1nat
        } else {
            0nat
        },
{
    assert(hist.take(i + 1).drop_last() =~= hist.take(i));
    assert(hist.take(i + 1).last() == hist[i]);
}

/// An account has a positive frequency exactly when some entry matches it.
proof fn lemma_freq_positive(hist: Seq<HistoryNew>, p: Seq<char>, a: Seq<char>)
    ensures
        freq(hist, p, a) > 0 <==> exists|j: int|
            0 <= j < hist.len() && hist_match(#[trigger] hist[j], p, a),
    decreases hist.len(),
{
    if hist.len() > 0 {
        lemma_freq_positive(hist.drop_last(), p, a);
        if hist_match(hist.last(), p, a) {
            assert(hist_match(hist[hist.len() - 1], p, a));
        } else {
            if exists|j: int| 0 <= j < hist.drop_last().len() && hist_match(
                #[trigger] hist.drop_last()[j],
                p,
                a,
            ) {
                let j = choose|j: int|
                    0 <= j < hist.drop_last().len() && hist_match(
                        #[trigger] hist.drop_last()[j],
                        p,
                        a,
                    );
                assert(hist_match(hist[j], p, a));
            }
            if exists|j: int| 0 <= j < hist.len() && hist_match(#[trigger] hist[j], p, a) {
                let j = choose|j: int| 0 <= j < hist.len() && hist_match(#[trigger] hist[j], p, a);
                assert(j < hist.len() - 1);
                assert(hist_match(hist.drop_last()[j], p, a));
            }
        }
    }
}

/// Whether `a` is the view of some element of `names`.
pub open spec fn name_listed(names: Seq<String>, a: Seq<char>) -> bool {
    exists|k: int| 0 <= k < names.len() && (#[trigger] names[k])@ == a
}

/// The usage rank of one account: 1 for the most-used group, `None` for an
/// account with no history in this partition. Equal frequencies share a
/// rank; the next distinct frequency group takes the next rank.
pub fn score(store: &CacheStore, partition: &String, account_id: &String) -> (r: Option<i64>)
    requires
        store.history_rows().len() < i64::MAX,
    ensures
        r is Some <==> spec_score(store.history_rows(), partition@, account_id@) is Some,
        r matches Some(v) ==> v as int == spec_rank(store.history_rows(), partition@, account_id@),
{
    let hist = store.get_history();
    let n = hist.len();
    let ghost p = partition@;
    let mut names: Vec<String> = Vec::new();
    let mut counts: Vec<i64> = Vec::new();
    let mut i: usize = 0;
    while i < n
        invariant
            0 <= i <= n,
            n == store.history_rows().len(),
            n < i64::MAX,
            hist@ == store.history_rows(),
            p == partition@,
            names@.len() == counts@.len(),
            names@.len() <= i,
            forall|k: int, l: int| 0 <= k < l < names@.len() ==> (#[trigger] names@[k])@ != (
            #[trigger] names@[l])@,
            forall|k: int|
                0 <= k < names@.len() ==> 1 <= #[trigger] counts@[k] <= i && counts@[k] as nat
                    == freq(hist@.take(i as int), p, names@[k]@),
            forall|k: int|
                0 <= k < names@.len() ==> exists|j: int|
                    0 <= j < i && hist_match(#[trigger] hist@[j], p, (#[trigger] names@[k])@),
            forall|j: int|
                0 <= j < i && (#[trigger] hist@[j]).partition@ == p ==> name_listed(
                    names@,
                    hist@[j].account@,
                ),
        decreases n - i,
    {
        let h = &hist[i];
        let ghost names0 = names@;
        if h.partition == *partition {
            let m = names.len();
            let mut k: usize = 0;
            let mut idx: usize = 0;
            let mut found = false;
            while k < m
                invariant
                    0 <= k <= m,
                    m == names@.len(),
                    hist@ == store.history_rows(),
                    0 <= (i as int) < hist@.len(),
                    h == hist@[i as int],
                    found ==> idx < m && names@[idx as int]@ == h.account@,
                    !found ==> forall|k2: int| 0 <= k2 < k ==> (#[trigger] names@[k2])@
                        != h.account@,
                decreases m - k,
            {
                if !found && names[k] == h.account {
                    found = true;
                    idx = k;
                }
                k += 1;
            }
            if found {
                let k = idx;
                let c = counts[k];
                counts[k] = c + 1;
                proof {
                    assert forall|k2: int| 0 <= k2 < names@.len() implies 1 <= #[trigger] counts@[k2]
                        <= i + 1 && counts@[k2] as nat == freq(
                        hist@.take(i as int + 1),
                        p,
                        names@[k2]@,
                    ) by {
                        lemma_freq_step(hist@, i as int, p, names@[k2]@);
                        if k2 != k as int {
                            assert(names@[k2]@ != names@[k as int]@);
                            assert(!hist_match(hist@[i as int], p, names@[k2]@));
                        }
                    }
                    assert(name_listed(names@, h.account@));
                }
            } else {
                names.push(h.account.clone());
                counts.push(1);
                proof {
                    assert forall|k2: int| 0 <= k2 < names@.len() implies 1 <= #[trigger] counts@[k2]
                        <= i + 1 && counts@[k2] as nat == freq(
                        hist@.take(i as int + 1),
                        p,
                        names@[k2]@,
                    ) by {
                        lemma_freq_step(hist@, i as int, p, names@[k2]@);
                        if k2 < names0.len() {
                            assert(names@[k2] == names0[k2]);
                            assert(!hist_match(hist@[i as int], p, names@[k2]@));
                        } else {
                            assert(names@[k2]@ == h.account@);
                            lemma_freq_positive(hist@.take(i as int), p, h.account@);
                            assert(freq(hist@.take(i as int), p, h.account@) == 0) by {
                                if freq(hist@.take(i as int), p, h.account@) > 0 {
                                    let j = choose|j: int|
                                        0 <= j < hist@.take(i as int).len() && hist_match(
                                            #[trigger] hist@.take(i as int)[j],
                                            p,
                                            h.account@,
                                        );
                                    assert(hist_match(hist@[j], p, h.account@));
                                    assert(name_listed(names0, hist@[j].account@));
                                }
                            }
                        }
                    }
                    assert(names@[names0.len() as int]@ == h.account@);
                    assert(name_listed(names@, h.account@));
                    assert forall|j: int|
                        0 <= j < i && (#[trigger] hist@[j]).partition@ == p implies name_listed(
                        names@,
                        hist@[j].account@,
                    ) by {
                        assert(name_listed(names0, hist@[j].account@));
                        let kk = choose|kk: int|
                            0 <= kk < names0.len() && (#[trigger] names0[kk])@
                                == hist@[j].account@;
                        assert(names@[kk]@ == hist@[j].account@);
                    }
                }
            }
        } else {
            proof {
                assert forall|k2: int| 0 <= k2 < names@.len() implies 1 <= #[trigger] counts@[k2] <= i
                    + 1 && counts@[k2] as nat == freq(hist@.take(i as int + 1), p, names@[k2]@) by {
                    lemma_freq_step(hist@, i as int, p, names@[k2]@);
                }
            }
        }
        i += 1;
    }
    proof {
        assert(hist@.take(n as int) =~= hist@);
    }
    // find this account's own frequency
    let m = names.len();
    let mut k: usize = 0;
    let mut mineidx: usize = 0;
    let mut present = false;
    while k < m
        invariant
            0 <= k <= m,
            m == names@.len(),
            present ==> mineidx < m && names@[mineidx as int]@ == account_id@,
            !present ==> forall|k2: int| 0 <= k2 < k ==> (#[trigger] names@[k2])@ != account_id@,
        decreases m - k,
    {
        if !present && names[k] == *account_id {
            present = true;
            mineidx = k;
        }
        k += 1;
    }
    if !present {
        proof {
            lemma_freq_positive(hist@, p, account_id@);
            if freq(hist@, p, account_id@) > 0 {
                let j = choose|j: int|
                    0 <= j < hist@.len() && hist_match(#[trigger] hist@[j], p, account_id@);
                assert(name_listed(names@, hist@[j].account@));
            }
        }
        return None;
    }
    let mine = counts[mineidx];
    let ghost myfreq = freq(hist@, p, account_id@);
    proof {
        assert(names@[mineidx as int]@ == account_id@);
        assert(mine as nat == myfreq);
    }
    // collect the distinct counts strictly greater than this account's
    let mut greater: Vec<i64> = Vec::new();
    let mut k2: usize = 0;
    while k2 < m
        invariant
            0 <= k2 <= m,
            m == names@.len(),
            m == counts@.len(),
            m < i64::MAX,
            greater@.len() <= k2,
            forall|x: int, y: int| 0 <= x < y < greater@.len() ==> greater@[x] != greater@[y],
            forall|x: int|
                0 <= x < greater@.len() ==> counts@.contains(#[trigger] greater@[x])
                    && greater@[x] > mine,
            forall|l: int|
                0 <= l < k2 && #[trigger] counts@[l] > mine ==> greater@.contains(counts@[l]),
        decreases m - k2,
    {
        if counts[k2] > mine {
            let c = counts[k2];
            let gn = greater.len();
            let mut g: usize = 0;
            let mut seen = false;
            while g < gn
                invariant
                    0 <= g <= gn,
                    gn == greater@.len(),
                    c == counts@[k2 as int],
                    0 <= (k2 as int) < counts@.len(),
                    seen ==> greater@.contains(c),
                    !seen ==> forall|x: int| 0 <= x < g ==> greater@[x] != c,
                decreases gn - g,
            {
                if !seen && greater[g] == c {
                    seen = true;
                }
                g += 1;
            }
            if !seen {
                let ghost greater0 = greater@;
                greater.push(c);
                proof {
                    assert forall|l: int|
                        0 <= l < k2 + 1 && #[trigger] counts@[l] > mine implies greater@.contains(
                        counts@[l],
                    ) by {
                        if l < k2 {
                            assert(greater0.contains(counts@[l]));
                            let gx = choose|gx: int|
                                0 <= gx < greater0.len() && greater0[gx] == counts@[l];
                            assert(greater@[gx] == counts@[l]);
                        } else {
                            assert(greater@[greater0.len() as int] == c);
                        }
                    }
                    assert forall|x: int| 0 <= x < greater@.len() implies counts@.contains(
                        #[trigger] greater@[x],
                    ) && greater@[x] > mine by {
                        if x < greater0.len() {
                            assert(greater@[x] == greater0[x]);
                        } else {
                            assert(greater@[x] == counts@[k2 as int]);
                        }
                    }
                }
            } else {
                proof {
                    assert(greater@.contains(counts@[k2 as int]));
                }
            }
        }
        k2 += 1;
    }
    // the collected counts are exactly the distinct frequencies above ours
    proof {
        let gmap = greater@.map_values(|c: i64| c as nat);
        let target = freq_values(hist@, p).filter(|f: nat| f > freq(hist@, p, account_id@));
        assert forall|x: nat| gmap.to_set().contains(x) implies target.contains(x) by {
            let gi = choose|gi: int| 0 <= gi < gmap.len() && gmap[gi] == x;
            assert(greater@[gi] as nat == x);
            assert(counts@.contains(greater@[gi]));
            let l = choose|l: int| 0 <= l < counts@.len() && counts@[l] == greater@[gi];
            assert(accounts_with_history(hist@, p).contains(names@[l]@));
            assert(freq(hist@, p, names@[l]@) == x);
            assert(freq_values(hist@, p).contains(x));
        }
        assert forall|x: nat| target.contains(x) implies gmap.to_set().contains(x) by {
            let a = choose|a: Seq<char>|
                accounts_with_history(hist@, p).contains(a) && x == (|aa: Seq<char>|
                    freq(hist@, p, aa))(a);
            let j = choose|j: int| 0 <= j < hist@.len() && hist_match(#[trigger] hist@[j], p, a);
            assert(name_listed(names@, hist@[j].account@));
            let l = choose|l: int| 0 <= l < names@.len() && (#[trigger] names@[l])@ == a;
            assert(counts@[l] as nat == x);
            assert(counts@[l] > mine);
            assert(greater@.contains(counts@[l]));
            let gi = choose|gi: int| 0 <= gi < greater@.len() && greater@[gi] == counts@[l];
            assert(gmap[gi] == x);
            assert(gmap.contains(x));
        }
        assert(gmap.to_set() =~= target);
        assert forall|x: int, y: int| 0 <= x < y < gmap.len() implies gmap[x] != gmap[y] by {
            assert(greater@[x] != greater@[y]);
        }
        assert(gmap.no_duplicates());
        gmap.unique_seq_to_set();
        assert(target.len() == greater@.len());
        assert(spec_rank(store.history_rows(), partition@, account_id@) == 1 + target.len() as int);
        lemma_freq_positive(hist@, p, account_id@);
        assert(exists|j: int|
            0 <= j < hist@.len() && hist_match(#[trigger] hist@[j], p, names@[mineidx as int]@));
        assert(freq(hist@, p, account_id@) > 0);
    }
    Some(greater.len() as i64 + 1)
}

} // verus!
