//! Small string helpers shared by the configuration parser.

use vstd::prelude::*;

verus! {

/// The first element of `s` that satisfies `pred`, if any.
pub open spec fn first_match<A>(s: Seq<A>, pred: spec_fn(A) -> bool) -> Option<A>
    decreases s.len(),
{
    if s.len() == 0 {
        None
    } else if pred(s[0]) {
        Some(s[0])
    } else {
        first_match(s.drop_first(), pred)
    }
}

/// `first_match` finds an element exactly when one exists.
pub proof fn lemma_first_match_exists<A>(s: Seq<A>, pred: spec_fn(A) -> bool)
    ensures
        first_match(s, pred) is Some <==> exists|i: int| 0 <= i < s.len() && pred(s[i]),
        first_match(s, pred) is Some ==> pred(first_match(s, pred)->Some_0),
        first_match(s, pred) is Some ==> s.contains(first_match(s, pred)->Some_0),
    decreases s.len(),
{
    if s.len() > 0 {
        if pred(s[0]) {
        } else {
            lemma_first_match_exists(s.drop_first(), pred);
            if first_match(s.drop_first(), pred) is Some {
                let m = first_match(s.drop_first(), pred)->Some_0;
                assert(s.drop_first().contains(m));
                let j = choose|j: int| 0 <= j < s.drop_first().len() && s.drop_first()[j] == m;
                assert(s[j + 1] == m);
            }
            if exists|i: int| 0 <= i < s.len() && pred(s[i]) {
                let i = choose|i: int| 0 <= i < s.len() && pred(s[i]);
                assert(i >= 1 && s.drop_first()[i - 1] == s[i]);
            }
        }
    }
}

/// `first_match` on a prefix that has a hit agrees with the whole sequence.
pub proof fn lemma_first_match_take<A>(s: Seq<A>, pred: spec_fn(A) -> bool, n: int)
    requires
        0 <= n <= s.len(),
        first_match(s.take(n), pred) is Some,
    ensures
        first_match(s, pred) == first_match(s.take(n), pred),
    decreases n,
{
    if n > 0 && s.len() > 0 {
        assert(s.take(n)[0] == s[0]);
        if !pred(s[0]) {
            assert(s.take(n).drop_first() =~= s.drop_first().take(n - 1));
            lemma_first_match_take(s.drop_first(), pred, n - 1);
        }
    }
}

/// Extending a prefix with no hit by one non-hit keeps `first_match` empty.
pub proof fn lemma_first_match_none_push<A>(s: Seq<A>, pred: spec_fn(A) -> bool, x: A)
    requires
        first_match(s, pred) is None,
        !pred(x),
    ensures
        first_match(s.push(x), pred) is None,
    decreases s.len(),
{
    if s.len() == 0 {
        assert(s.push(x)[0] == x);
        assert(s.push(x).drop_first() =~= Seq::<A>::empty());
        assert(first_match(Seq::<A>::empty(), pred) is None);
    } else {
        assert(s.push(x)[0] == s[0]);
        assert(s.push(x).drop_first() =~= s.drop_first().push(x));
        lemma_first_match_none_push(s.drop_first(), pred, x);
    }
}

/// Extending a prefix with no hit by a hit makes the new element the match.
pub proof fn lemma_first_match_some_push<A>(s: Seq<A>, pred: spec_fn(A) -> bool, x: A)
    requires
        first_match(s, pred) is None,
        pred(x),
    ensures
        first_match(s.push(x), pred) == Some(x),
    decreases s.len(),
{
    if s.len() == 0 {
        assert(s.push(x)[0] == x);
    } else {
        assert(s.push(x)[0] == s[0]);
        assert(s.push(x).drop_first() =~= s.drop_first().push(x));
        lemma_first_match_some_push(s.drop_first(), pred, x);
    }
}

/// Whether `s` begins with the characters of `pre`.
pub open spec fn has_prefix(s: Seq<char>, pre: Seq<char>) -> bool {
    s.len() >= pre.len() && s.subrange(0, pre.len() as int) == pre
}

/// Whether `s` ends with the characters of `suf`.
pub open spec fn has_suffix(s: Seq<char>, suf: Seq<char>) -> bool {
    s.len() >= suf.len() && s.subrange(s.len() - suf.len(), s.len() as int) == suf
}

/// Character-by-character prefix test.
pub fn starts_with(s: &str, pre: &str) -> (r: bool)
    ensures
        r == has_prefix(s@, pre@),
{
    let n = pre.unicode_len();
    let m = s.unicode_len();
    if m < n {
        assert(!has_prefix(s@, pre@));
        return false;
    }
    let mut i: usize = 0;
    while i < n
        invariant
            0 <= i <= n,
            n == pre@.len(),
            m == s@.len(),
            m >= n,
            forall|j: int| 0 <= j < i ==> s@[j] == pre@[j],
        decreases n - i,
    {
        if s.get_char(i) != pre.get_char(i) {
            assert(s@.subrange(0, n as int)[i as int] != pre@[i as int]);
            return false;
        }
        i += 1;
    }
    assert(s@.subrange(0, n as int) =~= pre@);
    true
}

/// Character-by-character suffix test.
pub fn ends_with(s: &str, suf: &str) -> (r: bool)
    ensures
        r == has_suffix(s@, suf@),
{
    let n = suf.unicode_len();
    let m = s.unicode_len();
    if m < n {
        assert(!has_suffix(s@, suf@));
        return false;
    }
    let off = m - n;
    let mut i: usize = 0;
    while i < n
        invariant
            0 <= i <= n,
            n == suf@.len(),
            m == s@.len(),
            m >= n,
            off == m - n,
            forall|j: int| 0 <= j < i ==> s@[off + j] == suf@[j],
        decreases n - i,
    {
        if s.get_char(off + i) != suf.get_char(i) {
            assert(s@.subrange(s@.len() - suf@.len(), s@.len() as int)[i as int] != suf@[i as int]);
            return false;
        }
        i += 1;
    }
    assert(s@.subrange(s@.len() - suf@.len(), s@.len() as int) =~= suf@);
    true
}

/// A suffix of a suffix of `s` is itself a suffix of `s`.
pub proof fn lemma_suffix_trans(s: Seq<char>, a: Seq<char>, b: Seq<char>)
    requires
        has_suffix(s, a),
        has_suffix(a, b),
    ensures
        has_suffix(s, b),
{
    assert(s.subrange(s.len() - b.len(), s.len() as int) =~= a.subrange(
        a.len() - b.len(),
        a.len() as int,
    ));
}

} // verus!
