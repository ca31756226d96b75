//! Exact-substring replacement over character sequences, with the lemmas the
//! template materializer's guarantees rest on: replacement leaves text
//! without the pattern unchanged, rewrites the first occurrence in place, and
//! makes the replacement text appear in the result.

use vstd::prelude::*;

verus! {

/// The pattern `p` occurs in `s` at position `i`.
pub open spec fn match_at(s: Seq<char>, p: Seq<char>, i: int) -> bool {
    0 <= i && i + p.len() <= s.len() && s.subrange(i, i + p.len()) == p
}

/// The pattern `p` occurs somewhere in `s`.
pub open spec fn contains_seq(s: Seq<char>, p: Seq<char>) -> bool {
    exists|i: int| match_at(s, p, i)
}

/// Greedy left-to-right replacement of every non-overlapping occurrence of
/// `p` in `s` by `r`: at each position, if `p` matches it is consumed and `r`
/// emitted, otherwise one character is copied.
pub open spec fn spec_replace_all(s: Seq<char>, p: Seq<char>, r: Seq<char>) -> Seq<char>
    decreases s.len(),
{
    if p.len() == 0 || s.len() < p.len() {
        s
    } else if s.subrange(0, p.len() as int) == p {
        r + spec_replace_all(s.skip(p.len() as int), p, r)
    } else {
        seq![s[0]] + spec_replace_all(s.skip(1), p, r)
    }
}

/// An occurrence in a suffix is an occurrence in the whole, shifted.
pub proof fn lemma_match_in_skip(s: Seq<char>, p: Seq<char>, n: int, i: int)
    requires
        0 <= n <= s.len(),
        match_at(s.skip(n), p, i),
    ensures
        match_at(s, p, i + n),
{
    assert(s.subrange(i + n, i + n + p.len()) =~= s.skip(n).subrange(i, i + p.len()));
}

/// An occurrence at or after `n` is an occurrence in the suffix from `n`.
pub proof fn lemma_match_to_skip(s: Seq<char>, p: Seq<char>, n: int, i: int)
    requires
        0 <= n <= i,
        match_at(s, p, i),
    ensures
        match_at(s.skip(n), p, i - n),
{
    assert(s.skip(n).subrange(i - n, i - n + p.len()) =~= s.subrange(i, i + p.len()));
}

/// Text without the pattern is left unchanged by replacement.
pub proof fn lemma_replace_absent(s: Seq<char>, p: Seq<char>, r: Seq<char>)
    requires
        !contains_seq(s, p),
    ensures
        spec_replace_all(s, p, r) == s,
    decreases s.len(),
{
    if p.len() == 0 || s.len() < p.len() {
    } else if s.subrange(0, p.len() as int) == p {
        assert(match_at(s, p, 0));
    } else {
        assert forall|i: int| !match_at(s.skip(1), p, i) by {
            if match_at(s.skip(1), p, i) {
                lemma_match_in_skip(s, p, 1, i);
            }
        }
        lemma_replace_absent(s.skip(1), p, r);
        assert(seq![s[0]] + s.skip(1) =~= s);
    }
}

/// As long as no occurrence of the pattern starts before `n`, replacement
/// copies the first `n` characters verbatim and continues on the rest.
pub proof fn lemma_replace_copies_prefix(s: Seq<char>, p: Seq<char>, r: Seq<char>, n: int)
    requires
        p.len() > 0,
        0 <= n <= s.len(),
        forall|i: int| 0 <= i < n ==> !match_at(s, p, i),
    ensures
        spec_replace_all(s, p, r) == s.take(n) + spec_replace_all(s.skip(n), p, r),
    decreases n,
{
    if n == 0 {
        assert(s.take(0) =~= Seq::<char>::empty());
        assert(s.skip(0) =~= s);
        assert(s.take(0) + spec_replace_all(s, p, r) =~= spec_replace_all(s, p, r));
    } else if s.len() < p.len() {
        // too short for any match: replacement is the identity everywhere
        assert forall|i: int| !match_at(s.skip(n), p, i) by {
            if match_at(s.skip(n), p, i) {
                lemma_match_in_skip(s, p, n, i);
            }
        }
        lemma_replace_absent(s.skip(n), p, r);
        assert(s.take(n) + s.skip(n) =~= s);
    } else {
        assert(!match_at(s, p, 0));
        assert(s.subrange(0, p.len() as int) != p);
        assert forall|i: int| 0 <= i < n - 1 implies !match_at(s.skip(1), p, i) by {
            if match_at(s.skip(1), p, i) {
                lemma_match_in_skip(s, p, 1, i);
            }
        }
        lemma_replace_copies_prefix(s.skip(1), p, r, n - 1);
        assert(s.skip(1).take(n - 1) =~= s.subrange(1, n));
        assert(s.skip(1).skip(n - 1) =~= s.skip(n));
        assert(seq![s[0]] + (s.subrange(1, n) + spec_replace_all(s.skip(n), p, r)) =~= s.take(n)
            + spec_replace_all(s.skip(n), p, r));
    }
}

/// Replacing rewrites the first occurrence of the pattern in place: when the
/// earliest occurrence of `p` starts at `n`, the result is the text before
/// it, then `r`, then the replaced remainder.
pub proof fn lemma_replace_first(s: Seq<char>, p: Seq<char>, r: Seq<char>, n: int)
    requires
        p.len() > 0,
        match_at(s, p, n),
        forall|i: int| 0 <= i < n ==> !match_at(s, p, i),
    ensures
        spec_replace_all(s, p, r) == s.take(n) + r + spec_replace_all(
            s.skip(n + p.len()),
            p,
            r,
        ),
{
    lemma_replace_copies_prefix(s, p, r, n);
    let t = s.skip(n);
    assert(t.subrange(0, p.len() as int) =~= s.subrange(n, n + p.len()));
    assert(t.len() >= p.len());
    assert(spec_replace_all(t, p, r) == r + spec_replace_all(t.skip(p.len() as int), p, r));
    assert(t.skip(p.len() as int) =~= s.skip(n + p.len()));
    assert(s.take(n) + (r + spec_replace_all(s.skip(n + p.len()), p, r)) =~= s.take(n) + r
        + spec_replace_all(s.skip(n + p.len()), p, r));
}

/// Every occurrence has an earliest occurrence before or at it.
pub proof fn lemma_first_occurrence(s: Seq<char>, p: Seq<char>) -> (n: int)
    requires
        contains_seq(s, p),
    ensures
        match_at(s, p, n),
        forall|i: int| 0 <= i < n ==> !match_at(s, p, i),
    decreases s.len(),
{
    if match_at(s, p, 0) {
        0
    } else {
        let j = choose|j: int| match_at(s, p, j);
        assert(j >= 1);
        lemma_match_to_skip(s, p, 1, j);
        let m = lemma_first_occurrence(s.skip(1), p);
        lemma_match_in_skip(s, p, 1, m);
        assert forall|i: int| 0 <= i < m + 1 implies !match_at(s, p, i) by {
            if 1 <= i && match_at(s, p, i) {
                lemma_match_to_skip(s, p, 1, i);
            }
        }
        m + 1
    }
}

/// The middle part of a concatenation occurs in it.
pub proof fn lemma_contains_mid(a: Seq<char>, m: Seq<char>, b: Seq<char>)
    ensures
        match_at(a + m + b, m, a.len() as int),
        contains_seq(a + m + b, m),
{
    assert((a + m + b).subrange(a.len() as int, a.len() + m.len() as int) =~= m);
}

/// Occurrence is transitive through an enclosing occurrence.
pub proof fn lemma_contains_trans(s: Seq<char>, q: Seq<char>, v: Seq<char>)
    requires
        contains_seq(s, q),
        contains_seq(q, v),
    ensures
        contains_seq(s, v),
{
    let i = choose|i: int| match_at(s, q, i);
    let j = choose|j: int| match_at(q, v, j);
    assert(s.subrange(i + j, i + j + v.len()) =~= s.subrange(i, i + q.len()).subrange(
        j,
        j + v.len(),
    ));
    assert(match_at(s, v, i + j));
}

/// Whether `p` occurs in `s` at position `i` (executable form).
pub fn match_at_exec(s: &Vec<char>, p: &Vec<char>, i: usize) -> (b: bool)
    requires
        i + p@.len() <= s@.len(),
    ensures
        b == match_at(s@, p@, i as int),
{
    let sl = s.len();
    let mut k: usize = 0;
    while k < p.len()
        invariant
            sl == s@.len(),
            i + p@.len() <= s@.len(),
            k <= p@.len(),
            forall|m: int| 0 <= m < k ==> s@[i + m] == p@[m],
        decreases p@.len() - k,
    {
        proof {
            assert(i + k < s@.len());
        }
        if s[i + k] != p[k] {
            proof {
                assert(s@.subrange(i as int, i + p@.len())[k as int] == s@[i + k]);
            }
            return false;
        }
        k = k + 1;
    }
    proof {
        assert(s@.subrange(i as int, i + p@.len()) =~= p@);
    }
    true
}

/// Replaces every occurrence of `p` in `s` by `r`, scanning left to right.
pub fn replace_all(s: &Vec<char>, p: &Vec<char>, r: &Vec<char>) -> (out: Vec<char>)
    requires
        p@.len() > 0,
    ensures
        out@ == spec_replace_all(s@, p@, r@),
{
    let mut out: Vec<char> = Vec::new();
    let mut i: usize = 0;
    proof {
        assert(s@.skip(0) =~= s@);
        assert(Seq::<char>::empty() + spec_replace_all(s@, p@, r@) =~= spec_replace_all(
            s@,
            p@,
            r@,
        ));
    }
    while i < s.len()
        invariant
            p@.len() > 0,
            i <= s@.len(),
            spec_replace_all(s@, p@, r@) == out@ + spec_replace_all(s@.skip(i as int), p@, r@),
        decreases s@.len() - i,
    {
        let ghost tail = s@.skip(i as int);
        if p.len() <= s.len() - i && match_at_exec(s, p, i) {
            proof {
                assert(tail.subrange(0, p@.len() as int) =~= s@.subrange(i as int, i + p@.len()));
                assert(spec_replace_all(tail, p@, r@) == r@ + spec_replace_all(
                    tail.skip(p@.len() as int),
                    p@,
                    r@,
                ));
                assert(tail.skip(p@.len() as int) =~= s@.skip(i + p@.len()));
            }
            crate::text::append_chars(&mut out, r);
            i = i + p.len();
        } else {
            proof {
                if i + p@.len() <= s@.len() {
                    assert(tail.len() >= p@.len());
                    assert(tail.subrange(0, p@.len() as int) =~= s@.subrange(
                        i as int,
                        i + p@.len(),
                    ));
                    assert(tail.subrange(0, p@.len() as int) != p@);
                    assert(spec_replace_all(tail, p@, r@) == seq![tail[0]] + spec_replace_all(
                        tail.skip(1),
                        p@,
                        r@,
                    ));
                } else {
                    assert(tail.len() < p@.len());
                    assert(spec_replace_all(tail, p@, r@) == tail);
                    assert(tail =~= seq![tail[0]] + tail.skip(1));
                    assert(spec_replace_all(tail.skip(1), p@, r@) == tail.skip(1));
                }
                assert(tail[0] == s@[i as int]);
                assert(tail.skip(1) =~= s@.skip(i + 1));
            }
            out.push(s[i]);
            i = i + 1;
        }
    }
    proof {
        assert(s@.skip(s@.len() as int) =~= Seq::<char>::empty());
        assert(out@ + Seq::<char>::empty() =~= out@);
    }
    out
}

} // verus!
