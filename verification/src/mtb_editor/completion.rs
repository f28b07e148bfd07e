//! Ranking of candidate words for console completion: by edit distance
//! (`strsim`) and by the length of the prefix shared with the typed word.
use vstd::prelude::*;
use crate::text::chars_of;

verus! {

/// The smallest of three numbers.
pub open spec fn min3(x: nat, y: nat, z: nat) -> nat {
    if x <= y && x <= z {
        x
    } else if y <= z {
        y
    } else {
        z
    }
}

/// The Levenshtein distance between `a` and `b`: the fewest insertions,
/// deletions and substitutions of characters that turn `a` into `b`.
pub open spec fn levenshtein_distance(a: Seq<char>, b: Seq<char>) -> nat
    decreases a.len() + b.len(),
{
    if a.len() == 0 {
        b.len()
    } else if b.len() == 0 {
        a.len()
    } else {
        min3(
            levenshtein_distance(a.drop_last(), b) + 1,
            levenshtein_distance(a, b.drop_last()) + 1,
            levenshtein_distance(a.drop_last(), b.drop_last()) + if a.last() == b.last() {
                0nat
            } else {
                1nat
            },
        )
    }
}

/// Calls `strsim::levenshtein`. Claimed: the result is the Levenshtein
/// distance between the characters of `a` and of `b`, as the crate documents
/// it (the fewest single-character insertions, deletions and substitutions).
#[verifier::external_body]
fn levenshtein(a: &str, b: &str) -> (d: usize)
    ensures
        d == levenshtein_distance(a@, b@),
{
    strsim::levenshtein(a, b)
}

/// The candidate closest to `target` in edit distance; among equally close
/// candidates, the first.
pub fn get_most_similar(target: &str, args: Vec<&str>) -> (r: String)
    requires
        args@.len() > 0,
    ensures
        exists|k: int|
            0 <= k < args@.len() && r@ == args@[k]@ && (forall|j: int|
                0 <= j < args@.len() ==> levenshtein_distance(args@[k]@, target@)
                    <= levenshtein_distance(#[trigger] args@[j]@, target@)) && (forall|j: int|
                0 <= j < k ==> levenshtein_distance(args@[k]@, target@) < levenshtein_distance(
                    #[trigger] args@[j]@,
                    target@,
                )),
{
    let mut best: usize = 0;
    let mut best_d = levenshtein(args[0], target);
    let mut i: usize = 1;
    while i < args.len()
        invariant
            1 <= i <= args@.len(),
            best < i,
            best_d == levenshtein_distance(args@[best as int]@, target@),
            forall|j: int|
                0 <= j < i ==> best_d <= levenshtein_distance(#[trigger] args@[j]@, target@),
            forall|j: int|
                0 <= j < best ==> best_d < levenshtein_distance(#[trigger] args@[j]@, target@),
        decreases args@.len() - i,
    {
        let d = levenshtein(args[i], target);
        if d < best_d {
            best = i;
            best_d = d;
        }
        i += 1;
    }
    let r = args[best].to_string();
    proof {
        assert(r@ == args@[best as int]@) by {
            broadcast use vstd::string::to_string_from_display_ensures_for_str;
        }
    }
    r
}

/// How many leading characters `s` shares with `t`.
pub open spec fn prefix_score(s: Seq<char>, t: Seq<char>) -> nat
    decreases s.len(),
{
    if s.len() == 0 || t.len() == 0 || s[0] != t[0] {
        0
    } else {
        1 + prefix_score(s.drop_first(), t.drop_first())
    }
}

/// The words whose score against `t` is `v`.
pub open spec fn scored(t: Seq<char>, v: nat) -> spec_fn(Seq<char>) -> bool {
    |s: Seq<char>| prefix_score(s, t) == v
}

/// `after` is `before` stably sorted by ascending score against `t`: scores
/// never decrease along `after`, and the words of each score keep their order.
pub open spec fn stably_sorted_by_score(before: Seq<Seq<char>>, after: Seq<Seq<char>>, t: Seq<char>) -> bool {
    &&& forall|i: int, j: int|
        0 <= i <= j < after.len() ==> prefix_score(#[trigger] after[i], t) <= prefix_score(
            #[trigger] after[j],
            t,
        )
    &&& forall|v: nat| #[trigger] after.filter(scored(t, v)) == before.filter(scored(t, v))
}

/// The score of `s` against `t`.
pub fn prefix_score_of(s: &Vec<char>, t: &Vec<char>) -> (r: usize)
    ensures
        r == prefix_score(s@, t@),
        r <= s@.len(),
{
    let mut k: usize = 0;
    proof {
        assert(s@.skip(0) =~= s@);
        assert(t@.skip(0) =~= t@);
    }
    while k < s.len() && k < t.len() && s[k] == t[k]
        invariant
            k <= s@.len(),
            k <= t@.len(),
            prefix_score(s@, t@) == k + prefix_score(s@.skip(k as int), t@.skip(k as int)),
        decreases s@.len() - k,
    {
        proof {
            let a = s@.skip(k as int);
            let b = t@.skip(k as int);
            assert(a[0] == s@[k as int]);
            assert(b[0] == t@[k as int]);
            assert(a.drop_first() =~= s@.skip(k + 1));
            assert(b.drop_first() =~= t@.skip(k + 1));
        }
        k += 1;
    }
    proof {
        let a = s@.skip(k as int);
        let b = t@.skip(k as int);
        if k < s.len() && k < t.len() {
            assert(a[0] == s@[k as int]);
            assert(b[0] == t@[k as int]);
        }
        assert(prefix_score(a, b) == 0);
    }
    k
}

/// The words of `s` by ascending score, one score after another, up to `v`.
pub open spec fn buckets(s: Seq<Seq<char>>, t: Seq<char>, v: nat) -> Seq<Seq<char>>
    decreases v,
{
    if v == 0 {
        Seq::empty()
    } else {
        buckets(s, t, (v - 1) as nat) + s.filter(scored(t, (v - 1) as nat))
    }
}

proof fn lemma_filter_filter(s: Seq<Seq<char>>, t: Seq<char>, v: nat, w: nat)
    ensures
        s.filter(scored(t, v)).filter(scored(t, w)) == if v == w {
            s.filter(scored(t, v))
        } else {
            Seq::<Seq<char>>::empty()
        },
    decreases s.len(),
{
    broadcast use vstd::seq_lib::group_seq_properties;

    if s.len() > 0 {
        let x = s.last();
        let u = s.drop_last();
        lemma_filter_filter(u, t, v, w);
        assert(s == u.push(x));
        u.lemma_filter_push(x, scored(t, v));
        if prefix_score(x, t) == v {
            u.filter(scored(t, v)).lemma_filter_push(x, scored(t, w));
        }
    } else {
        assert(s.filter(scored(t, v)) =~= Seq::<Seq<char>>::empty()) by {
            reveal(Seq::filter);
        }
        assert(Seq::<Seq<char>>::empty().filter(scored(t, w)) =~= Seq::<Seq<char>>::empty()) by {
            reveal(Seq::filter);
        }
    }
}

proof fn lemma_filter_none(s: Seq<Seq<char>>, t: Seq<char>, w: nat)
    requires
        forall|i: int| 0 <= i < s.len() ==> prefix_score(#[trigger] s[i], t) < w,
    ensures
        s.filter(scored(t, w)) == Seq::<Seq<char>>::empty(),
    decreases s.len(),
{
    reveal(Seq::filter);
    if s.len() > 0 {
        lemma_filter_none(s.drop_last(), t, w);
    } else {
        assert(s.filter(scored(t, w)) =~= Seq::<Seq<char>>::empty());
    }
}

proof fn lemma_buckets(s: Seq<Seq<char>>, t: Seq<char>, v: nat)
    ensures
        forall|i: int|
            0 <= i < buckets(s, t, v).len() ==> prefix_score(#[trigger] buckets(s, t, v)[i], t) < v,
        forall|i: int, j: int|
            0 <= i <= j < buckets(s, t, v).len() ==> prefix_score(#[trigger] buckets(s, t, v)[i], t)
                <= prefix_score(#[trigger] buckets(s, t, v)[j], t),
        forall|w: nat|
            #[trigger] buckets(s, t, v).filter(scored(t, w)) == if w < v {
                s.filter(scored(t, w))
            } else {
                Seq::<Seq<char>>::empty()
            },
    decreases v,
{
    broadcast use vstd::seq_lib::group_seq_properties;

    if v == 0 {
        assert forall|w: nat| #[trigger] buckets(s, t, v).filter(scored(t, w)) == Seq::<Seq<char>>::empty() by {
            reveal(Seq::filter);
            assert(buckets(s, t, v).filter(scored(t, w)) =~= Seq::<Seq<char>>::empty());
        }
    } else {
        let u = (v - 1) as nat;
        lemma_buckets(s, t, u);
        let a = buckets(s, t, u);
        let b = s.filter(scored(t, u));
        assert(buckets(s, t, v) == a + b);
        assert forall|i: int| 0 <= i < b.len() implies prefix_score(#[trigger] b[i], t) == u by {
            s.lemma_filter_pred(scored(t, u), i);
        }
        assert forall|i: int|
            0 <= i < buckets(s, t, v).len() implies prefix_score(#[trigger] buckets(s, t, v)[i], t) < v by {
            if i >= a.len() {
                assert(buckets(s, t, v)[i] == b[i - a.len()]);
            }
        }
        assert forall|i: int, j: int|
            0 <= i <= j < buckets(s, t, v).len() implies prefix_score(#[trigger] buckets(s, t, v)[i], t)
            <= prefix_score(#[trigger] buckets(s, t, v)[j], t) by {
            if j >= a.len() {
                assert(buckets(s, t, v)[j] == b[j - a.len()]);
            }
            if i >= a.len() {
                assert(buckets(s, t, v)[i] == b[i - a.len()]);
            }
        }
        assert forall|w: nat| #[trigger] buckets(s, t, v).filter(scored(t, w)) == if w < v {
            s.filter(scored(t, w))
        } else {
            Seq::<Seq<char>>::empty()
        } by {
            Seq::filter_distributes_over_add(a, b, scored(t, w));
            lemma_filter_filter(s, t, u, w);
            if w < u {
                assert(a.filter(scored(t, w)) + Seq::<Seq<char>>::empty() =~= s.filter(scored(t, w)));
            } else if w == u {
                assert(Seq::<Seq<char>>::empty() + b =~= b);
            } else {
                assert(Seq::<Seq<char>>::empty() + Seq::<Seq<char>>::empty() =~= Seq::<
                    Seq<char>,
                >::empty());
            }
        }
    }
}

proof fn lemma_filter_last(s: Seq<Seq<char>>, p: spec_fn(Seq<char>) -> bool)
    requires
        s.filter(p).len() > 0,
    ensures
        exists|k: int|
            0 <= k < s.len() && s[k] == s.filter(p).last() && p(s[k]) && (forall|j: int|
                k < j < s.len() ==> !p(#[trigger] s[j])),
    decreases s.len(),
{
    reveal(Seq::filter);
    if s.len() == 0 {
        assert(s.filter(p).len() == 0);
    } else if p(s.last()) {
        assert(s.filter(p) == s.drop_last().filter(p).push(s.last()));
        let k = s.len() - 1;
        assert(s[k] == s.filter(p).last());
    } else {
        assert(s.filter(p) == s.drop_last().filter(p));
        lemma_filter_last(s.drop_last(), p);
        let k = choose|k: int|
            0 <= k < s.drop_last().len() && s.drop_last()[k] == s.drop_last().filter(p).last() && p(
                s.drop_last()[k],
            ) && (forall|j: int| k < j < s.drop_last().len() ==> !p(#[trigger] s.drop_last()[j]));
        assert(s[k] == s.drop_last()[k]);
        assert forall|j: int| k < j < s.len() implies !p(#[trigger] s[j]) by {
            if j < s.len() - 1 {
                assert(s[j] == s.drop_last()[j]);
            }
        }
    }
}

/// Sorts the candidates stably by how many leading characters they share with
/// `target` and returns the last one: the candidate sharing the most, the
/// latest of those sharing equally.
pub fn get_most_similar_alphabetically(target: &str, args: &mut Vec<&str>) -> (r: String)
    requires
        old(args)@.len() > 0,
    ensures
        stably_sorted_by_score(
            old(args)@.map_values(|a: &str| a@),
            final(args)@.map_values(|a: &str| a@),
            target@,
        ),
        final(args)@.len() == old(args)@.len(),
        r@ == final(args)@.last()@,
        exists|k: int|
            0 <= k < old(args)@.len() && r@ == old(args)@[k]@ && (forall|j: int|
                0 <= j < old(args)@.len() ==> prefix_score(#[trigger] old(args)@[j]@, target@)
                    <= prefix_score(old(args)@[k]@, target@)) && (forall|j: int|
                k < j < old(args)@.len() ==> prefix_score(#[trigger] old(args)@[j]@, target@)
                    < prefix_score(old(args)@[k]@, target@)),
{
    let ghost before = old(args)@.map_values(|a: &str| a@);
    let ghost t = target@;
    let n = args.len();
    let tc = chars_of(target);
    let mut scores: Vec<usize> = Vec::new();
    let mut m: usize = 0;
    let mut m_at: usize = 0;
    let mut i: usize = 0;
    while i < n
        invariant
            n == args@.len(),
            args@ == old(args)@,
            before == old(args)@.map_values(|a: &str| a@),
            tc@ == t,
            t == target@,
            i <= n,
            scores@.len() == i,
            forall|k: int| 0 <= k < i ==> #[trigger] scores@[k] == prefix_score(before[k], t),
            forall|k: int| 0 <= k < i ==> #[trigger] scores@[k] <= m,
            i > 0 ==> m_at < i && scores@[m_at as int] == m,
        decreases n - i,
    {
        let sc = chars_of(args[i]);
        let s = prefix_score_of(&sc, &tc);
        scores.push(s);
        if i == 0 || s > m {
            m = s;
            m_at = i;
        }
        i += 1;
    }
    let mut out: Vec<&str> = Vec::new();
    let mut v: usize = 0;
    loop
        invariant_except_break
            out@.map_values(|a: &str| a@) == buckets(before, t, v as nat),
        invariant
            n == args@.len(),
            args@ == old(args)@,
            before == old(args)@.map_values(|a: &str| a@),
            t == target@,
            n > 0,
            scores@.len() == n,
            forall|k: int| 0 <= k < n ==> #[trigger] scores@[k] == prefix_score(before[k], t),
            forall|k: int| 0 <= k < n ==> #[trigger] scores@[k] <= m,
            m_at < n && scores@[m_at as int] == m,
            v <= m,
        ensures
            out@.map_values(|a: &str| a@) == buckets(before, t, (m + 1) as nat),
        decreases m - v,
    {
        let mut j: usize = 0;
        proof {
            assert(before.take(0) =~= Seq::<Seq<char>>::empty());
            assert(Seq::<Seq<char>>::empty().filter(scored(t, v as nat)) =~= Seq::<Seq<char>>::empty()) by {
                reveal(Seq::filter);
            }
            assert(buckets(before, t, v as nat) + Seq::<Seq<char>>::empty() =~= buckets(before, t, v as nat));
        }
        while j < n
            invariant
                n == args@.len(),
                args@ == old(args)@,
                before == old(args)@.map_values(|a: &str| a@),
                scores@.len() == n,
                forall|k: int| 0 <= k < n ==> #[trigger] scores@[k] == prefix_score(before[k], t),
                j <= n,
                out@.map_values(|a: &str| a@) == buckets(before, t, v as nat) + before.take(j as int).filter(
                    scored(t, v as nat),
                ),
            decreases n - j,
        {
            proof {
                assert(before.take(j + 1) =~= before.take(j as int).push(before[j as int]));
                before.take(j as int).lemma_filter_push(before[j as int], scored(t, v as nat));
            }
            if scores[j] == v {
                out.push(args[j]);
                proof {
                    assert(out@.map_values(|a: &str| a@) =~= (buckets(before, t, v as nat) + before.take(
                        j as int,
                    ).filter(scored(t, v as nat))).push(before[j as int]));
                }
            }
            j += 1;
        }
        proof {
            assert(before.take(n as int) =~= before);
            assert(buckets(before, t, (v + 1) as nat) == buckets(before, t, v as nat) + before.filter(
                scored(t, v as nat),
            ));
        }
        if v == m {
            break;
        }
        v += 1;
    }
    let ghost after = out@.map_values(|a: &str| a@);
    proof {
        let top = (m + 1) as nat;
        assert(after == buckets(before, t, top));
        lemma_buckets(before, t, top);
        assert forall|w: nat| #[trigger] after.filter(scored(t, w)) == before.filter(scored(t, w)) by {
            if w >= top {
                assert forall|i: int| 0 <= i < before.len() implies prefix_score(#[trigger] before[i], t) < w by {
                    assert(scores@[i] <= m);
                }
                lemma_filter_none(before, t, w);
            }
        }
        // the last bucket is the one of the highest score, and it is not empty
        assert(buckets(before, t, top) == buckets(before, t, m as nat) + before.filter(scored(t, m as nat)));
        before.lemma_filter_contains(scored(t, m as nat), m_at as int);
        assert(before.filter(scored(t, m as nat)).len() > 0);
        lemma_filter_last(before, scored(t, m as nat));
        let k = choose|k: int|
            0 <= k < before.len() && before[k] == before.filter(scored(t, m as nat)).last() && scored(t, m as nat)(
                before[k],
            ) && (forall|j: int| k < j < before.len() ==> !scored(t, m as nat)(#[trigger] before[j]));
        assert(after.last() == before.filter(scored(t, m as nat)).last());
        assert(after.len() == out@.len());
        assert(before[k] == old(args)@[k]@);
        assert forall|j: int| 0 <= j < old(args)@.len() implies prefix_score(#[trigger] old(args)@[j]@, target@)
            <= prefix_score(old(args)@[k]@, target@) by {
            assert(before[j] == old(args)@[j]@);
            assert(scores@[j] <= m);
        }
        assert forall|j: int| k < j < old(args)@.len() implies prefix_score(#[trigger] old(args)@[j]@, target@)
            < prefix_score(old(args)@[k]@, target@) by {
            assert(before[j] == old(args)@[j]@);
            assert(scores@[j] <= m);
        }
        assert(out@.len() == n) by {
            before.lemma_filter_len(scored(t, m as nat));
            assert(after.len() > 0);
            // every word lands in exactly one bucket
            assert forall|i: int| 0 <= i < before.len() implies prefix_score(#[trigger] before[i], t) < top by {
                assert(scores@[i] <= m);
            }
            lemma_bucket_count(before, t, top);
        }
    }
    *args = out;
    let last = args[args.len() - 1];
    let r = last.to_string();
    proof {
        assert(r@ == last@) by {
            broadcast use vstd::string::to_string_from_display_ensures_for_str;
        }
        assert(after[after.len() - 1] == args@[args@.len() - 1]@);
    }
    r
}

/// Every word whose score is below `v` lands in the first `v` buckets, once.
proof fn lemma_bucket_count(s: Seq<Seq<char>>, t: Seq<char>, v: nat)
    requires
        forall|i: int| 0 <= i < s.len() ==> prefix_score(#[trigger] s[i], t) < v,
    ensures
        buckets(s, t, v).len() == s.len(),
    decreases s.len(),
{
    reveal(Seq::filter);
    if s.len() > 0 {
        let u = s.drop_last();
        assert forall|i: int| 0 <= i < u.len() implies prefix_score(#[trigger] u[i], t) < v by {
            assert(u[i] == s[i]);
        }
        lemma_bucket_count(u, t, v);
        lemma_buckets_push(u, s.last(), t, v);
        assert(s == u.push(s.last()));
    } else {
        lemma_buckets_empty(s, t, v);
    }
}

proof fn lemma_buckets_empty(s: Seq<Seq<char>>, t: Seq<char>, v: nat)
    requires
        s.len() == 0,
    ensures
        buckets(s, t, v).len() == 0,
    decreases v,
{
    reveal(Seq::filter);
    if v > 0 {
        lemma_buckets_empty(s, t, (v - 1) as nat);
        assert(s.filter(scored(t, (v - 1) as nat)).len() == 0);
    }
}

proof fn lemma_buckets_push(u: Seq<Seq<char>>, x: Seq<char>, t: Seq<char>, v: nat)
    ensures
        buckets(u.push(x), t, v).len() == buckets(u, t, v).len() + if prefix_score(x, t) < v {
            1int
        } else {
            0int
        },
    decreases v,
{
    broadcast use vstd::seq_lib::group_seq_properties;

    if v > 0 {
        let w = (v - 1) as nat;
        lemma_buckets_push(u, x, t, w);
        u.lemma_filter_push(x, scored(t, w));
    }
}

} // verus!
