//! The ranking engine: scores every candidate key against the typed query and
//! yields the indices of the keepers, best first.
//!
//! Scores are integer keys so that contracts can pin them down exactly.
//! A query of at most three characters is scored by Jaro-Winkler similarity;
//! the score key is the IEEE-754 bit pattern of the similarity, which orders
//! exactly as the similarity does because the similarity is non-negative.
//! A longer query is scored by normalized Levenshtein similarity in exact
//! thousandths (floor), plus a flat bonus of five hundred thousandths when the
//! key contains the query as a contiguous substring.  In both scales a
//! candidate is kept exactly when its score key exceeds the scale's rendering
//! of the three-tenths threshold.  Ties are broken by ascending original
//! index, a deliberate deterministic policy.

use vstd::prelude::*;
use vstd::arithmetic::div_mod::{lemma_div_is_ordered, lemma_div_multiples_vanish};
use vstd::string::StrSliceExecFns;

use crate::strings::chars_of;
use crate::strings::contains_chars;
use crate::strings::contains_seq;
use crate::strings::lower_of;
use crate::strings::lowercase;

verus! {

/// A candidate's score key paired with its permanent index in the store.
#[derive(Clone, Copy, PartialEq, Eq, Structural, Debug)]
pub struct ScoredIndex {
    pub index: u32,
    pub score: u64,
}

/// Bit pattern of the double value one, the largest possible similarity.
pub const SIMILARITY_ONE_BITS: u64 = 0x3FF0000000000000;

/// Bit pattern of the double value three tenths: a short-query candidate is
/// kept exactly when its Jaro-Winkler score key exceeds this.
pub const JW_THRESHOLD_BITS: u64 = 0x3FD3333333333333;

/// A long-query candidate is kept exactly when its Levenshtein score in
/// thousandths exceeds this (three tenths of the scale).
pub const LEV_THRESHOLD_MILLI: u64 = 300;

/// The smaller of three integers.
pub open spec fn min3(a: int, b: int, c: int) -> int {
    if a <= b && a <= c {
        a
    } else if b <= c {
        b
    } else {
        c
    }
}

/// The Levenshtein edit distance between two character sequences: the least
/// number of unit-cost insertions, deletions and substitutions turning one
/// into the other.
pub open spec fn lev(a: Seq<char>, b: Seq<char>) -> nat
    decreases a.len() + b.len(),
{
    if a.len() == 0 {
        b.len()
    } else if b.len() == 0 {
        a.len()
    } else {
        let cost: int = if a[0] == b[0] {
            0
        } else {
            1
        };
        min3(
            lev(a.drop_first(), b) as int + 1,
            lev(a, b.drop_first()) as int + 1,
            lev(a.drop_first(), b.drop_first()) as int + cost,
        ) as nat
    }
}

/// The edit distance never exceeds the longer input's length.
pub proof fn lemma_lev_le_max(a: Seq<char>, b: Seq<char>)
    ensures
        lev(a, b) <= if a.len() >= b.len() {
            a.len()
        } else {
            b.len()
        },
    decreases a.len() + b.len(),
{
    if a.len() == 0 {
    } else if b.len() == 0 {
    } else {
        lemma_lev_le_max(a.drop_first(), b.drop_first());
    }
}

/// Relies on `strsim::levenshtein`: it computes the unit-cost edit distance
/// between the character sequences of the two strings.
#[verifier::external_body]
pub(crate) fn levenshtein_distance(a: &str, b: &str) -> (r: usize)
    ensures
        r == lev(a@, b@),
{
    strsim::levenshtein(a, b)
}

/// The IEEE-754 bit pattern of the Jaro-Winkler similarity of the two
/// character sequences, named here so that contracts can speak of it.
pub uninterp spec fn jaro_winkler_bits(a: Seq<char>, b: Seq<char>) -> u64;

/// Relies on `strsim::jaro_winkler`: the similarity is a function of the two
/// strings' characters alone and lies between zero and one, so its bit
/// pattern never exceeds the bit pattern of one, and comparing bit patterns
/// compares similarities.
#[verifier::external_body]
pub(crate) fn jaro_winkler_key(a: &str, b: &str) -> (r: u64)
    ensures
        r == jaro_winkler_bits(a@, b@),
        r <= SIMILARITY_ONE_BITS,
{
    strsim::jaro_winkler(a, b).to_bits()
}

/// Normalized Levenshtein similarity of `key` and `query` in thousandths
/// (floor), plus a flat bonus of five hundred when `key` contains `query`.
pub open spec fn lev_score_milli(key: Seq<char>, query: Seq<char>) -> u64 {
    let m: int = if key.len() >= query.len() {
        key.len() as int
    } else {
        query.len() as int
    };
    let base: int = if m == 0 {
        1000
    } else {
        1000 * (m - lev(key, query)) / m
    };
    let bonus: int = if contains_seq(key, query) {
        500
    } else {
        0
    };
    (base + bonus) as u64
}

/// The score key of `key` for the (already lowercased) `query`.
pub open spec fn score_of(query: Seq<char>, key: Seq<char>) -> u64 {
    if query.len() <= 3 {
        jaro_winkler_bits(key, query)
    } else {
        lev_score_milli(key, query)
    }
}

/// The keep threshold in the scale that `query`'s length selects.
pub open spec fn score_threshold(query: Seq<char>) -> u64 {
    if query.len() <= 3 {
        JW_THRESHOLD_BITS
    } else {
        LEV_THRESHOLD_MILLI
    }
}

/// A candidate is kept exactly when its score key exceeds the threshold.
pub open spec fn kept(query: Seq<char>, key: Seq<char>) -> bool {
    score_of(query, key) > score_threshold(query)
}

/// The strict ranking order: higher score first, ties by lower original index.
pub open spec fn ranked_before(x: ScoredIndex, y: ScoredIndex) -> bool {
    x.score > y.score || (x.score == y.score && x.index < y.index)
}

/// Every earlier entry ranks strictly before every later one.
pub open spec fn ranked_sorted(s: Seq<ScoredIndex>) -> bool {
    forall|i: int, j: int|
        #![trigger s[i], s[j]]
        0 <= i < j < s.len() ==> ranked_before(s[i], s[j])
}

/// `x` inserted at its rank position in `s`.
pub open spec fn insert_ranked(x: ScoredIndex, s: Seq<ScoredIndex>) -> Seq<ScoredIndex>
    decreases s.len(),
{
    if s.len() == 0 {
        seq![x]
    } else if ranked_before(x, s[0]) {
        seq![x] + s
    } else {
        seq![s[0]] + insert_ranked(x, s.drop_first())
    }
}

/// The ranking of the first `n` keys for the (already lowercased) `query`:
/// the kept candidates, ordered by `ranked_before`.
pub open spec fn rank_prefix(query: Seq<char>, keys: Seq<Seq<char>>, n: int) -> Seq<ScoredIndex>
    decreases n,
{
    if n <= 0 {
        Seq::empty()
    } else {
        let rest = rank_prefix(query, keys, n - 1);
        if kept(query, keys[n - 1]) {
            insert_ranked(ScoredIndex { index: (n - 1) as u32, score: score_of(query, keys[n - 1]) }, rest)
        } else {
            rest
        }
    }
}

/// The browse-mode ranking: every index in store order, unscored.
pub open spec fn identity_ranking(n: int) -> Seq<ScoredIndex> {
    Seq::new(n as nat, |i: int| ScoredIndex { index: i as u32, score: 0 })
}

/// What `rank` returns: the identity ranking for the empty query, otherwise
/// the ranked keepers for the lowercased query.
pub open spec fn rank_spec(query: Seq<char>, keys: Seq<Seq<char>>) -> Seq<ScoredIndex> {
    if query.len() == 0 {
        identity_ranking(keys.len() as int)
    } else {
        rank_prefix(lower_of(query), keys, keys.len() as int)
    }
}

/// The ranked original indices alone, in ranking order.
pub open spec fn rank_indices_spec(query: Seq<char>, keys: Seq<Seq<char>>) -> Seq<u32> {
    rank_spec(query, keys).map_values(|e: ScoredIndex| e.index)
}

/// Inserting an entry whose index occurs nowhere in a sorted ranking keeps it
/// strictly sorted; the result holds exactly the old entries and the new one.
pub proof fn lemma_insert_ranked_sound(x: ScoredIndex, s: Seq<ScoredIndex>)
    requires
        ranked_sorted(s),
        forall|k: int| 0 <= k < s.len() ==> (#[trigger] s[k]).index != x.index,
    ensures
        ranked_sorted(insert_ranked(x, s)),
        insert_ranked(x, s).len() == s.len() + 1,
        forall|k: int|
            0 <= k < insert_ranked(x, s).len() ==> (#[trigger] insert_ranked(x, s)[k] == x
                || s.contains(insert_ranked(x, s)[k])),
        insert_ranked(x, s).contains(x),
        forall|y: ScoredIndex| #[trigger] s.contains(y) ==> insert_ranked(x, s).contains(y),
    decreases s.len(),
{
    let r = insert_ranked(x, s);
    if s.len() == 0 {
        assert(r[0] == x);
    } else if ranked_before(x, s[0]) {
        assert(r == seq![x] + s);
        assert forall|k: int| 0 <= k < r.len() implies (#[trigger] r[k] == x || s.contains(
            r[k],
        )) by {
            if k >= 1 {
                assert(r[k] == s[k - 1]);
            }
        }
        assert(r[0] == x);
        assert forall|y: ScoredIndex| #[trigger] s.contains(y) implies r.contains(y) by {
            let j = choose|j: int| 0 <= j < s.len() && s[j] == y;
            assert(r[j + 1] == y);
        }
        assert forall|i: int, j: int|
            #![trigger r[i], r[j]]
            0 <= i < j < r.len() implies ranked_before(r[i], r[j]) by {
            if i == 0 {
                assert(r[j] == s[j - 1]);
                if j - 1 > 0 {
                    assert(ranked_before(s[0], s[j - 1]));
                }
            } else {
                assert(r[i] == s[i - 1] && r[j] == s[j - 1]);
            }
        }
    } else {
        let tail = s.drop_first();
        assert forall|k: int| 0 <= k < tail.len() implies (#[trigger] tail[k]).index != x.index by {
            assert(tail[k] == s[k + 1]);
        }
        assert(ranked_sorted(tail)) by {
            assert forall|i: int, j: int|
                #![trigger tail[i], tail[j]]
                0 <= i < j < tail.len() implies ranked_before(tail[i], tail[j]) by {
                assert(tail[i] == s[i + 1] && tail[j] == s[j + 1]);
            }
        }
        lemma_insert_ranked_sound(x, tail);
        let rt = insert_ranked(x, tail);
        assert(r == seq![s[0]] + rt);
        // the head ranks before the new entry and before every old tail entry
        assert(ranked_before(s[0], x));
        assert forall|k: int| 1 <= k < r.len() implies ranked_before(r[0], r[k]) by {
            assert(r[k] == rt[k - 1]);
            if rt[k - 1] == x {
            } else {
                assert(tail.contains(rt[k - 1]));
                let j = choose|j: int| 0 <= j < tail.len() && tail[j] == rt[k - 1];
                assert(tail[j] == s[j + 1]);
                assert(ranked_before(s[0], s[j + 1]));
            }
        }
        assert forall|i: int, j: int|
            #![trigger r[i], r[j]]
            0 <= i < j < r.len() implies ranked_before(r[i], r[j]) by {
            if i >= 1 {
                assert(r[i] == rt[i - 1] && r[j] == rt[j - 1]);
            }
        }
        assert forall|k: int| 0 <= k < r.len() implies (#[trigger] r[k] == x || s.contains(
            r[k],
        )) by {
            if k == 0 {
                assert(s[0] == s[0]);
                assert(s.contains(s[0]));
            } else {
                assert(r[k] == rt[k - 1]);
                if rt[k - 1] != x {
                    assert(tail.contains(rt[k - 1]));
                    let j = choose|j: int| 0 <= j < tail.len() && tail[j] == rt[k - 1];
                    assert(s[j + 1] == rt[k - 1]);
                    assert(s.contains(rt[k - 1]));
                }
            }
        }
        assert(rt.contains(x));
        assert(r.contains(x)) by {
            let j = choose|j: int| 0 <= j < rt.len() && rt[j] == x;
            assert(r[j + 1] == x);
        }
        assert forall|y: ScoredIndex| #[trigger] s.contains(y) implies r.contains(y) by {
            let j = choose|j: int| 0 <= j < s.len() && s[j] == y;
            if j == 0 {
                assert(r[0] == y);
            } else {
                assert(tail[j - 1] == y);
                assert(tail.contains(y));
                assert(rt.contains(y));
                let t = choose|t: int| 0 <= t < rt.len() && rt[t] == y;
                assert(r[t + 1] == y);
            }
        }
    }
}

/// Soundness of the ranking of the first `n` keys: strictly sorted, every
/// entry is a kept candidate carrying its own score, and every kept candidate
/// appears.
pub proof fn lemma_rank_prefix_sound(query: Seq<char>, keys: Seq<Seq<char>>, n: int)
    requires
        0 <= n <= keys.len(),
        keys.len() <= u32::MAX,
    ensures
        rank_prefix(query, keys, n).len() <= n,
        ranked_sorted(rank_prefix(query, keys, n)),
        forall|k: int|
            0 <= k < rank_prefix(query, keys, n).len() ==> {
                let e = #[trigger] rank_prefix(query, keys, n)[k];
                e.index < n && e.score == score_of(query, keys[e.index as int]) && kept(
                    query,
                    keys[e.index as int],
                )
            },
        forall|i: int|
            0 <= i < n && #[trigger] kept(query, keys[i]) ==> rank_prefix(
                query,
                keys,
                n,
            ).contains(ScoredIndex { index: i as u32, score: score_of(query, keys[i]) }),
    decreases n,
{
    if n <= 0 {
    } else {
        lemma_rank_prefix_sound(query, keys, n - 1);
        let prev = rank_prefix(query, keys, n - 1);
        let cur = rank_prefix(query, keys, n);
        if kept(query, keys[n - 1]) {
            let x = ScoredIndex { index: (n - 1) as u32, score: score_of(query, keys[n - 1]) };
            assert forall|k: int| 0 <= k < prev.len() implies (#[trigger] prev[k]).index
                != x.index by {
                assert(prev[k].index < n - 1);
            }
            lemma_insert_ranked_sound(x, prev);
            assert forall|k: int| 0 <= k < cur.len() implies {
                let e = #[trigger] cur[k];
                e.index < n && e.score == score_of(query, keys[e.index as int]) && kept(
                    query,
                    keys[e.index as int],
                )
            } by {
                if cur[k] == x {
                } else {
                    assert(prev.contains(cur[k]));
                    let j = choose|j: int| 0 <= j < prev.len() && prev[j] == cur[k];
                }
            }
            assert forall|i: int| 0 <= i < n && #[trigger] kept(query, keys[i]) implies cur
                .contains(ScoredIndex { index: i as u32, score: score_of(query, keys[i]) }) by {
                if i < n - 1 {
                    assert(prev.contains(
                        ScoredIndex { index: i as u32, score: score_of(query, keys[i]) },
                    ));
                }
            }
        } else {
            assert(cur == prev);
        }
    }
}

/// For a non-empty query, every ranked candidate carries the score of its own
/// key, that score strictly exceeds the threshold, the ranking is strictly
/// ordered (descending score key, ties by ascending original index), and
/// every candidate above the threshold appears.
pub proof fn lemma_rank_spec_sound(query: Seq<char>, keys: Seq<Seq<char>>)
    requires
        query.len() > 0,
        keys.len() <= u32::MAX,
    ensures
        rank_spec(query, keys).len() <= keys.len(),
        ranked_sorted(rank_spec(query, keys)),
        forall|k: int|
            0 <= k < rank_spec(query, keys).len() ==> {
                let e = #[trigger] rank_spec(query, keys)[k];
                e.index < keys.len() && e.score == score_of(
                    lower_of(query),
                    keys[e.index as int],
                ) && e.score > score_threshold(lower_of(query))
            },
        forall|i: int|
            0 <= i < keys.len() && #[trigger] kept(lower_of(query), keys[i]) ==> rank_spec(
                query,
                keys,
            ).contains(
                ScoredIndex { index: i as u32, score: score_of(lower_of(query), keys[i]) },
            ),
{
    lemma_rank_prefix_sound(lower_of(query), keys, keys.len() as int);
}

/// The empty query ranks every candidate in store order: position `k` holds
/// original index `k`.
pub proof fn lemma_empty_query_identity(keys: Seq<Seq<char>>)
    requires
        keys.len() <= u32::MAX,
    ensures
        rank_spec(Seq::<char>::empty(), keys).len() == keys.len(),
        forall|k: int|
            0 <= k < keys.len() ==> (#[trigger] rank_spec(Seq::<char>::empty(), keys)[k]).index
                == k,
{
}

/// Which metric scores a query: at most three characters selects Jaro-Winkler
/// alone, more selects Levenshtein with the substring bonus alone.
pub proof fn lemma_score_branches(query: Seq<char>, key: Seq<char>)
    ensures
        query.len() <= 3 ==> score_of(query, key) == jaro_winkler_bits(key, query),
        query.len() > 3 ==> score_of(query, key) == lev_score_milli(key, query),
{
}

/// Inserts `x` at its rank position.
fn insert_sorted(buf: &mut Vec<ScoredIndex>, x: ScoredIndex)
    ensures
        final(buf)@ == insert_ranked(x, old(buf)@),
{
    let ghost s = buf@;
    let mut j: usize = 0;
    proof {
        assert(s.skip(0) =~= s);
        assert(s.take(0) + insert_ranked(x, s.skip(0)) =~= insert_ranked(x, s));
    }
    while j < buf.len() && !(x.score > buf[j].score || (x.score == buf[j].score && x.index
        < buf[j].index))
        invariant
            j <= s.len(),
            buf@ == s,
            insert_ranked(x, s) == s.take(j as int) + insert_ranked(x, s.skip(j as int)),
            forall|k: int| 0 <= k < j ==> !ranked_before(x, s[k]),
        decreases s.len() - j,
    {
        proof {
            assert(s.skip(j as int)[0] == s[j as int]);
            assert(s.skip(j as int).drop_first() =~= s.skip(j + 1 as int));
            assert(insert_ranked(x, s.skip(j as int)) == seq![s[j as int]] + insert_ranked(
                x,
                s.skip(j + 1 as int),
            ));
            assert(s.take(j as int) + (seq![s[j as int]] + insert_ranked(x, s.skip(j + 1 as int)))
                =~= s.take(j + 1 as int) + insert_ranked(x, s.skip(j + 1 as int)));
        }
        j = j + 1;
    }
    proof {
        if j == s.len() {
            assert(s.skip(j as int) =~= Seq::<ScoredIndex>::empty());
            assert(insert_ranked(x, s.skip(j as int)) == seq![x]);
        } else {
            assert(ranked_before(x, s.skip(j as int)[0]));
            assert(insert_ranked(x, s.skip(j as int)) == seq![x] + s.skip(j as int));
        }
        assert(s.insert(j as int, x) =~= s.take(j as int) + insert_ranked(x, s.skip(j as int)));
    }
    buf.insert(j, x);
}

/// Ranks every key against `query`: the identity ranking for an empty query,
/// otherwise exactly the kept candidates in descending score order (ties by
/// ascending index).
pub fn rank(query: &str, keys: &Vec<String>) -> (r: Vec<ScoredIndex>)
    requires
        keys@.len() <= u32::MAX,
    ensures
        r@ == rank_spec(query@, keys.deep_view()),
{
    let ghost keysv = keys.deep_view();
    proof {
        assert(keysv.len() == keys@.len());
    }
    let n = keys.len();
    if query.is_empty() {
        let mut r: Vec<ScoredIndex> = Vec::new();
        let mut i: usize = 0;
        while i < n
            invariant
                i <= n,
                n == keysv.len(),
                n <= u32::MAX,
                r@ == identity_ranking(i as int),
            decreases n - i,
        {
            r.push(ScoredIndex { index: i as u32, score: 0 });
            proof {
                assert(identity_ranking(i + 1 as int) =~= identity_ranking(i as int).push(
                    ScoredIndex { index: i as u32, score: 0 },
                ));
            }
            i = i + 1;
        }
        r
    } else {
        let q_l = lowercase(query);
        let ghost lq = lower_of(query@);
        let q_chars = chars_of(q_l.as_str());
        let qlen = q_chars.len();
        let short = qlen <= 3;
        let mut buf: Vec<ScoredIndex> = Vec::new();
        let mut i: usize = 0;
        proof {
            assert(buf@ == rank_prefix(lq, keysv, 0));
        }
        while i < n
            invariant
                i <= n,
                keysv == keys.deep_view(),
                n == keysv.len(),
                n == keys@.len(),
                n <= u32::MAX,
                q_l@ == lq,
                q_chars@ == lq,
                qlen == lq.len(),
                short == (lq.len() <= 3),
                buf@ == rank_prefix(lq, keysv, i as int),
            decreases n - i,
        {
            let key = &keys[i];
            proof {
                assert(keysv[i as int] == keys@[i as int]@);
            }
            let sc: u64;
            let thr: u64;
            if short {
                sc = jaro_winkler_key(key.as_str(), q_l.as_str());
                thr = JW_THRESHOLD_BITS;
            } else {
                let d = levenshtein_distance(key.as_str(), q_l.as_str());
                let klen = key.as_str().unicode_len();
                let m = if klen >= qlen {
                    klen
                } else {
                    qlen
                };
                proof {
                    lemma_lev_le_max(key@, lq);
                }
                let diff = m - d;
                let num: u128 = 1000u128 * (diff as u128);
                let den: u128 = m as u128;
                let base128: u128 = num / den;
                proof {
                    lemma_div_is_ordered(num as int, 1000 * (m as int), m as int);
                    lemma_div_multiples_vanish(1000, m as int);
                    assert(base128 <= 1000);
                }
                let base: u64 = base128 as u64;
                let kc = chars_of(key.as_str());
                let has = contains_chars(&kc, &q_chars);
                sc = if has {
                    base + 500
                } else {
                    base
                };
                thr = LEV_THRESHOLD_MILLI;
                proof {
                    assert(sc == lev_score_milli(keysv[i as int], lq));
                }
            }
            proof {
                assert(sc == score_of(lq, keysv[i as int]));
                assert(thr == score_threshold(lq));
            }
            if sc > thr {
                insert_sorted(&mut buf, ScoredIndex { index: i as u32, score: sc });
            }
            i = i + 1;
        }
        buf
    }
}

/// Ranks every key against `query` and keeps the original indices alone.
pub fn rank_indices(query: &str, keys: &Vec<String>) -> (r: Vec<u32>)
    requires
        keys@.len() <= u32::MAX,
    ensures
        r@ == rank_indices_spec(query@, keys.deep_view()),
{
    let scored = rank(query, keys);
    let mut r: Vec<u32> = Vec::new();
    let mut i: usize = 0;
    while i < scored.len()
        invariant
            i <= scored@.len(),
            r@ == scored@.map_values(|e: ScoredIndex| e.index).take(i as int),
        decreases scored@.len() - i,
    {
        r.push(scored[i].index);
        proof {
            let m = scored@.map_values(|e: ScoredIndex| e.index);
            assert(m.take(i + 1 as int) =~= m.take(i as int).push(m[i as int]));
        }
        i = i + 1;
    }
    proof {
        let m = scored@.map_values(|e: ScoredIndex| e.index);
        assert(m.take(m.len() as int) =~= m);
    }
    r
}

} // verus!
