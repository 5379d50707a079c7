//! Fuzzy ranking of candidate path strings against a keyword.
//!
//! Scoring is done by the sublime-style fuzzy matcher behind a trusted
//! wrapper; everything a caller can observe — that only scored candidates
//! are returned, and that they come back sorted by descending score with
//! ties kept in discovery order — is verified here.

use vstd::prelude::*;
use vstd::seq_lib::lemma_multiset_commutative;

verus! {

broadcast use vstd::seq_lib::group_to_multiset_ensures, vstd::multiset::group_multiset_axioms;

/// What the fuzzy matcher returns for a keyword and a candidate, with the
/// fixed scoring used here: `None` when the keyword does not fully match,
/// otherwise the match score. The result depends on the two strings alone.
pub uninterp spec fn fuzzy_score_of(query: Seq<char>, target: Seq<char>) -> Option<int>;

/// A candidate string together with its computed match score.
#[derive(Debug, Clone)]
pub struct MatchString {
    pub score: isize,
    pub string: String,
}

impl MatchString {
    /// The candidate string itself (what a chooser displays).
    pub fn to_string(&self) -> (r: String)
        ensures
            r@ == self.string@,
    {
        self.string.clone()
    }
}

/// Relies on `sublime_fuzzy::FuzzySearch`: scores `query` against
/// `target`, case-insensitively, with fixed weights (50 per consecutive
/// match, no word-start bonus, 20 for matching case, no distance
/// penalty); returns `None` when the full query does not match, and in
/// particular whenever query or target is empty.
#[verifier::external_body]
fn best_match(query: &str, target: &str) -> (r: Option<isize>)
    ensures
        match r {
            Some(sc) => fuzzy_score_of(query@, target@) == Some(sc as int),
            None => fuzzy_score_of(query@, target@) is None,
        },
        query@.len() == 0 || target@.len() == 0 ==> r is None,
{
    let scoring = sublime_fuzzy::Scoring::new(50, 0, 20, 0);
    sublime_fuzzy::FuzzySearch::new(query, target)
        .score_with(&scoring)
        .case_insensitive()
        .best_match()
        .map(|m| m.score())
}

/// Whether the keyword matches a candidate at all.
pub open spec fn is_match(query: Seq<char>, target: Seq<char>) -> bool {
    fuzzy_score_of(query, target) is Some
}

/// The candidates the keyword matches, in discovery order.
pub open spec fn matched(query: Seq<char>, cands: Seq<Seq<char>>) -> Seq<Seq<char>> {
    cands.filter(|t: Seq<char>| is_match(query, t))
}

/// Scores never increase along the result.
pub open spec fn sorted_desc(r: Seq<MatchString>) -> bool {
    forall|i: int, j: int| 0 <= i < j < r.len() ==> (#[trigger] r[i]).score >= (#[trigger] r[j]).score
}

/// The candidate strings of a result list.
pub open spec fn result_strings(r: Seq<MatchString>) -> Seq<Seq<char>> {
    r.map_values(|m: MatchString| m.string@)
}

/// The scored candidates, in discovery order: one entry per matched
/// candidate, carrying the matcher's score.
pub open spec fn spec_scored(query: Seq<char>, cands: Seq<String>) -> Seq<MatchString>
    decreases cands.len(),
{
    if cands.len() == 0 {
        Seq::<MatchString>::empty()
    } else {
        spec_scored(query, cands.drop_last()) + (match fuzzy_score_of(query, cands.last()@) {
            Some(sc) => seq![MatchString { score: sc as isize, string: cands.last() }],
            None => Seq::<MatchString>::empty(),
        })
    }
}

/// Insertion into a descending run: the new element goes in front of the
/// first strictly smaller score, and so after every earlier equal score.
pub open spec fn spec_insert_desc(s: Seq<MatchString>, m: MatchString) -> Seq<MatchString>
    decreases s.len(),
{
    if s.len() == 0 {
        seq![m]
    } else if s[0].score < m.score {
        seq![m] + s
    } else {
        seq![s[0]] + spec_insert_desc(s.drop_first(), m)
    }
}

/// The first `j` scored entries, insertion-sorted by descending score.
pub open spec fn spec_sort_desc(s: Seq<MatchString>, j: int) -> Seq<MatchString>
    decreases j,
{
    if j <= 0 {
        Seq::<MatchString>::empty()
    } else {
        spec_insert_desc(spec_sort_desc(s, j - 1), s[j - 1])
    }
}

/// The full ranking: score in discovery order, then sort stably by
/// descending score.
pub open spec fn spec_rank(query: Seq<char>, cands: Seq<String>) -> Seq<MatchString> {
    spec_sort_desc(spec_scored(query, cands), spec_scored(query, cands).len() as int)
}

/// Inserting in front of the first strictly smaller score is the same as
/// inserting at that position.
proof fn lemma_insert_desc_at(s: Seq<MatchString>, m: MatchString, p: int)
    requires
        0 <= p <= s.len(),
        forall|k: int| 0 <= k < p ==> (#[trigger] s[k]).score >= m.score,
        p < s.len() ==> s[p].score < m.score,
    ensures
        spec_insert_desc(s, m) == s.insert(p, m),
    decreases s.len(),
{
    if s.len() == 0 {
        assert(s.insert(0, m) =~= seq![m]);
    } else if s[0].score < m.score {
        assert(p == 0) by {
            if p > 0 {
                assert(s[0].score >= m.score);
            }
        }
        assert(s.insert(0, m) =~= seq![m] + s);
    } else {
        assert(p >= 1) by {
            if p == 0 {
                assert(s[0].score < m.score);
            }
        }
        assert forall|k: int| 0 <= k < p - 1 implies (#[trigger] s.drop_first()[k]).score
            >= m.score by {
            assert(s.drop_first()[k] == s[k + 1]);
        }
        if p - 1 < s.drop_first().len() {
            assert(s.drop_first()[p - 1] == s[p]);
        }
        lemma_insert_desc_at(s.drop_first(), m, p - 1);
        assert(spec_insert_desc(s, m) == seq![s[0]] + s.drop_first().insert(p - 1, m));
        assert(seq![s[0]] + s.drop_first().insert(p - 1, m) =~= s.insert(p, m));
    }
}

/// Inserting into a sequence inserts into its multiset.
proof fn lemma_to_multiset_insert<A>(s: Seq<A>, i: int, x: A)
    requires
        0 <= i <= s.len(),
    ensures
        s.insert(i, x).to_multiset() == s.to_multiset().insert(x),
{
    let left = s.subrange(0, i);
    let right = s.subrange(i, s.len() as int);
    lemma_multiset_commutative(left.push(x), right);
    lemma_multiset_commutative(left, right);
    assert(s =~= left + right);
    assert(s.insert(i, x).to_multiset() =~= s.to_multiset().insert(x));
}

/// Mapping commutes with insert, pointwise.
proof fn lemma_map_values_insert(s: Seq<MatchString>, i: int, x: MatchString)
    requires
        0 <= i <= s.len(),
    ensures
        result_strings(s.insert(i, x)) == result_strings(s).insert(i, x.string@),
{
    s.insert_ensures(i, x);
    result_strings(s).insert_ensures(i, x.string@);
    assert(result_strings(s.insert(i, x)) =~= result_strings(s).insert(i, x.string@));
}

/// Scores the candidates and returns those the keyword matches, sorted by
/// descending score; equal scores keep the candidates' discovery order
/// (the result is exactly `spec_rank`, a stable insertion sort of the
/// scored candidates). Every returned entry carries the score the matcher
/// computed for its string, and the returned strings are exactly the
/// matched candidates.
pub fn rank_matches(query: &str, candidates: &Vec<String>) -> (r: Vec<MatchString>)
    ensures
        r@ == spec_rank(query@, candidates@),
        sorted_desc(r@),
        forall|i: int|
            0 <= i < r@.len() ==> fuzzy_score_of(query@, (#[trigger] r@[i]).string@) == Some(
                r@[i].score as int,
            ),
        result_strings(r@).to_multiset() == matched(
            query@,
            candidates@.map_values(|s: String| s@),
        ).to_multiset(),
{
    let ghost cand_views = candidates@.map_values(|s: String| s@);
    let n = candidates.len();
    let mut scored: Vec<MatchString> = Vec::new();
    let mut i: usize = 0;
    while i < n
        invariant
            i <= n,
            n == candidates@.len(),
            cand_views == candidates@.map_values(|s: String| s@),
            scored@ == spec_scored(query@, candidates@.take(i as int)),
            result_strings(scored@) == matched(query@, cand_views.take(i as int)),
            forall|k: int|
                0 <= k < scored@.len() ==> fuzzy_score_of(
                    query@,
                    (#[trigger] scored@[k]).string@,
                ) == Some(scored@[k].score as int),
        decreases n - i,
    {
        let ghost prev = scored@;
        match best_match(query, candidates[i].as_str()) {
            Some(sc) => {
                scored.push(MatchString { score: sc, string: candidates[i].clone() });
                proof {
                    assert((sc as int) as isize == sc);
                }
            },
            None => {},
        }
        i = i + 1;
        proof {
            reveal(Seq::filter);
            let t = cand_views.take(i as int);
            assert(t.drop_last() =~= cand_views.take(i - 1));
            assert(t.last() == cand_views[i - 1]);
            assert(cand_views[i - 1] == candidates@[i - 1]@);
            let tc = candidates@.take(i as int);
            assert(tc.drop_last() =~= candidates@.take(i - 1));
            assert(tc.last() == candidates@[i - 1]);
            if is_match(query@, cand_views[i - 1]) {
                assert(result_strings(scored@) =~= result_strings(prev).push(
                    candidates@[i - 1]@,
                ));
                assert(scored@ =~= spec_scored(query@, tc));
            } else {
                assert(result_strings(scored@) =~= result_strings(prev));
                assert(scored@ =~= spec_scored(query@, tc));
            }
        }
    }
    proof {
        assert(cand_views.take(n as int) =~= cand_views);
        assert(candidates@.take(n as int) =~= candidates@);
    }
    let m = scored.len();
    let mut out: Vec<MatchString> = Vec::new();
    let mut j: usize = 0;
    while j < m
        invariant
            j <= m,
            m == scored@.len(),
            sorted_desc(out@),
            out@.len() == j,
            out@ == spec_sort_desc(scored@, j as int),
            forall|k: int|
                0 <= k < out@.len() ==> fuzzy_score_of(query@, (#[trigger] out@[k]).string@)
                    == Some(out@[k].score as int),
            forall|k: int|
                0 <= k < scored@.len() ==> fuzzy_score_of(
                    query@,
                    (#[trigger] scored@[k]).string@,
                ) == Some(scored@[k].score as int),
            result_strings(out@).to_multiset() == result_strings(
                scored@.take(j as int),
            ).to_multiset(),
        decreases m - j,
    {
        let cur = MatchString { score: scored[j].score, string: scored[j].string.clone() };
        let ghost cur_spec = scored@[j as int];
        proof {
            assert(cur.score == cur_spec.score && cur.string@ == cur_spec.string@);
        }
        let out_len = out.len();
        let mut p: usize = 0;
        while p < out_len && out[p].score >= cur.score
            invariant
                p <= out_len,
                out_len == out@.len(),
                forall|k: int| 0 <= k < p ==> (#[trigger] out@[k]).score >= cur.score,
            decreases out_len - p,
        {
            p = p + 1;
        }
        proof {
            assert(p == out@.len() || out@[p as int].score < cur.score);
        }
        let ghost before = out@;
        out.insert(p, cur);
        j = j + 1;
        proof {
            before.insert_ensures(p as int, cur);
            assert forall|a: int, b: int|
                0 <= a < b < out@.len() implies (#[trigger] out@[a]).score >= (
            #[trigger] out@[b]).score by {
                if b < p {
                    assert(out@[a] == before[a] && out@[b] == before[b]);
                } else if a > p {
                    assert(out@[a] == before[a - 1] && out@[b] == before[b - 1]);
                } else if a == p {
                    assert(out@[b] == before[b - 1]);
                    assert(p <= b - 1 < before.len());
                    assert(before[p as int].score < cur.score);
                    assert(before[b - 1].score <= before[p as int].score);
                } else if b == p {
                    assert(out@[a] == before[a]);
                } else {
                    assert(out@[a] == before[a] && out@[b] == before[b - 1]);
                    assert(p <= b - 1 < before.len());
                    assert(before[p as int].score < cur.score);
                    assert(before[b - 1].score <= before[p as int].score);
                }
            }
            assert(out@ == before.insert(p as int, cur));
            lemma_insert_desc_at(before, cur, p as int);
            assert(out@ == spec_sort_desc(scored@, j as int));
            lemma_map_values_insert(before, p as int, cur);
            lemma_to_multiset_insert(result_strings(before), p as int, cur.string@);
            assert(scored@.take(j as int).drop_last() =~= scored@.take(j - 1));
            assert(result_strings(scored@.take(j as int)) =~= result_strings(
                scored@.take(j - 1),
            ).push(cur.string@));
            assert(fuzzy_score_of(query@, out@[p as int].string@) == Some(
                out@[p as int].score as int,
            ));
        }
    }
    proof {
        assert(scored@.take(m as int) =~= scored@);
    }
    out
}

} // verus!
