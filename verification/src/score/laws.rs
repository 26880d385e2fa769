//! Properties of repository cards and profile scores that hold for every
//! input.
use vstd::prelude::*;

use crate::api::types::{GithubData, Repository};
use crate::order::{
    is_rank_descending, lemma_sort_descending, lemma_sort_keeps_each_rank, lemma_sort_len, of_rank,
    rank_fn, rank_is, sort_by_rank,
};
use crate::score::rules::{
    advice_of, all_advice, average_score, breakdown_of, days_since_push,
    failed_check_advice, is_actionable, only_if, praise, profile_advice, profile_completeness_of,
    advice, early_advice, early_items, grade_of, has_license, is_described, issues_resolved,
    late_advice, profile_of, recency_advice, recency_item, score_of, score_sum, summary_of, top_names, total_points,
    without_repeats,
};
use crate::score::{ProfileScoreView, RecView, Recommendation, RepoScoreView, ScoredName, Severity};
use crate::text::{decimal, signed_decimal};

verus! {

/// A repository card scores between 0 and 100 out of a maximum of 100, and
/// its score is the sum of the points of its eleven checks.
pub proof fn law_card_score_bounds(repo: Repository, now: i64)
    ensures
        0 <= score_of(repo, now).score <= 100,
        score_of(repo, now).max_score == 100,
        score_of(repo, now).score == total_points(repo, now),
        score_of(repo, now).breakdown.len() == 11,
        total_points(repo, now) == {
            let b = breakdown_of(repo, now);
            b[0].points + b[1].points + b[2].points + b[3].points + b[4].points + b[5].points
                + b[6].points + b[7].points + b[8].points + b[9].points + b[10].points
        },
{
    let b = breakdown_of(repo, now);
    assert(b.len() == 11);
    assert(0 <= total_points(repo, now) <= 100);
}

/// The weights of the checks: README 15, LICENSE 10, .gitignore 5, CI/CD 15,
/// description and topics 10, issue resolution 10, recency 10, tests 10,
/// CONTRIBUTING 5, code of conduct 5, stars 5; together 100.
pub proof fn law_check_weights(repo: Repository, now: i64)
    ensures
        ({
            let b = breakdown_of(repo, now);
            &&& b[0].max_points == 15
            &&& b[1].max_points == 10
            &&& b[2].max_points == 5
            &&& b[3].max_points == 15
            &&& b[4].max_points == 10
            &&& b[5].max_points == 10
            &&& b[6].max_points == 10
            &&& b[7].max_points == 10
            &&& b[8].max_points == 5
            &&& b[9].max_points == 5
            &&& b[10].max_points == 5
            &&& forall|i: int| 0 <= i < 11 ==> 0 <= #[trigger] b[i].points <= b[i].max_points
        }),
{
    let b = breakdown_of(repo, now);
    assert(b.len() == 11);
}

/// Adding a README to a repository that has none raises its score by 15.
pub proof fn law_readme_adds_15(repo: Repository, with: Repository, now: i64)
    requires
        !repo.has_readme,
        with == (Repository { has_readme: true, ..repo }),
    ensures
        score_of(with, now).score == score_of(repo, now).score + 15,
{
}

/// Adding a license to a repository that has none raises its score by 10.
pub proof fn law_license_adds_10(repo: Repository, with: Repository, now: i64)
    requires
        repo.license is None,
        with.license is Some,
        with == (Repository { license: with.license, ..repo }),
    ensures
        score_of(with, now).score == score_of(repo, now).score + 10,
{
}

/// Adding CI/CD to a repository that has none raises its score by 15.
pub proof fn law_ci_adds_15(repo: Repository, with: Repository, now: i64)
    requires
        !repo.has_ci,
        with == (Repository { has_ci: true, ..repo }),
    ensures
        score_of(with, now).score == score_of(repo, now).score + 15,
{
}

/// The recency check gives 10 points to a push less than 30 days old, 5 to
/// one less than 90 days old, and none otherwise (nor without any push).
pub proof fn law_recency_points(repo: Repository, now: i64)
    ensures
        ({
            let d = days_since_push(repo, now);
            let item = breakdown_of(repo, now)[6];
            &&& item == recency_item(d)
            &&& d < 30 ==> item.points == 10
            &&& 30 <= d < 90 ==> item.points == 5
            &&& d >= 90 ==> item.points == 0 && !item.passed
            &&& repo.pushed_at is None ==> item.points == 0
        }),
{
    assert(breakdown_of(repo, now)[6] == recency_item(days_since_push(repo, now)));
}

/// Every element of a rank-sorted sequence comes from the sequence.
pub proof fn lemma_sort_contents<V>(s: Seq<V>, rank: spec_fn(V) -> int)
    ensures
        forall|i: int|
            0 <= i < sort_by_rank(s, rank).len() ==> s.contains(#[trigger] sort_by_rank(s, rank)[i]),
    decreases s.len(),
{
    if s.len() > 0 {
        let t = sort_by_rank(s.drop_last(), rank);
        lemma_sort_contents(s.drop_last(), rank);
        crate::order::lemma_first_below(t, rank(s.last()), rank);
        let p = crate::order::first_below(t, rank(s.last()), rank);
        assert forall|i: int|
            0 <= i < sort_by_rank(s, rank).len() implies s.contains(
            #[trigger] sort_by_rank(s, rank)[i],
        ) by {
            let r = sort_by_rank(s, rank);
            if i < p {
                assert(r[i] == t[i]);
                let k = choose|k: int| 0 <= k < s.drop_last().len() && s.drop_last()[k] == t[i];
                assert(s[k] == t[i]);
            } else if i == p {
                assert(r[i] == s[s.len() - 1]);
            } else {
                assert(r[i] == t[i - 1]);
                let k = choose|k: int| 0 <= k < s.drop_last().len() && s.drop_last()[k] == t[i - 1];
                assert(s[k] == t[i - 1]);
            }
        }
    }
}

/// Advice for a failed check: worth at least 5 points, and no praise.
pub open spec fn is_check_advice(r: RecView) -> bool {
    r.impact >= 5 && r.severity != Severity::Good
}

/// Every element of `s` is advice for a failed check.
pub open spec fn all_check_advice(s: Seq<RecView>) -> bool {
    forall|i: int| 0 <= i < s.len() ==> is_check_advice(#[trigger] s[i])
}

/// Joining two sequences of check advice gives check advice.
pub broadcast proof fn lemma_check_advice_join(a: Seq<RecView>, b: Seq<RecView>)
    requires
        all_check_advice(a),
        all_check_advice(b),
    ensures
        #[trigger] all_check_advice(a + b),
{
    assert forall|i: int| 0 <= i < (a + b).len() implies is_check_advice(#[trigger] (a + b)[i]) by {
        if i < a.len() {
            assert((a + b)[i] == a[i]);
        } else {
            assert((a + b)[i] == b[i - a.len()]);
        }
    }
}

/// Optional advice is check advice when its one element is.
pub broadcast proof fn lemma_check_advice_one(c: bool, r: RecView)
    requires
        is_check_advice(r),
    ensures
        #[trigger] all_check_advice(only_if(c, r)),
{
}

/// Every piece of advice for a failed check is worth at least 5 points and
/// is not praise.
proof fn lemma_failed_advice_impact(repo: Repository, now: i64)
    ensures
        all_check_advice(failed_check_advice(repo, now)),
{
    broadcast use {lemma_check_advice_join, lemma_check_advice_one};

    assert(all_check_advice(crate::score::rules::early_advice(repo)));
    assert(all_check_advice(crate::score::rules::recency_advice(repo, now)));
    assert(all_check_advice(crate::score::rules::late_advice(repo)));
}

/// The advice of a repository is ordered by impact, highest first; the
/// praise, worth nothing, comes last.
pub proof fn law_card_advice_by_impact(repo: Repository, now: i64)
    ensures
        is_rank_descending(advice_of(repo, now), rank_fn::<Recommendation>()),
{
    let s = failed_check_advice(repo, now);
    let rank = rank_fn::<Recommendation>();
    let sorted = sort_by_rank(s, rank);
    lemma_sort_descending(s, rank);
    lemma_sort_contents(s, rank);
    lemma_failed_advice_impact(repo, now);
    let score = total_points(repo, now);
    let all = advice_of(repo, now);
    assert(all == sorted + only_if(score >= 90, praise(repo, score)));
    assert forall|i: int, j: int| 0 <= i < j < all.len() implies rank(#[trigger] all[i]) >= rank(
        #[trigger] all[j],
    ) by {
        if j < sorted.len() {
            assert(all[i] == sorted[i] && all[j] == sorted[j]);
        } else {
            assert(all[j] == praise(repo, score));
            assert(all[i] == sorted[i]);
            assert(s.contains(sorted[i]));
            let k = choose|k: int| 0 <= k < s.len() && s[k] == sorted[i];
            assert(is_check_advice(s[k]));
        }
    }
}

/// Ordering advice by impact neither drops, adds nor reorders the advice of
/// any one impact: for every impact, the advice with that impact comes in
/// the order of the checks.
pub proof fn law_card_advice_keeps_check_order(repo: Repository, now: i64, impact: int)
    ensures
        of_rank(
            sort_by_rank(failed_check_advice(repo, now), rank_fn::<Recommendation>()),
            impact,
            rank_fn::<Recommendation>(),
        ) == of_rank(failed_check_advice(repo, now), impact, rank_fn::<Recommendation>()),
{
    lemma_sort_keeps_each_rank(failed_check_advice(repo, now), impact, rank_fn::<Recommendation>());
}

/// A card ends with the praise exactly when it scores at least 90.
pub proof fn law_praise_iff_excellent(repo: Repository, now: i64)
    ensures
        ({
            let recs = score_of(repo, now).recommendations;
            let score = total_points(repo, now);
            &&& score >= 90 ==> recs.len() > 0 && recs.last() == praise(repo, score)
                && recs.last().severity == Severity::Good
            &&& score < 90 ==> forall|i: int|
                0 <= i < recs.len() ==> (#[trigger] recs[i]).severity != Severity::Good
        }),
{
    let s = failed_check_advice(repo, now);
    let rank = rank_fn::<Recommendation>();
    let sorted = sort_by_rank(s, rank);
    lemma_sort_contents(s, rank);
    lemma_failed_advice_impact(repo, now);
    let score = total_points(repo, now);
    let recs = score_of(repo, now).recommendations;
    if score < 90 {
        assert(recs =~= sorted);
        assert forall|i: int| 0 <= i < recs.len() implies (#[trigger] recs[i]).severity
            != Severity::Good by {
            assert(s.contains(sorted[i]));
            let k = choose|k: int| 0 <= k < s.len() && s[k] == sorted[i];
            assert(is_check_advice(s[k]));
        }
    } else {
        assert(recs == sorted + seq![praise(repo, score)]);
    }
}

/// The completeness of a profile is between 0 and 100.
pub proof fn law_completeness_bounds(data: GithubData)
    ensures
        0 <= profile_completeness_of(data) <= 100,
{
}

/// The completeness of a profile is a multiple of ten.
pub proof fn law_completeness_steps_of_ten(data: GithubData)
    ensures
        profile_completeness_of(data) % 10 == 0,
{
}

/// With cards scoring at most 100, the average and the overall score are
/// at most 100; the overall score is 60% of the average repository score
/// plus 40% of the profile completeness, rounded down.
pub proof fn law_overall_bounds(data: GithubData, cards: Seq<RepoScoreView>)
    requires
        forall|i: int| 0 <= i < cards.len() ==> (#[trigger] cards[i]).score <= 100,
    ensures
        profile_of(data, cards).avg_repo_score <= 100,
        profile_of(data, cards).overall <= 100,
        profile_of(data, cards).overall == (3 * average_score(cards) + 2 * profile_completeness_of(
            data,
        )) / 5,
{
    lemma_score_sum_at_most_100(cards);
    if cards.len() > 0 {
        let n = cards.len() as int;
        let sum = score_sum(cards);
        assert(sum / n <= 100) by (nonlinear_arith)
            requires
                0 <= sum <= 100 * n,
                n > 0,
        ;
    }
}

proof fn lemma_score_sum_at_most_100(cards: Seq<RepoScoreView>)
    requires
        forall|i: int| 0 <= i < cards.len() ==> (#[trigger] cards[i]).score <= 100,
    ensures
        0 <= score_sum(cards) <= 100 * cards.len(),
    decreases cards.len(),
{
    if cards.len() > 0 {
        let rest = cards.drop_last();
        assert forall|i: int| 0 <= i < rest.len() implies (#[trigger] rest[i]).score <= 100 by {
            assert(rest[i] == cards[i]);
        }
        lemma_score_sum_at_most_100(rest);
        assert(cards.last() == cards[cards.len() - 1]);
    }
}

/// The top list names at most five repositories, best score first.
pub proof fn law_top_repos(cards: Seq<RepoScoreView>)
    ensures
        top_names(cards).len() <= 5,
        top_names(cards).len() == if cards.len() > 5 {
            5
        } else {
            cards.len()
        },
        is_rank_descending(
            sort_by_rank(crate::score::rules::named_scores(cards), rank_fn::<ScoredName>()),
            rank_fn::<ScoredName>(),
        ),
{
    let named = crate::score::rules::named_scores(cards);
    lemma_sort_len(named, rank_fn::<ScoredName>());
    lemma_sort_descending(named, rank_fn::<ScoredName>());
}

/// `without_repeats` is never longer than its input, and of a nonempty
/// input it keeps an element last whose message is that of the input's last.
pub proof fn lemma_without_repeats_last(s: Seq<RecView>)
    ensures
        without_repeats(s).len() <= s.len(),
        s.len() > 0 ==> without_repeats(s).len() > 0 && without_repeats(s).last().message
            == s.last().message,
    decreases s.len(),
{
    if s.len() > 0 {
        lemma_without_repeats_last(s.drop_last());
    }
}

/// Every element that `without_repeats` keeps comes from its input.
pub proof fn lemma_without_repeats_from(s: Seq<RecView>)
    ensures
        forall|i: int|
            0 <= i < without_repeats(s).len() ==> exists|k: int|
                0 <= k < s.len() && s[k] == #[trigger] without_repeats(s)[i],
    decreases s.len(),
{
    if s.len() > 0 {
        let rest = s.drop_last();
        lemma_without_repeats_from(rest);
        let d = without_repeats(rest);
        let r = without_repeats(s);
        assert forall|i: int| 0 <= i < r.len() implies exists|k: int|
            0 <= k < s.len() && s[k] == #[trigger] r[i] by {
            if i < d.len() {
                assert(r[i] == d[i]);
                let k = choose|k: int| 0 <= k < rest.len() && rest[k] == #[trigger] d[i];
                assert(s[k] == r[i]);
            } else {
                assert(r[i] == s[s.len() - 1]);
            }
        }
    }
}

/// No element that `without_repeats` keeps has the message of the one kept
/// just before it.
pub proof fn lemma_without_repeats_distinct_neighbours(s: Seq<RecView>)
    ensures
        forall|i: int|
            0 < i < without_repeats(s).len() ==> (#[trigger] without_repeats(s)[i]).message
                != without_repeats(s)[i - 1].message,
    decreases s.len(),
{
    if s.len() > 0 {
        let rest = s.drop_last();
        lemma_without_repeats_distinct_neighbours(rest);
        lemma_without_repeats_last(rest);
        let d = without_repeats(rest);
        let r = without_repeats(s);
        if !(s.len() >= 2 && s[s.len() - 1].message == s[s.len() - 2].message) {
            assert(r == d.push(s.last()));
            assert forall|i: int| 0 < i < r.len() implies (#[trigger] r[i]).message != r[i
                - 1].message by {
                if i < d.len() {
                    assert(r[i] == d[i] && r[i - 1] == d[i - 1]);
                } else {
                    assert(r[i] == s.last());
                    assert(r[i - 1] == d.last());
                    assert(rest.last() == s[s.len() - 2]);
                    assert(d.last().message == rest.last().message);
                }
            }
        }
    }
}

/// The advice list of a profile holds no praise.
proof fn lemma_profile_advice_no_praise(cards: Seq<RepoScoreView>)
    ensures
        forall|i: int|
            0 <= i < profile_advice(cards).len() ==> (#[trigger] profile_advice(cards)[i]).severity
                != Severity::Good,
{
    let rank = rank_fn::<Recommendation>();
    let f = all_advice(cards).filter(is_actionable());
    let sorted = sort_by_rank(f, rank);
    let a = without_repeats(sorted);
    lemma_sort_contents(f, rank);
    lemma_without_repeats_from(sorted);
    assert forall|i: int| 0 <= i < a.len() implies (#[trigger] a[i]).severity != Severity::Good by {
        let k = choose|k: int| 0 <= k < sorted.len() && sorted[k] == #[trigger] a[i];
        assert(f.contains(sorted[k]));
        let m = choose|m: int| 0 <= m < f.len() && f[m] == sorted[k];
        all_advice(cards).lemma_filter_pred(is_actionable(), m);
    }
}

/// The advice list of a profile is ordered by impact, highest first.
proof fn lemma_profile_advice_descending(cards: Seq<RepoScoreView>)
    ensures
        is_rank_descending(profile_advice(cards), rank_fn::<Recommendation>()),
{
    let rank = rank_fn::<Recommendation>();
    let f = all_advice(cards).filter(is_actionable());
    let sorted = sort_by_rank(f, rank);
    let a = without_repeats(sorted);
    lemma_sort_descending(f, rank);
    lemma_without_repeats_keeps_order(sorted);
    assert forall|i: int, j: int| 0 <= i < j < a.len() implies rank(#[trigger] a[i]) >= rank(
        #[trigger] a[j],
    ) by {
        let (p, q) = choose|p: int, q: int|
            0 <= p < q < sorted.len() && sorted[p] == #[trigger] a[i] && sorted[q] == #[trigger] a[j];
        assert(rank(sorted[p]) >= rank(sorted[q]));
    }
}

/// The advice list of a profile holds no praise, is ordered by impact
/// (highest first), and never repeats a message twice in a row.
pub proof fn law_profile_advice(cards: Seq<RepoScoreView>)
    ensures
        ({
            let a = profile_advice(cards);
            &&& forall|i: int| 0 <= i < a.len() ==> (#[trigger] a[i]).severity != Severity::Good
            &&& is_rank_descending(a, rank_fn::<Recommendation>())
            &&& forall|i: int| 0 < i < a.len() ==> (#[trigger] a[i]).message != a[i - 1].message
        }),
{
    lemma_profile_advice_no_praise(cards);
    lemma_profile_advice_descending(cards);
    lemma_without_repeats_distinct_neighbours(
        sort_by_rank(all_advice(cards).filter(is_actionable()), rank_fn::<Recommendation>()),
    );
}

/// `without_repeats` keeps elements in their order: any two kept elements
/// come from increasing positions.
pub proof fn lemma_without_repeats_keeps_order(s: Seq<RecView>)
    ensures
        forall|i: int, j: int|
            0 <= i < j < without_repeats(s).len() ==> exists|p: int, q: int|
                0 <= p < q < s.len() && s[p] == #[trigger] without_repeats(s)[i] && s[q]
                    == #[trigger] without_repeats(s)[j],
    decreases s.len(),
{
    if s.len() > 0 {
        let rest = s.drop_last();
        lemma_without_repeats_keeps_order(rest);
        lemma_without_repeats_from(rest);
        let d = without_repeats(rest);
        let r = without_repeats(s);
        assert forall|i: int, j: int| 0 <= i < j < r.len() implies exists|p: int, q: int|
            0 <= p < q < s.len() && s[p] == #[trigger] r[i] && s[q] == #[trigger] r[j] by {
            if j < d.len() {
                assert(r[i] == d[i] && r[j] == d[j]);
                let (p, q) = choose|p: int, q: int|
                    0 <= p < q < rest.len() && rest[p] == d[i] && rest[q] == d[j];
                assert(s[p] == r[i] && s[q] == r[j]);
            } else {
                assert(r[j] == s[s.len() - 1]);
                assert(r[i] == d[i]);
                let k = choose|k: int| 0 <= k < rest.len() && rest[k] == #[trigger] d[i];
                assert(s[k] == r[i]);
            }
        }
    }
}

/// The grade in the summary text is the grade of the overall score: the
/// letter that `grade` gives, right after `/100 (Grade: `.
pub proof fn law_summary_shows_grade(p: ProfileScoreView)
    ensures
        ({
            let head = "Developer Health Score: "@ + decimal(p.overall as nat) + "/100 (Grade: "@;
            summary_of(p).subrange(head.len() as int, (head.len() + grade_of(p.overall).len()) as int)
                == grade_of(p.overall)
        }),
{
    let head = "Developer Health Score: "@ + decimal(p.overall as nat) + "/100 (Grade: "@;
    let g = grade_of(p.overall);
    let rest = summary_of(p).skip((head.len() + g.len()) as int);
    assert(summary_of(p) =~= head + g + rest);
    assert(summary_of(p).subrange(head.len() as int, (head.len() + g.len()) as int) =~= g);
}

/// The grade is one letter per band of ten points: S from 90 to 100, A in
/// the eighties, B in the seventies, C in the sixties, D in the fifties, and
/// F below 50 (or above 100).
pub proof fn law_grade_bands(score: u8)
    ensures
        grade_of(score) == "S"@ <==> 90 <= score <= 100,
        grade_of(score) == "A"@ <==> 80 <= score <= 89,
        grade_of(score) == "B"@ <==> 70 <= score <= 79,
        grade_of(score) == "C"@ <==> 60 <= score <= 69,
        grade_of(score) == "D"@ <==> 50 <= score <= 59,
        grade_of(score) == "F"@ <==> score < 50 || score > 100,
{
    reveal_strlit("S");
    reveal_strlit("A");
    reveal_strlit("B");
    reveal_strlit("C");
    reveal_strlit("D");
    reveal_strlit("F");
    let letters = seq!["S"@, "A"@, "B"@, "C"@, "D"@, "F"@];
    assert forall|i: int, j: int| 0 <= i < j < 6 implies #[trigger] letters[i] != #[trigger] letters[j]
        by {
        assert(letters[i][0] != letters[j][0]);
    }
    assert(letters[0] != letters[1] && letters[0] != letters[2] && letters[0] != letters[3]
        && letters[0] != letters[4] && letters[0] != letters[5]);
    assert(letters[1] != letters[2] && letters[1] != letters[3] && letters[1] != letters[4]
        && letters[1] != letters[5]);
    assert(letters[2] != letters[3] && letters[2] != letters[4] && letters[2] != letters[5]);
    assert(letters[3] != letters[4] && letters[3] != letters[5] && letters[4] != letters[5]);
}

/// Concatenating two sequences that lack `x` gives a sequence that lacks it.
proof fn lemma_concat_lacks<V>(a: Seq<V>, b: Seq<V>, x: V)
    requires
        !a.contains(x),
        !b.contains(x),
    ensures
        !(a + b).contains(x),
{
    if (a + b).contains(x) {
        let k = choose|k: int| 0 <= k < (a + b).len() && (a + b)[k] == x;
        if k < a.len() {
            assert(a[k] == x);
        } else {
            assert(b[k - a.len()] == x);
        }
    }
}

/// Optional advice holds only its one piece of advice.
proof fn lemma_only_if_lacks(c: bool, r: RecView, x: RecView)
    requires
        !c || r != x,
    ensures
        !only_if(c, r).contains(x),
{
    if only_if(c, r).contains(x) {
        let k = choose|k: int| 0 <= k < only_if(c, r).len() && only_if(c, r)[k] == x;
        assert(only_if(c, r)[k] == r);
    }
}

/// A repository without both a description and a topic is advised to add
/// them.
proof fn lemma_undescribed_gets_tip(repo: Repository, now: i64)
    requires
        !(repo.description is Some && repo.topics@.len() > 0),
    ensures
        advice_of(repo, now).contains(RecView {
            severity: Severity::Warning,
            message: "Add description and topics to "@ + repo.name@ + " for discoverability"@,
            impact: 10,
        }),
{
    let name = repo.name@;
    let tip = RecView {
        severity: Severity::Warning,
        message: "Add description and topics to "@ + name + " for discoverability"@,
        impact: 10,
    };
    let s = failed_check_advice(repo, now);
    let rank = rank_fn::<Recommendation>();
    let sorted = sort_by_rank(s, rank);
    let score = total_points(repo, now);
    let all = advice_of(repo, now);
    assert(all == sorted + only_if(score >= 90, praise(repo, score)));
    let e1 = only_if(!repo.has_readme, advice(Severity::Critical, "Add a README.md to "@ + name
        + " — first thing visitors see"@, 15));
    let e2 = only_if(!has_license(repo), advice(Severity::Critical, "Add a LICENSE to "@ + name
        + " (MIT recommended for open-source adoption)"@, 10));
    let e3 = only_if(!repo.has_gitignore, advice(Severity::Warning, "Add .gitignore to "@ + name
        + " to avoid committing build artifacts"@, 5));
    let e4 = only_if(!repo.has_ci, advice(Severity::Critical, "Add CI/CD to "@ + name
        + " — create .github/workflows/ci.yml"@, 15));
    let e5 = only_if(!is_described(repo), tip);
    let issues = advice(Severity::Warning, name
        + " has many open issues — consider triaging and closing stale ones"@, 10);
    let e6 = only_if(!issues_resolved(repo), issues);
    assert(early_advice(repo) == e1 + e2 + e3 + e4 + e5 + e6);
    let rec = recency_advice(repo, now);
    assert(s == early_advice(repo) + rec + late_advice(repo));
    let pre = e1 + e2 + e3 + e4;
    assert(e5 == seq![tip]);
    assert(early_advice(repo)[pre.len() as int] == tip);
    assert(s[pre.len() as int] == tip);
    let pred = rank_is(rank, 10);
    assert(pred(tip));
    s.lemma_filter_contains(pred, pre.len() as int);
    lemma_sort_keeps_each_rank(s, 10, rank);
    assert(of_rank(sorted, 10, rank).contains(tip));
    sorted.lemma_filter_contains_rev(pred, tip);
    let k = choose|k: int| 0 <= k < sorted.len() && sorted[k] == tip;
    assert(all[k] == tip);
}

/// A repository with a description and a topic gets no advice to add them.
#[verifier::rlimit(30)]
proof fn lemma_described_gets_no_tip(repo: Repository, now: i64)
    requires
        repo.description is Some && repo.topics@.len() > 0,
    ensures
        !advice_of(repo, now).contains(RecView {
            severity: Severity::Warning,
            message: "Add description and topics to "@ + repo.name@ + " for discoverability"@,
            impact: 10,
        }),
{
    let name = repo.name@;
    let tip = RecView {
        severity: Severity::Warning,
        message: "Add description and topics to "@ + name + " for discoverability"@,
        impact: 10,
    };
    let s = failed_check_advice(repo, now);
    let rank = rank_fn::<Recommendation>();
    let sorted = sort_by_rank(s, rank);
    let score = total_points(repo, now);
    let all = advice_of(repo, now);
    assert(all == sorted + only_if(score >= 90, praise(repo, score)));
    let e1 = only_if(!repo.has_readme, advice(Severity::Critical, "Add a README.md to "@ + name
        + " — first thing visitors see"@, 15));
    let e2 = only_if(!has_license(repo), advice(Severity::Critical, "Add a LICENSE to "@ + name
        + " (MIT recommended for open-source adoption)"@, 10));
    let e3 = only_if(!repo.has_gitignore, advice(Severity::Warning, "Add .gitignore to "@ + name
        + " to avoid committing build artifacts"@, 5));
    let e4 = only_if(!repo.has_ci, advice(Severity::Critical, "Add CI/CD to "@ + name
        + " — create .github/workflows/ci.yml"@, 15));
    let e5 = only_if(!is_described(repo), tip);
    let issues = advice(Severity::Warning, name
        + " has many open issues — consider triaging and closing stale ones"@, 10);
    let e6 = only_if(!issues_resolved(repo), issues);
    assert(early_advice(repo) == e1 + e2 + e3 + e4 + e5 + e6);
    let tests = advice(Severity::Warning, "Add tests to "@ + name + " — no tests/ directory found"@, 10);
    let l1 = only_if(!repo.has_tests, tests);
    let l2 = only_if(!repo.has_contributing, advice(Severity::Info, "Add CONTRIBUTING.md to "@
        + name + " to guide contributors"@, 5));
    let l3 = only_if(!repo.has_code_of_conduct, advice(Severity::Info, "Add CODE_OF_CONDUCT.md to "@
        + name + " for community health"@, 5));
    let l4 = only_if(repo.stargazers_count == 0, advice(Severity::Info, name
        + " has no stars yet — promote it!"@, 5));
    assert(late_advice(repo) == l1 + l2 + l3 + l4);
    let rec = recency_advice(repo, now);
    assert(s == early_advice(repo) + rec + late_advice(repo));
    reveal_strlit("Add description and topics to ");
    reveal_strlit(" for discoverability");
    reveal_strlit(" has many open issues — consider triaging and closing stale ones");
    reveal_strlit("Add tests to ");
    assert(issues.message.len() != tip.message.len());
    assert(tests.message[4] != tip.message[4]);
    lemma_only_if_lacks(!repo.has_readme, advice(Severity::Critical, "Add a README.md to "@
        + name + " — first thing visitors see"@, 15), tip);
    lemma_only_if_lacks(!has_license(repo), advice(Severity::Critical, "Add a LICENSE to "@
        + name + " (MIT recommended for open-source adoption)"@, 10), tip);
    lemma_only_if_lacks(!repo.has_gitignore, advice(Severity::Warning, "Add .gitignore to "@
        + name + " to avoid committing build artifacts"@, 5), tip);
    lemma_only_if_lacks(!repo.has_ci, advice(Severity::Critical, "Add CI/CD to "@ + name
        + " — create .github/workflows/ci.yml"@, 15), tip);
    lemma_only_if_lacks(!is_described(repo), tip, tip);
    lemma_only_if_lacks(!issues_resolved(repo), issues, tip);
    lemma_only_if_lacks(!repo.has_tests, tests, tip);
    lemma_only_if_lacks(!repo.has_contributing, advice(Severity::Info,
        "Add CONTRIBUTING.md to "@ + name + " to guide contributors"@, 5), tip);
    lemma_only_if_lacks(!repo.has_code_of_conduct, advice(Severity::Info,
        "Add CODE_OF_CONDUCT.md to "@ + name + " for community health"@, 5), tip);
    lemma_only_if_lacks(repo.stargazers_count == 0, advice(Severity::Info, name
        + " has no stars yet — promote it!"@, 5), tip);
    lemma_only_if_lacks(days_since_push(repo, now) >= 90, advice(Severity::Info, repo.name@
        + " hasn't been updated in "@ + signed_decimal(days_since_push(repo, now))
        + " days — consider archiving or updating"@, 5), tip);
    lemma_concat_lacks(e1, e2, tip);
    lemma_concat_lacks(e1 + e2, e3, tip);
    lemma_concat_lacks(e1 + e2 + e3, e4, tip);
    lemma_concat_lacks(e1 + e2 + e3 + e4, e5, tip);
    lemma_concat_lacks(e1 + e2 + e3 + e4 + e5, e6, tip);
    lemma_concat_lacks(l1, l2, tip);
    lemma_concat_lacks(l1 + l2, l3, tip);
    lemma_concat_lacks(l1 + l2 + l3, l4, tip);
    lemma_concat_lacks(early_advice(repo), rec, tip);
    lemma_concat_lacks(early_advice(repo) + rec, late_advice(repo), tip);
    lemma_sort_contents(s, rank);
    if sorted.contains(tip) {
        let k = choose|k: int| 0 <= k < sorted.len() && sorted[k] == tip;
        assert(s.contains(sorted[k]));
    }
    lemma_only_if_lacks(score >= 90, praise(repo, score), tip);
    lemma_concat_lacks(sorted, only_if(score >= 90, praise(repo, score)), tip);
}

/// The "Description + Topics" check, the fifth, passes exactly when the
/// repository has a description and at least one topic: it then earns its
/// 10 points and the card gives no advice about it; a repository that lacks
/// either earns none of them and is advised to add description and topics.
pub proof fn law_description_and_topics(repo: Repository, now: i64)
    ensures
        ({
            let card = score_of(repo, now);
            let both = repo.description is Some && repo.topics@.len() > 0;
            let tip = RecView {
                severity: Severity::Warning,
                message: "Add description and topics to "@ + repo.name@ + " for discoverability"@,
                impact: 10,
            };
            &&& card.breakdown[4].label == "Description + Topics"@
            &&& card.breakdown[4].passed == both
            &&& card.breakdown[4].points == (if both {
                10i32
            } else {
                0i32
            })
            &&& card.recommendations.contains(tip) == !both
        }),
{
    assert(breakdown_of(repo, now)[4] == early_items(repo)[4]);
    if repo.description is Some && repo.topics@.len() > 0 {
        lemma_described_gets_no_tip(repo, now);
    } else {
        lemma_undescribed_gets_tip(repo, now);
    }
}

/// The instant of scoring matters only to the recency check: cards of the
/// same repository at two instants agree on the name, the maximum and every
/// other check, and their scores differ exactly by the recency points.
pub proof fn law_only_recency_depends_on_time(repo: Repository, t1: i64, t2: i64)
    ensures
        score_of(repo, t1).repo_name == score_of(repo, t2).repo_name,
        score_of(repo, t1).max_score == score_of(repo, t2).max_score,
        forall|i: int|
            0 <= i < 11 && i != 6 ==> #[trigger] score_of(repo, t1).breakdown[i] == score_of(
                repo,
                t2,
            ).breakdown[i],
        score_of(repo, t1).score - score_of(repo, t1).breakdown[6].points == score_of(repo, t2).score
            - score_of(repo, t2).breakdown[6].points,
{
    law_card_score_bounds(repo, t1);
    law_card_score_bounds(repo, t2);
}

} // verus!
