//! The developer health score: a card per repository (eleven checks worth
//! 100 points, with advice for every failed check) and a profile summary.
use vstd::prelude::*;

pub mod laws;
pub mod rules;

use crate::api::types::{derefs, owned_filter, ContributionDay, GithubData, Repository};
use crate::order::{sort_by_rank_desc, views_of, Ranked};
use crate::text::{push_decimal, push_joined, push_signed_decimal};
use rules::{
    advice, breakdown_of, check_item, days_since_push, early_advice, early_items,
    failed_check_advice, late_advice, late_items, only_if, praise, recency_advice, recency_item,
    score_of, toward_zero_div, NamedScore, points_if, early_points, late_points,
    active_days, all_advice, average_score, is_active_day, is_actionable, named_scores,
    profile_completeness_of, profile_of, score_sum, top_names, without_repeats, scored_at_some_time, summary_of, grade_of,
};

verus! {

/// How pressing a piece of advice is.
#[derive(Debug, Clone, Copy, PartialEq, Eq, Structural)]
pub enum Severity {
    Critical,
    Warning,
    Info,
    Good,
}

impl Severity {
    /// The icon shown before advice of this severity.
    pub fn icon(&self) -> (s: &'static str)
        ensures
            s@ == icon_of(*self),
    {
        match self {
            Severity::Critical => "🔴",
            Severity::Warning => "⚠️",
            Severity::Info => "ℹ️",
            Severity::Good => "✅",
        }
    }
}

/// The icon of each severity.
pub open spec fn icon_of(s: Severity) -> Seq<char> {
    match s {
        Severity::Critical => "🔴"@,
        Severity::Warning => "⚠️"@,
        Severity::Info => "ℹ️"@,
        Severity::Good => "✅"@,
    }
}

/// One check of a repository and the points it earned.
#[derive(Debug, Clone)]
pub struct ScoreItem {
    pub label: String,
    pub points: i32,
    pub max_points: i32,
    pub passed: bool,
}

/// A score item with its label as characters.
pub struct ItemView {
    pub label: Seq<char>,
    pub points: i32,
    pub max_points: i32,
    pub passed: bool,
}

impl View for ScoreItem {
    type V = ItemView;

    open spec fn view(&self) -> ItemView {
        ItemView {
            label: self.label@,
            points: self.points,
            max_points: self.max_points,
            passed: self.passed,
        }
    }
}

/// A piece of advice, with the points it would bring.
#[derive(Debug, Clone)]
pub struct Recommendation {
    pub severity: Severity,
    pub message: String,
    pub impact: i32,
}

/// A recommendation with its message as characters.
pub struct RecView {
    pub severity: Severity,
    pub message: Seq<char>,
    pub impact: i32,
}

impl View for Recommendation {
    type V = RecView;

    open spec fn view(&self) -> RecView {
        RecView { severity: self.severity, message: self.message@, impact: self.impact }
    }
}

impl Ranked for Recommendation {
    open spec fn rank_of(v: RecView) -> int {
        v.impact as int
    }

    fn rank(&self) -> (r: i64) {
        self.impact as i64
    }
}

impl Recommendation {
    /// A copy of this recommendation.
    pub fn duplicate(&self) -> (r: Recommendation)
        ensures
            r@ == self@,
    {
        Recommendation { severity: self.severity, message: self.message.clone(), impact: self.impact }
    }
}

impl ProfileScore {
    /// The three-line text summary: overall score and grade, average score,
    /// stars and forks, and the top repositories.
    pub fn summary_text(&self) -> (s: String)
        ensures
            s@ == summary_of(self@),
    {
        let mut s = "Developer Health Score: ".to_owned();
        push_decimal(&mut s, self.overall as u64);
        s.append("/100 (Grade: ");
        s.append(grade(self.overall));
        s.append(")\nAvg Repo Score: ");
        push_decimal(&mut s, self.avg_repo_score as u64);
        s.append("/100 | Stars: ");
        push_decimal(&mut s, self.total_stars as u64);
        s.append(" | Forks: ");
        push_decimal(&mut s, self.total_forks as u64);
        s.append("\nTop repos: ");
        push_joined(&mut s, &self.top_repos, ", ");
        assert(s@ =~= summary_of(self@));
        s
    }
}

/// The letter grade of an overall score: S from 90, A from 80, B from 70,
/// C from 60, D from 50, F below (and above 100).
pub fn grade(score: u8) -> (g: &'static str)
    ensures
        g@ == grade_of(score),
{
    if 90 <= score && score <= 100 {
        "S"
    } else if 80 <= score && score <= 89 {
        "A"
    } else if 70 <= score && score <= 79 {
        "B"
    } else if 60 <= score && score <= 69 {
        "C"
    } else if 50 <= score && score <= 59 {
        "D"
    } else {
        "F"
    }
}

/// The score card of one repository.
#[derive(Debug, Clone)]
pub struct RepoScore {
    pub repo_name: String,
    pub score: u8,
    pub max_score: u8,
    pub breakdown: Vec<ScoreItem>,
    pub recommendations: Vec<Recommendation>,
}

/// A score card as values.
pub struct RepoScoreView {
    pub repo_name: Seq<char>,
    pub score: u8,
    pub max_score: u8,
    pub breakdown: Seq<ItemView>,
    pub recommendations: Seq<RecView>,
}

impl View for RepoScore {
    type V = RepoScoreView;

    open spec fn view(&self) -> RepoScoreView {
        RepoScoreView {
            repo_name: self.repo_name@,
            score: self.score,
            max_score: self.max_score,
            breakdown: views_of(self.breakdown@),
            recommendations: views_of(self.recommendations@),
        }
    }
}

/// A repository name with its score, ranked by the score.
pub struct ScoredName {
    pub name: String,
    pub score: u8,
}

impl View for ScoredName {
    type V = NamedScore;

    open spec fn view(&self) -> NamedScore {
        NamedScore { name: self.name@, score: self.score }
    }
}

impl Ranked for ScoredName {
    open spec fn rank_of(v: NamedScore) -> int {
        v.score as int
    }

    fn rank(&self) -> (r: i64) {
        self.score as i64
    }
}

/// The health score of a whole profile.
#[derive(Debug, Clone)]
pub struct ProfileScore {
    pub overall: u8,
    pub repo_scores: Vec<RepoScore>,
    pub total_stars: u32,
    pub total_forks: u32,
    pub avg_repo_score: u8,
    pub top_repos: Vec<String>,
    pub all_recommendations: Vec<Recommendation>,
}

/// A profile score as values.
pub struct ProfileScoreView {
    pub overall: u8,
    pub repo_scores: Seq<RepoScoreView>,
    pub total_stars: u32,
    pub total_forks: u32,
    pub avg_repo_score: u8,
    pub top_repos: Seq<Seq<char>>,
    pub all_recommendations: Seq<RecView>,
}

impl View for ProfileScore {
    type V = ProfileScoreView;

    open spec fn view(&self) -> ProfileScoreView {
        ProfileScoreView {
            overall: self.overall,
            repo_scores: views_of(self.repo_scores@),
            total_stars: self.total_stars,
            total_forks: self.total_forks,
            avg_repo_score: self.avg_repo_score,
            top_repos: views_of(self.top_repos@),
            all_recommendations: views_of(self.all_recommendations@),
        }
    }
}

/// Computes score cards and profile scores.
pub struct Scorer;

/// Records one check: its item, and its advice when it failed.
fn record_check(
    breakdown: &mut Vec<ScoreItem>,
    recs: &mut Vec<Recommendation>,
    label: &str,
    max_points: i32,
    passed: bool,
    severity: Severity,
    lead: &str,
    name: &String,
    tail: &str,
    impact: i32,
) -> (points: i32)
    requires
        0 <= max_points <= 15,
    ensures
        points as int == points_if(passed, max_points as int),
        views_of(final(breakdown)@) == views_of(old(breakdown)@).push(
            check_item(label@, max_points, passed),
        ),
        views_of(final(recs)@) == views_of(old(recs)@) + only_if(
            !passed,
            advice(severity, lead@ + name@ + tail@, impact),
        ),
{
    let item = ScoreItem {
        label: label.to_owned(),
        points: if passed {
            max_points
        } else {
            0
        },
        max_points,
        passed,
    };
    breakdown.push(item);
    assert(views_of(breakdown@) =~= views_of(old(breakdown)@).push(
        check_item(label@, max_points, passed),
    ));
    if !passed {
        let mut message = lead.to_owned();
        message.append(name.as_str());
        message.append(tail);
        recs.push(Recommendation { severity, message, impact });
        assert(views_of(recs@) =~= views_of(old(recs)@) + only_if(
            !passed,
            advice(severity, lead@ + name@ + tail@, impact),
        ));
    } else {
        assert(views_of(recs@) =~= views_of(old(recs)@) + only_if(
            !passed,
            advice(severity, lead@ + name@ + tail@, impact),
        ));
    }
    if passed {
        max_points
    } else {
        0
    }
}

/// Whole days from `then` to `now`, rounded toward zero.
pub(crate) fn days_between(now: i64, then: i64) -> (d: i64)
    ensures
        d as int == toward_zero_div(now - then, 86400),
{
    let diff: i128 = now as i128 - then as i128;
    let q: i128 = if diff >= 0 {
        diff / 86400
    } else {
        -((-diff) / 86400)
    };
    q as i64
}

impl Scorer {
    /// A scorer.
    pub fn new() -> (s: Scorer) {
        Scorer
    }

    /// The score card of `repo`, taking the current time from the clock.
    /// It is the card that `score_repo_at` gives for some instant.
    pub fn score_repo(&self, repo: &Repository) -> (card: RepoScore)
        ensures
            scored_at_some_time(card@, *repo),
    {
        let now = crate::clock::now_timestamp();
        self.score_repo_at(repo, now)
    }

    /// How complete the profile of `data` is, out of 100.
    pub fn profile_completeness(&self, data: &GithubData) -> (score: u8)
        ensures
            score as int == profile_completeness_of(*data),
    {
        let u = &data.user;
        let mut score: u8 = 0;
        if u.name.is_some() {
            score = score + 20;
        }
        if u.bio.is_some() {
            score = score + 20;
        }
        if u.location.is_some() {
            score = score + 10;
        }
        if u.followers > 0 {
            score = score + 20;
            let followed: u32 = if u.following > 1 {
                u.following
            } else {
                1
            };
            if u.followers >= followed {
                score = score + 10;
            }
        }
        let active = count_active_days(&data.contributions);
        if active > 50 {
            score = score + 20;
        } else if active > 20 {
            score = score + 10;
        }
        if score > 100 {
            100
        } else {
            score
        }
    }

    /// The profile summary for `data` and the cards of its repositories:
    /// average and overall score, the five best repositories, and the
    /// advice of all cards in one list.
    pub fn summarize(&self, data: &GithubData, repo_scores: Vec<RepoScore>) -> (p: ProfileScore)
        ensures
            p@ == profile_of(*data, views_of(repo_scores@)),
    {
        let ghost cards = views_of(repo_scores@);
        let avg = average_of(&repo_scores);
        let profile = self.profile_completeness(data);
        let overall: u32 = (3 * (avg as u32) + 2 * (profile as u32)) / 5;
        let top_repos = top_repo_names(&repo_scores);
        let actionable = actionable_advice(&repo_scores);
        let sorted = sort_by_rank_desc(actionable);
        let all_recommendations = without_repeated_messages(&sorted);
        let p = ProfileScore {
            overall: overall as u8,
            repo_scores,
            total_stars: data.total_stars,
            total_forks: data.total_forks,
            avg_repo_score: avg,
            top_repos,
            all_recommendations,
        };
        assert(p@.repo_scores == cards);
        p
    }

    /// The profile score of `data`: a card for every repository of the user
    /// (scored at the current time) and the summary of those cards.
    pub fn compute(&self, data: &GithubData) -> (p: ProfileScore)
        ensures
            p@.repo_scores.len() == data.repos@.filter(owned_filter()).len(),
            forall|i: int|
                0 <= i < p@.repo_scores.len() ==> scored_at_some_time(
                    #[trigger] p@.repo_scores[i],
                    data.repos@.filter(owned_filter())[i],
                ),
            p@ == profile_of(*data, p@.repo_scores),
    {
        let owned = data.owned_repos();
        let ghost mine = data.repos@.filter(owned_filter());
        assert(derefs(owned@).len() == owned@.len());
        let mut cards: Vec<RepoScore> = Vec::new();
        let mut i: usize = 0;
        while i < owned.len()
            invariant
                i <= owned.len(),
                derefs(owned@) == mine,
                mine.len() == owned@.len(),
                cards@.len() == i,
                forall|j: int| 0 <= j < i ==> scored_at_some_time(#[trigger] cards@[j]@, mine[j]),
            decreases owned.len() - i,
        {
            let card = self.score_repo(owned[i]);
            assert(derefs(owned@)[i as int] == *owned@[i as int]);
            let ghost prev = cards@;
            cards.push(card);
            proof {
                assert forall|j: int| 0 <= j < i + 1 implies scored_at_some_time(
                    #[trigger] cards@[j]@,
                    mine[j],
                ) by {
                    if j < i {
                        assert(cards@[j] == prev[j]);
                    }
                }
            }
            i = i + 1;
        }
        let p = self.summarize(data, cards);
        proof {
            assert forall|j: int| 0 <= j < p@.repo_scores.len() implies scored_at_some_time(
                #[trigger] p@.repo_scores[j],
                mine[j],
            ) by {
                assert(p@.repo_scores[j] == cards@[j]@);
            }
        }
        p
    }

    /// The score card of `repo` at the instant `now` (a Unix timestamp in
    /// seconds): the eleven checks, the score out of 100, and the advice.
    pub fn score_repo_at(&self, repo: &Repository, now: i64) -> (card: RepoScore)
        ensures
            card@ == score_of(*repo, now),
    {
        let mut breakdown: Vec<ScoreItem> = Vec::new();
        let mut recs: Vec<Recommendation> = Vec::new();
        let early = early_checks(repo, &mut breakdown, &mut recs);
        let recent = recency_check(repo, now, &mut breakdown, &mut recs);
        let late = late_checks(repo, &mut breakdown, &mut recs);
        proof {
            assert(views_of(breakdown@) =~= breakdown_of(*repo, now));
            assert(views_of(recs@) =~= failed_check_advice(*repo, now));
        }
        let score: i32 = early + recent + late;
        let max_score: i32 = 100;
        let sorted = sort_by_rank_desc(recs);
        let recommendations = add_praise(repo, score, max_score, sorted);
        RepoScore {
            repo_name: repo.name.clone(),
            score: score as u8,
            max_score: max_score as u8,
            breakdown,
            recommendations,
        }
    }
}

/// The number of days with at least one event.
pub fn count_active_days(days: &Vec<ContributionDay>) -> (n: usize)
    ensures
        n as int == active_days(days@),
{
    let mut n: usize = 0;
    let mut i: usize = 0;
    while i < days.len()
        invariant
            i <= days.len(),
            n as int == days@.take(i as int).filter(is_active_day()).len(),
            n <= i,
        decreases days.len() - i,
    {
        proof {
            crate::order::lemma_filter_push(days@.take(i as int), days@[i as int], is_active_day());
            assert(days@.take(i as int).push(days@[i as int]) =~= days@.take(i + 1));
        }
        if days[i].count > 0 {
            n = n + 1;
        }
        i = i + 1;
    }
    assert(days@.take(i as int) =~= days@);
    n
}

/// The sum of the scores of some cards is at most 255 per card.
proof fn lemma_score_sum_bound(s: Seq<RepoScoreView>)
    ensures
        0 <= score_sum(s) <= 255 * s.len(),
    decreases s.len(),
{
    if s.len() > 0 {
        lemma_score_sum_bound(s.drop_last());
    }
}

/// The average score of the cards, rounded down.
fn average_of(cards: &Vec<RepoScore>) -> (avg: u8)
    ensures
        avg as int == average_score(views_of(cards@)),
{
    let ghost v = views_of(cards@);
    let mut sum: u128 = 0;
    let mut i: usize = 0;
    while i < cards.len()
        invariant
            i <= cards.len(),
            v == views_of(cards@),
            sum as int == score_sum(v.take(i as int)),
        decreases cards.len() - i,
    {
        proof {
            lemma_score_sum_bound(v.take(i as int));
            assert(v.take(i + 1).drop_last() =~= v.take(i as int));
            assert(v.take(i + 1).last() == cards@[i as int]@);
        }
        sum = sum + cards[i].score as u128;
        i = i + 1;
    }
    assert(v.take(i as int) =~= v);
    if cards.len() == 0 {
        0
    } else {
        proof {
            lemma_score_sum_bound(v);
        }
        let n = cards.len() as u128;
        let q = sum / n;
        assert(q <= 255) by (nonlinear_arith)
            requires
                q == sum / n,
                sum <= 255 * n,
                n > 0,
        ;
        q as u8
    }
}

/// The names of at most five best-scoring cards, best first.
fn top_repo_names(cards: &Vec<RepoScore>) -> (names: Vec<String>)
    ensures
        views_of(names@) == top_names(views_of(cards@)),
{
    let ghost v = views_of(cards@);
    let mut ranked: Vec<ScoredName> = Vec::new();
    let mut i: usize = 0;
    while i < cards.len()
        invariant
            i <= cards.len(),
            v == views_of(cards@),
            views_of(ranked@) == named_scores(v).take(i as int),
        decreases cards.len() - i,
    {
        let ghost prev = ranked@;
        let entry = ScoredName { name: cards[i].repo_name.clone(), score: cards[i].score };
        ranked.push(entry);
        assert(views_of(ranked@) =~= views_of(prev).push(entry@));
        assert(v[i as int] == cards@[i as int]@);
        assert(named_scores(v)[i as int] == NamedScore {
            name: cards@[i as int].repo_name@,
            score: cards@[i as int].score,
        });
        i = i + 1;
        assert(views_of(ranked@) =~= named_scores(v).take(i as int));
    }
    assert(named_scores(v).take(i as int) =~= named_scores(v));
    let sorted = sort_by_rank_desc(ranked);
    let ghost sv = views_of(sorted@);
    let keep: usize = if sorted.len() > 5 {
        5
    } else {
        sorted.len()
    };
    let mut names: Vec<String> = Vec::new();
    let mut j: usize = 0;
    while j < keep
        invariant
            j <= keep <= sorted.len(),
            sv == views_of(sorted@),
            views_of(names@) == sv.take(j as int).map_values(|n: NamedScore| n.name),
        decreases keep - j,
    {
        let ghost prev = names@;
        let name = sorted[j].name.clone();
        names.push(name);
        assert(views_of(names@) =~= views_of(prev).push(name@));
        assert(sv[j as int] == sorted@[j as int]@);
        assert(sv.take(j + 1) =~= sv.take(j as int).push(sv[j as int]));
        j = j + 1;
        assert(views_of(names@) =~= sv.take(j as int).map_values(|n: NamedScore| n.name));
    }
    proof {
        let kept = if sv.len() > 5 {
            sv.take(5)
        } else {
            sv
        };
        assert(sv.take(keep as int) =~= kept);
    }
    names
}

/// The advice of all cards, card after card, without praise.
fn actionable_advice(cards: &Vec<RepoScore>) -> (recs: Vec<Recommendation>)
    ensures
        views_of(recs@) == all_advice(views_of(cards@)).filter(is_actionable()),
{
    let ghost v = views_of(cards@);
    let ghost pred = is_actionable();
    let mut recs: Vec<Recommendation> = Vec::new();
    let mut i: usize = 0;
    while i < cards.len()
        invariant
            i <= cards.len(),
            v == views_of(cards@),
            pred == is_actionable(),
            views_of(recs@) == all_advice(v.take(i as int)).filter(pred),
        decreases cards.len() - i,
    {
        let card = &cards[i];
        let ghost base = all_advice(v.take(i as int));
        let ghost own = views_of(card.recommendations@);
        let mut j: usize = 0;
        proof {
            assert(own.take(0) =~= Seq::<RecView>::empty());
            assert(base + own.take(0) =~= base);
        }
        while j < card.recommendations.len()
            invariant
                j <= card.recommendations.len(),
                own == views_of(card.recommendations@),
                pred == is_actionable(),
                views_of(recs@) == (base + own.take(j as int)).filter(pred),
            decreases card.recommendations.len() - j,
        {
            let r = &card.recommendations[j];
            proof {
                crate::order::lemma_filter_push(base + own.take(j as int), r@, pred);
                assert((base + own.take(j as int)).push(r@) =~= base + own.take(j + 1));
            }
            let ghost prev = views_of(recs@);
            if r.severity != Severity::Good {
                recs.push(r.duplicate());
                assert(views_of(recs@) =~= prev.push(r@));
            }
            j = j + 1;
        }
        proof {
            assert(own.take(j as int) =~= own);
            assert(v.take(i + 1).drop_last() =~= v.take(i as int));
            assert(v.take(i + 1).last() == card@);
        }
        i = i + 1;
    }
    assert(v.take(i as int) =~= v);
    recs
}

/// Copies of the recommendations, leaving out each one whose message is that
/// of the one just before it.
fn without_repeated_messages(recs: &Vec<Recommendation>) -> (out: Vec<Recommendation>)
    ensures
        views_of(out@) == without_repeats(views_of(recs@)),
{
    let ghost v = views_of(recs@);
    let mut out: Vec<Recommendation> = Vec::new();
    let mut i: usize = 0;
    while i < recs.len()
        invariant
            i <= recs.len(),
            v == views_of(recs@),
            views_of(out@) == without_repeats(v.take(i as int)),
        decreases recs.len() - i,
    {
        proof {
            let t = v.take(i + 1);
            assert(t.drop_last() =~= v.take(i as int));
            assert(t.last() == recs@[i as int]@);
            if i > 0 {
                assert(t[t.len() - 2] == recs@[i - 1]@);
            }
        }
        if i == 0 || recs[i].message != recs[i - 1].message {
            out.push(recs[i].duplicate());
        }
        i = i + 1;
        assert(views_of(out@) =~= without_repeats(v.take(i as int)));
    }
    assert(v.take(i as int) =~= v);
    out
}

/// Appends the praise to sorted advice when the score reaches 90% of the
/// maximum.
fn add_praise(repo: &Repository, score: i32, max_score: i32, sorted: Vec<Recommendation>) -> (recs:
    Vec<Recommendation>)
    requires
        0 <= score <= 100,
        max_score == 100,
    ensures
        views_of(recs@) == views_of(sorted@) + only_if(score >= 90, praise(*repo, score as int)),
{
    let mut sorted = sorted;
    let ghost before = views_of(sorted@);
    if score >= max_score * 9 / 10 {
        let mut message = "✅ ".to_owned();
        message.append(repo.name.as_str());
        message.append(" — Health Score ");
        push_decimal(&mut message, score as u64);
        message.append("/");
        push_decimal(&mut message, max_score as u64);
        message.append(": Excellent repo!");
        sorted.push(Recommendation { severity: Severity::Good, message, impact: 0 });
    }
    assert(views_of(sorted@) =~= before + only_if(score >= 90, praise(*repo, score as int)));
    sorted
}

/// The first six checks.
#[verifier::spinoff_prover]
#[verifier::rlimit(50)]
fn early_checks(repo: &Repository, breakdown: &mut Vec<ScoreItem>, recs: &mut Vec<Recommendation>) -> (points: i32)
    ensures
        points as int == early_points(*repo),
        views_of(final(breakdown)@) == views_of(old(breakdown)@) + early_items(*repo),
        views_of(final(recs)@) == views_of(old(recs)@) + early_advice(*repo),
{
    let name = &repo.name;
    let ghost b0 = views_of(breakdown@);
    let ghost r0 = views_of(recs@);
    proof {
        reveal_strlit("");
    }
    let p1 = record_check(
        breakdown,
        recs,
        "README.md",
        15,
        repo.has_readme,
        Severity::Critical,
        "Add a README.md to ",
        name,
        " — first thing visitors see",
        15,
    );
    let p2 = record_check(
        breakdown,
        recs,
        "LICENSE",
        10,
        repo.license.is_some(),
        Severity::Critical,
        "Add a LICENSE to ",
        name,
        " (MIT recommended for open-source adoption)",
        10,
    );
    let p3 = record_check(
        breakdown,
        recs,
        ".gitignore",
        5,
        repo.has_gitignore,
        Severity::Warning,
        "Add .gitignore to ",
        name,
        " to avoid committing build artifacts",
        5,
    );
    let p4 = record_check(
        breakdown,
        recs,
        "CI/CD (GitHub Actions)",
        15,
        repo.has_ci,
        Severity::Critical,
        "Add CI/CD to ",
        name,
        " — create .github/workflows/ci.yml",
        15,
    );
    let described = repo.description.is_some() && repo.topics.len() > 0;
    let p5 = record_check(
        breakdown,
        recs,
        "Description + Topics",
        10,
        described,
        Severity::Warning,
        "Add description and topics to ",
        name,
        " for discoverability",
        10,
    );
    let total_issues: u64 = repo.open_issues_count as u64 + repo.closed_issues_count as u64;
    let good_ratio = total_issues == 0 || 2 * (repo.closed_issues_count as u64) >= total_issues;
    let p6 = record_check(
        breakdown,
        recs,
        "Issue Resolution Ratio ≥50%",
        10,
        good_ratio,
        Severity::Warning,
        "",
        name,
        " has many open issues — consider triaging and closing stale ones",
        10,
    );
    proof {
        assert(""@ + repo.name@ + " has many open issues — consider triaging and closing stale ones"@
            =~= repo.name@ + " has many open issues — consider triaging and closing stale ones"@);
        assert(views_of(breakdown@) =~= b0 + early_items(*repo));
        assert(views_of(recs@) =~= r0 + early_advice(*repo));
    }
    p1 + p2 + p3 + p4 + p5 + p6
}

/// The check on the last push.
fn recency_check(
    repo: &Repository,
    now: i64,
    breakdown: &mut Vec<ScoreItem>,
    recs: &mut Vec<Recommendation>,
) -> (points: i32)
    ensures
        points as int == recency_item(days_since_push(*repo, now)).points,
        views_of(final(breakdown)@) == views_of(old(breakdown)@).push(
            recency_item(days_since_push(*repo, now)),
        ),
        views_of(final(recs)@) == views_of(old(recs)@) + recency_advice(*repo, now),
{
    let ghost b0 = views_of(breakdown@);
    let ghost r0 = views_of(recs@);
    let days: i64 = match repo.pushed_at {
        Some(p) => days_between(now, p),
        None => 999,
    };
    assert(days as int == days_since_push(*repo, now));
    if days < 30 {
        breakdown.push(
            ScoreItem {
                label: "Last commit < 30 days".to_owned(),
                points: 10,
                max_points: 10,
                passed: true,
            },
        );
    } else if days < 90 {
        breakdown.push(
            ScoreItem {
                label: "Last commit < 90 days".to_owned(),
                points: 5,
                max_points: 10,
                passed: true,
            },
        );
    } else {
        breakdown.push(
            ScoreItem {
                label: "Recently active".to_owned(),
                points: 0,
                max_points: 10,
                passed: false,
            },
        );
        let mut message = repo.name.clone();
        message.append(" hasn't been updated in ");
        push_signed_decimal(&mut message, days);
        message.append(" days — consider archiving or updating");
        recs.push(Recommendation { severity: Severity::Info, message, impact: 5 });
    }
    assert(views_of(breakdown@) =~= b0.push(recency_item(days_since_push(*repo, now))));
    assert(views_of(recs@) =~= r0 + recency_advice(*repo, now));
    if days < 30 {
        10
    } else if days < 90 {
        5
    } else {
        0
    }
}

/// The last four checks.
fn late_checks(repo: &Repository, breakdown: &mut Vec<ScoreItem>, recs: &mut Vec<Recommendation>) -> (points: i32)
    ensures
        points as int == late_points(*repo),
        views_of(final(breakdown)@) == views_of(old(breakdown)@) + late_items(*repo),
        views_of(final(recs)@) == views_of(old(recs)@) + late_advice(*repo),
{
    let name = &repo.name;
    let ghost b0 = views_of(breakdown@);
    let ghost r0 = views_of(recs@);
    proof {
        reveal_strlit("");
    }
    let p1 = record_check(
        breakdown,
        recs,
        "Tests",
        10,
        repo.has_tests,
        Severity::Warning,
        "Add tests to ",
        name,
        " — no tests/ directory found",
        10,
    );
    let p2 = record_check(
        breakdown,
        recs,
        "CONTRIBUTING.md",
        5,
        repo.has_contributing,
        Severity::Info,
        "Add CONTRIBUTING.md to ",
        name,
        " to guide contributors",
        5,
    );
    let p3 = record_check(
        breakdown,
        recs,
        "CODE_OF_CONDUCT.md",
        5,
        repo.has_code_of_conduct,
        Severity::Info,
        "Add CODE_OF_CONDUCT.md to ",
        name,
        " for community health",
        5,
    );
    let p4 = record_check(
        breakdown,
        recs,
        "Has stars",
        5,
        repo.stargazers_count > 0,
        Severity::Info,
        "",
        name,
        " has no stars yet — promote it!",
        5,
    );
    proof {
        assert(""@ + repo.name@ + " has no stars yet — promote it!"@ =~= repo.name@
            + " has no stars yet — promote it!"@);
        assert(views_of(breakdown@) =~= b0 + late_items(*repo));
        assert(views_of(recs@) =~= r0 + late_advice(*repo));
    }
    p1 + p2 + p3 + p4
}

} // verus!
