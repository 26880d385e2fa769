use gitpulse::api::client::{
    after_event_page, after_repo_page, apply_enrichment, classify_status, closed_issue_count, days_ending,
    days_window, enrichment_batches, merge_enriched, recent_days,
    has_workflow_files, parse_last_page, repo_totals, repos_to_enrich, tally_contributions,
    PageStep, RepoFacts, StatusClass,
};
use gitpulse::api::{ContributionDay, GithubData, GithubUser, LicenseInfo, Repository};
use gitpulse::score::{grade, ProfileScore, RepoScore, Scorer, Severity};
use gitpulse::text::decimal_string;
use gitpulse::ui::app::{
    badge_url, command_for, export_filename, export_format, format_markdown_report, AppState, Command,
    Dashboard, ExportFormat, Key, Tab,
};
use gitpulse::ui::heatmap::{contribution_stats, heatmap_cell, intensity, month_label_row, month_labels};
use gitpulse::ui::theme::{Rgb, Theme};
use gitpulse::ui::widgets::{
    account_age, account_age_at, centered_popup, impact_label, language_bar, language_counts, score_bar,
    spinner_frame, star_bar, top_starred, truncate, Area,
};

const DAY: i64 = 86_400;
const NOW: i64 = 1_700_000_000;

fn repo(name: &str) -> Repository {
    Repository {
        id: 7,
        name: name.to_string(),
        full_name: format!("user/{}", name),
        description: None,
        html_url: String::new(),
        language: None,
        stargazers_count: 0,
        forks_count: 0,
        open_issues_count: 0,
        topics: vec![],
        has_wiki: false,
        has_issues: true,
        fork: false,
        archived: false,
        created_at: NOW - 400 * DAY,
        updated_at: NOW,
        pushed_at: Some(NOW),
        license: None,
        has_readme: false,
        has_gitignore: false,
        has_ci: false,
        has_tests: false,
        has_contributing: false,
        has_code_of_conduct: false,
        closed_issues_count: 0,
    }
}

fn perfect(name: &str) -> Repository {
    let mut r = repo(name);
    r.has_readme = true;
    r.license = Some(LicenseInfo { key: "mit".into(), name: "MIT".into() });
    r.has_gitignore = true;
    r.has_ci = true;
    r.description = Some("Great project".into());
    r.topics = vec!["rust".into()];
    r.open_issues_count = 1;
    r.closed_issues_count = 10;
    r.has_tests = true;
    r.has_contributing = true;
    r.has_code_of_conduct = true;
    r.stargazers_count = 5;
    r
}

fn user() -> GithubUser {
    GithubUser {
        login: "octo".into(),
        name: None,
        bio: None,
        location: None,
        avatar_url: String::new(),
        html_url: String::new(),
        public_repos: 0,
        followers: 0,
        following: 0,
        created_at: NOW - 1000 * DAY,
        updated_at: NOW,
    }
}

fn data(repos: Vec<Repository>) -> GithubData {
    GithubData { user: user(), repos, contributions: vec![], total_stars: 3, total_forks: 4, fetched_at: NOW }
}

fn card(name: &str, score: u8) -> RepoScore {
    RepoScore { repo_name: name.into(), score, max_score: 100, breakdown: vec![], recommendations: vec![] }
}

#[test]
fn fresh_repo_without_content_gets_recency_and_issue_points() {
    let card = Scorer::new().score_repo_at(&repo("bare"), NOW);
    assert_eq!(card.score, 20);
    assert_eq!(card.max_score, 100);
    assert_eq!(card.breakdown.len(), 11);
    assert_eq!(card.breakdown[6].label, "Last commit < 30 days");
    assert_eq!(card.breakdown[5].label, "Issue Resolution Ratio ≥50%");
    assert!(card.breakdown[5].passed);
}

#[test]
fn scoring_at_a_fixed_time_is_exact() {
    let card = Scorer::new().score_repo_at(&perfect("perfect"), NOW);
    assert_eq!(card.score, 100);
    assert_eq!(card.repo_name, "perfect");
    let points: Vec<i32> = card.breakdown.iter().map(|b| b.points).collect();
    assert_eq!(points, vec![15, 10, 5, 15, 10, 10, 10, 10, 5, 5, 5]);
    assert_eq!(card.recommendations.len(), 1);
    assert_eq!(card.recommendations[0].severity, Severity::Good);
    assert_eq!(card.recommendations[0].message, "✅ perfect — Health Score 100/100: Excellent repo!");
    assert_eq!(card.recommendations[0].impact, 0);
}

#[test]
fn recency_tiers_follow_days_since_push() {
    let scorer = Scorer::new();
    let mut r = repo("r");
    r.pushed_at = Some(NOW - 29 * DAY);
    assert_eq!(scorer.score_repo_at(&r, NOW).breakdown[6].points, 10);
    r.pushed_at = Some(NOW - 30 * DAY);
    let c = scorer.score_repo_at(&r, NOW);
    assert_eq!(c.breakdown[6].points, 5);
    assert_eq!(c.breakdown[6].label, "Last commit < 90 days");
    r.pushed_at = Some(NOW - 90 * DAY);
    let c = scorer.score_repo_at(&r, NOW);
    assert_eq!(c.breakdown[6].points, 0);
    assert_eq!(c.breakdown[6].label, "Recently active");
    assert!(c.recommendations.iter().any(|x| x.message == "r hasn't been updated in 90 days — consider archiving or updating"));
    r.pushed_at = None;
    let c = scorer.score_repo_at(&r, NOW);
    assert!(c.recommendations.iter().any(|x| x.message == "r hasn't been updated in 999 days — consider archiving or updating"));
}

#[test]
fn advice_is_ordered_by_impact_then_check_order() {
    let c = Scorer::new().score_repo_at(&repo("x"), NOW);
    let impacts: Vec<i32> = c.recommendations.iter().map(|r| r.impact).collect();
    assert_eq!(impacts, vec![15, 15, 10, 10, 10, 5, 5, 5, 5]);
    assert_eq!(c.recommendations[0].message, "Add a README.md to x — first thing visitors see");
    assert_eq!(c.recommendations[1].message, "Add CI/CD to x — create .github/workflows/ci.yml");
    assert_eq!(c.recommendations[2].message, "Add a LICENSE to x (MIT recommended for open-source adoption)");
    assert_eq!(c.recommendations[3].message, "Add description and topics to x for discoverability");
    assert_eq!(c.recommendations[4].message, "Add tests to x — no tests/ directory found");
    assert_eq!(c.recommendations[8].message, "x has no stars yet — promote it!");
    assert_eq!(c.recommendations[0].severity, Severity::Critical);
    assert_eq!(c.recommendations[5].severity, Severity::Warning);
}

#[test]
fn issue_ratio_needs_half_closed() {
    let scorer = Scorer::new();
    let mut r = repo("i");
    r.open_issues_count = 5;
    r.closed_issues_count = 5;
    assert!(scorer.score_repo_at(&r, NOW).breakdown[5].passed);
    r.closed_issues_count = 4;
    let c = scorer.score_repo_at(&r, NOW);
    assert!(!c.breakdown[5].passed);
    assert!(c.recommendations.iter().any(|x| x.message == "i has many open issues — consider triaging and closing stale ones"));
}

#[test]
fn praise_starts_at_ninety() {
    let scorer = Scorer::new();
    let mut r = perfect("p");
    r.has_code_of_conduct = false;
    r.has_contributing = false;
    let c = scorer.score_repo_at(&r, NOW);
    assert_eq!(c.score, 90);
    assert_eq!(c.recommendations.last().unwrap().message, "✅ p — Health Score 90/100: Excellent repo!");
    r.stargazers_count = 0;
    let c = scorer.score_repo_at(&r, NOW);
    assert_eq!(c.score, 85);
    assert!(c.recommendations.iter().all(|x| x.severity != Severity::Good));
}

#[test]
fn severity_icons() {
    assert_eq!(Severity::Critical.icon(), "🔴");
    assert_eq!(Severity::Warning.icon(), "⚠️");
    assert_eq!(Severity::Info.icon(), "ℹ️");
    assert_eq!(Severity::Good.icon(), "✅");
}

#[test]
fn grades() {
    assert_eq!(grade(100), "S");
    assert_eq!(grade(90), "S");
    assert_eq!(grade(89), "A");
    assert_eq!(grade(70), "B");
    assert_eq!(grade(65), "C");
    assert_eq!(grade(50), "D");
    assert_eq!(grade(49), "F");
    assert_eq!(grade(101), "F");
}

#[test]
fn completeness_counts_each_field() {
    let scorer = Scorer::new();
    let mut d = data(vec![]);
    assert_eq!(scorer.profile_completeness(&d), 0);
    d.user.name = Some("N".into());
    d.user.bio = Some("B".into());
    d.user.location = Some("L".into());
    assert_eq!(scorer.profile_completeness(&d), 50);
    d.user.followers = 3;
    d.user.following = 4;
    assert_eq!(scorer.profile_completeness(&d), 70);
    d.user.following = 3;
    assert_eq!(scorer.profile_completeness(&d), 80);
    d.user.following = 0;
    d.user.followers = 1;
    assert_eq!(scorer.profile_completeness(&d), 80);
    d.contributions = (0..21).map(|i| ContributionDay { date: format!("d{}", i), count: 1 }).collect();
    assert_eq!(scorer.profile_completeness(&d), 90);
    d.contributions = (0..51).map(|i| ContributionDay { date: format!("d{}", i), count: 2 }).collect();
    assert_eq!(scorer.profile_completeness(&d), 100);
    d.contributions.push(ContributionDay { date: "z".into(), count: 0 });
    assert_eq!(scorer.profile_completeness(&d), 100);
}

#[test]
fn overall_matches_the_weighted_float_average() {
    let scorer = Scorer::new();
    let profiles: Vec<(Option<String>, u32)> = vec![(None, 0), (Some("n".into()), 0), (Some("n".into()), 5)];
    for (name, followers) in profiles {
        for a in 0..=255u32 {
            let mut d = data(vec![]);
            d.user.name = name.clone();
            d.user.followers = followers;
            let p = scorer.profile_completeness(&d);
            let s = scorer.summarize(&d, vec![card("c", a as u8)]);
            let expected = (a as f64 * 0.6 + p as f64 * 0.4) as u8;
            assert_eq!(s.overall, expected, "avg {} profile {}", a, p);
            assert_eq!(s.avg_repo_score as u32, a);
        }
    }
}

#[test]
fn summary_averages_ranks_and_merges_advice() {
    let scorer = Scorer::new();
    let cards = vec![card("a", 50), card("b", 90), card("c", 70), card("d", 90), card("e", 10), card("f", 80)];
    let s = scorer.summarize(&data(vec![]), cards);
    assert_eq!(s.avg_repo_score, 65);
    assert_eq!(s.overall, 39);
    assert_eq!(s.top_repos, vec!["b", "d", "f", "c", "a"]);
    assert_eq!(s.total_stars, 3);
    assert_eq!(s.total_forks, 4);
    let empty = scorer.summarize(&data(vec![]), vec![]);
    assert_eq!(empty.avg_repo_score, 0);
    assert!(empty.top_repos.is_empty());
}

#[test]
fn profile_advice_drops_praise_and_repeats() {
    let scorer = Scorer::new();
    let c1 = scorer.score_repo_at(&perfect("same"), NOW);
    let c2 = scorer.score_repo_at(&repo("same"), NOW);
    let c3 = scorer.score_repo_at(&repo("same"), NOW);
    let s = scorer.summarize(&data(vec![]), vec![c1, c2, c3]);
    assert!(s.all_recommendations.iter().all(|r| r.severity != Severity::Good));
    assert_eq!(s.all_recommendations.len(), 18);
    let impacts: Vec<i32> = s.all_recommendations.iter().map(|r| r.impact).collect();
    assert_eq!(impacts, vec![15, 15, 15, 15, 10, 10, 10, 10, 10, 10, 5, 5, 5, 5, 5, 5, 5, 5]);
    let mut no_readme = perfect("same");
    no_readme.has_readme = false;
    let d1 = scorer.score_repo_at(&no_readme, NOW);
    let d2 = scorer.score_repo_at(&no_readme, NOW);
    let t = scorer.summarize(&data(vec![]), vec![d1, d2]);
    assert_eq!(t.all_recommendations.len(), 1);
    assert_eq!(t.all_recommendations[0].message, "Add a README.md to same — first thing visitors see");
}

#[test]
fn compute_scores_only_own_repos() {
    let mut fork = perfect("fork");
    fork.fork = true;
    let mut old = perfect("old");
    old.archived = true;
    let d = data(vec![repo("mine"), fork, old, perfect("best")]);
    assert_eq!(d.owned_repos().len(), 2);
    let s = Scorer::new().compute(&d);
    let names: Vec<&str> = s.repo_scores.iter().map(|c| c.repo_name.as_str()).collect();
    assert_eq!(names, vec!["mine", "best"]);
    assert_eq!(s.top_repos, vec!["best", "mine"]);
}

#[test]
fn summary_text_is_exact() {
    let p = ProfileScore {
        overall: 87,
        repo_scores: vec![],
        total_stars: 1247,
        total_forks: 89,
        avg_repo_score: 74,
        top_repos: vec!["a".into(), "b".into()],
        all_recommendations: vec![],
    };
    assert_eq!(
        p.summary_text(),
        "Developer Health Score: 87/100 (Grade: A)\nAvg Repo Score: 74/100 | Stars: 1247 | Forks: 89\nTop repos: a, b"
    );
}

#[test]
fn last_page_from_link_header() {
    assert_eq!(parse_last_page("<https://api.github.com/x?page=42>; rel=\"last\""), Some(42));
    assert_eq!(
        parse_last_page("<https://x?page=2>; rel=\"next\", <https://x?page=17>; rel=\"last\""),
        Some(17)
    );
    assert_eq!(
        parse_last_page("<https://x/issues?state=closed&per_page=1&page=42>; rel=\"last\""),
        Some(42)
    );
    assert_eq!(
        parse_last_page(
            "<https://api.github.com/repos/o/r/issues?state=closed&per_page=1&page=2>; rel=\"next\", <https://api.github.com/repos/o/r/issues?state=closed&per_page=1&page=57>; rel=\"last\""
        ),
        Some(57)
    );
    assert_eq!(parse_last_page("<https://x?per_page=5>; rel=\"last\""), None);
    assert_eq!(closed_issue_count(parse_last_page("<https://x?per_page=1&page=57>; rel=\"last\""), None), 57);
    assert_eq!(parse_last_page("<https://x?page=2>; rel=\"next\""), None);
    assert_eq!(parse_last_page("<https://x>; rel=\"last\", <https://x?page=9>; rel=\"last\""), Some(9));
    assert_eq!(parse_last_page("<https://x?page=>; rel=\"last\""), None);
    assert_eq!(parse_last_page("<https://x?page=99999999999>; rel=\"last\""), None);
    assert_eq!(parse_last_page("<https://x?page=4294967295>; rel=\"last\""), Some(4294967295));
    assert_eq!(parse_last_page(""), None);
}

#[test]
fn client_decisions() {
    assert_eq!(classify_status(404), StatusClass::Missing);
    assert_eq!(classify_status(200), StatusClass::Success);
    assert_eq!(classify_status(299), StatusClass::Success);
    assert_eq!(classify_status(500), StatusClass::Failed);
    assert_eq!(after_repo_page(1, 100), PageStep::Next(2));
    assert_eq!(after_repo_page(1, 0), PageStep::Done);
    assert_eq!(after_repo_page(5, 100), PageStep::Done);
    assert!(has_workflow_files(Some(2)));
    assert!(!has_workflow_files(Some(0)));
    assert!(!has_workflow_files(None));
    assert_eq!(closed_issue_count(Some(12), Some(1)), 12);
    assert_eq!(closed_issue_count(None, Some(1)), 1);
    assert_eq!(closed_issue_count(None, None), 0);
}

#[test]
fn enrichment_is_recorded() {
    let mut r = repo("e");
    let facts = RepoFacts {
        readme: true,
        gitignore: false,
        ci: true,
        tests_dir: false,
        tests_file: true,
        contributing: false,
        code_of_conduct: true,
        closed_issues: 8,
    };
    apply_enrichment(&mut r, facts);
    assert!(r.has_readme && r.has_ci && r.has_tests && r.has_code_of_conduct);
    assert!(!r.has_gitignore && !r.has_contributing);
    assert_eq!(r.closed_issues_count, 8);
    assert_eq!(r.name, "e");
}

#[test]
fn enrichment_picks_and_batches() {
    let mut repos: Vec<Repository> = (0..30).map(|i| repo(&format!("r{}", i))).collect();
    repos[0].fork = true;
    repos[3].archived = true;
    let picked = repos_to_enrich(&repos);
    assert_eq!(picked.len(), 20);
    assert_eq!(picked[0], 1);
    assert_eq!(picked[2], 4);
    assert_eq!(picked[19], 21);
    let batches = enrichment_batches(&picked);
    assert_eq!(batches.len(), 4);
    assert!(batches.iter().all(|b| b.len() == 5));
    let twelve: Vec<usize> = (0..12).collect();
    let b = enrichment_batches(&twelve);
    assert_eq!(b, vec![vec![0, 1, 2, 3, 4], vec![5, 6, 7, 8, 9], vec![10, 11]]);
    assert!(enrichment_batches(&vec![]).is_empty());
}

#[test]
fn totals_of_stars_and_forks() {
    let mut a = repo("a");
    a.stargazers_count = 3;
    a.forks_count = 1;
    let mut b = repo("b");
    b.stargazers_count = 4;
    b.forks_count = 2;
    assert_eq!(repo_totals(&vec![a, b]), (7, 3));
}

#[test]
fn contributions_are_tallied_per_day() {
    let stamps: Vec<String> = vec![
        "2024-01-02T10:00:00Z".into(),
        "2024-01-02T11:00:00Z".into(),
        "2024-01-03T09:00:00Z".into(),
    ];
    let days: Vec<String> = vec!["2024-01-01".into(), "2024-01-02".into(), "2024-01-03".into()];
    let t = tally_contributions(&stamps, &days);
    let counts: Vec<u32> = t.iter().map(|d| d.count).collect();
    assert_eq!(counts, vec![0, 2, 1]);
    assert_eq!(t[1].date, "2024-01-02");
}

#[test]
fn theme_colors() {
    assert_eq!(Theme::Dark.toggle(), Theme::Light);
    assert_eq!(Theme::Light.toggle().toggle(), Theme::Light);
    assert_eq!(Theme::Dark.bg(), Rgb { r: 13, g: 17, b: 23 });
    assert_eq!(Theme::Light.accent(), Rgb { r: 3, g: 102, b: 214 });
    assert_eq!(Theme::Dark.score_color(95), Rgb { r: 35, g: 134, b: 54 });
    assert_eq!(Theme::Light.score_color(75), Rgb { r: 63, g: 185, b: 80 });
    assert_eq!(Theme::Light.score_color(55), Rgb { r: 255, g: 193, b: 7 });
    assert_eq!(Theme::Light.score_color(35), Rgb { r: 255, g: 140, b: 0 });
    assert_eq!(Theme::Light.score_color(5), Rgb { r: 220, g: 53, b: 69 });
    assert_eq!(Theme::Dark.heatmap_colors()[4], Rgb { r: 63, g: 185, b: 80 });
    assert_eq!(Theme::Light.heatmap_colors()[0], Rgb { r: 235, g: 237, b: 240 });
}

#[test]
fn heatmap_levels_and_cells() {
    let levels: Vec<usize> = [0u32, 1, 2, 3, 5, 6, 9, 10, 1000].iter().map(|c| intensity(*c)).collect();
    assert_eq!(levels, vec![0, 1, 1, 2, 2, 3, 3, 4, 4]);
    let days: Vec<ContributionDay> =
        (0..400).map(|i| ContributionDay { date: String::new(), count: if i == 36 { 7 } else { 0 } }).collect();
    assert_eq!(heatmap_cell(&days, 0, 0), 3);
    assert_eq!(heatmap_cell(&days, 0, 1), 0);
    let few: Vec<ContributionDay> = vec![ContributionDay { date: String::new(), count: 12 }];
    assert_eq!(heatmap_cell(&few, 0, 0), 4);
    assert_eq!(heatmap_cell(&few, 3, 2), 0);
}

#[test]
fn month_labels_mark_month_changes() {
    let days: Vec<ContributionDay> = (1..=40)
        .map(|d| {
            let date = if d <= 31 { format!("2024-01-{:02}", d) } else { format!("2024-02-{:02}", d - 31) };
            ContributionDay { date, count: 0 }
        })
        .collect();
    let row: String = month_labels(&days).into_iter().collect();
    assert_eq!(row.chars().count(), 107);
    assert_eq!(&row[3..6], "Jan");
    assert_eq!(&row[11..14], "Feb");
    let direct: String = month_label_row(&vec![None, Some(12)]).into_iter().collect();
    assert_eq!(&direct[0..6], "   Dec");
    let bad = vec![ContributionDay { date: "not a date".into(), count: 0 }];
    assert!(month_labels(&bad).iter().all(|c| *c == ' '));
}

#[test]
fn contribution_figures() {
    let days = vec![
        ContributionDay { date: "a".into(), count: 3 },
        ContributionDay { date: "b".into(), count: 0 },
        ContributionDay { date: "c".into(), count: 5 },
        ContributionDay { date: "d".into(), count: 5 },
    ];
    let s = contribution_stats(&days);
    assert_eq!(s.active, 3);
    assert_eq!(s.total, 13);
    assert_eq!(s.best, Some(3));
    assert_eq!(contribution_stats(&vec![]).best, None);
}

#[test]
fn names_are_truncated_by_bytes() {
    assert_eq!(truncate("short", 28), "short");
    assert_eq!(truncate("abcdefghij", 5), "abcd…");
    assert_eq!(truncate("héllo", 4), "hé…");
}

#[test]
fn panel_figures() {
    assert_eq!(score_bar(100), "██████████");
    assert_eq!(score_bar(74), "███████░░░");
    assert_eq!(score_bar(0), "░░░░░░░░░░");
    assert_eq!(impact_label(15, true), "[+15pts]");
    assert_eq!(impact_label(5, false), "+5pts");
    assert_eq!(impact_label(0, true), "");
    assert_eq!(account_age(800), (2, 2));
    assert_eq!(account_age(-400), (-1, -1));
    let p = centered_popup(Area { x: 0, y: 0, width: 80, height: 24 }, 54, 20);
    assert_eq!(p, Area { x: 13, y: 2, width: 54, height: 20 });
    let q = centered_popup(Area { x: 5, y: 5, width: 30, height: 10 }, 54, 20);
    assert_eq!(q, Area { x: 5, y: 5, width: 30, height: 10 });
    assert_eq!(spinner_frame(999), 9);
    assert_eq!(spinner_frame(50), 0);
}

#[test]
fn star_chart_ranks_starred_repos() {
    let mut repos: Vec<Repository> = Vec::new();
    for (i, stars) in [3u32, 0, 9, 3, 12, 1, 1, 1, 1, 1, 1].iter().enumerate() {
        let mut r = repo(&format!("r{}", i));
        r.stargazers_count = *stars;
        repos.push(r);
    }
    repos[4].fork = true;
    let chart = top_starred(&repos);
    let order: Vec<usize> = chart.iter().map(|s| s.position).collect();
    assert_eq!(order, vec![2, 0, 3, 5, 6, 7, 8, 9]);
    let b = star_bar(3, 9, 30);
    assert_eq!((b.filled, b.empty, b.color_score), (10, 20, 33));
    let top = star_bar(9, 9, 30);
    assert_eq!((top.filled, top.empty, top.color_score), (30, 0, 100));
}

#[test]
fn languages_are_counted() {
    let mut repos: Vec<Repository> = Vec::new();
    for (i, lang) in ["Go", "Rust", "Rust", "", "Go", "Rust"].iter().enumerate() {
        let mut r = repo(&format!("r{}", i));
        r.language = if lang.is_empty() { None } else { Some(lang.to_string()) };
        repos.push(r);
    }
    repos[5].fork = true;
    let counts = language_counts(&repos);
    let shown: Vec<(String, u32)> = counts.iter().map(|c| (c.name.clone(), c.repos)).collect();
    assert_eq!(shown, vec![("Go".to_string(), 2), ("Rust".to_string(), 2)]);
    let bar = language_bar(2, 4, 50);
    assert_eq!((bar.percent, bar.filled, bar.empty), (50, 25, 25));
    let tiny = language_bar(1, 1000, 10);
    assert_eq!((tiny.percent, tiny.filled, tiny.empty), (0, 1, 9));
}

#[test]
fn tabs_and_keys() {
    assert_eq!(Tab::from_index(3), Tab::Stars);
    assert_eq!(Tab::from_index(9), Tab::Overview);
    assert_eq!(Tab::Recommendations.index(), 4);
    let mut d = Dashboard::new("octo".into(), None);
    assert!(matches!(d.state, AppState::Loading(ref m) if m == "Fetching GitHub data..."));
    assert!(!d.handle_key(Key::Char('?'), false));
    assert!(d.show_help);
    assert!(!d.handle_key(Key::Char('t'), false));
    assert_eq!(d.theme, Theme::Light);
    assert!(!d.handle_key(Key::Char('2'), false));
    assert_eq!(d.tab, Tab::Repos);
    assert!(!d.handle_key(Key::Down, false));
    assert_eq!(d.repo_selected, 0);
    assert!(!d.handle_key(Key::PageDown, false));
    assert_eq!(d.detail_scroll, 3);
    assert!(!d.handle_key(Key::PageUp, false));
    assert!(!d.handle_key(Key::PageUp, false));
    assert_eq!(d.detail_scroll, 0);
    assert!(d.handle_key(Key::Char('q'), false));
    assert!(d.handle_key(Key::Esc, false));
    assert!(d.handle_key(Key::Char('c'), true));
    assert!(!d.handle_key(Key::Char('c'), false));
}

#[test]
fn selection_moves_within_cards() {
    let scorer = Scorer::new();
    let dd = data(vec![repo("a"), repo("b")]);
    let score = scorer.compute(&dd);
    let mut d = Dashboard::new("octo".into(), None);
    d.state = AppState::Ready { data: dd, score };
    assert_eq!(d.repo_count(), 2);
    d.detail_scroll = 6;
    assert!(!d.handle_key(Key::Char('j'), false));
    assert_eq!((d.repo_selected, d.detail_scroll), (1, 0));
    assert!(!d.handle_key(Key::Down, false));
    assert_eq!(d.repo_selected, 1);
    assert!(!d.handle_key(Key::Char('k'), false));
    assert!(!d.handle_key(Key::Up, false));
    assert_eq!(d.repo_selected, 0);
}

#[test]
fn commands_and_exports() {
    assert_eq!(command_for(Key::Char('r')), Command::Refresh);
    assert_eq!(command_for(Key::Char('e')), Command::ExportJson);
    assert_eq!(command_for(Key::Char('m')), Command::ExportMarkdown);
    assert_eq!(command_for(Key::Up), Command::Nothing);
    assert_eq!(export_format("json"), Some(ExportFormat::Json));
    assert_eq!(export_format("md"), Some(ExportFormat::Markdown));
    assert_eq!(export_format("pdf"), None);
    assert_eq!(export_filename("octo", "20240101-120000", "md"), "gitpulse-octo-20240101-120000.md");
    assert_eq!(
        format_markdown_report("octo", 87, "2024-01-01 12:00 UTC"),
        "# GitPulse Report — @octo\n\n**Health Score: 87/100**\n\nGenerated: 2024-01-01 12:00 UTC\n"
    );
    assert_eq!(
        badge_url(87),
        "https://img.shields.io/badge/GitPulse%20Score-87%2F100-green?style=flat-square&logo=github"
    );
    assert_eq!(
        badge_url(5),
        "https://img.shields.io/badge/GitPulse%20Score-5%2F100-green?style=flat-square&logo=github"
    );
}

#[test]
fn decimal_notation() {
    assert_eq!(decimal_string(0), "0");
    assert_eq!(decimal_string(1247), "1247");
    assert_eq!(decimal_string(u64::MAX), u64::MAX.to_string());
}

#[test]
fn tally_window_is_the_364_days_up_to_today() {
    let days = days_ending(19_723);
    assert_eq!(days.len(), 364);
    assert_eq!(days[0], "2023-01-03");
    assert_eq!(days[363], "2024-01-01");
    assert_eq!(days_ending(0)[363], "1970-01-01");
    assert_eq!(days_ending(0)[362], "1969-12-31");
    let before = chrono::Utc::now().date_naive().format("%Y-%m-%d").to_string();
    let recent = recent_days().expect("today is a date");
    let after = chrono::Utc::now().date_naive().format("%Y-%m-%d").to_string();
    assert_eq!(recent.len(), 364);
    assert!(recent[363] == before || recent[363] == after);
}

#[test]
fn account_age_from_timestamps() {
    assert_eq!(account_age_at(NOW - 800 * DAY, NOW), (2, 2));
    assert_eq!(account_age_at(NOW - 800 * DAY + 1, NOW), (2, 2));
    assert_eq!(account_age_at(NOW - 799 * DAY - 1, NOW), (2, 2));
    assert_eq!(account_age_at(NOW - 29 * DAY, NOW), (0, 0));
    assert_eq!(account_age_at(NOW + 400 * DAY, NOW), (-1, -1));
}

#[test]
fn event_paging_stops_on_empty_or_non_list_pages() {
    assert_eq!(after_event_page(1, Some(100)), PageStep::Next(2));
    assert_eq!(after_event_page(2, Some(3)), PageStep::Next(3));
    assert_eq!(after_event_page(3, Some(100)), PageStep::Done);
    assert_eq!(after_event_page(1, Some(0)), PageStep::Done);
    assert_eq!(after_event_page(1, None), PageStep::Done);
}

#[test]
fn enriched_copies_take_their_places() {
    let mut repos = vec![repo("a"), repo("b"), repo("c")];
    let mut b = repo("b");
    b.has_readme = true;
    let mut c = repo("c");
    c.has_ci = true;
    merge_enriched(&mut repos, vec![(2, c), (1, b)]);
    assert_eq!(repos.len(), 3);
    assert_eq!(repos[0].name, "a");
    assert!(!repos[0].has_readme && !repos[0].has_ci);
    assert!(repos[1].has_readme && repos[1].name == "b");
    assert!(repos[2].has_ci && repos[2].name == "c");
}

#[test]
fn day_windows_fit_chronos_dates() {
    let first = gitpulse::clock::FIRST_DAY;
    assert!(days_window(first).is_none());
    assert!(days_window(first + 362).is_none());
    let w = days_window(first + 363).expect("a full window");
    assert_eq!(w.len(), 364);
    assert_eq!(w[0], "-262143-01-01");
    let last = days_window(gitpulse::clock::LAST_DAY).expect("a full window");
    assert_eq!(last[363], "+262142-12-31");
    let w = days_window(19_723).expect("a full window");
    assert_eq!(w[0], "2023-01-03");
    assert_eq!(w[363], "2024-01-01");
}

#[test]
fn severity_colors() {
    assert_eq!(Theme::Dark.severity_color(Severity::Critical), Rgb { r: 220, g: 53, b: 69 });
    assert_eq!(Theme::Light.severity_color(Severity::Warning), Rgb { r: 255, g: 193, b: 7 });
    assert_eq!(Theme::Dark.severity_color(Severity::Info), Rgb { r: 88, g: 166, b: 255 });
    assert_eq!(Theme::Light.severity_color(Severity::Info), Rgb { r: 3, g: 102, b: 214 });
    assert_eq!(Theme::Dark.severity_color(Severity::Good), Rgb { r: 35, g: 134, b: 54 });
}

#[test]
fn popup_near_the_edge_of_the_screen() {
    let area = Area { x: 65_000, y: 65_000, width: 500, height: 500 };
    assert_eq!(
        centered_popup(area, 54, 20),
        Area { x: 65_223, y: 65_240, width: 54, height: 20 }
    );
}
