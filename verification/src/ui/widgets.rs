//! The figures that the dashboard's panels draw: shortened names, score
//! bars, the star ranking, the language breakdown, account age, and the
//! placement of the help window.
use vstd::prelude::*;

use crate::api::types::Repository;
use crate::order::{rank_fn, sort_by_rank, sort_by_rank_desc, views_of, Ranked};
use crate::text::{push_char, push_signed_decimal, signed_decimal};
use vstd::string::StringSliceAdditionalSpecFns;
use vstd::utf8::{decode_utf8, is_char_boundary};

verus! {

/// The UTF-8 bytes of a text.
pub open spec fn utf8_of(s: Seq<char>) -> Seq<u8> {
    vstd::utf8::encode_utf8(s)
}

/// `s` itself when its UTF-8 encoding takes at most `max` bytes; otherwise
/// its first `max - 1` bytes followed by `…`.
pub open spec fn truncated(s: Seq<char>, max: int) -> Seq<char> {
    if utf8_of(s).len() <= max {
        s
    } else {
        decode_utf8(utf8_of(s).subrange(0, max - 1)) + seq!['…']
    }
}

/// A text that fits `max` bytes, or one that can be cut at byte `max - 1`.
pub open spec fn can_truncate(s: Seq<char>, max: int) -> bool {
    utf8_of(s).len() <= max || (max >= 1 && is_char_boundary(utf8_of(s), max - 1))
}

/// Shortens `s` to at most `max` bytes, marking a cut with `…`. A cut must
/// fall on a character boundary.
pub fn truncate(s: &str, max: usize) -> (t: String)
    requires
        can_truncate(s@, max as int),
        utf8_of(s@).len() <= usize::MAX,
    ensures
        t@ == truncated(s@, max as int),
{
    if s.len() <= max {
        assert(s.spec_bytes() == utf8_of(s@));
        s.to_owned()
    } else {
        let (head, _) = s.split_at(max - 1);
        proof {
            vstd::utf8::encode_utf8_decode_utf8(head@);
        }
        let mut t = head.to_owned();
        push_char(&mut t, '…');
        assert(t@ =~= decode_utf8(utf8_of(s@).subrange(0, max - 1)) + seq!['…']);
        t
    }
}

/// `n` copies of `c`.
pub open spec fn repeated(c: char, n: nat) -> Seq<char> {
    Seq::new(n, |i: int| c)
}

/// Appends `n` copies of `c` to `s`.
pub fn push_repeated(s: &mut String, c: char, n: usize)
    ensures
        final(s)@ == old(s)@ + repeated(c, n as nat),
{
    let mut k: usize = 0;
    while k < n
        invariant
            k <= n,
            s@ == old(s)@ + repeated(c, k as nat),
        decreases n - k,
    {
        push_char(s, c);
        k = k + 1;
        assert(s@ =~= old(s)@ + repeated(c, k as nat));
    }
}

/// The number of filled cells of a ten-cell score bar.
pub open spec fn bar_cells(score: u8) -> nat {
    if score * 10 / 100 > 10 {
        10
    } else {
        (score * 10 / 100) as nat
    }
}

/// The ten-cell bar of a score: one filled cell per ten points.
pub fn score_bar(score: u8) -> (bar: String)
    ensures
        bar@ == repeated('█', bar_cells(score)) + repeated('░', (10 - bar_cells(score)) as nat),
{
    let raw = (score as usize) * 10 / 100;
    let filled: usize = if raw > 10 {
        10
    } else {
        raw
    };
    let mut bar = String::new();
    push_repeated(&mut bar, '█', filled);
    push_repeated(&mut bar, '░', 10 - filled);
    assert(bar@ =~= repeated('█', bar_cells(score)) + repeated('░', (10 - bar_cells(score)) as nat));
    bar
}

/// The label of the points a piece of advice would bring: `[+N pts]` style
/// (`+Npts`, within brackets when asked), nothing for advice worth nothing.
pub open spec fn impact_text(impact: i32, bracketed: bool) -> Seq<char> {
    if impact > 0 {
        if bracketed {
            "[+"@ + signed_decimal(impact as int) + "pts]"@
        } else {
            "+"@ + signed_decimal(impact as int) + "pts"@
        }
    } else {
        seq![]
    }
}

/// The label of the points a piece of advice would bring.
pub fn impact_label(impact: i32, bracketed: bool) -> (t: String)
    ensures
        t@ == impact_text(impact, bracketed),
{
    if impact > 0 {
        let mut t = if bracketed {
            "[+".to_owned()
        } else {
            "+".to_owned()
        };
        push_signed_decimal(&mut t, impact as i64);
        if bracketed {
            t.append("pts]");
        } else {
            t.append("pts");
        }
        t
    } else {
        String::new()
    }
}

/// The position of a starred repository with its star count.
pub struct StarredRepo {
    pub position: usize,
    pub stars: u32,
}

/// A starred repository as values.
pub struct StarredView {
    pub position: int,
    pub stars: u32,
}

impl View for StarredRepo {
    type V = StarredView;

    open spec fn view(&self) -> StarredView {
        StarredView { position: self.position as int, stars: self.stars }
    }
}

impl Ranked for StarredRepo {
    open spec fn rank_of(v: StarredView) -> int {
        v.stars as int
    }

    fn rank(&self) -> (r: i64) {
        self.stars as i64
    }
}

/// The most repositories the star chart shows.
pub const STAR_CHART_ROWS: usize = 8;

/// The non-fork repositories with at least one star among the first `n`,
/// in order.
pub open spec fn starred_among(repos: Seq<Repository>, n: int) -> Seq<StarredView>
    decreases n,
{
    if n <= 0 {
        seq![]
    } else if !repos[n - 1].fork && repos[n - 1].stargazers_count > 0 {
        starred_among(repos, n - 1).push(
            StarredView { position: n - 1, stars: repos[n - 1].stargazers_count },
        )
    } else {
        starred_among(repos, n - 1)
    }
}

/// The star chart: the non-fork repositories with stars, most stars first
/// (ties in repository order), at most eight.
pub open spec fn star_chart(repos: Seq<Repository>) -> Seq<StarredView> {
    let ranked = sort_by_rank(starred_among(repos, repos.len() as int), rank_fn::<StarredRepo>());
    if ranked.len() > STAR_CHART_ROWS {
        ranked.take(STAR_CHART_ROWS as int)
    } else {
        ranked
    }
}

/// The repositories of the star chart.
pub fn top_starred(repos: &Vec<Repository>) -> (chart: Vec<StarredRepo>)
    ensures
        views_of(chart@) == star_chart(repos@),
{
    let mut starred: Vec<StarredRepo> = Vec::new();
    let mut i: usize = 0;
    while i < repos.len()
        invariant
            i <= repos.len(),
            views_of(starred@) == starred_among(repos@, i as int),
        decreases repos.len() - i,
    {
        let ghost prev = views_of(starred@);
        if !repos[i].fork && repos[i].stargazers_count > 0 {
            let entry = StarredRepo { position: i, stars: repos[i].stargazers_count };
            starred.push(entry);
            assert(views_of(starred@) =~= prev.push(entry@));
        }
        i = i + 1;
    }
    let mut chart = sort_by_rank_desc(starred);
    if chart.len() > STAR_CHART_ROWS {
        chart.truncate(STAR_CHART_ROWS);
    }
    assert(views_of(chart@) =~= star_chart(repos@));
    chart
}

/// The cells of one bar of the star chart and the score that colours it.
pub struct StarBar {
    pub filled: usize,
    pub empty: usize,
    pub color_score: u8,
}

/// The bar of a repository with `stars` stars when the best has `top`:
/// `filled` of `width` cells in proportion (rounded down), and a colour
/// score of `stars * 100 / top` (as `u8`, at most 100).
pub fn star_bar(stars: u32, top: u32, width: usize) -> (bar: StarBar)
    requires
        stars as int * width <= usize::MAX,
        stars as int * 100 <= u32::MAX,
    ensures
        ({
            let most = if top > 1 {
                top as int
            } else {
                1
            };
            let cells = stars as int * width / most;
            let ratio = (stars as int * 100 / most) as u8;
            &&& bar.filled == (if cells > width {
                width as int
            } else {
                cells
            })
            &&& bar.empty == width - bar.filled
            &&& bar.color_score == (if ratio > 100 {
                100
            } else {
                ratio
            })
        }),
{
    let most: u32 = if top > 1 {
        top
    } else {
        1
    };
    let cells = (stars as usize) * width / (most as usize);
    let filled = if cells > width {
        width
    } else {
        cells
    };
    let ratio: u8 = #[verifier::truncate]
    ((stars * 100 / most) as u8);
    let color_score = if ratio > 100 {
        100
    } else {
        ratio
    };
    StarBar { filled, empty: width - filled, color_score }
}

/// A language and the number of repositories written in it.
pub struct LanguageCount {
    pub name: String,
    pub repos: u32,
}

/// A language count as values.
pub struct LanguageView {
    pub name: Seq<char>,
    pub repos: int,
}

impl View for LanguageCount {
    type V = LanguageView;

    open spec fn view(&self) -> LanguageView {
        LanguageView { name: self.name@, repos: self.repos as int }
    }
}

impl Ranked for LanguageCount {
    open spec fn rank_of(v: LanguageView) -> int {
        v.repos
    }

    fn rank(&self) -> (r: i64) {
        self.repos as i64
    }
}

/// The position of `name` among the counted languages.
pub open spec fn language_position(counts: Seq<LanguageView>, name: Seq<char>) -> Option<int>
    decreases counts.len(),
{
    if counts.len() == 0 {
        None
    } else if counts.last().name == name {
        Some(counts.len() - 1)
    } else {
        language_position(counts.drop_last(), name)
    }
}

/// The language counts of the first `n` repositories: each non-fork
/// repository with a language adds one to its language, which joins the
/// list when first seen.
pub open spec fn languages_among(repos: Seq<Repository>, n: int) -> Seq<LanguageView>
    decreases n,
{
    if n <= 0 {
        seq![]
    } else {
        let prev = languages_among(repos, n - 1);
        let r = repos[n - 1];
        if !r.fork && r.language is Some {
            let name = r.language->0@;
            match language_position(prev, name) {
                Some(k) => prev.update(k, LanguageView { name, repos: prev[k].repos + 1 }),
                None => prev.push(LanguageView { name, repos: 1 }),
            }
        } else {
            prev
        }
    }
}

/// The language breakdown: languages of the non-fork repositories with
/// their counts, most used first (ties in order of first appearance).
pub open spec fn language_breakdown(repos: Seq<Repository>) -> Seq<LanguageView> {
    sort_by_rank(languages_among(repos, repos.len() as int), rank_fn::<LanguageCount>())
}

/// `language_position` finds the given name.
proof fn lemma_language_position(counts: Seq<LanguageView>, name: Seq<char>)
    ensures
        language_position(counts, name) matches Some(k) ==> 0 <= k < counts.len() && counts[k].name
            == name,
        language_position(counts, name) is None ==> forall|k: int|
            0 <= k < counts.len() ==> counts[k].name != name,
    decreases counts.len(),
{
    if counts.len() > 0 && counts.last().name != name {
        lemma_language_position(counts.drop_last(), name);
        if language_position(counts, name) is None {
            assert forall|k: int| 0 <= k < counts.len() implies counts[k].name != name by {
                if k < counts.len() - 1 {
                    assert(counts[k] == counts.drop_last()[k]);
                }
            }
        }
    }
}

/// Counts never exceed the number of repositories counted.
proof fn lemma_language_counts_bounded(repos: Seq<Repository>, n: int)
    requires
        0 <= n <= repos.len(),
    ensures
        languages_among(repos, n).len() <= n,
        forall|k: int|
            0 <= k < languages_among(repos, n).len() ==> 1 <= #[trigger] languages_among(
                repos,
                n,
            )[k].repos <= n,
    decreases n,
{
    if n > 0 {
        lemma_language_counts_bounded(repos, n - 1);
        let prev = languages_among(repos, n - 1);
        let r = repos[n - 1];
        if !r.fork && r.language is Some {
            lemma_language_position(prev, r.language->0@);
        }
    }
}

/// Every language count of the repositories fits in `u32`.
pub open spec fn language_counts_fit(repos: Seq<Repository>) -> bool {
    forall|k: int|
        0 <= k < languages_among(repos, repos.len() as int).len() ==> #[trigger] languages_among(
            repos,
            repos.len() as int,
        )[k].repos <= u32::MAX
}

/// Counting more repositories keeps the languages already listed, in their
/// places, and never lowers their counts.
proof fn lemma_language_counts_grow(repos: Seq<Repository>, m: int, n: int)
    requires
        0 <= m <= n <= repos.len(),
    ensures
        languages_among(repos, m).len() <= languages_among(repos, n).len(),
        forall|k: int|
            0 <= k < languages_among(repos, m).len() ==> (#[trigger] languages_among(repos, m)[k]).name
                == languages_among(repos, n)[k].name && languages_among(repos, m)[k].repos
                <= languages_among(repos, n)[k].repos,
    decreases n - m,
{
    if m < n {
        lemma_language_counts_grow(repos, m, n - 1);
        let prev = languages_among(repos, n - 1);
        let r = repos[n - 1];
        if !r.fork && r.language is Some {
            lemma_language_position(prev, r.language->0@);
        }
    }
}

/// Finds `name` among the counted languages.
fn find_language(counts: &Vec<LanguageCount>, name: &String) -> (pos: Option<usize>)
    ensures
        pos matches Some(k) ==> language_position(views_of(counts@), name@) == Some(k as int),
        pos is None ==> language_position(views_of(counts@), name@) is None,
{
    let ghost v = views_of(counts@);
    let mut k = counts.len();
    assert(v.take(k as int) =~= v);
    while k > 0
        invariant
            k <= counts.len(),
            v == views_of(counts@),
            language_position(v, name@) == language_position(v.take(k as int), name@),
        decreases k,
    {
        let ghost t = v.take(k as int);
        assert(t.last() == counts@[k - 1]@);
        assert(t.drop_last() =~= v.take(k - 1));
        if counts[k - 1].name == *name {
            return Some(k - 1);
        }
        k = k - 1;
    }
    None
}

/// The language breakdown of the repositories.
pub fn language_counts(repos: &Vec<Repository>) -> (counts: Vec<LanguageCount>)
    requires
        language_counts_fit(repos@),
    ensures
        views_of(counts@) == language_breakdown(repos@),
{
    let mut counts: Vec<LanguageCount> = Vec::new();
    let mut i: usize = 0;
    while i < repos.len()
        invariant
            i <= repos.len(),
            language_counts_fit(repos@),
            views_of(counts@) == languages_among(repos@, i as int),
        decreases repos.len() - i,
    {
        proof {
            lemma_language_counts_bounded(repos@, i as int);
        }
        let r = &repos[i];
        let ghost prev = views_of(counts@);
        if !r.fork {
            match &r.language {
                Some(lang) => {
                    let found = find_language(&counts, lang);
                    proof {
                        lemma_language_position(prev, lang@);
                    }
                    match found {
                        Some(k) => {
                            assert(prev[k as int] == counts@[k as int]@);
                            proof {
                                lemma_language_counts_grow(repos@, i + 1, repos.len() as int);
                                let next = languages_among(repos@, i + 1);
                                assert(next[k as int].repos == prev[k as int].repos + 1);
                                assert(languages_among(repos@, repos.len() as int)[k as int].repos
                                    <= u32::MAX);
                            }
                            let n = counts[k].repos + 1;
                            let name = lang.clone();
                            counts.set(k, LanguageCount { name, repos: n });
                            assert(views_of(counts@) =~= prev.update(
                                k as int,
                                LanguageView { name: lang@, repos: prev[k as int].repos + 1 },
                            ));
                        },
                        None => {
                            let entry = LanguageCount { name: lang.clone(), repos: 1 };
                            counts.push(entry);
                            assert(views_of(counts@) =~= prev.push(entry@));
                        },
                    }
                },
                None => {},
            }
        }
        i = i + 1;
    }
    sort_by_rank_desc(counts)
}

/// The bar of a language: its share in percent, and the filled and empty
/// cells of a bar of `width` (at least one filled cell, at most `width`).
pub struct LanguageBar {
    pub percent: u32,
    pub filled: usize,
    pub empty: usize,
}

/// The bar of a language used by `count` of `total` repositories.
pub fn language_bar(count: u32, total: u32, width: usize) -> (bar: LanguageBar)
    requires
        count as int * 100 <= u32::MAX,
        (count as int * 100 / (if total > 1 {
            total as int
        } else {
            1
        })) * width <= usize::MAX,
    ensures
        ({
            let pct = count as int * 100 / (if total > 1 {
                total as int
            } else {
                1
            });
            let raw = pct * width / 100;
            let cells = if raw < 1 {
                1
            } else {
                raw
            };
            &&& bar.percent == pct
            &&& bar.filled == (if cells > width {
                width as int
            } else {
                cells
            })
            &&& bar.empty == (if width > cells {
                width - cells
            } else {
                0
            })
        }),
{
    let most: u32 = if total > 1 {
        total
    } else {
        1
    };
    let pct = count * 100 / most;
    let raw = (pct as usize) * width / 100;
    let cells = if raw < 1 {
        1
    } else {
        raw
    };
    let filled = if cells > width {
        width
    } else {
        cells
    };
    let empty = if width > cells {
        width - cells
    } else {
        0
    };
    LanguageBar { percent: pct, filled, empty }
}

/// Whole years and remaining whole months (of 30 days) of an account `days`
/// days old, both rounded toward zero.
pub open spec fn age_of(days: int) -> (int, int) {
    let years = crate::score::rules::toward_zero_div(days, 365);
    let rest = days - 365 * years;
    (years, crate::score::rules::toward_zero_div(rest, 30))
}

/// The age of an account, in years and months.
pub fn account_age(days: i64) -> (age: (i64, i64))
    ensures
        (age.0 as int, age.1 as int) == age_of(days as int),
{
    let d: i128 = days as i128;
    let mag: i128 = if d >= 0 {
        d
    } else {
        -d
    };
    let years_mag = mag / 365;
    let months_mag = (mag % 365) / 30;
    if d >= 0 {
        (years_mag as i64, months_mag as i64)
    } else {
        assert(mag - 365 * years_mag == mag % 365);
        ((-years_mag) as i64, (-months_mag) as i64)
    }
}

/// The age of an account created at `created_at` when it is `now` (Unix
/// timestamps in seconds): the whole days between them, rounded toward
/// zero, in years and months.
pub fn account_age_at(created_at: i64, now: i64) -> (age: (i64, i64))
    ensures
        (age.0 as int, age.1 as int) == age_of(
            crate::score::rules::toward_zero_div(now - created_at, 86400),
        ),
{
    account_age(crate::score::days_between(now, created_at))
}

/// A rectangle of terminal cells.
#[derive(Debug, Clone, Copy, PartialEq, Eq, Structural)]
pub struct Area {
    pub x: u16,
    pub y: u16,
    pub width: u16,
    pub height: u16,
}

/// The window of at most `w` by `h` cells centred in `area`.
pub open spec fn centered_in(area: Area, w: u16, h: u16) -> Area {
    Area {
        x: (area.x + (if area.width > w {
            area.width - w
        } else {
            0
        }) / 2) as u16,
        y: (area.y + (if area.height > h {
            area.height - h
        } else {
            0
        }) / 2) as u16,
        width: if w < area.width {
            w
        } else {
            area.width
        },
        height: if h < area.height {
            h
        } else {
            area.height
        },
    }
}

/// The window of at most `w` by `h` cells centred in `area` (the help
/// window is 54 by 20).
pub fn centered_popup(area: Area, w: u16, h: u16) -> (popup: Area)
    requires
        area.x + (if area.width > w {
            area.width - w
        } else {
            0
        }) / 2 <= u16::MAX,
        area.y + (if area.height > h {
            area.height - h
        } else {
            0
        }) / 2 <= u16::MAX,
    ensures
        popup == centered_in(area, w, h),
{
    let dx: u16 = if area.width > w {
        area.width - w
    } else {
        0
    };
    let dy: u16 = if area.height > h {
        area.height - h
    } else {
        0
    };
    Area {
        x: area.x + dx / 2,
        y: area.y + dy / 2,
        width: if w < area.width {
            w
        } else {
            area.width
        },
        height: if h < area.height {
            h
        } else {
            area.height
        },
    }
}

/// The frame of the loading spinner shown `millis` milliseconds into the
/// current second: one of ten frames, each shown for 100 ms.
pub fn spinner_frame(millis: u32) -> (frame: usize)
    ensures
        frame == (millis / 100) % 10,
        frame < 10,
{
    ((millis / 100) % 10) as usize
}

/// A score bar always has ten cells, and a score of 100 fills them all.
pub proof fn law_score_bar_cells(score: u8)
    ensures
        (repeated('█', bar_cells(score)) + repeated('░', (10 - bar_cells(score)) as nat)).len() == 10,
        score >= 100 ==> bar_cells(score) == 10,
        bar_cells(score) <= 10,
{
}

/// The star chart shows at most eight repositories, most stars first.
pub proof fn law_star_chart(repos: Seq<Repository>)
    ensures
        star_chart(repos).len() <= STAR_CHART_ROWS,
        crate::order::is_rank_descending(star_chart(repos), rank_fn::<StarredRepo>()),
{
    let all = starred_among(repos, repos.len() as int);
    crate::order::lemma_sort_descending(all, rank_fn::<StarredRepo>());
    crate::order::lemma_sort_len(all, rank_fn::<StarredRepo>());
}

/// Every bar of the star chart fits its width: no row has more stars than
/// the first, so a row's cells in proportion to the first row's stars (the
/// cells `star_bar` fills) never exceed the width.
pub proof fn law_star_bars_fit(repos: Seq<Repository>, i: int, width: nat)
    requires
        0 <= i < star_chart(repos).len(),
    ensures
        star_chart(repos)[i].stars <= star_chart(repos)[0].stars,
        star_chart(repos)[i].stars * width / (if star_chart(repos)[0].stars > 1 {
            star_chart(repos)[0].stars as int
        } else {
            1
        }) <= width,
{
    law_star_chart(repos);
    let chart = star_chart(repos);
    if i > 0 {
        assert(rank_fn::<StarredRepo>()(chart[0]) >= rank_fn::<StarredRepo>()(chart[i]));
    }
    let s = chart[i].stars as int;
    let t = chart[0].stars as int;
    let most = if t > 1 {
        t
    } else {
        1
    };
    assert(s * width / most <= width) by (nonlinear_arith)
        requires
            0 <= s <= t,
            most >= 1,
            t <= most,
            width >= 0,
    {
        assert(s * width <= most * width);
        assert((most * width) / most == width);
    }
}

/// The language breakdown lists the most used languages first.
pub proof fn law_language_breakdown_sorted(repos: Seq<Repository>)
    ensures
        crate::order::is_rank_descending(language_breakdown(repos), rank_fn::<LanguageCount>()),
{
    crate::order::lemma_sort_descending(
        languages_among(repos, repos.len() as int),
        rank_fn::<LanguageCount>(),
    );
}

} // verus!
