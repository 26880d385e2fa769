//! Decisions taken while fetching data from the GitHub API: reading the
//! page count from a `Link` header, paging, choosing and applying the
//! enrichment of repositories, tallying events per day, and the totals.
use vstd::prelude::*;

use crate::api::types::{is_owned, ContributionDay, Repository};
use crate::clock::{day_text, format_day, today_number, FIRST_DAY, LAST_DAY};
use crate::text::{chars_of, is_digit};
use crate::ui::heatmap::HEATMAP_DAYS;
use vstd::utf8::{decode_utf8, encode_utf8, is_char_boundary};

verus! {

/// The first position of `c` in `s`.
pub open spec fn find_char(s: Seq<char>, c: char) -> Option<int>
    decreases s.len(),
{
    if s.len() == 0 {
        None
    } else if s[0] == c {
        Some(0)
    } else {
        match find_char(s.drop_first(), c) {
            Some(i) => Some(i + 1),
            None => None,
        }
    }
}

/// `pat` occurs in `s` starting at position `i`.
pub open spec fn occurs_at(s: Seq<char>, pat: Seq<char>, i: int) -> bool {
    0 <= i && i + pat.len() <= s.len() && s.subrange(i, i + pat.len()) == pat
}

/// The first position at which `pat` occurs in `s` (`str::find`).
pub open spec fn find_sub(s: Seq<char>, pat: Seq<char>) -> Option<int>
    decreases s.len(),
{
    if occurs_at(s, pat, 0) {
        Some(0)
    } else if s.len() == 0 {
        None
    } else {
        match find_sub(s.drop_first(), pat) {
            Some(i) => Some(i + 1),
            None => None,
        }
    }
}

/// The longest prefix of `s` made of ASCII digits.
pub open spec fn leading_digits(s: Seq<char>) -> Seq<char>
    decreases s.len(),
{
    if s.len() > 0 && is_digit(s[0]) {
        seq![s[0]] + leading_digits(s.drop_first())
    } else {
        seq![]
    }
}

/// The value of a digit character.
pub open spec fn digit_value(c: char) -> int {
    c as int - '0' as int
}

/// The number that a sequence of digits writes in base ten.
pub open spec fn digits_value(ds: Seq<char>) -> int
    decreases ds.len(),
{
    if ds.len() == 0 {
        0
    } else {
        digits_value(ds.drop_last()) * 10 + digit_value(ds.last())
    }
}

/// What `str::parse::<u32>` gives for a sequence of digits: nothing for an
/// empty text or a number that does not fit in `u32`.
pub open spec fn parse_digits(ds: Seq<char>) -> Option<u32> {
    if ds.len() == 0 || digits_value(ds) > u32::MAX {
        None
    } else {
        Some(digits_value(ds) as u32)
    }
}

/// A `page` query parameter starts at position `i` of `s`: `page=` occurs
/// there right after a `?` or an `&` (so `per_page=` is no such parameter).
pub open spec fn page_param_at(s: Seq<char>, i: int) -> bool {
    &&& 1 <= i
    &&& occurs_at(s, "page="@, i)
    &&& (s[i - 1] == '?' || s[i - 1] == '&')
}

/// The first position, from `i` on, where a `page` query parameter starts.
pub open spec fn find_page_param_from(s: Seq<char>, i: int) -> Option<int>
    decreases s.len() - i,
{
    if i < 0 || i >= s.len() {
        None
    } else if page_param_at(s, i) {
        Some(i)
    } else {
        find_page_param_from(s, i + 1)
    }
}

/// What one comma-separated part of a `Link` header decides: nothing when
/// it is not the `rel="last"` part or its URL has no `page` query
/// parameter; otherwise the number that parameter gives (which may fail to
/// parse).
pub open spec fn part_last_page(part: Seq<char>) -> Option<Option<u32>> {
    if find_sub(part, "rel=\"last\""@) is Some {
        match find_page_param_from(part, 0) {
            Some(start) => Some(parse_digits(leading_digits(part.skip(start + 5)))),
            None => None,
        }
    } else {
        None
    }
}

/// The page count that a `Link` header announces: the decision of the
/// first comma-separated part that decides, or nothing.
pub open spec fn last_page_of(link: Seq<char>) -> Option<u32>
    decreases link.len(),
{
    match find_char(link, ',') {
        None => match part_last_page(link) {
            Some(r) => r,
            None => None,
        },
        Some(i) => match part_last_page(link.take(i)) {
            Some(r) => r,
            None => {
                proof {
                    lemma_find_char_range(link, ',');
                }
                last_page_of(link.skip(i + 1))
            },
        },
    }
}

/// `find_char` gives a position of `c` inside `s`, before which `c` does
/// not occur; it gives nothing only when `c` does not occur.
pub proof fn lemma_find_char_range(s: Seq<char>, c: char)
    ensures
        find_char(s, c) matches Some(i) ==> 0 <= i < s.len() && s[i] == c && forall|k: int|
            0 <= k < i ==> s[k] != c,
        find_char(s, c) is None ==> forall|k: int| 0 <= k < s.len() ==> s[k] != c,
    decreases s.len(),
{
    if s.len() > 0 && s[0] != c {
        lemma_find_char_range(s.drop_first(), c);
        if let Some(i) = find_char(s.drop_first(), c) {
            assert forall|k: int| 0 <= k < i + 1 implies s[k] != c by {
                if k > 0 {
                    assert(s[k] == s.drop_first()[k - 1]);
                }
            }
        } else {
            assert forall|k: int| 0 <= k < s.len() implies s[k] != c by {
                if k > 0 {
                    assert(s[k] == s.drop_first()[k - 1]);
                }
            }
        }
    }
}

/// Whether `pat` occurs in `s` at position `i`.
fn occurs_at_exec(s: &Vec<char>, pat: &Vec<char>, i: usize) -> (r: bool)
    ensures
        r == occurs_at(s@, pat@, i as int),
{
    if i > s.len() || pat.len() > s.len() - i {
        return false;
    }
    let mut k: usize = 0;
    while k < pat.len()
        invariant
            k <= pat.len(),
            i + pat.len() <= s.len(),
            forall|j: int| 0 <= j < k ==> s@[i + j] == pat@[j],
        decreases pat.len() - k,
    {
        if s[i + k] != pat[k] {
            assert(s@.subrange(i as int, i + pat.len())[k as int] != pat@[k as int]);
            return false;
        }
        k = k + 1;
    }
    assert(s@.subrange(i as int, i + pat.len()) =~= pat@);
    true
}

/// The first position at which `pat` occurs in `s`.
fn find_sub_exec(s: &Vec<char>, pat: &Vec<char>) -> (r: Option<usize>)
    ensures
        r matches Some(i) ==> find_sub(s@, pat@) == Some(i as int),
        r is None ==> find_sub(s@, pat@) is None,
{
    let mut i: usize = 0;
    assert(s@.skip(0) =~= s@);
    while i < s.len()
        invariant
            i <= s.len(),
            find_sub(s@, pat@) == match find_sub(s@.skip(i as int), pat@) {
                Some(j) => Some(j + i),
                None => None,
            },
        decreases s.len() - i,
    {
        let here = occurs_at_exec(s, pat, i);
        let ghost rest = s@.skip(i as int);
        assert(occurs_at(rest, pat@, 0) == here) by {
            if i + pat@.len() <= s@.len() {
                assert(rest.subrange(0, pat@.len() as int) =~= s@.subrange(
                    i as int,
                    i + pat@.len(),
                ));
            }
        }
        if here {
            return Some(i);
        }
        assert(rest.drop_first() =~= s@.skip(i + 1));
        i = i + 1;
    }
    let here = occurs_at_exec(s, pat, i);
    let ghost rest = s@.skip(i as int);
    assert(rest.len() == 0);
    assert(occurs_at(rest, pat@, 0) == here) by {
        if i + pat@.len() <= s@.len() {
            assert(rest.subrange(0, pat@.len() as int) =~= s@.subrange(i as int, i + pat@.len()));
        }
    }
    if here {
        Some(i)
    } else {
        None
    }
}

/// The longest prefix of `s[from..]` made of digits, as a new vector.
fn leading_digits_exec(s: &Vec<char>, from: usize) -> (ds: Vec<char>)
    requires
        from <= s.len(),
    ensures
        ds@ == leading_digits(s@.skip(from as int)),
{
    let mut ds: Vec<char> = Vec::new();
    let mut j = from;
    assert(s@.skip(from as int) =~= s@.subrange(from as int, from as int) + s@.skip(from as int));
    while j < s.len() && '0' <= s[j] && s[j] <= '9'
        invariant
            from <= j <= s.len(),
            ds@ == s@.subrange(from as int, j as int),
            leading_digits(s@.skip(from as int)) == ds@ + leading_digits(s@.skip(j as int)),
        decreases s.len() - j,
    {
        let ghost rest = s@.skip(j as int);
        assert(rest[0] == s@[j as int]);
        assert(rest.drop_first() =~= s@.skip(j + 1));
        ds.push(s[j]);
        j = j + 1;
        assert(ds@ =~= s@.subrange(from as int, j as int));
        assert(leading_digits(s@.skip(from as int)) =~= ds@ + leading_digits(s@.skip(j as int)));
    }
    proof {
        let rest = s@.skip(j as int);
        if j < s.len() {
            assert(rest[0] == s@[j as int]);
        }
        assert(leading_digits(rest) =~= seq![]);
        assert(ds@ + leading_digits(rest) =~= ds@);
    }
    ds
}

/// `str::parse::<u32>` of a sequence of digits.
fn parse_digits_exec(ds: &Vec<char>) -> (r: Option<u32>)
    requires
        forall|i: int| 0 <= i < ds.len() ==> is_digit(#[trigger] ds@[i]),
    ensures
        r == parse_digits(ds@),
{
    if ds.len() == 0 {
        return None;
    }
    let mut value: u64 = 0;
    let mut i: usize = 0;
    while i < ds.len()
        invariant
            i <= ds.len(),
            forall|k: int| 0 <= k < ds.len() ==> is_digit(#[trigger] ds@[k]),
            value <= u32::MAX ==> value as int == digits_value(ds@.take(i as int)),
            value > u32::MAX <==> digits_value(ds@.take(i as int)) > u32::MAX,
            value <= u32::MAX as u64 + 1,
            digits_value(ds@.take(i as int)) >= 0,
        decreases ds.len() - i,
    {
        let c = ds[i];
        assert(is_digit(ds@[i as int]));
        let d: u64 = (c as u32 - '0' as u32) as u64;
        proof {
            let t = ds@.take(i + 1);
            assert(t.drop_last() =~= ds@.take(i as int));
            assert(t.last() == c);
        }
        if value <= u32::MAX as u64 {
            let next = value * 10 + d;
            value = if next > u32::MAX as u64 {
                u32::MAX as u64 + 1
            } else {
                next
            };
        }
        i = i + 1;
    }
    assert(ds@.take(i as int) =~= ds@);
    if value > u32::MAX as u64 {
        None
    } else {
        Some(value as u32)
    }
}

/// The first position where a `page` query parameter of `part` starts.
fn find_page_param_exec(part: &Vec<char>, page: &Vec<char>) -> (r: Option<usize>)
    requires
        page@ == "page="@,
    ensures
        r matches Some(i) ==> find_page_param_from(part@, 0) == Some(i as int) && i + 5 <= part@.len(),
        r is None ==> find_page_param_from(part@, 0) is None,
{
    proof {
        reveal_strlit("page=");
    }
    let mut i: usize = 0;
    while i < part.len()
        invariant
            i <= part.len(),
            page@ == "page="@,
            page@.len() == 5,
            find_page_param_from(part@, 0) == find_page_param_from(part@, i as int),
        decreases part.len() - i,
    {
        let here = i >= 1 && occurs_at_exec(part, page, i) && (part[i - 1] == '?' || part[i - 1]
            == '&');
        assert(here == page_param_at(part@, i as int));
        if here {
            return Some(i);
        }
        i = i + 1;
    }
    None
}

/// What one part of a `Link` header decides.
fn part_last_page_exec(part: &Vec<char>, rel: &Vec<char>, page: &Vec<char>) -> (r: Option<
    Option<u32>,
>)
    requires
        rel@ == "rel=\"last\""@,
        page@ == "page="@,
    ensures
        r == part_last_page(part@),
{
    match find_sub_exec(part, rel) {
        None => None,
        Some(_) => match find_page_param_exec(part, page) {
            None => None,
            Some(start) => {
                let n = part.len();
                assert(start + 5 <= n);
                let ds = leading_digits_exec(part, start + 5);
                proof {
                    lemma_leading_digits_are_digits(part@.skip(start + 5));
                }
                Some(parse_digits_exec(&ds))
            },
        },
    }
}

/// The leading digits are digits, and a prefix of the text.
pub proof fn lemma_leading_digits_are_digits(s: Seq<char>)
    ensures
        forall|i: int| 0 <= i < leading_digits(s).len() ==> is_digit(#[trigger] leading_digits(s)[i]),
        leading_digits(s).len() <= s.len(),
    decreases s.len(),
{
    if s.len() > 0 && is_digit(s[0]) {
        lemma_leading_digits_are_digits(s.drop_first());
        let l = leading_digits(s);
        assert forall|i: int| 0 <= i < l.len() implies is_digit(#[trigger] l[i]) by {
            if i > 0 {
                assert(l[i] == leading_digits(s.drop_first())[i - 1]);
            }
        }
    }
}

/// The number of the last page that a `Link` header announces, as in
/// `<url?page=N>; rel="last"`: the first comma-separated part that contains
/// `rel="last"` and a `page` query parameter (a `page=` right after `?` or
/// `&`) gives the number written after that `page=` (nothing when that is
/// not a `u32`); a header without such a part gives nothing.
pub fn parse_last_page(link: &str) -> (r: Option<u32>)
    ensures
        r == last_page_of(link@),
{
    let chars = chars_of(link);
    let rel = chars_of("rel=\"last\"");
    let page = chars_of("page=");
    let mut start: usize = 0;
    let mut i: usize = 0;
    assert(chars@.skip(0) =~= chars@);
    while i < chars.len()
        invariant
            start <= i <= chars.len(),
            chars@ == link@,
            rel@ == "rel=\"last\""@,
            page@ == "page="@,
            last_page_of(link@) == last_page_of(chars@.skip(start as int)),
            forall|k: int| start <= k < i ==> chars@[k] != ',',
        decreases chars.len() - i,
    {
        if chars[i] == ',' {
            let ghost rest = chars@.skip(start as int);
            proof {
                lemma_find_char_first(rest, ',', i - start);
            }
            let mut part: Vec<char> = Vec::new();
            let mut k = start;
            while k < i
                invariant
                    start <= k <= i < chars.len(),
                    part@ == chars@.subrange(start as int, k as int),
                decreases i - k,
            {
                part.push(chars[k]);
                k = k + 1;
                assert(part@ =~= chars@.subrange(start as int, k as int));
            }
            assert(part@ =~= rest.take(i - start));
            match part_last_page_exec(&part, &rel, &page) {
                Some(r) => {
                    return r;
                },
                None => {},
            }
            assert(rest.skip(i - start + 1) =~= chars@.skip(i + 1));
            start = i + 1;
        }
        i = i + 1;
    }
    let ghost rest = chars@.skip(start as int);
    proof {
        lemma_find_char_none(rest, ',');
    }
    let mut part: Vec<char> = Vec::new();
    let mut k = start;
    while k < chars.len()
        invariant
            start <= k <= chars.len(),
            part@ == chars@.subrange(start as int, k as int),
        decreases chars.len() - k,
    {
        part.push(chars[k]);
        k = k + 1;
        assert(part@ =~= chars@.subrange(start as int, k as int));
    }
    assert(part@ =~= rest);
    match part_last_page_exec(&part, &rel, &page) {
        Some(r) => r,
        None => None,
    }
}

/// `find_char` finds the first occurrence.
pub proof fn lemma_find_char_first(s: Seq<char>, c: char, i: int)
    requires
        0 <= i < s.len(),
        s[i] == c,
        forall|k: int| 0 <= k < i ==> s[k] != c,
    ensures
        find_char(s, c) == Some(i),
    decreases i,
{
    if i > 0 {
        assert forall|k: int| 0 <= k < i - 1 implies s.drop_first()[k] != c by {
            assert(s.drop_first()[k] == s[k + 1]);
        }
        lemma_find_char_first(s.drop_first(), c, i - 1);
    }
}

/// `find_char` finds nothing where the character does not occur.
pub proof fn lemma_find_char_none(s: Seq<char>, c: char)
    requires
        forall|k: int| 0 <= k < s.len() ==> s[k] != c,
    ensures
        find_char(s, c) is None,
    decreases s.len(),
{
    if s.len() > 0 {
        assert forall|k: int| 0 <= k < s.len() - 1 implies s.drop_first()[k] != c by {
            assert(s.drop_first()[k] == s[k + 1]);
        }
        lemma_find_char_none(s.drop_first(), c);
    }
}

/// How an HTTP status answers a request.
#[derive(Debug, Clone, Copy, PartialEq, Eq, Structural)]
pub enum StatusClass {
    /// 404: the resource does not exist (read as JSON `null`).
    Missing,
    /// Any other status outside 200..=299: the request failed.
    Failed,
    /// 200..=299: the body holds the answer.
    Success,
}

/// The class of an HTTP status code.
pub fn classify_status(code: u16) -> (c: StatusClass)
    ensures
        c == (if code == 404 {
            StatusClass::Missing
        } else if 200 <= code <= 299 {
            StatusClass::Success
        } else {
            StatusClass::Failed
        }),
{
    if code == 404 {
        StatusClass::Missing
    } else if 200 <= code && code <= 299 {
        StatusClass::Success
    } else {
        StatusClass::Failed
    }
}

/// The most pages of repositories fetched for one user (100 per page).
pub const MAX_REPO_PAGES: u32 = 5;

/// What to do after a page of repositories arrived.
#[derive(Debug, Clone, Copy, PartialEq, Eq, Structural)]
pub enum PageStep {
    /// The listing is complete.
    Done,
    /// Fetch this page next.
    Next(u32),
}

/// After page `page` brought `batch_len` repositories: an empty page ends
/// the listing (and adds nothing); otherwise its repositories are kept and
/// the next page is fetched, up to page 5.
pub fn after_repo_page(page: u32, batch_len: usize) -> (step: PageStep)
    requires
        page < u32::MAX,
    ensures
        batch_len == 0 ==> step == PageStep::Done,
        batch_len > 0 && page + 1 > MAX_REPO_PAGES ==> step == PageStep::Done,
        batch_len > 0 && page + 1 <= MAX_REPO_PAGES ==> step == PageStep::Next((page + 1) as u32),
{
    if batch_len == 0 {
        PageStep::Done
    } else if page + 1 > MAX_REPO_PAGES {
        PageStep::Done
    } else {
        PageStep::Next(page + 1)
    }
}

/// The most pages of public events fetched for one user (100 per page).
pub const MAX_EVENT_PAGES: u32 = 3;

/// After page `page` of events arrived (`listed` is the number of events on
/// it, `None` when the answer was not a JSON array): an answer that is not a
/// list, or an empty one, ends the listing; otherwise its events are kept
/// and the next page is fetched, up to page 3.
pub fn after_event_page(page: u32, listed: Option<usize>) -> (step: PageStep)
    requires
        page < u32::MAX,
    ensures
        step == (match listed {
            Some(n) if n > 0 && page + 1 <= MAX_EVENT_PAGES => PageStep::Next((page + 1) as u32),
            _ => PageStep::Done,
        }),
{
    match listed {
        Some(n) => {
            if n > 0 && page + 1 <= MAX_EVENT_PAGES {
                PageStep::Next(page + 1)
            } else {
                PageStep::Done
            }
        },
        None => PageStep::Done,
    }
}

/// Whether a listing of `.github/workflows` shows a workflow: a JSON array
/// with at least one entry (`listed` is the array's length, `None` when the
/// answer was not an array or the request failed).
pub fn has_workflow_files(listed: Option<usize>) -> (r: bool)
    ensures
        r == (listed matches Some(n) && n > 0),
{
    match listed {
        Some(n) => n > 0,
        None => false,
    }
}

/// The number of closed issues: the last page announced by the `Link`
/// header when there is one (with one issue per page), otherwise the length
/// of the listed array (truncated to `u32`), otherwise 0.
pub fn closed_issue_count(last_page: Option<u32>, listed: Option<usize>) -> (n: u32)
    ensures
        n == (match last_page {
            Some(p) => p,
            None => match listed {
                Some(l) => l as u32,
                None => 0,
            },
        }),
{
    match last_page {
        Some(p) => p,
        None => match listed {
            Some(l) => {
                #[verifier::truncate]
                (l as u32)
            },
            None => 0,
        },
    }
}

/// What the enrichment pass found out about a repository.
#[derive(Debug, Clone, Copy)]
pub struct RepoFacts {
    pub readme: bool,
    pub gitignore: bool,
    pub ci: bool,
    pub tests_dir: bool,
    pub tests_file: bool,
    pub contributing: bool,
    pub code_of_conduct: bool,
    pub closed_issues: u32,
}

/// Records the findings of the enrichment pass in `repo`: tests count when
/// either a `tests` or a `test` path exists; nothing else changes.
pub fn apply_enrichment(repo: &mut Repository, facts: RepoFacts)
    ensures
        *final(repo) == (Repository {
            has_readme: facts.readme,
            has_gitignore: facts.gitignore,
            has_ci: facts.ci,
            has_tests: facts.tests_dir || facts.tests_file,
            has_contributing: facts.contributing,
            has_code_of_conduct: facts.code_of_conduct,
            closed_issues_count: facts.closed_issues,
            ..*old(repo)
        }),
{
    repo.has_readme = facts.readme;
    repo.has_gitignore = facts.gitignore;
    repo.has_ci = facts.ci;
    repo.has_tests = facts.tests_dir || facts.tests_file;
    repo.has_contributing = facts.contributing;
    repo.has_code_of_conduct = facts.code_of_conduct;
    repo.closed_issues_count = facts.closed_issues;
}

/// The most repositories enriched per fetch.
pub const MAX_ENRICHED: usize = 20;

/// The repositories enriched per batch.
pub const ENRICH_BATCH: usize = 5;

/// The positions of the user's own repositories among the first `n`.
pub open spec fn owned_positions(repos: Seq<Repository>, n: int) -> Seq<int>
    decreases n,
{
    if n <= 0 {
        seq![]
    } else if is_owned(repos[n - 1]) {
        owned_positions(repos, n - 1).push(n - 1)
    } else {
        owned_positions(repos, n - 1)
    }
}

/// The positions of the repositories to enrich: the first 20 that are the
/// user's own (neither forks nor archived), in order.
pub open spec fn positions_to_enrich(repos: Seq<Repository>) -> Seq<int> {
    let all = owned_positions(repos, repos.len() as int);
    if all.len() > MAX_ENRICHED {
        all.take(MAX_ENRICHED as int)
    } else {
        all
    }
}

/// There are never more owned positions than positions.
proof fn lemma_owned_positions_len(repos: Seq<Repository>, n: int)
    requires
        0 <= n,
    ensures
        owned_positions(repos, n).len() <= n,
    decreases n,
{
    if n > 0 {
        lemma_owned_positions_len(repos, n - 1);
    }
}

/// The positions of the repositories to enrich.
pub fn repos_to_enrich(repos: &Vec<Repository>) -> (picked: Vec<usize>)
    ensures
        picked@.map_values(|i: usize| i as int) == positions_to_enrich(repos@),
{
    let mut picked: Vec<usize> = Vec::new();
    let mut i: usize = 0;
    while i < repos.len()
        invariant
            i <= repos.len(),
            picked@.map_values(|k: usize| k as int) == owned_positions(repos@, i as int),
        decreases repos.len() - i,
    {
        if !repos[i].fork && !repos[i].archived {
            picked.push(i);
        }
        i = i + 1;
        assert(picked@.map_values(|k: usize| k as int) =~= owned_positions(repos@, i as int));
    }
    proof {
        lemma_owned_positions_len(repos@, i as int);
    }
    if picked.len() > MAX_ENRICHED {
        picked.truncate(MAX_ENRICHED);
    }
    assert(picked@.map_values(|k: usize| k as int) =~= positions_to_enrich(repos@));
    picked
}

/// `items` cut into consecutive batches of `size`, the last one possibly
/// shorter (`chunks`).
pub open spec fn batches_of(items: Seq<usize>, size: int, k: int) -> Seq<usize> {
    items.subrange(k * size, if (k + 1) * size < items.len() {
        (k + 1) * size
    } else {
        items.len() as int
    })
}

/// The number of batches of `size` needed for `n` items.
pub open spec fn batch_count(n: int, size: int) -> int {
    (n + size - 1) / size
}

/// Cuts the positions into batches of five, in order.
pub fn enrichment_batches(items: &Vec<usize>) -> (batches: Vec<Vec<usize>>)
    ensures
        batches@.len() == batch_count(items@.len() as int, ENRICH_BATCH as int),
        forall|k: int|
            0 <= k < batches@.len() ==> #[trigger] batches@[k]@ == batches_of(
                items@,
                ENRICH_BATCH as int,
                k,
            ),
{
    let mut batches: Vec<Vec<usize>> = Vec::new();
    let mut start: usize = 0;
    while start < items.len()
        invariant
            start <= items.len(),
            start == (if batches@.len() * 5 <= items.len() {
                batches@.len() * 5 as int
            } else {
                items.len() as int
            }),
            batches@.len() > 0 ==> (batches@.len() - 1) * 5 < items.len(),
            forall|k: int|
                0 <= k < batches@.len() ==> #[trigger] batches@[k]@ == batches_of(
                    items@,
                    ENRICH_BATCH as int,
                    k,
                ),
        decreases items.len() - start,
    {
        let end = if start + ENRICH_BATCH < items.len() {
            start + ENRICH_BATCH
        } else {
            items.len()
        };
        let mut batch: Vec<usize> = Vec::new();
        let mut j = start;
        while j < end
            invariant
                start <= j <= end <= items.len(),
                batch@ == items@.subrange(start as int, j as int),
            decreases end - j,
        {
            batch.push(items[j]);
            j = j + 1;
            assert(batch@ =~= items@.subrange(start as int, j as int));
        }
        let ghost k = batches@.len() as int;
        batches.push(batch);
        assert(batches@[k]@ == batches_of(items@, ENRICH_BATCH as int, k));
        start = end;
    }
    let ghost bl = batches@.len() as int;
    let ghost n = items@.len() as int;
    assert(bl == batch_count(n, ENRICH_BATCH as int)) by (nonlinear_arith)
        requires
            bl * 5 >= n,
            bl > 0 ==> (bl - 1) * 5 < n,
            bl == 0 ==> n == 0,
            n >= 0,
            bl >= 0,
    ;
    batches
}

/// The sum of the stars of the repositories.
pub open spec fn star_sum(repos: Seq<Repository>) -> int
    decreases repos.len(),
{
    if repos.len() == 0 {
        0
    } else {
        star_sum(repos.drop_last()) + repos.last().stargazers_count
    }
}

/// The sum of the forks of the repositories.
pub open spec fn fork_sum(repos: Seq<Repository>) -> int
    decreases repos.len(),
{
    if repos.len() == 0 {
        0
    } else {
        fork_sum(repos.drop_last()) + repos.last().forks_count
    }
}

/// Sums of stars and forks are never negative.
proof fn lemma_sums_nonnegative(repos: Seq<Repository>)
    ensures
        star_sum(repos) >= 0,
        fork_sum(repos) >= 0,
    decreases repos.len(),
{
    if repos.len() > 0 {
        lemma_sums_nonnegative(repos.drop_last());
    }
}

/// Partial sums never exceed the whole.
proof fn lemma_sums_grow(repos: Seq<Repository>, i: int)
    requires
        0 <= i <= repos.len(),
    ensures
        star_sum(repos.take(i)) <= star_sum(repos),
        fork_sum(repos.take(i)) <= fork_sum(repos),
        star_sum(repos.take(i)) >= 0,
        fork_sum(repos.take(i)) >= 0,
    decreases repos.len() - i,
{
    lemma_sums_nonnegative(repos.take(i));
    if i < repos.len() {
        lemma_sums_grow(repos, i + 1);
        assert(repos.take(i + 1).drop_last() =~= repos.take(i));
    } else {
        assert(repos.take(i) =~= repos);
    }
}

/// The total stars and forks of the repositories (sums that fit in `u32`).
pub fn repo_totals(repos: &Vec<Repository>) -> (totals: (u32, u32))
    requires
        star_sum(repos@) <= u32::MAX,
        fork_sum(repos@) <= u32::MAX,
    ensures
        totals.0 as int == star_sum(repos@),
        totals.1 as int == fork_sum(repos@),
{
    let mut stars: u32 = 0;
    let mut forks: u32 = 0;
    let mut i: usize = 0;
    while i < repos.len()
        invariant
            i <= repos.len(),
            star_sum(repos@) <= u32::MAX,
            fork_sum(repos@) <= u32::MAX,
            stars as int == star_sum(repos@.take(i as int)),
            forks as int == fork_sum(repos@.take(i as int)),
        decreases repos.len() - i,
    {
        proof {
            lemma_sums_grow(repos@, i + 1);
            assert(repos@.take(i + 1).drop_last() =~= repos@.take(i as int));
        }
        stars = stars + repos[i].stargazers_count;
        forks = forks + repos[i].forks_count;
        i = i + 1;
    }
    assert(repos@.take(i as int) =~= repos@);
    (stars, forks)
}

/// The date part of an event time stamp: its first ten bytes.
pub open spec fn date_part(stamp: Seq<char>) -> Seq<char> {
    decode_utf8(encode_utf8(stamp).subrange(0, 10))
}

/// A time stamp whose first ten bytes end on a character boundary (what
/// slicing it at byte 10 needs).
pub open spec fn has_date_part(stamp: Seq<char>) -> bool {
    encode_utf8(stamp).len() >= 10 && is_char_boundary(encode_utf8(stamp), 10)
}

/// The number of stamps whose date part is `day`.
pub open spec fn events_on(stamps: Seq<Seq<char>>, day: Seq<char>) -> nat {
    stamps.filter(|s: Seq<char>| date_part(s) == day).len()
}

/// The date part of a time stamp.
fn date_of(stamp: &String) -> (d: String)
    requires
        has_date_part(stamp@),
    ensures
        d@ == date_part(stamp@),
{
    let s = stamp.as_str();
    let (head, _) = s.split_at(10);
    proof {
        vstd::utf8::encode_utf8_decode_utf8(head@);
    }
    head.to_owned()
}

/// Filtering a prefix keeps no more than filtering the whole sequence.
proof fn lemma_filter_prefix_len<V>(s: Seq<V>, j: int, pred: spec_fn(V) -> bool)
    requires
        0 <= j <= s.len(),
    ensures
        s.take(j).filter(pred).len() <= s.filter(pred).len(),
    decreases s.len() - j,
{
    if j < s.len() {
        lemma_filter_prefix_len(s, j + 1, pred);
        crate::order::lemma_filter_push(s.take(j), s[j], pred);
        assert(s.take(j).push(s[j]) =~= s.take(j + 1));
    } else {
        assert(s.take(j) =~= s);
    }
}

/// One contribution day per key of `days`, in order, counting the events
/// whose time stamp starts with that day.
pub fn tally_contributions(stamps: &Vec<String>, days: &Vec<String>) -> (tally: Vec<ContributionDay>)
    requires
        forall|i: int| 0 <= i < stamps.len() ==> has_date_part(#[trigger] stamps@[i]@),
        forall|i: int|
            0 <= i < days.len() ==> events_on(stamps@.map_values(|s: String| s@), #[trigger] days@[i]@)
                <= u32::MAX,
    ensures
        tally@.len() == days@.len(),
        forall|i: int|
            0 <= i < days@.len() ==> (#[trigger] tally@[i]).date@ == days@[i]@ && tally@[i].count
                == events_on(stamps@.map_values(|s: String| s@), days@[i]@),
{
    let ghost views = stamps@.map_values(|s: String| s@);
    let mut dates: Vec<String> = Vec::new();
    let mut i: usize = 0;
    while i < stamps.len()
        invariant
            i <= stamps.len(),
            views == stamps@.map_values(|s: String| s@),
            forall|k: int| 0 <= k < stamps.len() ==> has_date_part(#[trigger] stamps@[k]@),
            dates@.len() == i,
            forall|k: int| 0 <= k < i ==> (#[trigger] dates@[k])@ == date_part(views[k]),
        decreases stamps.len() - i,
    {
        dates.push(date_of(&stamps[i]));
        i = i + 1;
    }
    let mut tally: Vec<ContributionDay> = Vec::new();
    let mut d: usize = 0;
    while d < days.len()
        invariant
            d <= days.len(),
            views == stamps@.map_values(|s: String| s@),
            dates@.len() == stamps.len(),
            forall|k: int| 0 <= k < days.len() ==> events_on(views, #[trigger] days@[k]@) <= u32::MAX,
            forall|k: int| 0 <= k < stamps.len() ==> (#[trigger] dates@[k])@ == date_part(views[k]),
            tally@.len() == d,
            forall|k: int|
                0 <= k < d ==> (#[trigger] tally@[k]).date@ == days@[k]@ && tally@[k].count
                    == events_on(views, days@[k]@),
        decreases days.len() - d,
    {
        let key = &days[d];
        let ghost pred = |s: Seq<char>| date_part(s) == key@;
        assert(events_on(views, days@[d as int]@) <= u32::MAX);
        assert(views.filter(pred).len() <= u32::MAX);
        let mut count: u32 = 0;
        let mut j: usize = 0;
        while j < dates.len()
            invariant
                j <= dates.len(),
                dates@.len() == stamps.len() == views.len(),
                views.filter(pred).len() <= u32::MAX,
                forall|k: int| 0 <= k < stamps.len() ==> (#[trigger] dates@[k])@ == date_part(views[k]),
                pred == (|s: Seq<char>| date_part(s) == key@),
                count as int == views.take(j as int).filter(pred).len(),
            decreases dates.len() - j,
        {
            proof {
                crate::order::lemma_filter_push(views.take(j as int), views[j as int], pred);
                assert(views.take(j as int).push(views[j as int]) =~= views.take(j + 1));
                lemma_filter_prefix_len(views, j + 1, pred);
            }
            if dates[j] == *key {
                count = count + 1;
            }
            j = j + 1;
        }
        assert(views.take(j as int) =~= views);
        tally.push(ContributionDay { date: key.clone(), count });
        d = d + 1;
    }
    tally
}

/// The dates of the days whose events are tallied when day `today` (counted
/// from 1970-01-01) is the last: the 364 days up to and including it,
/// oldest first.
pub open spec fn window_dates(today: int) -> Seq<Seq<char>> {
    Seq::new(HEATMAP_DAYS as nat, |i: int| day_text((today - (HEATMAP_DAYS - 1) + i) as i64))
}

/// The dates of the 364 days that end with day `today`, oldest first.
pub fn days_ending(today: i64) -> (days: Vec<String>)
    requires
        FIRST_DAY + (HEATMAP_DAYS - 1) <= today <= LAST_DAY,
    ensures
        days@.map_values(|s: String| s@) == window_dates(today as int),
{
    let mut days: Vec<String> = Vec::new();
    let mut i: i64 = 0;
    while i < HEATMAP_DAYS as i64
        invariant
            0 <= i <= HEATMAP_DAYS,
            FIRST_DAY + (HEATMAP_DAYS - 1) <= today <= LAST_DAY,
            days@.len() == i,
            forall|k: int|
                0 <= k < i ==> (#[trigger] days@[k])@ == window_dates(today as int)[k],
        decreases HEATMAP_DAYS - i,
    {
        days.push(format_day(today - (HEATMAP_DAYS as i64 - 1) + i));
        i = i + 1;
    }
    assert(days@.map_values(|s: String| s@) =~= window_dates(today as int));
    days
}

/// The dates of the 364 days that end with day `today`, oldest first, when
/// such a window fits chrono's dates; `None` when `today` is among chrono's
/// first 363 days.
pub fn days_window(today: i64) -> (days: Option<Vec<String>>)
    requires
        FIRST_DAY <= today <= LAST_DAY,
    ensures
        days is None <==> today < FIRST_DAY + (HEATMAP_DAYS - 1),
        days matches Some(v) ==> v@.map_values(|s: String| s@) == window_dates(today as int),
{
    if today >= FIRST_DAY + (HEATMAP_DAYS as i64 - 1) {
        Some(days_ending(today))
    } else {
        None
    }
}

/// The dates of the 364 days that end today (by chrono's clock), oldest
/// first: `days_window` of today's number.
pub fn recent_days() -> (days: Option<Vec<String>>)
    ensures
        days matches Some(v) ==> exists|t: int|
            FIRST_DAY + (HEATMAP_DAYS - 1) <= t <= LAST_DAY && v@.map_values(|s: String| s@)
                == #[trigger] window_dates(t),
{
    days_window(today_number())
}

/// The repositories after each enriched copy in `done`, in turn, takes the
/// place given with it.
pub open spec fn merged(repos: Seq<Repository>, done: Seq<(usize, Repository)>) -> Seq<Repository>
    decreases done.len(),
{
    if done.len() == 0 {
        repos
    } else {
        merged(repos.update(done[0].0 as int, done[0].1), done.drop_first())
    }
}

/// Puts the enriched copies of `done` in place: each `(i, repo)`, in turn,
/// replaces the repository at position `i`.
pub fn merge_enriched(repos: &mut Vec<Repository>, done: Vec<(usize, Repository)>)
    requires
        forall|k: int| 0 <= k < done@.len() ==> (#[trigger] done@[k]).0 < old(repos)@.len(),
    ensures
        final(repos)@ == merged(old(repos)@, done@),
{
    let ghost given = done@;
    let mut done = done;
    while done.len() > 0
        invariant
            merged(old(repos)@, given) == merged(repos@, done@),
            forall|k: int| 0 <= k < done@.len() ==> (#[trigger] done@[k]).0 < repos@.len(),
        decreases done.len(),
    {
        let ghost before = done@;
        let (i, enriched) = done.remove(0);
        assert(done@ =~= before.drop_first());
        assert forall|k: int| 0 <= k < done@.len() implies (#[trigger] done@[k]).0 < repos@.len() by {
            assert(done@[k] == before[k + 1]);
        }
        repos[i] = enriched;
    }
}

/// Some copy in `done` is given for position `i`.
pub open spec fn is_named(done: Seq<(usize, Repository)>, i: int) -> bool {
    exists|k: int| 0 <= k < done.len() && (#[trigger] done[k]).0 == i
}

/// Putting enriched copies in place keeps the number and the order of the
/// repositories: a position that no copy names keeps its repository, and a
/// named position holds one of the copies given for it.
pub proof fn law_merge_keeps_order(repos: Seq<Repository>, done: Seq<(usize, Repository)>)
    requires
        forall|k: int| 0 <= k < done.len() ==> (#[trigger] done[k]).0 < repos.len(),
    ensures
        merged(repos, done).len() == repos.len(),
        forall|i: int|
            0 <= i < repos.len() && !is_named(done, i) ==> #[trigger] merged(repos, done)[i]
                == repos[i],
        forall|i: int|
            0 <= i < repos.len() && is_named(done, i) ==> exists|k: int|
                0 <= k < done.len() && (#[trigger] done[k]).0 == i && #[trigger] merged(repos, done)[i]
                    == done[k].1,
    decreases done.len(),
{
    if done.len() > 0 {
        let first = done[0];
        let rest = done.drop_first();
        let next = repos.update(first.0 as int, first.1);
        assert forall|k: int| 0 <= k < rest.len() implies (#[trigger] rest[k]).0 < next.len() by {
            assert(rest[k] == done[k + 1]);
        }
        law_merge_keeps_order(next, rest);
        assert forall|i: int| 0 <= i < repos.len() && !is_named(done, i) implies #[trigger] merged(
            repos,
            done,
        )[i] == repos[i] by {
            assert(done[0].0 != i);
            if is_named(rest, i) {
                let k = choose|k: int| 0 <= k < rest.len() && (#[trigger] rest[k]).0 == i;
                assert(rest[k] == done[k + 1]);
            }
        }
        assert forall|i: int| 0 <= i < repos.len() && is_named(done, i) implies exists|k: int|
            0 <= k < done.len() && (#[trigger] done[k]).0 == i && #[trigger] merged(repos, done)[i]
                == done[k].1 by {
            if is_named(rest, i) {
                let k1 = choose|k: int|
                    0 <= k < rest.len() && (#[trigger] rest[k]).0 == i && #[trigger] merged(
                        next,
                        rest,
                    )[i] == rest[k].1;
                assert(done[k1 + 1] == rest[k1]);
            } else {
                assert(merged(next, rest)[i] == next[i]);
                if first.0 != i {
                    let k0 = choose|k: int| 0 <= k < done.len() && (#[trigger] done[k]).0 == i;
                    assert(k0 > 0);
                    assert(rest[k0 - 1] == done[k0]);
                }
                assert(done[0].0 == i && merged(repos, done)[i] == done[0].1);
            }
        }
    }
}

/// The batches cover the positions in order: position `p` is element
/// `p % 5` of batch `p / 5`, and every batch holds one to five positions.
pub proof fn law_batches_cover(items: Seq<usize>)
    ensures
        forall|p: int|
            0 <= p < items.len() ==> #[trigger] batches_of(items, ENRICH_BATCH as int, p / 5)[p % 5]
                == items[p],
        forall|k: int|
            0 <= k < batch_count(items.len() as int, ENRICH_BATCH as int) ==> 1 <= #[trigger] batches_of(
                items,
                ENRICH_BATCH as int,
                k,
            ).len() <= 5,
{
    assert forall|p: int| 0 <= p < items.len() implies #[trigger] batches_of(
        items,
        ENRICH_BATCH as int,
        p / 5,
    )[p % 5] == items[p] by {
        let k = p / 5;
        assert(k * 5 <= p < (k + 1) * 5);
        assert(p == k * 5 + p % 5);
    }
    assert forall|k: int| 0 <= k < batch_count(items.len() as int, ENRICH_BATCH as int) implies 1
        <= #[trigger] batches_of(items, ENRICH_BATCH as int, k).len() <= 5 by {
        let n = items.len() as int;
        assert(k * 5 < n) by (nonlinear_arith)
            requires
                0 <= k < (n + 4) / 5,
                n >= 0,
        ;
    }
}

/// At most 20 repositories are enriched, all of them the user's own, in
/// increasing positions.
pub proof fn law_enrichment_choice(repos: Seq<Repository>)
    ensures
        positions_to_enrich(repos).len() <= MAX_ENRICHED,
        forall|k: int|
            0 <= k < positions_to_enrich(repos).len() ==> 0 <= #[trigger] positions_to_enrich(
                repos,
            )[k] < repos.len() && is_owned(repos[positions_to_enrich(repos)[k]]),
{
    lemma_owned_positions_facts(repos, repos.len() as int);
}

proof fn lemma_owned_positions_facts(repos: Seq<Repository>, n: int)
    requires
        0 <= n <= repos.len(),
    ensures
        forall|k: int|
            0 <= k < owned_positions(repos, n).len() ==> 0 <= #[trigger] owned_positions(
                repos,
                n,
            )[k] < n && is_owned(repos[owned_positions(repos, n)[k]]),
    decreases n,
{
    if n > 0 {
        lemma_owned_positions_facts(repos, n - 1);
        let prev = owned_positions(repos, n - 1);
        let cur = owned_positions(repos, n);
        assert forall|k: int| 0 <= k < cur.len() implies 0 <= #[trigger] cur[k] < n && is_owned(
            repos[cur[k]],
        ) by {
            if k < prev.len() {
                assert(cur[k] == prev[k]);
            }
        }
    }
}

} // verus!
