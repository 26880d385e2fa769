//! The contribution heatmap: 52 weeks of 7 days, the intensity of each
//! day, the row of month labels above it, and the figures below it.
use vstd::prelude::*;

use crate::api::types::ContributionDay;
use crate::clock::{parse_month, parsed_month};

verus! {

/// The number of days the heatmap shows.
pub const HEATMAP_DAYS: usize = 364;

/// The number of weeks the heatmap shows.
pub const HEATMAP_WEEKS: usize = 52;

/// The width of the month label row: three columns of day labels, then two
/// columns per week.
pub const LABEL_ROW_LEN: usize = 107;

/// The intensity level (0 to 4) of a day with `count` events: none, 1-2,
/// 3-5, 6-9, 10 or more.
pub open spec fn intensity_of(count: u32) -> int {
    if count == 0 {
        0
    } else if count <= 2 {
        1
    } else if count <= 5 {
        2
    } else if count <= 9 {
        3
    } else {
        4
    }
}

/// The intensity level of a day with `count` events.
pub fn intensity(count: u32) -> (level: usize)
    ensures
        level as int == intensity_of(count),
        level <= 4,
{
    if count == 0 {
        0
    } else if count <= 2 {
        1
    } else if count <= 5 {
        2
    } else if count <= 9 {
        3
    } else {
        4
    }
}

/// Where the shown days start: the heatmap shows the last 364 days.
pub open spec fn window_start(len: int) -> int {
    if len > HEATMAP_DAYS {
        len - HEATMAP_DAYS
    } else {
        0
    }
}

/// The intensity of the cell of day `row` of week `week`: the day at
/// position `7 * week + row` of the shown days, 0 when there is none.
pub open spec fn cell_level(days: Seq<ContributionDay>, week: int, row: int) -> int {
    let start = window_start(days.len() as int);
    let k = week * 7 + row;
    if k < days.len() - start {
        intensity_of(days[start + k].count)
    } else {
        0
    }
}

/// The intensity of the cell of day `row` (0 = top row) of week `week`.
pub fn heatmap_cell(days: &Vec<ContributionDay>, week: usize, row: usize) -> (level: usize)
    requires
        week < HEATMAP_WEEKS,
        row < 7,
    ensures
        level as int == cell_level(days@, week as int, row as int),
        level <= 4,
{
    let start: usize = if days.len() > HEATMAP_DAYS {
        days.len() - HEATMAP_DAYS
    } else {
        0
    };
    let k = week * 7 + row;
    if k < days.len() - start {
        intensity(days[start + k].count)
    } else {
        0
    }
}

/// The three-letter name of month `m` (1 = January).
pub open spec fn month_name(m: u32) -> Seq<char> {
    if m == 1 {
        seq!['J', 'a', 'n']
    } else if m == 2 {
        seq!['F', 'e', 'b']
    } else if m == 3 {
        seq!['M', 'a', 'r']
    } else if m == 4 {
        seq!['A', 'p', 'r']
    } else if m == 5 {
        seq!['M', 'a', 'y']
    } else if m == 6 {
        seq!['J', 'u', 'n']
    } else if m == 7 {
        seq!['J', 'u', 'l']
    } else if m == 8 {
        seq!['A', 'u', 'g']
    } else if m == 9 {
        seq!['S', 'e', 'p']
    } else if m == 10 {
        seq!['O', 'c', 't']
    } else if m == 11 {
        seq!['N', 'o', 'v']
    } else {
        seq!['D', 'e', 'c']
    }
}

/// The label row and the month last written, after the first days.
pub struct LabelState {
    pub row: Seq<char>,
    pub last_month: u32,
}

/// The column where the label of a month starting on shown day `i` goes.
pub open spec fn label_column(i: int) -> int {
    (i / 7) * 2 + 3
}

/// The label row after the months of the first `months.len()` shown days:
/// a day whose month differs from the last month written, and whose column
/// leaves room for three letters, writes its month's name there.
pub open spec fn label_state(months: Seq<Option<u32>>) -> LabelState
    decreases months.len(),
{
    if months.len() == 0 {
        LabelState { row: Seq::new(LABEL_ROW_LEN as nat, |k: int| ' '), last_month: 99 }
    } else {
        let prev = label_state(months.drop_last());
        let i = months.len() - 1;
        let col = label_column(i);
        match months.last() {
            Some(m) => if m != prev.last_month && col + 3 < LABEL_ROW_LEN {
                LabelState {
                    row: prev.row.update(col, month_name(m)[0]).update(col + 1, month_name(m)[1]).update(
                        col + 2,
                        month_name(m)[2],
                    ),
                    last_month: m,
                }
            } else {
                prev
            },
            None => prev,
        }
    }
}

/// The label row always has its full width.
pub proof fn lemma_label_row_len(months: Seq<Option<u32>>)
    ensures
        label_state(months).row.len() == LABEL_ROW_LEN,
    decreases months.len(),
{
    if months.len() > 0 {
        lemma_label_row_len(months.drop_last());
    }
}

/// The characters of a month's name.
fn month_letters(m: u32) -> (name: [char; 3])
    ensures
        name@ == month_name(m),
{
    let name = if m == 1 {
        ['J', 'a', 'n']
    } else if m == 2 {
        ['F', 'e', 'b']
    } else if m == 3 {
        ['M', 'a', 'r']
    } else if m == 4 {
        ['A', 'p', 'r']
    } else if m == 5 {
        ['M', 'a', 'y']
    } else if m == 6 {
        ['J', 'u', 'n']
    } else if m == 7 {
        ['J', 'u', 'l']
    } else if m == 8 {
        ['A', 'u', 'g']
    } else if m == 9 {
        ['S', 'e', 'p']
    } else if m == 10 {
        ['O', 'c', 't']
    } else if m == 11 {
        ['N', 'o', 'v']
    } else {
        ['D', 'e', 'c']
    };
    assert(name@ =~= month_name(m));
    name
}

/// The label row for the months of the shown days (`None` for a day whose
/// date does not parse).
pub fn month_label_row(months: &Vec<Option<u32>>) -> (row: Vec<char>)
    ensures
        row@ == label_state(months@).row,
{
    let mut row: Vec<char> = Vec::new();
    let mut k: usize = 0;
    while k < LABEL_ROW_LEN
        invariant
            k <= LABEL_ROW_LEN,
            row@ == Seq::new(k as nat, |j: int| ' '),
        decreases LABEL_ROW_LEN - k,
    {
        row.push(' ');
        k = k + 1;
        assert(row@ =~= Seq::new(k as nat, |j: int| ' '));
    }
    let mut last_month: u32 = 99;
    let mut i: usize = 0;
    assert(months@.take(0) =~= Seq::<Option<u32>>::empty());
    while i < months.len()
        invariant
            i <= months.len(),
            row@ == label_state(months@.take(i as int)).row,
            last_month == label_state(months@.take(i as int)).last_month,
        decreases months.len() - i,
    {
        proof {
            lemma_label_row_len(months@.take(i as int));
            assert(months@.take(i + 1).drop_last() =~= months@.take(i as int));
            assert(months@.take(i + 1).last() == months@[i as int]);
        }
        match months[i] {
            Some(m) => {
                let col = (i / 7) * 2 + 3;
                if m != last_month && col + 3 < LABEL_ROW_LEN {
                    let name = month_letters(m);
                    row.set(col, name[0]);
                    row.set(col + 1, name[1]);
                    row.set(col + 2, name[2]);
                    last_month = m;
                }
            },
            None => {},
        }
        i = i + 1;
    }
    assert(months@.take(i as int) =~= months@);
    row
}

/// The months of the shown days, as chrono reads their dates.
pub open spec fn window_months(days: Seq<ContributionDay>) -> Seq<Option<u32>> {
    days.skip(window_start(days.len() as int)).map_values(|d: ContributionDay| parsed_month(d.date@))
}

/// The label row above the heatmap of `days`.
pub fn month_labels(days: &Vec<ContributionDay>) -> (row: Vec<char>)
    ensures
        row@ == label_state(window_months(days@)).row,
{
    let start: usize = if days.len() > HEATMAP_DAYS {
        days.len() - HEATMAP_DAYS
    } else {
        0
    };
    let ghost shown = days@.skip(start as int);
    let mut months: Vec<Option<u32>> = Vec::new();
    let mut i = start;
    while i < days.len()
        invariant
            start <= i <= days.len(),
            shown == days@.skip(start as int),
            months@ == shown.take(i - start).map_values(|d: ContributionDay| parsed_month(d.date@)),
        decreases days.len() - i,
    {
        let m = parse_month(days[i].date.as_str());
        months.push(m);
        i = i + 1;
        assert(months@ =~= shown.take(i - start).map_values(
            |d: ContributionDay| parsed_month(d.date@),
        ));
    }
    assert(shown.take(i - start) =~= shown);
    month_label_row(&months)
}

/// The figures shown under the heatmap.
pub struct ContributionStats {
    /// Days with at least one event.
    pub active: usize,
    /// Events over all days.
    pub total: u32,
    /// The busiest day (the last one among equally busy days).
    pub best: Option<usize>,
}

/// The number of events over all days.
pub open spec fn event_sum(days: Seq<ContributionDay>) -> int
    decreases days.len(),
{
    if days.len() == 0 {
        0
    } else {
        event_sum(days.drop_last()) + days.last().count
    }
}

/// Day `b` is the busiest, and no later day is as busy.
pub open spec fn is_busiest(days: Seq<ContributionDay>, b: int) -> bool {
    &&& 0 <= b < days.len()
    &&& forall|j: int| 0 <= j < days.len() ==> #[trigger] days[j].count <= days[b].count
    &&& forall|j: int| b < j < days.len() ==> #[trigger] days[j].count < days[b].count
}

/// Partial event sums never exceed the whole.
proof fn lemma_event_sum_grows(days: Seq<ContributionDay>, i: int)
    requires
        0 <= i <= days.len(),
    ensures
        0 <= event_sum(days.take(i)) <= event_sum(days),
    decreases days.len() - i,
{
    lemma_event_sum_nonnegative(days.take(i));
    if i < days.len() {
        lemma_event_sum_grows(days, i + 1);
        assert(days.take(i + 1).drop_last() =~= days.take(i));
    } else {
        assert(days.take(i) =~= days);
    }
}

proof fn lemma_event_sum_nonnegative(days: Seq<ContributionDay>)
    ensures
        event_sum(days) >= 0,
    decreases days.len(),
{
    if days.len() > 0 {
        lemma_event_sum_nonnegative(days.drop_last());
    }
}

/// The active days, the total events (a sum that fits in `u32`) and the
/// busiest day of `days`.
pub fn contribution_stats(days: &Vec<ContributionDay>) -> (stats: ContributionStats)
    requires
        event_sum(days@) <= u32::MAX,
    ensures
        stats.active as int == crate::score::rules::active_days(days@),
        stats.total as int == event_sum(days@),
        stats.best is None <==> days@.len() == 0,
        stats.best matches Some(b) ==> is_busiest(days@, b as int),
{
    let active = crate::score::count_active_days(days);
    let mut total: u32 = 0;
    let mut best: Option<usize> = None;
    let mut i: usize = 0;
    while i < days.len()
        invariant
            i <= days.len(),
            event_sum(days@) <= u32::MAX,
            total as int == event_sum(days@.take(i as int)),
            best is None <==> i == 0,
            best matches Some(b) ==> is_busiest(days@.take(i as int), b as int),
        decreases days.len() - i,
    {
        proof {
            lemma_event_sum_grows(days@, i + 1);
            assert(days@.take(i + 1).drop_last() =~= days@.take(i as int));
        }
        total = total + days[i].count;
        let ghost t = days@.take(i + 1);
        match best {
            None => {
                best = Some(i);
            },
            Some(b) => {
                if days[i].count >= days[b].count {
                    best = Some(i);
                    assert(is_busiest(t, i as int)) by {
                        assert forall|j: int| 0 <= j < t.len() implies #[trigger] t[j].count
                            <= t[i as int].count by {
                            if j < i {
                                assert(days@.take(i as int)[j] == t[j]);
                                assert(days@.take(i as int)[b as int] == t[b as int]);
                            }
                        }
                    }
                } else {
                    assert(is_busiest(t, b as int)) by {
                        assert forall|j: int| 0 <= j < t.len() implies #[trigger] t[j].count
                            <= t[b as int].count by {
                            if j < i {
                                assert(days@.take(i as int)[j] == t[j]);
                                assert(days@.take(i as int)[b as int] == t[b as int]);
                            }
                        }
                        assert forall|j: int| b < j < t.len() implies #[trigger] t[j].count
                            < t[b as int].count by {
                            if j < i {
                                assert(days@.take(i as int)[j] == t[j]);
                                assert(days@.take(i as int)[b as int] == t[b as int]);
                            }
                        }
                    }
                }
            },
        }
        i = i + 1;
    }
    assert(days@.take(i as int) =~= days@);
    ContributionStats { active, total, best }
}

/// More events never mean a lower intensity, and intensity stays within
/// the five levels.
pub proof fn law_intensity_monotone(a: u32, b: u32)
    requires
        a <= b,
    ensures
        0 <= intensity_of(a) <= intensity_of(b) <= 4,
{
}

/// The intensity levels: none for a day without events, 1 for one or two
/// events, 2 for three to five, 3 for six to nine, and 4 from ten on.
pub proof fn law_intensity_levels(count: u32)
    ensures
        intensity_of(count) == 0 <==> count == 0,
        intensity_of(count) == 1 <==> 1 <= count <= 2,
        intensity_of(count) == 2 <==> 3 <= count <= 5,
        intensity_of(count) == 3 <==> 6 <= count <= 9,
        intensity_of(count) == 4 <==> count >= 10,
{
}

/// The heatmap shows the last 364 days (all of them when there are fewer),
/// week by week: the cell of week `week`, row `row` shows the intensity of
/// shown day `7 * week + row`, so each week column holds seven consecutive
/// days from top to bottom and the next week goes on from there; cells past
/// the last day are empty.
pub proof fn law_heatmap_cells(days: Seq<ContributionDay>, week: int, row: int)
    requires
        0 <= week < 52,
        0 <= row < 7,
    ensures
        ({
            let shown = if days.len() > 364 {
                days.subrange(days.len() - 364, days.len() as int)
            } else {
                days
            };
            cell_level(days, week, row) == if 7 * week + row < shown.len() {
                intensity_of(shown[7 * week + row].count)
            } else {
                0
            }
        }),
{
}

} // verus!
