//! Campaign statistics: per-day counters, their aggregation over several
//! campaigns, and the filling of days without events.

use vstd::prelude::*;

verus! {

/// The counters of one day of a campaign's statistics.
#[derive(Clone, Copy)]
pub struct DailyCounts {
    pub date: u32,
    pub impressions_count: u32,
    pub clicks_count: u32,
}

impl DailyCounts {
    /// The counters of a statistics row; absent values count as zero and
    /// are converted to unsigned as `as u32` does.
    pub fn from_row(impressions_count: Option<i32>, clicks_count: Option<i32>, date: Option<i32>) -> (r: DailyCounts)
        ensures
            r.impressions_count == (match impressions_count {
                Some(v) => v,
                None => 0i32,
            }) as u32,
            r.clicks_count == (match clicks_count {
                Some(v) => v,
                None => 0i32,
            }) as u32,
            r.date == (match date {
                Some(v) => v,
                None => 0i32,
            }) as u32,
    {
        let impressions: i32 = match impressions_count {
            Some(v) => v,
            None => 0,
        };
        let clicks: i32 = match clicks_count {
            Some(v) => v,
            None => 0,
        };
        let day: i32 = match date {
            Some(v) => v,
            None => 0,
        };
        DailyCounts { date: day as u32, impressions_count: impressions as u32, clicks_count: clicks as u32 }
    }
}

/// One day of aggregated statistics: its counters and the positions, in the
/// flattened input, of the rows whose amounts make up the day.
pub struct AggregatedDay {
    pub date: u32,
    pub impressions_count: u32,
    pub clicks_count: u32,
    pub sources: Vec<usize>,
}

/// The rows of several campaigns, one campaign after the other.
pub open spec fn flattened(stats: Seq<Vec<DailyCounts>>) -> Seq<DailyCounts>
    decreases stats.len(),
{
    if stats.len() == 0 {
        seq![]
    } else {
        flattened(stats.drop_last()) + stats.last()@
    }
}

/// The aggregate of the day `date` over `rows`, taken in order: the first row
/// of the day opens it and every later row of the day is added to it,
/// counters and position.
pub open spec fn day_total(rows: Seq<DailyCounts>, date: u32) -> Option<(int, int, Seq<usize>)>
    decreases rows.len(),
{
    if rows.len() == 0 {
        None
    } else {
        let prev = day_total(rows.drop_last(), date);
        let row = rows.last();
        let idx = (rows.len() - 1) as usize;
        if row.date != date {
            prev
        } else {
            match prev {
                None => Some((row.impressions_count as int, row.clicks_count as int, seq![idx])),
                Some(acc) => Some((acc.0 + row.impressions_count, acc.1 + row.clicks_count, acc.2.push(idx))),
            }
        }
    }
}

/// Every day's aggregate fits the unsigned 32-bit counters.
pub open spec fn totals_fit(rows: Seq<DailyCounts>) -> bool {
    forall|date: u32|
        #[trigger] day_total(rows, date) is Some ==> day_total(rows, date).unwrap().0 <= u32::MAX
            && day_total(rows, date).unwrap().1 <= u32::MAX
}

/// Whether the aggregated day `day` is what `rows` give for its date.
pub open spec fn day_matches(rows: Seq<DailyCounts>, day: AggregatedDay) -> bool {
    day_total(rows, day.date) == Some((day.impressions_count as int, day.clicks_count as int, day.sources@))
}

/// Aggregates grow as rows are added.
proof fn lemma_day_total_grows(rows: Seq<DailyCounts>, i: int, date: u32)
    requires
        0 <= i <= rows.len(),
    ensures
        day_total(rows.take(i), date) is Some ==> {
            &&& day_total(rows, date) is Some
            &&& day_total(rows.take(i), date).unwrap().0 <= day_total(rows, date).unwrap().0
            &&& day_total(rows.take(i), date).unwrap().1 <= day_total(rows, date).unwrap().1
        },
    decreases rows.len() - i,
{
    if i < rows.len() {
        lemma_day_total_grows(rows, i + 1, date);
        assert(rows.take(i + 1).drop_last() =~= rows.take(i));
    } else {
        assert(rows.take(i) =~= rows);
    }
}

/// One more row changes no other day.
proof fn lemma_day_total_step(rows: Seq<DailyCounts>, i: int, date: u32)
    requires
        0 <= i < rows.len(),
    ensures
        day_total(rows.take(i + 1), date) == ({
            let prev = day_total(rows.take(i), date);
            let row = rows[i];
            if row.date != date {
                prev
            } else {
                match prev {
                    None => Some((row.impressions_count as int, row.clicks_count as int, seq![i as usize])),
                    Some(acc) => Some((acc.0 + row.impressions_count, acc.1 + row.clicks_count, acc.2.push(i as usize))),
                }
            }
        }),
{
    assert(rows.take(i + 1).drop_last() =~= rows.take(i));
    assert(rows.take(i + 1).last() == rows[i]);
}

/// Concatenates the rows of all campaigns.
fn flatten_rows(stats: &Vec<Vec<DailyCounts>>) -> (r: Vec<DailyCounts>)
    ensures
        r@ == flattened(stats@),
{
    let mut r: Vec<DailyCounts> = Vec::new();
    let mut i: usize = 0;
    while i < stats.len()
        invariant
            i <= stats.len(),
            r@ == flattened(stats@.take(i as int)),
        decreases stats.len() - i,
    {
        let ghost before = r@;
        let inner = &stats[i];
        let mut j: usize = 0;
        while j < inner.len()
            invariant
                j <= inner.len(),
                r@ == before + inner@.take(j as int),
            decreases inner.len() - j,
        {
            r.push(inner[j]);
            assert(before + inner@.take(j + 1) =~= (before + inner@.take(j as int)).push(inner@[j as int]));
            j = j + 1;
        }
        assert(stats@.take(i + 1).drop_last() =~= stats@.take(i as int));
        assert(inner@.take(inner.len() as int) =~= inner@);
        i = i + 1;
    }
    assert(stats@.take(stats.len() as int) =~= stats@);
    r
}

} // verus!

verus! {

/// The aggregated days are sorted by date, most recent first, with no date
/// twice.
pub open spec fn strictly_descending(days: Seq<AggregatedDay>) -> bool {
    forall|a: int, b: int| 0 <= a < b < days.len() ==> #[trigger] days[a].date > #[trigger] days[b].date
}

/// The aggregated days are exactly those of `rows`: each is the aggregate
/// of its date, and every date of `rows` has its day.
pub open spec fn aggregates(rows: Seq<DailyCounts>, days: Seq<AggregatedDay>) -> bool {
    &&& forall|k: int| 0 <= k < days.len() ==> #[trigger] day_matches(rows, days[k])
    &&& forall|date: u32|
        #[trigger] day_total(rows, date) is Some ==> exists|k: int| 0 <= k < days.len() && #[trigger] days[k].date == date
}

/// The service that computes statistics over several campaigns.
pub struct AggregateStatService;

impl AggregateStatService {
    /// Aggregates the daily rows of several campaigns into one row per day,
    /// most recent day first; the counters of a day are the sums over all
    /// rows of that day, and its sources are the positions of those rows.
    pub fn aggregate_daily_stats(&self, stats: &Vec<Vec<DailyCounts>>) -> (r: Vec<AggregatedDay>)
        requires
            totals_fit(flattened(stats@)),
        ensures
            strictly_descending(r@),
            aggregates(flattened(stats@), r@),
    {
        let rows = flatten_rows(stats);
        match aggregate_rows(&rows) {
            Some(r) => r,
            None => Vec::new(),
        }
    }

    /// The aggregation of `aggregate_daily_stats`, or none when some day's
    /// counters would not fit the unsigned 32-bit counters.
    pub fn try_aggregate_daily_stats(&self, stats: &Vec<Vec<DailyCounts>>) -> (r: Option<Vec<AggregatedDay>>)
        ensures
            r is None <==> !totals_fit(flattened(stats@)),
            r matches Some(v) ==> strictly_descending(v@) && aggregates(flattened(stats@), v@),
    {
        let rows = flatten_rows(stats);
        aggregate_rows(&rows)
    }
}

/// Aggregates rows one after the other; stops with none at the first sum
/// that would not fit the counters.
fn aggregate_rows(rows: &Vec<DailyCounts>) -> (r: Option<Vec<AggregatedDay>>)
    ensures
        r is None <==> !totals_fit(rows@),
        r matches Some(v) ==> strictly_descending(v@) && aggregates(rows@, v@),
{
    let mut r: Vec<AggregatedDay> = Vec::new();
    let mut i: usize = 0;
    while i < rows.len()
        invariant
            i <= rows.len(),
            strictly_descending(r@),
            aggregates(rows@.take(i as int), r@),
        decreases rows.len() - i,
    {
        let row = rows[i];
        proof {
            lemma_day_total_grows(rows@, i + 1, row.date);
            assert forall|date: u32| #[trigger] day_total(rows@.take(i + 1), date) == ({
                let prev = day_total(rows@.take(i as int), date);
                if row.date != date {
                    prev
                } else {
                    match prev {
                        None => Some((row.impressions_count as int, row.clicks_count as int, seq![i])),
                        Some(acc) => Some((acc.0 + row.impressions_count, acc.1 + row.clicks_count, acc.2.push(i))),
                    }
                }
            }) by {
                lemma_day_total_step(rows@, i as int, date);
            }
        }
        let mut k: usize = 0;
        while k < r.len() && r[k].date > row.date
            invariant
                k <= r.len(),
                forall|t: int| 0 <= t < k ==> #[trigger] r@[t].date > row.date,
            decreases r.len() - k,
        {
            k = k + 1;
        }
        let ghost old_r = r@;
        if k < r.len() && r[k].date == row.date {
            let mut entry = r.remove(k);
            assert(day_matches(rows@.take(i as int), old_r[k as int]));
            if entry.impressions_count as u64 + row.impressions_count as u64 > u32::MAX as u64
                || entry.clicks_count as u64 + row.clicks_count as u64 > u32::MAX as u64 {
                assert(!(day_total(rows@, row.date).unwrap().0 <= u32::MAX && day_total(rows@, row.date).unwrap().1 <= u32::MAX));
                assert(day_total(rows@, row.date) is Some);
                return None;
            }
            entry.impressions_count = entry.impressions_count + row.impressions_count;
            entry.clicks_count = entry.clicks_count + row.clicks_count;
            entry.sources.push(i);
            r.insert(k, entry);
            assert(r@ =~= old_r.update(k as int, r@[k as int]));
            assert forall|t: int| 0 <= t < r.len() implies #[trigger] day_matches(rows@.take(i + 1), r@[t]) by {
                if t != k {
                    assert(day_matches(rows@.take(i as int), old_r[t]));
                    assert(old_r[t].date != row.date);
                } else {
                    assert(day_matches(rows@.take(i as int), old_r[t]));
                }
            }
            assert forall|date: u32| #[trigger] day_total(rows@.take(i + 1), date) is Some
                implies exists|t: int| 0 <= t < r.len() && #[trigger] r@[t].date == date by {
                if date == row.date {
                    assert(r@[k as int].date == date);
                } else {
                    assert(day_total(rows@.take(i as int), date) is Some);
                    let t = choose|t: int| 0 <= t < old_r.len() && #[trigger] old_r[t].date == date;
                    assert(r@[t].date == date);
                }
            }
        } else {
            proof {
                if day_total(rows@.take(i as int), row.date) is Some {
                    let t = choose|t: int| 0 <= t < old_r.len() && #[trigger] old_r[t].date == row.date;
                    if t < k {
                        assert(old_r[t].date > row.date);
                    } else {
                        assert(old_r[k as int].date < row.date || k == t);
                    }
                }
                assert(day_total(rows@.take(i as int), row.date) is None);
            }
            let mut sources: Vec<usize> = Vec::new();
            sources.push(i);
            assert(sources@ =~= seq![i]);
            let entry = AggregatedDay {
                date: row.date,
                impressions_count: row.impressions_count,
                clicks_count: row.clicks_count,
                sources,
            };
            r.insert(k, entry);
            assert forall|a: int, b: int| 0 <= a < b < r.len() implies #[trigger] r@[a].date > #[trigger] r@[b].date by {
                if b < k {
                } else if a > k {
                    assert(r@[a] == old_r[a - 1]);
                    assert(r@[b] == old_r[b - 1]);
                } else if a == k {
                    assert(r@[b] == old_r[b - 1]);
                    if b - 1 > k {
                        assert(old_r[k as int].date > old_r[b - 1].date);
                    }
                } else if b == k {
                } else {
                    assert(r@[b] == old_r[b - 1]);
                }
            }
            assert forall|t: int| 0 <= t < r.len() implies #[trigger] day_matches(rows@.take(i + 1), r@[t]) by {
                if t < k {
                    assert(day_matches(rows@.take(i as int), old_r[t]));
                } else if t > k {
                    assert(r@[t] == old_r[t - 1]);
                    assert(day_matches(rows@.take(i as int), old_r[t - 1]));
                }
            }
            assert forall|date: u32| #[trigger] day_total(rows@.take(i + 1), date) is Some
                implies exists|t: int| 0 <= t < r.len() && #[trigger] r@[t].date == date by {
                if date == row.date {
                    assert(r@[k as int].date == date);
                } else {
                    assert(day_total(rows@.take(i as int), date) is Some);
                    let t = choose|t: int| 0 <= t < old_r.len() && #[trigger] old_r[t].date == date;
                    if t < k {
                        assert(r@[t].date == date);
                    } else {
                        assert(r@[t + 1].date == date);
                    }
                }
            }
        }
        i = i + 1;
    }
    assert(rows@.take(rows.len() as int) =~= rows@);
    assert forall|date: u32| #[trigger] day_total(rows@, date) is Some implies day_total(rows@, date).unwrap().0
        <= u32::MAX && day_total(rows@, date).unwrap().1 <= u32::MAX by {
        let t = choose|t: int| 0 <= t < r.len() && #[trigger] r@[t].date == date;
        assert(day_matches(rows@, r@[t]));
    }
    Some(r)
}

} // verus!

verus! {

/// Sum of the impressions of `rows`.
pub open spec fn impressions_sum(rows: Seq<DailyCounts>) -> int
    decreases rows.len(),
{
    if rows.len() == 0 {
        0
    } else {
        impressions_sum(rows.drop_last()) + rows.last().impressions_count
    }
}

/// Sum of the clicks of `rows`.
pub open spec fn clicks_sum(rows: Seq<DailyCounts>) -> int
    decreases rows.len(),
{
    if rows.len() == 0 {
        0
    } else {
        clicks_sum(rows.drop_last()) + rows.last().clicks_count
    }
}

proof fn lemma_sums_grow(rows: Seq<DailyCounts>, i: int)
    requires
        0 <= i <= rows.len(),
    ensures
        impressions_sum(rows.take(i)) <= impressions_sum(rows),
        clicks_sum(rows.take(i)) <= clicks_sum(rows),
    decreases rows.len() - i,
{
    if i < rows.len() {
        lemma_sums_grow(rows, i + 1);
        assert(rows.take(i + 1).drop_last() =~= rows.take(i));
    } else {
        assert(rows.take(i) =~= rows);
    }
}

impl AggregateStatService {
    /// Total impressions and total clicks over `stats`.
    pub fn calculate_total_counts(&self, stats: &Vec<DailyCounts>) -> (r: (u32, u32))
        requires
            impressions_sum(stats@) <= u32::MAX,
            clicks_sum(stats@) <= u32::MAX,
        ensures
            r.0 == impressions_sum(stats@),
            r.1 == clicks_sum(stats@),
    {
        let mut impressions: u32 = 0;
        let mut clicks: u32 = 0;
        let mut i: usize = 0;
        while i < stats.len()
            invariant
                i <= stats.len(),
                impressions_sum(stats@) <= u32::MAX,
                clicks_sum(stats@) <= u32::MAX,
                impressions == impressions_sum(stats@.take(i as int)),
                clicks == clicks_sum(stats@.take(i as int)),
            decreases stats.len() - i,
        {
            proof {
                lemma_sums_grow(stats@, i + 1);
                assert(stats@.take(i + 1).drop_last() =~= stats@.take(i as int));
            }
            impressions = impressions + stats[i].impressions_count;
            clicks = clicks + stats[i].clicks_count;
            i = i + 1;
        }
        assert(stats@.take(stats.len() as int) =~= stats@);
        (impressions, clicks)
    }
}

/// A day of a continuous statistics series and the position of the row that
/// holds it, if any.
#[derive(Clone, Copy)]
pub struct SeriesDay {
    pub date: u32,
    pub source: Option<usize>,
}

/// Position of the first row of `rows` with the date `date`.
pub open spec fn first_with_date(rows: Seq<DailyCounts>, date: int) -> Option<usize>
    decreases rows.len(),
{
    if rows.len() == 0 {
        None
    } else {
        match first_with_date(rows.drop_last(), date) {
            Some(j) => Some(j),
            None => if rows.last().date == date {
                Some((rows.len() - 1) as usize)
            } else {
                None
            },
        }
    }
}

/// Number of days from the first row's date to the last row's, both
/// included; none when there are no rows or the first date is later.
pub open spec fn series_len(rows: Seq<DailyCounts>) -> int {
    if rows.len() == 0 || rows[0].date > rows.last().date {
        0
    } else {
        rows.last().date - rows[0].date + 1
    }
}

/// The service that reads and shapes the statistics of one campaign.
pub struct CampaignStatService;

/// Finds the first row with a date.
fn find_first_with_date(rows: &Vec<DailyCounts>, date: u32) -> (r: Option<usize>)
    ensures
        r == first_with_date(rows@, date as int),
{
    let mut j: usize = 0;
    while j < rows.len()
        invariant
            j <= rows.len(),
            first_with_date(rows@.take(j as int), date as int) is None,
        decreases rows.len() - j,
    {
        assert(rows@.take(j + 1).drop_last() =~= rows@.take(j as int));
        if rows[j].date == date {
            proof {
                lemma_first_with_date_prefix(rows@, j + 1, date as int);
            }
            return Some(j);
        }
        j = j + 1;
    }
    assert(rows@.take(rows.len() as int) =~= rows@);
    None
}

/// A hit in a prefix is the hit of the whole.
proof fn lemma_first_with_date_prefix(rows: Seq<DailyCounts>, i: int, date: int)
    requires
        0 <= i <= rows.len(),
        first_with_date(rows.take(i), date) is Some,
    ensures
        first_with_date(rows, date) == first_with_date(rows.take(i), date),
    decreases rows.len() - i,
{
    if i < rows.len() {
        assert(rows.take(i + 1).drop_last() =~= rows.take(i));
        lemma_first_with_date_prefix(rows, i + 1, date);
    } else {
        assert(rows.take(i) =~= rows);
    }
}

impl CampaignStatService {
    /// The continuous series of days from the first row's date to the last
    /// row's: each day points at the first row of that date, or at none when
    /// the day had no events.
    pub fn fill_missing_days(&self, rows: &Vec<DailyCounts>) -> (r: Vec<SeriesDay>)
        ensures
            r.len() == series_len(rows@),
            forall|k: int|
                #![trigger r@[k]]
                0 <= k < r.len() ==> r@[k].date == rows@[0].date + k && r@[k].source
                    == first_with_date(rows@, rows@[0].date + k),
    {
        let mut r: Vec<SeriesDay> = Vec::new();
        if rows.len() == 0 {
            return r;
        }
        let start = rows[0].date;
        let end = rows[rows.len() - 1].date;
        if start > end {
            return r;
        }
        let mut date = start;
        loop
            invariant_except_break
                r.len() == date - start,
            invariant
                rows.len() > 0,
                start == rows@[0].date,
                end == rows@.last().date,
                start <= date <= end,
                forall|k: int|
                    0 <= k < r.len() ==> r@[k].date == start + k && #[trigger] r@[k].source
                        == first_with_date(rows@, start + k),
            ensures
                r.len() == end - start + 1,
                forall|k: int|
                    0 <= k < r.len() ==> r@[k].date == start + k && #[trigger] r@[k].source
                        == first_with_date(rows@, start + k),
            decreases end - date,
        {
            let source = find_first_with_date(rows, date);
            r.push(SeriesDay { date, source });
            if date == end {
                break;
            }
            date = date + 1;
        }
        r
    }
}

} // verus!

verus! {

/// A day of the filled series points at the first row of its date, and at
/// none exactly when no row falls on it.
pub proof fn law_series_day_is_first_row_of_its_date(rows: Seq<DailyCounts>, date: int)
    requires
        rows.len() <= usize::MAX,
    ensures
        first_with_date(rows, date) matches Some(j) ==> 0 <= j < rows.len() && rows[j as int].date == date
            && forall|k: int| 0 <= k < j ==> #[trigger] rows[k].date != date,
        first_with_date(rows, date) is None ==> forall|k: int| 0 <= k < rows.len() ==> #[trigger] rows[k].date != date,
    decreases rows.len(),
{
    if rows.len() > 0 {
        law_series_day_is_first_row_of_its_date(rows.drop_last(), date);
        assert forall|k: int| 0 <= k < rows.len() - 1 implies #[trigger] rows[k] == rows.drop_last()[k] by {}
        assert(rows.last() == rows[rows.len() - 1]);
        if let Some(j) = first_with_date(rows.drop_last(), date) {
            assert(rows[j as int] == rows.drop_last()[j as int]);
        }
    }
}

/// Sum of the impressions of the rows of `rows` that fall on `date`.
pub open spec fn impressions_on(rows: Seq<DailyCounts>, date: u32) -> int
    decreases rows.len(),
{
    if rows.len() == 0 {
        0
    } else {
        impressions_on(rows.drop_last(), date) + if rows.last().date == date {
            rows.last().impressions_count as int
        } else {
            0
        }
    }
}

/// Sum of the clicks of the rows of `rows` that fall on `date`.
pub open spec fn clicks_on(rows: Seq<DailyCounts>, date: u32) -> int
    decreases rows.len(),
{
    if rows.len() == 0 {
        0
    } else {
        clicks_on(rows.drop_last(), date) + if rows.last().date == date {
            rows.last().clicks_count as int
        } else {
            0
        }
    }
}

/// The aggregate of a day combines every row of that day: its counters are
/// the sums of the counters of all rows with its date.
pub proof fn law_day_total_sums_every_row(rows: Seq<DailyCounts>, date: u32)
    ensures
        day_total(rows, date) matches Some(t) ==> t.0 == impressions_on(rows, date) && t.1 == clicks_on(
            rows,
            date,
        ),
        day_total(rows, date) is None ==> impressions_on(rows, date) == 0 && clicks_on(rows, date) == 0,
    decreases rows.len(),
{
    if rows.len() > 0 {
        law_day_total_sums_every_row(rows.drop_last(), date);
    }
}

/// A day has an aggregate exactly when some row falls on it.
pub proof fn law_day_present_iff_date_occurs(rows: Seq<DailyCounts>, date: u32)
    ensures
        day_total(rows, date) is Some <==> exists|j: int| 0 <= j < rows.len() && #[trigger] rows[j].date == date,
    decreases rows.len(),
{
    if rows.len() > 0 {
        law_day_present_iff_date_occurs(rows.drop_last(), date);
        if day_total(rows.drop_last(), date) is Some {
            let j = choose|j: int| 0 <= j < rows.drop_last().len() && #[trigger] rows.drop_last()[j].date == date;
            assert(rows[j].date == date);
        }
        if exists|j: int| 0 <= j < rows.len() && #[trigger] rows[j].date == date {
            let j = choose|j: int| 0 <= j < rows.len() && #[trigger] rows[j].date == date;
            if j < rows.len() - 1 {
                assert(rows.drop_last()[j].date == date);
            }
        }
    }
}

/// When no two rows share a date, each day is its row unchanged.
pub proof fn law_distinct_days_pass_through(rows: Seq<DailyCounts>, j: int)
    requires
        0 <= j < rows.len(),
        forall|a: int, b: int| 0 <= a < b < rows.len() ==> #[trigger] rows[a].date != #[trigger] rows[b].date,
    ensures
        day_total(rows, rows[j].date) == Some(
            (rows[j].impressions_count as int, rows[j].clicks_count as int, seq![j as usize]),
        ),
    decreases rows.len(),
{
    let date = rows[j].date;
    if j < rows.len() - 1 {
        law_distinct_days_pass_through(rows.drop_last(), j);
        assert(rows.drop_last()[j] == rows[j]);
        assert(rows.last() == rows[rows.len() - 1]);
    } else {
        if day_total(rows.drop_last(), date) is Some {
            law_day_present_iff_date_occurs(rows.drop_last(), date);
            let k = choose|k: int| 0 <= k < rows.drop_last().len() && #[trigger] rows.drop_last()[k].date == date;
            assert(rows[k].date == rows[j].date);
        }
    }
}

} // verus!

verus! {

/// Every row's date has its aggregated day.
pub proof fn law_every_row_date_has_its_day(rows: Seq<DailyCounts>, days: Seq<AggregatedDay>, j: int)
    requires
        aggregates(rows, days),
        0 <= j < rows.len(),
    ensures
        exists|k: int| 0 <= k < days.len() && #[trigger] days[k].date == rows[j].date,
{
    law_day_present_iff_date_occurs(rows, rows[j].date);
    assert(rows[j].date == rows[j].date);
    assert(day_total(rows, rows[j].date) is Some);
}

/// Every aggregated day is the date of some row and carries the sums of the
/// counters of all rows of its date.
pub proof fn law_each_day_sums_the_rows_of_its_date(rows: Seq<DailyCounts>, days: Seq<AggregatedDay>, k: int)
    requires
        aggregates(rows, days),
        0 <= k < days.len(),
    ensures
        exists|j: int| 0 <= j < rows.len() && #[trigger] rows[j].date == days[k].date,
        days[k].impressions_count == impressions_on(rows, days[k].date),
        days[k].clicks_count == clicks_on(rows, days[k].date),
{
    assert(day_matches(rows, days[k]));
    law_day_present_iff_date_occurs(rows, days[k].date);
    law_day_total_sums_every_row(rows, days[k].date);
}

/// Aggregated days come newest first, each date once.
pub proof fn law_days_come_newest_first(days: Seq<AggregatedDay>, a: int, b: int)
    requires
        strictly_descending(days),
        0 <= a < b < days.len(),
    ensures
        days[a].date > days[b].date,
{
}

} // verus!
