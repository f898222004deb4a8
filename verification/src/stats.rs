use crate::handlers::Reply;
use crate::text::same_text;
use vstd::prelude::*;

verus! {

/// How many applications were recorded on one day.
#[derive(Debug, Clone, PartialEq, Eq)]
pub struct DailyCount {
    pub date: String,
    pub count: i64,
}

/// How many applications have one status.
#[derive(Debug, Clone, PartialEq, Eq)]
pub struct StatusCount {
    pub status: String,
    pub count: i64,
}

/// The figures of the dashboard.
#[derive(Debug, Clone, PartialEq, Eq)]
pub struct DashboardStats {
    pub daily_activity: Vec<DailyCount>,
    pub status_distribution: Vec<StatusCount>,
}

impl DashboardStats {
    /// The figures of the dashboard from the two readings that make them
    /// up. Where either could not be read there are no figures.
    pub fn assemble(
        daily_activity: Option<Vec<DailyCount>>,
        status_distribution: Option<Vec<StatusCount>>,
    ) -> (stats: Result<DashboardStats, Reply>)
        ensures
            stats is Ok == (daily_activity is Some && status_distribution is Some),
            stats matches Ok(s) ==> Some(s.daily_activity) == daily_activity && Some(
                s.status_distribution,
            ) == status_distribution,
            stats matches Err(reply) ==> reply == Reply::StatsUnavailable,
    {
        match (daily_activity, status_distribution) {
            (Some(daily_activity), Some(status_distribution)) => Ok(
                DashboardStats { daily_activity, status_distribution },
            ),
            _ => Err(Reply::StatsUnavailable),
        }
    }
}

/// The largest of the first `upto` counts and of 1.
pub open spec fn peak(counts: Seq<DailyCount>, upto: int) -> int
    decreases upto,
{
    if upto <= 0 {
        1
    } else if counts[upto - 1].count > peak(counts, upto - 1) {
        counts[upto - 1].count as int
    } else {
        peak(counts, upto - 1)
    }
}

/// The value at the top of the activity chart: the largest count of a
/// day, and 1 where no day has more.
pub fn peak_count(counts: &Vec<DailyCount>) -> (top: i64)
    ensures
        top == peak(counts@, counts@.len() as int),
        top >= 1,
        forall|i: int| 0 <= i < counts@.len() ==> counts@[i].count <= top,
{
    let mut top: i64 = 1;
    let mut i: usize = 0;
    while i < counts.len()
        invariant
            i <= counts@.len(),
            top == peak(counts@, i as int),
            top >= 1,
            forall|j: int| 0 <= j < i ==> counts@[j].count <= top,
        decreases counts@.len() - i,
    {
        if counts[i].count > top {
            top = counts[i].count;
        }
        i += 1;
    }
    top
}

/// The sum of the first `upto` counts.
pub open spec fn sum_of(counts: Seq<StatusCount>, upto: int) -> int
    decreases upto,
{
    if upto <= 0 {
        0
    } else {
        sum_of(counts, upto - 1) + counts[upto - 1].count
    }
}

/// Whether every sum of the first counts, up to `upto` of them, fits in
/// 64 bits.
pub open spec fn sums_fit(counts: Seq<StatusCount>, upto: int) -> bool {
    forall|k: int| 0 <= k <= upto ==> i64::MIN <= #[trigger] sum_of(counts, k) <= i64::MAX
}

/// The number in the middle of the status chart: the sum of the counts.
/// There is none where adding them up one after the other leaves the
/// range of 64 bits.
pub fn total_count(counts: &Vec<StatusCount>) -> (total: Option<i64>)
    ensures
        total is Some == sums_fit(counts@, counts@.len() as int),
        total matches Some(n) ==> n == sum_of(counts@, counts@.len() as int),
{
    let mut total: i64 = 0;
    let mut i: usize = 0;
    while i < counts.len()
        invariant
            i <= counts@.len(),
            total == sum_of(counts@, i as int),
            sums_fit(counts@, i as int),
        decreases counts@.len() - i,
    {
        match total.checked_add(counts[i].count) {
            Some(next) => {
                total = next;
            },
            None => {
                assert(!sums_fit(counts@, counts@.len() as int)) by {
                    assert(sum_of(counts@, i + 1) == total + counts@[i as int].count);
                }
                return None;
            },
        }
        i += 1;
    }
    Some(total)
}

/// The colour in which a status is drawn.
pub open spec fn color_of(status: Seq<char>) -> Seq<char> {
    if status == "Offer"@ || status == "Accepted"@ {
        "#10b981"@
    } else if status == "Rejected"@ {
        "#ef4444"@
    } else if status == "Interviewing"@ {
        "#f59e0b"@
    } else {
        "#00f3ff"@
    }
}

/// The colour in which a status is drawn.
pub fn status_color(status: &str) -> (color: &'static str)
    ensures
        color@ == color_of(status@),
{
    if same_text(status, "Offer") || same_text(status, "Accepted") {
        "#10b981"
    } else if same_text(status, "Rejected") {
        "#ef4444"
    } else if same_text(status, "Interviewing") {
        "#f59e0b"
    } else {
        "#00f3ff"
    }
}

} // verus!
