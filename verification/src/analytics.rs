//! Counts over all vaults, in total and by the day of their creation.

use crate::models::Vault;
use crate::text::{
    comes_before, lemma_text_before_irreflexive, lemma_text_before_total,
    lemma_text_before_transitive, text_before,
};
use crate::vaults::{lemma_filter_step, VaultStore};
use vstd::prelude::*;

verus! {

/// One day: how many vaults were created on it, and how many of these have been released.
#[derive(Debug)]
pub struct TimeSeriesPoint {
    pub date: String,
    pub vaults_created: u64,
    pub vaults_released: u64,
}

/// Counts over all vaults. The mean check-in interval is `total_check_in_seconds` over
/// `total_vaults`, and the release rate `released_vaults` over `total_vaults`.
#[derive(Debug)]
pub struct VaultAnalytics {
    pub total_vaults: u64,
    pub active_vaults: u64,
    pub released_vaults: u64,
    pub total_check_in_seconds: u128,
    pub time_series: Vec<TimeSeriesPoint>,
}

/// How many vaults are active.
pub open spec fn active_count(vaults: Seq<Vault>) -> nat {
    vaults.filter(|vault: Vault| vault.status is Active).len()
}

/// How many vaults have been released.
pub open spec fn released_count(vaults: Seq<Vault>) -> nat {
    vaults.filter(|vault: Vault| vault.status is Released).len()
}

/// The sum of the check-in intervals.
pub open spec fn interval_sum(vaults: Seq<Vault>) -> nat
    decreases vaults.len(),
{
    if vaults.len() == 0 {
        0
    } else {
        interval_sum(vaults.drop_last()) + vaults.last().check_in_interval as nat
    }
}

/// How many vaults were created on a day.
pub open spec fn created_on(vaults: Seq<Vault>, day: Seq<char>) -> nat {
    vaults.filter(|vault: Vault| vault.created_at.day() == day).len()
}

/// How many of the vaults created on a day have been released.
pub open spec fn released_on(vaults: Seq<Vault>, day: Seq<char>) -> nat {
    vaults.filter(|vault: Vault| vault.created_at.day() == day && vault.status is Released).len()
}

/// Whether a series has one point for every day on which a vault was created and no other, in the
/// order of the days, each with that day's counts.
pub open spec fn is_time_series(series: Seq<TimeSeriesPoint>, vaults: Seq<Vault>) -> bool {
    &&& forall|i: int, j: int|
        0 <= i < j < series.len() ==> text_before(
            (#[trigger] series[i]).date@,
            (#[trigger] series[j]).date@,
        )
    &&& forall|i: int|
        0 <= i < series.len() ==> (#[trigger] series[i]).vaults_created == created_on(
            vaults,
            series[i].date@,
        ) && series[i].vaults_created > 0 && series[i].vaults_released == released_on(
            vaults,
            series[i].date@,
        )
    &&& forall|k: int|
        0 <= k < vaults.len() ==> has_day(series, (#[trigger] vaults[k]).created_at.day())
}

/// Whether a series has a point for a day.
pub open spec fn has_day(series: Seq<TimeSeriesPoint>, day: Seq<char>) -> bool {
    exists|i: int| 0 <= i < series.len() && (#[trigger] series[i]).date@ == day
}

proof fn lemma_counts_step(vaults: Seq<Vault>, k: int, day: Seq<char>)
    requires
        0 <= k < vaults.len(),
    ensures
        created_on(vaults.take(k + 1), day) == created_on(vaults.take(k), day) + (if vaults[k].created_at.day()
            == day {
            1nat
        } else {
            0
        }),
        released_on(vaults.take(k + 1), day) == released_on(vaults.take(k), day) + (if vaults[k].created_at.day()
            == day && vaults[k].status is Released {
            1nat
        } else {
            0
        }),
{
    lemma_filter_step(vaults, |vault: Vault| vault.created_at.day() == day, k);
    lemma_filter_step(
        vaults,
        |vault: Vault| vault.created_at.day() == day && vault.status is Released,
        k,
    );
}

proof fn lemma_counts_bounded(vaults: Seq<Vault>, day: Seq<char>)
    ensures
        released_on(vaults, day) <= created_on(vaults, day) <= vaults.len(),
    decreases vaults.len(),
{
    reveal(Seq::filter);
    if vaults.len() > 0 {
        lemma_counts_bounded(vaults.drop_last(), day);
    }
}

proof fn lemma_absent_day(vaults: Seq<Vault>, day: Seq<char>)
    requires
        forall|k: int| 0 <= k < vaults.len() ==> (#[trigger] vaults[k]).created_at.day() != day,
    ensures
        created_on(vaults, day) == 0,
        released_on(vaults, day) == 0,
    decreases vaults.len(),
{
    reveal(Seq::filter);
    if vaults.len() > 0 {
        assert(vaults.last() == vaults[vaults.len() - 1]);
        assert forall|k: int| 0 <= k < vaults.drop_last().len() implies (
        #[trigger] vaults.drop_last()[k]).created_at.day() != day by {
            assert(vaults[k].created_at.day() != day);
        }
        lemma_absent_day(vaults.drop_last(), day);
    }
}

/// Adds the vault at `k` to the series of the vaults before it.
fn count_vault(
    series: &mut Vec<TimeSeriesPoint>,
    vault: &Vault,
    Ghost(vaults): Ghost<Seq<Vault>>,
    Ghost(k): Ghost<int>,
)
    requires
        0 <= k < vaults.len(),
        k < u64::MAX,
        vaults[k] == *vault,
        is_time_series(old(series)@, vaults.take(k)),
    ensures
        is_time_series(final(series)@, vaults.take(k + 1)),
{
    let day: String = vault.created_at.format_day();
    let released: u64 = if vault.status.is_released() {
        1
    } else {
        0
    };
    let ghost before = series@;
    let ghost d = day@;
    let mut i: usize = 0;
    while i < series.len() && comes_before(series[i].date.as_str(), day.as_str())
        invariant
            i <= series@.len(),
            series@ == before,
            d == day@,
            forall|j: int| 0 <= j < i ==> text_before((#[trigger] before[j]).date@, d),
        decreases series@.len() - i,
    {
        i = i + 1;
    }
    proof {
        assert forall|other: Seq<char>| true implies created_on(vaults.take(k + 1), other)
            == created_on(vaults.take(k), other) + (if d == other { 1nat } else { 0 })
            && released_on(vaults.take(k + 1), other) == released_on(vaults.take(k), other) + (if d
            == other && vault.status is Released { 1nat } else { 0 }) by {
            lemma_counts_step(vaults, k, other);
        }
        lemma_counts_bounded(vaults.take(k), d);
        assert(vaults.take(k + 1).len() == k + 1);
        assert forall|m: int| 0 <= m < k + 1 implies (#[trigger] vaults.take(k + 1)[m])
            == vaults[m] by {}
        assert forall|j: int| 0 <= j < i implies (#[trigger] before[j]).date@ != d by {
            lemma_text_before_irreflexive(d);
        }
        assert forall|j: int| i < j < before.len() implies text_before(
            before[i as int].date@,
            (#[trigger] before[j]).date@,
        ) by {}
    }
    if i < series.len() && series[i].date == day {
        let created: u64 = series[i].vaults_created + 1;
        let freed: u64 = series[i].vaults_released + released;
        series.set(
            i,
            TimeSeriesPoint { date: day, vaults_created: created, vaults_released: freed },
        );
        proof {
            let after = series@;
            assert forall|j: int| 0 <= j < after.len() implies (#[trigger] after[j]).date@
                == before[j].date@ by {}
            assert forall|j: int| 0 <= j < after.len() && j != i implies (
            #[trigger] before[j]).date@ != d by {
                lemma_text_before_irreflexive(d);
            }
            assert forall|j: int| 0 <= j < after.len() implies (#[trigger] after[j]).vaults_created
                == created_on(vaults.take(k + 1), after[j].date@) && after[j].vaults_created > 0
                && after[j].vaults_released == released_on(
                vaults.take(k + 1),
                after[j].date@,
            ) by {
                assert(before[j].date@ == after[j].date@);
            }
            assert forall|m: int| 0 <= m < vaults.take(k + 1).len() implies has_day(
                after,
                (#[trigger] vaults.take(k + 1)[m]).created_at.day(),
            ) by {
                if m < k {
                    assert(vaults.take(k)[m] == vaults[m]);
                    let j = choose|j: int|
                        0 <= j < before.len() && (#[trigger] before[j]).date@
                            == vaults[m].created_at.day();
                    assert(after[j].date@ == vaults[m].created_at.day());
                } else {
                    assert(after[i as int].date@ == d);
                }
            }
        }
    } else {
        proof {
            if i < before.len() {
                lemma_text_before_total(before[i as int].date@, d);
            }
            assert forall|j: int| i <= j < before.len() implies text_before(
                d,
                (#[trigger] before[j]).date@,
            ) by {
                if j > i {
                    lemma_text_before_transitive(d, before[i as int].date@, before[j].date@);
                }
            }
            assert forall|m: int| 0 <= m < vaults.take(k).len() implies (
            #[trigger] vaults.take(k)[m]).created_at.day() != d by {
                let j = choose|j: int|
                    0 <= j < before.len() && (#[trigger] before[j]).date@ == vaults.take(
                        k,
                    )[m].created_at.day();
                lemma_text_before_irreflexive(d);
                assert(before[j].date@ != d);
            }
            lemma_absent_day(vaults.take(k), d);
        }
        series.insert(
            i,
            TimeSeriesPoint { date: day, vaults_created: 1, vaults_released: released },
        );
        proof {
            let after = series@;
            assert(after =~= before.insert(i as int, after[i as int]));
            assert forall|j: int| 0 <= j < after.len() && j != i implies (#[trigger] after[j])
                == before[if j < i { j } else { j - 1 }] by {}
            assert forall|a: int, b: int| 0 <= a < b < after.len() implies text_before(
                (#[trigger] after[a]).date@,
                (#[trigger] after[b]).date@,
            ) by {
                let x = if a < i { a } else { a - 1 };
                let y = if b < i { b } else { b - 1 };
                if a != i && b != i {
                    assert(text_before(before[x].date@, before[y].date@));
                } else if a == i {
                    assert(text_before(d, before[y].date@));
                } else {
                    assert(text_before(before[x].date@, d));
                }
            }
            assert forall|j: int| 0 <= j < after.len() implies (#[trigger] after[j]).vaults_created
                == created_on(vaults.take(k + 1), after[j].date@) && after[j].vaults_created > 0
                && after[j].vaults_released == released_on(
                vaults.take(k + 1),
                after[j].date@,
            ) by {
                lemma_text_before_irreflexive(d);
                if j != i {
                    let x = if j < i { j } else { j - 1 };
                    assert(before[x] == after[j]);
                    assert(before[x].date@ != d);
                }
            }
            assert forall|m: int| 0 <= m < vaults.take(k + 1).len() implies has_day(
                after,
                (#[trigger] vaults.take(k + 1)[m]).created_at.day(),
            ) by {
                if m < k {
                    assert(vaults.take(k)[m] == vaults[m]);
                    let j = choose|j: int|
                        0 <= j < before.len() && (#[trigger] before[j]).date@
                            == vaults[m].created_at.day();
                    let x = if j < i { j } else { j + 1 };
                    assert(after[x].date@ == vaults[m].created_at.day());
                } else {
                    assert(after[i as int].date@ == d);
                }
            }
        }
    }
}

/// Counts over all vaults of a store.
pub fn compute_vault_analytics(store: &VaultStore) -> (analytics: VaultAnalytics)
    ensures
        analytics.total_vaults == store.values().len(),
        analytics.active_vaults == active_count(store.values()),
        analytics.released_vaults == released_count(store.values()),
        analytics.total_check_in_seconds == interval_sum(store.values()),
        is_time_series(analytics.time_series@, store.values()),
{
    let ghost vaults = store.values();
    let total: usize = store.len();
    let mut active_vaults: u64 = 0;
    let mut released_vaults: u64 = 0;
    let mut total_check_in_seconds: u128 = 0;
    let mut time_series: Vec<TimeSeriesPoint> = Vec::new();
    let mut i: usize = 0;
    while i < total
        invariant
            i <= total == vaults.len(),
            total <= u64::MAX,
            vaults == store.values(),
            active_vaults == active_count(vaults.take(i as int)) <= i,
            released_vaults == released_count(vaults.take(i as int)) <= i,
            total_check_in_seconds == interval_sum(vaults.take(i as int)),
            total_check_in_seconds <= i * u64::MAX,
            is_time_series(time_series@, vaults.take(i as int)),
        decreases total - i,
    {
        let vault: &Vault = store.value_at(i);
        proof {
            lemma_filter_step(vaults, |vault: Vault| vault.status is Active, i as int);
            lemma_filter_step(vaults, |vault: Vault| vault.status is Released, i as int);
            assert(vaults.take(i + 1).drop_last() =~= vaults.take(i as int));
            assert(i * u64::MAX <= u64::MAX * u64::MAX) by (nonlinear_arith)
                requires
                    i <= u64::MAX,
            ;
            assert((i + 1) * u64::MAX == i * u64::MAX + u64::MAX) by (nonlinear_arith);
        }
        if vault.status.is_active() {
            active_vaults = active_vaults + 1;
        }
        if vault.status.is_released() {
            released_vaults = released_vaults + 1;
        }
        total_check_in_seconds = total_check_in_seconds + vault.check_in_interval as u128;
        count_vault(&mut time_series, vault, Ghost(vaults), Ghost(i as int));
        i = i + 1;
    }
    assert(vaults.take(total as int) =~= vaults);
    VaultAnalytics {
        total_vaults: total as u64,
        active_vaults,
        released_vaults,
        total_check_in_seconds,
        time_series,
    }
}

// ---- laws ----

/// The vaults created on all days of a series.
pub open spec fn series_created(series: Seq<TimeSeriesPoint>) -> nat
    decreases series.len(),
{
    if series.len() == 0 {
        0
    } else {
        series_created(series.drop_last()) + series.last().vaults_created as nat
    }
}

/// The vaults released of all days of a series.
pub open spec fn series_released(series: Seq<TimeSeriesPoint>) -> nat
    decreases series.len(),
{
    if series.len() == 0 {
        0
    } else {
        series_released(series.drop_last()) + series.last().vaults_released as nat
    }
}

spec fn created_on_days(vaults: Seq<Vault>, days: Seq<Seq<char>>) -> nat
    decreases days.len(),
{
    if days.len() == 0 {
        0
    } else {
        created_on_days(vaults, days.drop_last()) + created_on(vaults, days.last())
    }
}

spec fn released_on_days(vaults: Seq<Vault>, days: Seq<Seq<char>>) -> nat
    decreases days.len(),
{
    if days.len() == 0 {
        0
    } else {
        released_on_days(vaults, days.drop_last()) + released_on(vaults, days.last())
    }
}

proof fn lemma_no_vaults(days: Seq<Seq<char>>)
    ensures
        created_on_days(Seq::empty(), days) == 0,
        released_on_days(Seq::empty(), days) == 0,
    decreases days.len(),
{
    reveal(Seq::filter);
    if days.len() > 0 {
        lemma_no_vaults(days.drop_last());
    }
}

proof fn lemma_one_more_vault(vaults: Seq<Vault>, days: Seq<Seq<char>>)
    requires
        vaults.len() > 0,
        days.no_duplicates(),
    ensures
        created_on_days(vaults, days) == created_on_days(vaults.drop_last(), days) + (
        if days.contains(vaults.last().created_at.day()) {
            1nat
        } else {
            0
        }),
        released_on_days(vaults, days) == released_on_days(vaults.drop_last(), days) + (
        if days.contains(vaults.last().created_at.day()) && vaults.last().status is Released {
            1nat
        } else {
            0
        }),
    decreases days.len(),
{
    if days.len() > 0 {
        let rest = days.drop_last();
        let day = vaults.last().created_at.day();
        lemma_one_more_vault(vaults, rest);
        let k = vaults.len() - 1;
        lemma_counts_step(vaults, k, days.last());
        assert(vaults.take(k + 1) =~= vaults);
        assert(vaults.take(k) =~= vaults.drop_last());
        assert(days =~= rest.push(days.last()));
        assert(days.contains(day) == (rest.contains(day) || days.last() == day)) by {
            if rest.contains(day) {
                let i = choose|i: int| 0 <= i < rest.len() && rest[i] == day;
                assert(days[i] == day);
            }
            if days.last() == day {
                assert(days[days.len() - 1] == day);
            }
            if days.contains(day) {
                let i = choose|i: int| 0 <= i < days.len() && days[i] == day;
                if i < rest.len() {
                    assert(rest[i] == day);
                }
            }
        }
        if days.last() == day && rest.contains(day) {
            let i = choose|i: int| 0 <= i < rest.len() && rest[i] == day;
            assert(days[i] == days[days.len() - 1]);
        }
    }
}

proof fn lemma_all_days_counted(vaults: Seq<Vault>, days: Seq<Seq<char>>)
    requires
        days.no_duplicates(),
        forall|k: int|
            0 <= k < vaults.len() ==> days.contains((#[trigger] vaults[k]).created_at.day()),
    ensures
        created_on_days(vaults, days) == vaults.len(),
        released_on_days(vaults, days) == released_count(vaults),
    decreases vaults.len(),
{
    reveal(Seq::filter);
    if vaults.len() == 0 {
        assert(vaults =~= Seq::empty());
        lemma_no_vaults(days);
    } else {
        lemma_one_more_vault(vaults, days);
        assert(days.contains(vaults[vaults.len() - 1].created_at.day()));
        assert forall|k: int| 0 <= k < vaults.drop_last().len() implies days.contains(
            (#[trigger] vaults.drop_last()[k]).created_at.day(),
        ) by {
            assert(days.contains(vaults[k].created_at.day()));
        }
        lemma_all_days_counted(vaults.drop_last(), days);
    }
}

spec fn series_days(series: Seq<TimeSeriesPoint>) -> Seq<Seq<char>> {
    series.map_values(|point: TimeSeriesPoint| point.date@)
}

proof fn lemma_series_sums(series: Seq<TimeSeriesPoint>, vaults: Seq<Vault>)
    requires
        forall|i: int|
            0 <= i < series.len() ==> (#[trigger] series[i]).vaults_created == created_on(
                vaults,
                series[i].date@,
            ) && series[i].vaults_released == released_on(vaults, series[i].date@),
    ensures
        series_created(series) == created_on_days(vaults, series_days(series)),
        series_released(series) == released_on_days(vaults, series_days(series)),
    decreases series.len(),
{
    if series.len() > 0 {
        assert forall|i: int| 0 <= i < series.drop_last().len() implies (
        #[trigger] series.drop_last()[i]).vaults_created == created_on(
            vaults,
            series.drop_last()[i].date@,
        ) && series.drop_last()[i].vaults_released == released_on(
            vaults,
            series.drop_last()[i].date@,
        ) by {
            assert(series.drop_last()[i] == series[i]);
        }
        lemma_series_sums(series.drop_last(), vaults);
        assert(series_days(series).drop_last() =~= series_days(series.drop_last()));
        assert(series_days(series).last() == series.last().date@);
        assert(series.last() == series[series.len() - 1]);
    }
}

/// The days of a series add up: every vault is counted as created on exactly one of them, and
/// every released vault as released on exactly one of them.
pub proof fn law_series_adds_up(series: Seq<TimeSeriesPoint>, vaults: Seq<Vault>)
    requires
        is_time_series(series, vaults),
    ensures
        series_created(series) == vaults.len(),
        series_released(series) == released_count(vaults),
{
    let days = series_days(series);
    lemma_series_sums(series, vaults);
    assert(days.no_duplicates()) by {
        assert forall|i: int, j: int| 0 <= i < days.len() && 0 <= j < days.len() && i
            != j implies days[i] != days[j] by {
            lemma_text_before_irreflexive(days[i]);
            if i < j {
                assert(text_before(series[i].date@, series[j].date@));
            } else {
                assert(text_before(series[j].date@, series[i].date@));
            }
        }
    }
    assert forall|k: int| 0 <= k < vaults.len() implies days.contains(
        (#[trigger] vaults[k]).created_at.day(),
    ) by {
        let day = vaults[k].created_at.day();
        let i = choose|i: int| 0 <= i < series.len() && (#[trigger] series[i]).date@ == day;
        assert(days[i] == day);
    }
    lemma_all_days_counted(vaults, days);
}

/// The vaults have only one series: two series of the same vaults have the same days with the
/// same counts, point by point.
pub proof fn law_series_is_unique(
    left: Seq<TimeSeriesPoint>,
    right: Seq<TimeSeriesPoint>,
    vaults: Seq<Vault>,
)
    requires
        is_time_series(left, vaults),
        is_time_series(right, vaults),
    ensures
        left.len() == right.len(),
        forall|i: int|
            #![trigger left[i]]
            #![trigger right[i]]
            0 <= i < left.len() ==> left[i].date@ == right[i].date@ && left[i].vaults_created
                == right[i].vaults_created && left[i].vaults_released == right[i].vaults_released,
    decreases left.len(),
{
    lemma_series_prefix(left, right, vaults, left.len() as int);
    lemma_series_prefix(right, left, vaults, right.len() as int);
}

/// Every day of a series is the day of some vault.
proof fn lemma_day_has_vault(series: Seq<TimeSeriesPoint>, vaults: Seq<Vault>, i: int) -> (k: int)
    requires
        is_time_series(series, vaults),
        0 <= i < series.len(),
    ensures
        0 <= k < vaults.len(),
        vaults[k].created_at.day() == series[i].date@,
{
    let day = series[i].date@;
    if forall|k: int| 0 <= k < vaults.len() ==> (#[trigger] vaults[k]).created_at.day() != day {
        lemma_absent_day(vaults, day);
        assert(series[i].vaults_created > 0);
    }
    choose|k: int| 0 <= k < vaults.len() && (#[trigger] vaults[k]).created_at.day() == day
}

proof fn lemma_series_prefix(
    left: Seq<TimeSeriesPoint>,
    right: Seq<TimeSeriesPoint>,
    vaults: Seq<Vault>,
    n: int,
)
    requires
        is_time_series(left, vaults),
        is_time_series(right, vaults),
        0 <= n <= left.len(),
    ensures
        n <= right.len(),
        forall|i: int| 0 <= i < n ==> (#[trigger] left[i]).date@ == right[i].date@,
    decreases n,
{
    if n > 0 {
        lemma_series_prefix(left, right, vaults, n - 1);
        let i = n - 1;
        let day = left[i].date@;
        let k = lemma_day_has_vault(left, vaults, i);
        assert(has_day(right, vaults[k].created_at.day()));
        let j = choose|j: int| 0 <= j < right.len() && (#[trigger] right[j]).date@ == day;
        if j < i {
            assert(left[j].date@ == day);
            assert(text_before(left[j].date@, left[i].date@));
            lemma_text_before_irreflexive(day);
        }
        if j > i {
            let m = lemma_day_has_vault(right, vaults, i);
            assert(has_day(left, vaults[m].created_at.day()));
            let early = right[i].date@;
            let p = choose|p: int| 0 <= p < left.len() && (#[trigger] left[p]).date@ == early;
            assert(text_before(early, day));
            if p < i {
                assert(right[p].date@ == early);
                assert(text_before(right[p].date@, right[i].date@));
                lemma_text_before_irreflexive(early);
            } else if p == i {
                lemma_text_before_irreflexive(early);
            } else {
                assert(text_before(left[i].date@, left[p].date@));
                lemma_text_before_transitive(early, day, early);
                lemma_text_before_irreflexive(early);
            }
        }
    }
}

} // verus!
