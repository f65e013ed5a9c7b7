//! How the counts over all vaults follow from the vaults, one by one.

use crate::analytics::{
    active_count, compute_vault_analytics, created_on, has_day, interval_sum, is_time_series,
    released_count, released_on, TimeSeriesPoint, VaultAnalytics,
};
use crate::models::Vault;
use crate::text::{lemma_text_before_irreflexive, text_before};
use crate::timestamp::calendar_day;
use crate::vaults::{lemma_filter_step, VaultStore};
use vstd::prelude::*;

verus! {

/// The calendar day on which a vault was created.
pub open spec fn creation_day(vault: Vault) -> Seq<char> {
    calendar_day(vault.created_at.secs(), vault.created_at.nanos())
}

/// One where something holds, and else nothing.
pub open spec fn one_if(holds: bool) -> nat {
    if holds {
        1
    } else {
        0
    }
}

// ---- the sum of the intervals ----

/// No vaults have no check-in seconds, and one more vault adds its own interval to those of the
/// others, whatever these are.
pub proof fn law_each_vault_adds_its_interval(vaults: Seq<Vault>, vault: Vault)
    ensures
        interval_sum(Seq::<Vault>::empty()) == 0,
        interval_sum(vaults.push(vault)) == interval_sum(vaults) + vault.check_in_interval,
{
    assert(vaults.push(vault).drop_last() =~= vaults);
}

/// The check-in seconds of vaults and of others add up to those of all of them.
pub proof fn law_interval_sums_add_up(vaults: Seq<Vault>, others: Seq<Vault>)
    ensures
        interval_sum(vaults + others) == interval_sum(vaults) + interval_sum(others),
    decreases others.len(),
{
    if others.len() == 0 {
        assert(vaults + others =~= vaults);
    } else {
        law_interval_sums_add_up(vaults, others.drop_last());
        assert((vaults + others).drop_last() =~= vaults + others.drop_last());
    }
}

/// The check-in seconds are those of each vault, added: the sum over the intervals.
pub proof fn law_interval_sum_is_the_sum_of_the_intervals(vaults: Seq<Vault>)
    ensures
        interval_sum(vaults) == vaults.map_values(
            |vault: Vault| vault.check_in_interval as int,
        ).fold_left(0int, |sum: int, interval: int| sum + interval),
    decreases vaults.len(),
{
    let plus = |sum: int, interval: int| sum + interval;
    let intervals = vaults.map_values(|vault: Vault| vault.check_in_interval as int);
    reveal_with_fuel(Seq::fold_left, 2);
    if vaults.len() > 0 {
        law_interval_sum_is_the_sum_of_the_intervals(vaults.drop_last());
        assert(intervals.drop_last() =~= vaults.drop_last().map_values(
            |vault: Vault| vault.check_in_interval as int,
        ));
    }
}

proof fn lemma_interval_taken_out(vaults: Seq<Vault>, i: int)
    requires
        0 <= i < vaults.len(),
    ensures
        interval_sum(vaults) == interval_sum(vaults.remove(i)) + vaults[i].check_in_interval,
{
    let before = vaults.take(i);
    let rest = vaults.skip(i + 1);
    assert(vaults =~= before.push(vaults[i]) + rest);
    assert(vaults.remove(i) =~= before + rest);
    law_interval_sums_add_up(before.push(vaults[i]), rest);
    law_interval_sums_add_up(before, rest);
    law_each_vault_adds_its_interval(before, vaults[i]);
}

/// The check-in seconds do not depend on the order of the vaults.
pub proof fn law_order_does_not_change_the_interval_sum(vaults: Seq<Vault>, others: Seq<Vault>)
    requires
        vaults.to_multiset() == others.to_multiset(),
    ensures
        interval_sum(vaults) == interval_sum(others),
    decreases vaults.len(),
{
    broadcast use vstd::seq_lib::group_to_multiset_ensures;

    assert(vaults.len() == vaults.to_multiset().len());
    assert(others.len() == others.to_multiset().len());
    if vaults.len() > 0 {
        let last = vaults.len() - 1;
        let vault = vaults[last];
        assert(vaults.to_multiset().count(vault) > 0);
        assert(others.contains(vault));
        let i = others.index_of(vault);
        lemma_interval_taken_out(vaults, last);
        lemma_interval_taken_out(others, i);
        assert(vaults.remove(last).to_multiset() == vaults.to_multiset().remove(vault));
        assert(others.remove(i).to_multiset() == others.to_multiset().remove(vault));
        law_order_does_not_change_the_interval_sum(vaults.remove(last), others.remove(i));
    }
}

// ---- the counts ----

/// No vaults count for nothing, and one more vault counts as active if it is active, as released
/// if it is released, and on the day it was created and on no other.
pub proof fn law_each_vault_is_counted_by_its_status_and_day(
    vaults: Seq<Vault>,
    vault: Vault,
    day: Seq<char>,
)
    ensures
        active_count(Seq::<Vault>::empty()) == 0,
        released_count(Seq::<Vault>::empty()) == 0,
        created_on(Seq::<Vault>::empty(), day) == 0,
        released_on(Seq::<Vault>::empty(), day) == 0,
        active_count(vaults.push(vault)) == active_count(vaults) + one_if(vault.status is Active),
        released_count(vaults.push(vault)) == released_count(vaults) + one_if(
            vault.status is Released,
        ),
        created_on(vaults.push(vault), day) == created_on(vaults, day) + one_if(
            creation_day(vault) == day,
        ),
        released_on(vaults.push(vault), day) == released_on(vaults, day) + one_if(
            creation_day(vault) == day && vault.status is Released,
        ),
{
    reveal(Seq::filter);
    assert(vaults.push(vault).drop_last() =~= vaults);
}

proof fn lemma_counted_out(vaults: Seq<Vault>, keep: spec_fn(Vault) -> bool, i: int)
    requires
        0 <= i < vaults.len(),
    ensures
        vaults.filter(keep).len() == vaults.remove(i).filter(keep).len() + one_if(keep(vaults[i])),
{
    let before = vaults.take(i);
    let rest = vaults.skip(i + 1);
    assert(vaults =~= vaults.take(i + 1) + rest);
    assert(vaults.remove(i) =~= before + rest);
    Seq::filter_distributes_over_add(vaults.take(i + 1), rest, keep);
    Seq::filter_distributes_over_add(before, rest, keep);
    lemma_filter_step(vaults, keep, i);
}

/// Putting another vault in the place of one changes each count by what the two count for.
pub proof fn law_replaced_vault_no_longer_counts(
    vaults: Seq<Vault>,
    i: int,
    vault: Vault,
    day: Seq<char>,
)
    requires
        0 <= i < vaults.len(),
    ensures
        ({
            let after = vaults.update(i, vault);
            let gone = vaults[i];
            &&& interval_sum(after) + gone.check_in_interval == interval_sum(vaults)
                + vault.check_in_interval
            &&& active_count(after) + one_if(gone.status is Active) == active_count(vaults)
                + one_if(vault.status is Active)
            &&& released_count(after) + one_if(gone.status is Released) == released_count(vaults)
                + one_if(vault.status is Released)
            &&& created_on(after, day) + one_if(creation_day(gone) == day) == created_on(
                vaults,
                day,
            ) + one_if(creation_day(vault) == day)
            &&& released_on(after, day) + one_if(
                creation_day(gone) == day && gone.status is Released,
            ) == released_on(vaults, day) + one_if(
                creation_day(vault) == day && vault.status is Released,
            )
        }),
{
    let after = vaults.update(i, vault);
    assert(after.remove(i) =~= vaults.remove(i));
    lemma_interval_taken_out(vaults, i);
    lemma_interval_taken_out(after, i);
    let active = |vault: Vault| vault.status is Active;
    let released = |vault: Vault| vault.status is Released;
    let created = |vault: Vault| vault.created_at.day() == day;
    let gone = |vault: Vault| vault.created_at.day() == day && vault.status is Released;
    lemma_counted_out(vaults, active, i);
    lemma_counted_out(after, active, i);
    lemma_counted_out(vaults, released, i);
    lemma_counted_out(after, released, i);
    lemma_counted_out(vaults, created, i);
    lemma_counted_out(after, created, i);
    lemma_counted_out(vaults, gone, i);
    lemma_counted_out(after, gone, i);
}

// ---- what is computed over a store ----

/// How many vaults a series says were created on a day, and how many of them were released: none,
/// where it has no point for the day.
pub open spec fn counts_of_day(series: Seq<TimeSeriesPoint>, day: Seq<char>) -> (nat, nat) {
    if exists|i: int| 0 <= i < series.len() && (#[trigger] series[i]).date@ == day {
        let i = choose|i: int| 0 <= i < series.len() && (#[trigger] series[i]).date@ == day;
        (series[i].vaults_created as nat, series[i].vaults_released as nat)
    } else {
        (0, 0)
    }
}

proof fn lemma_counts_of_day(series: Seq<TimeSeriesPoint>, vaults: Seq<Vault>, day: Seq<char>)
    requires
        is_time_series(series, vaults),
    ensures
        counts_of_day(series, day) == (created_on(vaults, day), released_on(vaults, day)),
{
    if exists|i: int| 0 <= i < series.len() && (#[trigger] series[i]).date@ == day {
    } else {
        assert forall|k: int| 0 <= k < vaults.len() implies creation_day(#[trigger] vaults[k])
            != day by {
            if creation_day(vaults[k]) == day {
                assert(has_day(series, vaults[k].created_at.day()));
            }
        }
        lemma_none_on_day(vaults, day);
    }
}

proof fn lemma_none_on_day(vaults: Seq<Vault>, day: Seq<char>)
    requires
        forall|k: int| 0 <= k < vaults.len() ==> creation_day(#[trigger] vaults[k]) != day,
    ensures
        created_on(vaults, day) == 0,
        released_on(vaults, day) == 0,
    decreases vaults.len(),
{
    if vaults.len() > 0 {
        let rest = vaults.drop_last();
        assert forall|k: int| 0 <= k < rest.len() implies creation_day(#[trigger] rest[k])
            != day by {
            assert(creation_day(vaults[k]) != day);
        }
        lemma_none_on_day(rest, day);
        assert(creation_day(vaults[vaults.len() - 1]) != day);
        law_each_vault_is_counted_by_its_status_and_day(rest, vaults.last(), day);
        assert(vaults =~= rest.push(vaults.last()));
    } else {
        assert(vaults =~= Seq::empty());
        law_each_vault_is_counted_by_its_status_and_day(vaults, arbitrary(), day);
    }
}

/// Over a store without vaults everything is zero and no day is listed.
pub proof fn law_analytics_of_no_vaults(store: VaultStore, analytics: VaultAnalytics)
    requires
        call_ensures(compute_vault_analytics, (&store,), analytics),
        store.values().len() == 0,
    ensures
        analytics.total_vaults == 0,
        analytics.active_vaults == 0,
        analytics.released_vaults == 0,
        analytics.total_check_in_seconds == 0,
        analytics.time_series@.len() == 0,
{
    let vaults = store.values();
    assert(vaults =~= Seq::empty());
    if analytics.time_series@.len() > 0 {
        let day = analytics.time_series@[0].date@;
        law_each_vault_is_counted_by_its_status_and_day(vaults, arbitrary(), day);
    }
    law_each_vault_is_counted_by_its_status_and_day(vaults, arbitrary(), Seq::empty());
}

/// A vault that is added to a store counts once in everything that is computed over the store, by
/// its own status, interval and day, whatever the other vaults are.
pub proof fn law_added_vault_counts_once(
    before: VaultStore,
    after: VaultStore,
    key: Seq<char>,
    vault: Vault,
    earlier: VaultAnalytics,
    later: VaultAnalytics,
    day: Seq<char>,
)
    requires
        !before@.contains_key(key),
        after.extends(before, key, vault),
        call_ensures(compute_vault_analytics, (&before,), earlier),
        call_ensures(compute_vault_analytics, (&after,), later),
    ensures
        later.total_vaults == earlier.total_vaults + 1,
        later.active_vaults == earlier.active_vaults + one_if(vault.status is Active),
        later.released_vaults == earlier.released_vaults + one_if(vault.status is Released),
        later.total_check_in_seconds == earlier.total_check_in_seconds + vault.check_in_interval,
        counts_of_day(later.time_series@, day).0 == counts_of_day(earlier.time_series@, day).0 + one_if(
            creation_day(vault) == day,
        ),
        counts_of_day(later.time_series@, day).1 == counts_of_day(earlier.time_series@, day).1 + one_if(
            creation_day(vault) == day && vault.status is Released,
        ),
{
    let vaults = before.values();
    law_each_vault_adds_its_interval(vaults, vault);
    law_each_vault_is_counted_by_its_status_and_day(vaults, vault, day);
    lemma_counts_of_day(earlier.time_series@, vaults, day);
    lemma_counts_of_day(later.time_series@, after.values(), day);
}

/// A vault that takes the place of another counts in its stead.
pub proof fn law_replacing_vault_counts_instead(
    before: VaultStore,
    after: VaultStore,
    key: Seq<char>,
    vault: Vault,
    earlier: VaultAnalytics,
    later: VaultAnalytics,
    day: Seq<char>,
)
    requires
        before@.contains_key(key),
        after.extends(before, key, vault),
        call_ensures(compute_vault_analytics, (&before,), earlier),
        call_ensures(compute_vault_analytics, (&after,), later),
    ensures
        ({
            let gone = before@[key];
            &&& later.total_vaults == earlier.total_vaults
            &&& later.active_vaults + one_if(gone.status is Active) == earlier.active_vaults + one_if(
                vault.status is Active,
            )
            &&& later.released_vaults + one_if(gone.status is Released) == earlier.released_vaults
                + one_if(vault.status is Released)
            &&& later.total_check_in_seconds + gone.check_in_interval == earlier.total_check_in_seconds
                + vault.check_in_interval
            &&& counts_of_day(later.time_series@, day).0 + one_if(creation_day(gone) == day)
                == counts_of_day(earlier.time_series@, day).0 + one_if(creation_day(vault) == day)
            &&& counts_of_day(later.time_series@, day).1 + one_if(
                creation_day(gone) == day && gone.status is Released,
            ) == counts_of_day(earlier.time_series@, day).1 + one_if(
                creation_day(vault) == day && vault.status is Released,
            )
        }),
{
    law_replaced_vault_no_longer_counts(before.values(), before.place(key), vault, day);
    lemma_counts_of_day(earlier.time_series@, before.values(), day);
    lemma_counts_of_day(later.time_series@, after.values(), day);
}

/// The days of the series are in order, none stands twice, and on each at least one vault was
/// created.
pub proof fn law_days_are_in_order(store: VaultStore, analytics: VaultAnalytics, i: int, j: int)
    requires
        call_ensures(compute_vault_analytics, (&store,), analytics),
        0 <= i < j < analytics.time_series@.len(),
    ensures
        text_before(
            analytics.time_series@[i].date@,
            analytics.time_series@[j].date@,
        ),
        analytics.time_series@[i].date@ != analytics.time_series@[j].date@,
        analytics.time_series@[i].vaults_created > 0,
        analytics.time_series@[i].vaults_released <= analytics.time_series@[i].vaults_created,
{
    let vaults = store.values();
    let day = analytics.time_series@[i].date@;
    lemma_text_before_irreflexive(day);
    lemma_released_were_created(vaults, day);
}

proof fn lemma_released_were_created(vaults: Seq<Vault>, day: Seq<char>)
    ensures
        released_on(vaults, day) <= created_on(vaults, day),
    decreases vaults.len(),
{
    reveal(Seq::filter);
    if vaults.len() > 0 {
        lemma_released_were_created(vaults.drop_last(), day);
    }
}

} // verus!
