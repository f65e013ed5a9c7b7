//! What a search for vaults finds, told by the fields of the vaults and of the query.

use crate::models::{SearchQuery, SearchResult, Vault, VaultStatus};
use crate::timestamp::Timestamp;
use crate::vaults::{
    found_vaults, law_open_search_finds_all, law_search_finds, matches_query, search_vaults,
    vault_matches, VaultStore,
};
use vstd::prelude::*;

verus! {

/// Whether a point in time lies at or after another: in a later second, or in the same second and
/// not at an earlier nanosecond.
pub open spec fn at_or_after(t: Timestamp, other: Timestamp) -> bool {
    t.secs() > other.secs() || (t.secs() == other.secs() && t.nanos() >= other.nanos())
}

/// Each restriction of a query holds by itself of every vault that matches it: the owner, the
/// beneficiary and the status are those asked for, and the vault was created within the window.
/// A vault of which all that are given hold matches.
pub proof fn law_matching_vault_meets_each_restriction(
    vault: Vault,
    query: SearchQuery,
    matched: bool,
)
    requires
        call_ensures(vault_matches, (&vault, &query), matched),
    ensures
        matched && query.owner is Some ==> vault.owner@ == query.owner->Some_0@,
        matched && query.beneficiary is Some ==> vault.beneficiary@ == query.beneficiary->Some_0@,
        matched && query.status is Some ==> match query.status->Some_0 {
            VaultStatus::Active => vault.status is Active,
            VaultStatus::Released => vault.status is Released,
            VaultStatus::Other(name) => vault.status is Other && vault.status->Other_0@ == name@,
        },
        matched && query.created_after is Some ==> at_or_after(
            vault.created_at,
            query.created_after->Some_0,
        ),
        matched && query.created_before is Some ==> at_or_after(
            query.created_before->Some_0,
            vault.created_at,
        ),
        !matched ==> {
            ||| query.owner is Some && vault.owner@ != query.owner->Some_0@
            ||| query.beneficiary is Some && vault.beneficiary@ != query.beneficiary->Some_0@
            ||| query.status is Some && match query.status->Some_0 {
                VaultStatus::Active => !(vault.status is Active),
                VaultStatus::Released => !(vault.status is Released),
                VaultStatus::Other(name) => !(vault.status is Other && vault.status->Other_0@
                    == name@),
            }
            ||| query.created_after is Some && !at_or_after(
                vault.created_at,
                query.created_after->Some_0,
            )
            ||| query.created_before is Some && !at_or_after(
                query.created_before->Some_0,
                vault.created_at,
            )
        },
{
}

/// Every vault that a search shows is in the store, and has the owner, the beneficiary and the
/// status asked for and was created within the window, for each of these that the query names.
pub proof fn law_shown_vaults_meet_each_restriction(
    store: VaultStore,
    query: SearchQuery,
    result: SearchResult,
    i: int,
)
    requires
        call_ensures(search_vaults, (&store, &query), result),
        query.page is Some ==> query.page->Some_0 >= 1,
        0 <= i < result.vaults@.len(),
    ensures
        store.values().contains(result.vaults@[i]),
        query.owner is Some ==> result.vaults@[i].owner@ == query.owner->Some_0@,
        query.beneficiary is Some ==> result.vaults@[i].beneficiary@
            == query.beneficiary->Some_0@,
        query.status is Some ==> match query.status->Some_0 {
            VaultStatus::Active => result.vaults@[i].status is Active,
            VaultStatus::Released => result.vaults@[i].status is Released,
            VaultStatus::Other(name) => result.vaults@[i].status is Other
                && result.vaults@[i].status->Other_0@ == name@,
        },
        query.created_after is Some ==> at_or_after(
            result.vaults@[i].created_at,
            query.created_after->Some_0,
        ),
        query.created_before is Some ==> at_or_after(
            query.created_before->Some_0,
            result.vaults@[i].created_at,
        ),
{
    let found = found_vaults(store.values(), query);
    let vault = result.vaults@[i];
    law_page_is_a_stretch_of_what_is_found(store, query, result);
    let passed_over = (result.page - 1) * result.limit;
    assert(passed_over >= 0) by (nonlinear_arith)
        requires
            passed_over == (result.page - 1) * result.limit,
            result.page >= 1,
    ;
    assert(found[passed_over + i] == vault);
    law_search_finds(store.values(), query, vault);
}

/// The page that a search shows begins after the pages before it and goes on for as many vaults as
/// a page has, or to the last vault found. A query that names no page asks for the first, and one
/// that names no size for ten vaults.
pub proof fn law_page_is_a_stretch_of_what_is_found(
    store: VaultStore,
    query: SearchQuery,
    result: SearchResult,
)
    requires
        call_ensures(search_vaults, (&store, &query), result),
        query.page is Some ==> query.page->Some_0 >= 1,
    ensures
        result.page == if query.page is Some {
            query.page->Some_0
        } else {
            1
        },
        result.limit == if query.limit is Some {
            query.limit->Some_0
        } else {
            10
        },
        ({
            let found = found_vaults(store.values(), query);
            let passed_over = (result.page - 1) * result.limit;
            &&& found.len() <= u32::MAX ==> result.total == found.len()
            &&& passed_over >= found.len() ==> result.vaults@.len() == 0
            &&& passed_over < found.len() ==> result.vaults@.len() == if found.len() - passed_over
                < result.limit {
                found.len() - passed_over
            } else {
                result.limit as int
            }
            &&& forall|i: int|
                0 <= i < result.vaults@.len() ==> #[trigger] result.vaults@[i] == found[passed_over
                    + i]
        }),
{
    let passed_over = (result.page - 1) * result.limit;
    assert(passed_over >= 0) by (nonlinear_arith)
        requires
            passed_over == (result.page - 1) * result.limit,
            result.page >= 1,
    ;
}

/// A search whose page is large enough shows every vault of the store that meets all the
/// restrictions that the query names.
pub proof fn law_search_leaves_none_out(
    store: VaultStore,
    query: SearchQuery,
    result: SearchResult,
    vault: Vault,
)
    requires
        call_ensures(search_vaults, (&store, &query), result),
        result.page == 1,
        result.limit >= store.values().len(),
        store.values().contains(vault),
        query.owner is Some ==> vault.owner@ == query.owner->Some_0@,
        query.beneficiary is Some ==> vault.beneficiary@ == query.beneficiary->Some_0@,
        query.status is Some ==> match query.status->Some_0 {
            VaultStatus::Active => vault.status is Active,
            VaultStatus::Released => vault.status is Released,
            VaultStatus::Other(name) => vault.status is Other && vault.status->Other_0@ == name@,
        },
        query.created_after is Some ==> at_or_after(
            vault.created_at,
            query.created_after->Some_0,
        ),
        query.created_before is Some ==> at_or_after(
            query.created_before->Some_0,
            vault.created_at,
        ),
    ensures
        result.vaults@.contains(vault),
{
    let found = found_vaults(store.values(), query);
    law_search_finds(store.values(), query, vault);
    lemma_found_is_no_longer(store.values(), query);
    assert(result.vaults@ =~= found);
}

proof fn lemma_found_is_no_longer(vaults: Seq<Vault>, query: SearchQuery)
    ensures
        found_vaults(vaults, query).len() <= vaults.len(),
{
    broadcast use vstd::seq_lib::group_filter_ensures;

}

// ---- adding a restriction ----

/// Filtering by two conditions at once is filtering by one and then by the other.
proof fn lemma_filter_twice<T>(
    items: Seq<T>,
    first: spec_fn(T) -> bool,
    second: spec_fn(T) -> bool,
    both: spec_fn(T) -> bool,
)
    requires
        forall|item: T| #[trigger] both(item) == (first(item) && second(item)),
    ensures
        items.filter(both) == items.filter(first).filter(second),
    decreases items.len(),
{
    reveal(Seq::filter);
    if items.len() > 0 {
        let rest = items.drop_last();
        let last = items.last();
        lemma_filter_twice(rest, first, second, both);
        assert(both(last) == (first(last) && second(last)));
        if first(last) {
            let kept = rest.filter(first);
            assert(kept.push(last).drop_last() =~= kept);
            assert(kept.push(last).last() == last);
        }
    }
}

/// Naming an owner as well keeps, of the vaults found without, exactly those of that owner.
pub proof fn law_naming_an_owner_narrows(vaults: Seq<Vault>, query: SearchQuery, owner: String)
    requires
        query.owner is None,
    ensures
        found_vaults(vaults, SearchQuery { owner: Some(owner), ..query }) == found_vaults(
            vaults,
            query,
        ).filter(|vault: Vault| vault.owner@ == owner@),
{
    let more = SearchQuery { owner: Some(owner), ..query };
    lemma_filter_twice(
        vaults,
        |vault: Vault| matches_query(vault, query),
        |vault: Vault| vault.owner@ == owner@,
        |vault: Vault| matches_query(vault, more),
    );
}

/// Naming a beneficiary as well keeps, of the vaults found without, exactly those of that
/// beneficiary.
pub proof fn law_naming_a_beneficiary_narrows(
    vaults: Seq<Vault>,
    query: SearchQuery,
    beneficiary: String,
)
    requires
        query.beneficiary is None,
    ensures
        found_vaults(vaults, SearchQuery { beneficiary: Some(beneficiary), ..query })
            == found_vaults(vaults, query).filter(
            |vault: Vault| vault.beneficiary@ == beneficiary@,
        ),
{
    let more = SearchQuery { beneficiary: Some(beneficiary), ..query };
    lemma_filter_twice(
        vaults,
        |vault: Vault| matches_query(vault, query),
        |vault: Vault| vault.beneficiary@ == beneficiary@,
        |vault: Vault| matches_query(vault, more),
    );
}

/// Naming a status as well keeps, of the vaults found without, exactly those that have it.
pub proof fn law_naming_a_status_narrows(vaults: Seq<Vault>, query: SearchQuery, name: String)
    requires
        query.status is None,
    ensures
        found_vaults(vaults, SearchQuery { status: Some(VaultStatus::Active), ..query })
            == found_vaults(vaults, query).filter(|vault: Vault| vault.status is Active),
        found_vaults(vaults, SearchQuery { status: Some(VaultStatus::Released), ..query })
            == found_vaults(vaults, query).filter(|vault: Vault| vault.status is Released),
        found_vaults(vaults, SearchQuery { status: Some(VaultStatus::Other(name)), ..query })
            == found_vaults(vaults, query).filter(
            |vault: Vault| vault.status is Other && vault.status->Other_0@ == name@,
        ),
{
    let active = SearchQuery { status: Some(VaultStatus::Active), ..query };
    lemma_filter_twice(
        vaults,
        |vault: Vault| matches_query(vault, query),
        |vault: Vault| vault.status is Active,
        |vault: Vault| matches_query(vault, active),
    );
    let released = SearchQuery { status: Some(VaultStatus::Released), ..query };
    lemma_filter_twice(
        vaults,
        |vault: Vault| matches_query(vault, query),
        |vault: Vault| vault.status is Released,
        |vault: Vault| matches_query(vault, released),
    );
    let other = SearchQuery { status: Some(VaultStatus::Other(name)), ..query };
    lemma_filter_twice(
        vaults,
        |vault: Vault| matches_query(vault, query),
        |vault: Vault| vault.status is Other && vault.status->Other_0@ == name@,
        |vault: Vault| matches_query(vault, other),
    );
}

/// Naming a time that vaults were not created before keeps, of the vaults found without, exactly
/// those created at that time or after it.
pub proof fn law_naming_a_first_time_narrows(
    vaults: Seq<Vault>,
    query: SearchQuery,
    first: Timestamp,
)
    requires
        query.created_after is None,
    ensures
        found_vaults(vaults, SearchQuery { created_after: Some(first), ..query }) == found_vaults(
            vaults,
            query,
        ).filter(|vault: Vault| at_or_after(vault.created_at, first)),
{
    let more = SearchQuery { created_after: Some(first), ..query };
    lemma_filter_twice(
        vaults,
        |vault: Vault| matches_query(vault, query),
        |vault: Vault| at_or_after(vault.created_at, first),
        |vault: Vault| matches_query(vault, more),
    );
}

/// Naming a time that vaults were not created after keeps, of the vaults found without, exactly
/// those created at that time or before it.
pub proof fn law_naming_a_last_time_narrows(
    vaults: Seq<Vault>,
    query: SearchQuery,
    last: Timestamp,
)
    requires
        query.created_before is None,
    ensures
        found_vaults(vaults, SearchQuery { created_before: Some(last), ..query }) == found_vaults(
            vaults,
            query,
        ).filter(|vault: Vault| at_or_after(last, vault.created_at)),
{
    let more = SearchQuery { created_before: Some(last), ..query };
    lemma_filter_twice(
        vaults,
        |vault: Vault| matches_query(vault, query),
        |vault: Vault| at_or_after(last, vault.created_at),
        |vault: Vault| matches_query(vault, more),
    );
}

/// The page and its size do not change what is found, only what of it is shown.
pub proof fn law_paging_does_not_restrict(
    vaults: Seq<Vault>,
    query: SearchQuery,
    page: Option<u32>,
    limit: Option<u32>,
)
    ensures
        found_vaults(vaults, SearchQuery { page, limit, ..query }) == found_vaults(vaults, query),
{
    let other = SearchQuery { page, limit, ..query };
    lemma_filter_twice(
        vaults,
        |vault: Vault| matches_query(vault, query),
        |vault: Vault| true,
        |vault: Vault| matches_query(vault, other),
    );
    let found = found_vaults(vaults, query);
    lemma_filter_all(found);
}

proof fn lemma_filter_all(vaults: Seq<Vault>)
    ensures
        vaults.filter(|vault: Vault| true) == vaults,
    decreases vaults.len(),
{
    reveal(Seq::filter);
    if vaults.len() > 0 {
        lemma_filter_all(vaults.drop_last());
        assert(vaults =~= vaults.drop_last().push(vaults.last()));
    } else {
        assert(vaults.filter(|vault: Vault| true) =~= vaults);
    }
}

/// A search that shows the whole of what it finds, and asks for nothing but an owner, shows the
/// vaults of that owner in the order of the store.
pub proof fn law_search_by_owner(
    store: VaultStore,
    query: SearchQuery,
    owner: String,
    result: SearchResult,
)
    requires
        query.owner == Some(owner),
        query.beneficiary is None,
        query.status is None,
        query.created_after is None,
        query.created_before is None,
        call_ensures(search_vaults, (&store, &query), result),
        result.page == 1,
        result.limit >= store.values().len(),
    ensures
        result.vaults@ == store.values().filter(|vault: Vault| vault.owner@ == owner@),
{
    let open = SearchQuery { owner: None, ..query };
    law_open_search_finds_all(store.values(), open);
    law_naming_an_owner_narrows(store.values(), open, owner);
    assert(query == (SearchQuery { owner: Some(owner), ..open }));
    lemma_found_is_no_longer(store.values(), query);
    assert(result.vaults@ =~= found_vaults(store.values(), query));
}

} // verus!
