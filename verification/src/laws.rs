//! Registry-wide laws: properties that relate several operations, proved once
//! and for all over the model in [`crate::model`].

use vstd::prelude::*;
use vstd::seq_lib::*;

use crate::model::{
    AssetView, CompanyView, edit_assets_in_company, edited_asset, inventory_record,
    lemma_matching_count_zero, matching_count, new_asset_view, spec_count_inventories,
    spec_edit_asset, spec_register_asset, spec_register_companies, spec_register_company,
    spec_take_inventories,
    take_inventory_in_company,
};

verus! {

/// Every company's id equals its position in the registry: the k-th
/// registered company (0-based) carries id k.
pub open spec fn ids_follow_insertion_order(companies: Seq<CompanyView>) -> bool {
    forall|i: int| 0 <= i < companies.len() ==> #[trigger] companies[i].id == i as u32
}

/// Law: company registration is append-only and counted correctly. It keeps
/// every existing record unchanged and appends exactly one new record — so
/// the reported company count after N registrations is N — and the new record
/// carries the previous count as its id and starts with empty histories.
pub proof fn lemma_register_company_appends(
    companies: Seq<CompanyView>,
    owner: Seq<char>,
    name: Seq<char>,
    location: Seq<char>,
)
    ensures
        spec_register_company(companies, owner, name, location).len() == companies.len() + 1,
        forall|i: int|
            0 <= i < companies.len() ==> #[trigger] spec_register_company(
                companies,
                owner,
                name,
                location,
            )[i] == companies[i],
        spec_register_company(companies, owner, name, location)[companies.len() as int] == (
        CompanyView {
            id: companies.len() as u32,
            owner,
            name,
            location,
            assets: Seq::empty(),
            inventories: Seq::empty(),
        }),
{
}

/// Law: any run of N registrations is append-only and counted correctly. The
/// companies already present keep their places, the count grows by exactly N,
/// and when the numbering held before (as it does of an empty registry) it
/// holds after — so the k-th company ever registered carries id k-1 (1-based
/// k, 0-based id).
pub proof fn lemma_register_companies_counted(
    companies: Seq<CompanyView>,
    registrations: Seq<(Seq<char>, Seq<char>, Seq<char>)>,
)
    ensures
        spec_register_companies(companies, registrations).len() == companies.len()
            + registrations.len(),
        forall|i: int|
            0 <= i < companies.len() ==> #[trigger] spec_register_companies(
                companies,
                registrations,
            )[i] == companies[i],
        ids_follow_insertion_order(companies) ==> ids_follow_insertion_order(
            spec_register_companies(companies, registrations),
        ),
    decreases registrations.len(),
{
    if registrations.len() > 0 {
        let mid = spec_register_company(
            companies,
            registrations.first().0,
            registrations.first().1,
            registrations.first().2,
        );
        lemma_register_companies_counted(mid, registrations.drop_first());
    }
}

/// Law: ids record insertion order. The numbering holds of an empty registry,
/// registration extends it with the next id, and no asset or inventory
/// operation disturbs it.
pub proof fn lemma_ids_survive_every_operation(
    companies: Seq<CompanyView>,
    owner: Seq<char>,
    name: Seq<char>,
    location: Seq<char>,
    serial: Seq<char>,
    company_name: Seq<char>,
    status: Seq<char>,
    date_taken: Seq<char>,
)
    requires
        ids_follow_insertion_order(companies),
    ensures
        ids_follow_insertion_order(Seq::<CompanyView>::empty()),
        ids_follow_insertion_order(spec_register_company(companies, owner, name, location)),
        ids_follow_insertion_order(spec_register_asset(companies, name, serial, company_name)),
        ids_follow_insertion_order(spec_edit_asset(companies, name, serial, company_name)),
        ids_follow_insertion_order(
            spec_take_inventories(companies, company_name, serial, status, date_taken),
        ),
{
}

/// Law: asset registration targets all name matches. Every company whose name
/// matches gains exactly the freshly built asset at the end of its asset
/// history, and every other company is left untouched.
pub proof fn lemma_register_asset_targets_all_matches(
    companies: Seq<CompanyView>,
    name: Seq<char>,
    serial: Seq<char>,
    company_name: Seq<char>,
)
    ensures
        spec_register_asset(companies, name, serial, company_name).len() == companies.len(),
        forall|i: int|
            0 <= i < companies.len() && companies[i].name == company_name
                ==> #[trigger] spec_register_asset(companies, name, serial, company_name)[i] == (
            CompanyView {
                assets: companies[i].assets.push(new_asset_view(name, serial, company_name)),
                ..companies[i]
            }),
        forall|i: int|
            0 <= i < companies.len() && companies[i].name != company_name
                ==> #[trigger] spec_register_asset(companies, name, serial, company_name)[i]
                == companies[i],
{
}

/// Law: default asset status. The asset a registration appends to each
/// matching company starts with status "good".
pub proof fn lemma_registered_asset_status_good(
    companies: Seq<CompanyView>,
    name: Seq<char>,
    serial: Seq<char>,
    company_name: Seq<char>,
)
    ensures
        forall|i: int|
            0 <= i < companies.len() && companies[i].name == company_name
                ==> #[trigger] spec_register_asset(
                companies,
                name,
                serial,
                company_name,
            )[i].assets.last().status == "good"@,
{
}

/// Law: an edit that rewrites an asset with its own current field values is a
/// no-op — when every serial match inside every name match already carries
/// the requested name and company, the registry is left exactly as it was.
pub proof fn lemma_edit_with_current_fields_is_noop(
    companies: Seq<CompanyView>,
    name: Seq<char>,
    serial: Seq<char>,
    company_name: Seq<char>,
)
    requires
        forall|i: int, j: int|
            #![auto]
            0 <= i < companies.len() && companies[i].name == company_name && 0 <= j
                < companies[i].assets.len() && companies[i].assets[j].serial == serial
                ==> companies[i].assets[j].name == name && companies[i].assets[j].company
                == company_name,
    ensures
        spec_edit_asset(companies, name, serial, company_name) == companies,
{
    let edited = spec_edit_asset(companies, name, serial, company_name);
    assert forall|i: int| 0 <= i < companies.len() implies #[trigger] edited[i]
        == companies[i] by {
        let c = companies[i];
        if c.name == company_name {
            assert(edit_assets_in_company(c, name, serial, company_name).assets =~~= c.assets);
            assert(edit_assets_in_company(c, name, serial, company_name) =~~= c);
        }
    }
    assert(edited =~= companies);
}

/// Law: an edit updates all serial matches within all matching companies —
/// duplicate serials within one company are all rewritten, each keeping its
/// own status — and touches nothing else.
pub proof fn lemma_edit_updates_all_matches(
    companies: Seq<CompanyView>,
    name: Seq<char>,
    serial: Seq<char>,
    company_name: Seq<char>,
)
    ensures
        spec_edit_asset(companies, name, serial, company_name).len() == companies.len(),
        forall|i: int|
            #![auto]
            0 <= i < companies.len() && companies[i].name == company_name ==> spec_edit_asset(
                companies,
                name,
                serial,
                company_name,
            )[i].assets.len() == companies[i].assets.len() && spec_edit_asset(
                companies,
                name,
                serial,
                company_name,
            )[i] == (CompanyView {
                assets: spec_edit_asset(companies, name, serial, company_name)[i].assets,
                ..companies[i]
            }),
        forall|i: int, j: int|
            #![auto]
            0 <= i < companies.len() && companies[i].name == company_name && 0 <= j
                < companies[i].assets.len() && companies[i].assets[j].serial == serial
                ==> spec_edit_asset(companies, name, serial, company_name)[i].assets[j]
                == edited_asset(companies[i].assets[j], name, serial, company_name),
        forall|i: int, j: int|
            #![auto]
            0 <= i < companies.len() && companies[i].name == company_name && 0 <= j
                < companies[i].assets.len() && companies[i].assets[j].serial != serial
                ==> spec_edit_asset(companies, name, serial, company_name)[i].assets[j]
                == companies[i].assets[j],
        forall|i: int|
            #![auto]
            0 <= i < companies.len() && companies[i].name != company_name ==> spec_edit_asset(
                companies,
                name,
                serial,
                company_name,
            )[i] == companies[i],
{
}

/// Law: an inventory check has a dual effect on every matching company. The
/// company's history gains one record per serial match — carrying the given
/// serial, status and timestamp — every matching asset's status is
/// overwritten with the given one, and nothing else changes.
pub proof fn lemma_take_inventory_dual_effect(
    companies: Seq<CompanyView>,
    company_name: Seq<char>,
    serial: Seq<char>,
    status: Seq<char>,
    date_taken: Seq<char>,
)
    ensures
        spec_take_inventories(companies, company_name, serial, status, date_taken).len()
            == companies.len(),
        forall|i: int|
            #![auto]
            0 <= i < companies.len() && companies[i].name == company_name
                ==> spec_take_inventories(
                companies,
                company_name,
                serial,
                status,
                date_taken,
            )[i].inventories == companies[i].inventories + Seq::new(
                matching_count(companies[i].assets, serial),
                |k: int| inventory_record(serial, status, date_taken),
            ),
        forall|i: int, j: int|
            #![auto]
            0 <= i < companies.len() && companies[i].name == company_name && 0 <= j
                < companies[i].assets.len() && companies[i].assets[j].serial == serial
                ==> spec_take_inventories(
                companies,
                company_name,
                serial,
                status,
                date_taken,
            )[i].assets[j] == (AssetView { status, ..companies[i].assets[j] }),
        forall|i: int, j: int|
            #![auto]
            0 <= i < companies.len() && companies[i].name == company_name && 0 <= j
                < companies[i].assets.len() && companies[i].assets[j].serial != serial
                ==> spec_take_inventories(
                companies,
                company_name,
                serial,
                status,
                date_taken,
            )[i].assets[j] == companies[i].assets[j],
        forall|i: int|
            #![auto]
            0 <= i < companies.len() && companies[i].name != company_name
                ==> spec_take_inventories(companies, company_name, serial, status, date_taken)[i]
                == companies[i],
{
}

/// Law: inventory history is append-only. Each company's existing history is
/// a prefix of its history after any inventory check, and the reported
/// inventory count never shrinks.
pub proof fn lemma_inventory_history_append_only(
    companies: Seq<CompanyView>,
    company_name: Seq<char>,
    serial: Seq<char>,
    status: Seq<char>,
    date_taken: Seq<char>,
)
    ensures
        forall|i: int|
            #![auto]
            0 <= i < companies.len() ==> companies[i].inventories.is_prefix_of(
                spec_take_inventories(
                    companies,
                    company_name,
                    serial,
                    status,
                    date_taken,
                )[i].inventories,
            ),
        spec_count_inventories(
            spec_take_inventories(companies, company_name, serial, status, date_taken),
            company_name,
        ) >= spec_count_inventories(companies, company_name),
    decreases companies.len(),
{
    let taken = spec_take_inventories(companies, company_name, serial, status, date_taken);
    assert forall|i: int|
        0 <= i < companies.len() implies #[trigger] companies[i].inventories.is_prefix_of(
        taken[i].inventories,
    ) by {
        if companies[i].name == company_name {
            assert(taken[i].inventories.take(companies[i].inventories.len() as int)
                =~= companies[i].inventories);
        } else {
            assert(taken[i].inventories.take(companies[i].inventories.len() as int)
                =~= companies[i].inventories);
        }
    }
    if companies.len() > 0 {
        lemma_inventory_history_append_only(
            companies.drop_last(),
            company_name,
            serial,
            status,
            date_taken,
        );
        assert(taken.drop_last() =~= spec_take_inventories(
            companies.drop_last(),
            company_name,
            serial,
            status,
            date_taken,
        ));
        assert(taken.last().name == companies.last().name);
    }
}

/// Law: asset registration against a name that no company carries is a no-op.
pub proof fn lemma_register_asset_miss_is_noop(
    companies: Seq<CompanyView>,
    name: Seq<char>,
    serial: Seq<char>,
    company_name: Seq<char>,
)
    requires
        forall|i: int| 0 <= i < companies.len() ==> #[trigger] companies[i].name != company_name,
    ensures
        spec_register_asset(companies, name, serial, company_name) == companies,
{
    assert(spec_register_asset(companies, name, serial, company_name) =~= companies);
}

/// Law: an edit whose company name or serial matches nothing is a no-op.
pub proof fn lemma_edit_asset_miss_is_noop(
    companies: Seq<CompanyView>,
    name: Seq<char>,
    serial: Seq<char>,
    company_name: Seq<char>,
)
    requires
        forall|i: int, j: int|
            #![auto]
            0 <= i < companies.len() && companies[i].name == company_name && 0 <= j
                < companies[i].assets.len() ==> companies[i].assets[j].serial != serial,
    ensures
        spec_edit_asset(companies, name, serial, company_name) == companies,
{
    let edited = spec_edit_asset(companies, name, serial, company_name);
    assert forall|i: int| 0 <= i < companies.len() implies #[trigger] edited[i]
        == companies[i] by {
        let c = companies[i];
        if c.name == company_name {
            assert(edit_assets_in_company(c, name, serial, company_name).assets =~~= c.assets);
            assert(edit_assets_in_company(c, name, serial, company_name) =~~= c);
        }
    }
    assert(edited =~= companies);
}

/// Law: an inventory check whose company name or serial matches nothing is a
/// no-op.
pub proof fn lemma_take_inventory_miss_is_noop(
    companies: Seq<CompanyView>,
    company_name: Seq<char>,
    serial: Seq<char>,
    status: Seq<char>,
    date_taken: Seq<char>,
)
    requires
        forall|i: int, j: int|
            #![auto]
            0 <= i < companies.len() && companies[i].name == company_name && 0 <= j
                < companies[i].assets.len() ==> companies[i].assets[j].serial != serial,
    ensures
        spec_take_inventories(companies, company_name, serial, status, date_taken) == companies,
{
    let taken = spec_take_inventories(companies, company_name, serial, status, date_taken);
    assert forall|i: int| 0 <= i < companies.len() implies #[trigger] taken[i]
        == companies[i] by {
        let c = companies[i];
        if c.name == company_name {
            lemma_matching_count_zero(c.assets, serial);
            assert(take_inventory_in_company(c, serial, status, date_taken).assets =~~= c.assets);
            assert(take_inventory_in_company(c, serial, status, date_taken).inventories
                =~= c.inventories);
            assert(take_inventory_in_company(c, serial, status, date_taken) =~~= c);
        }
    }
    assert(taken =~= companies);
}

} // verus!
