//! The mathematical model of the registry: ghost mirrors of the record types
//! and spec functions giving the meaning of every operation.

use vstd::prelude::*;

verus! {

/// Ghost mirror of an asset record.
#[verifier::ext_equal]
pub ghost struct AssetView {
    pub name: Seq<char>,
    pub serial: Seq<char>,
    pub company: Seq<char>,
    pub status: Seq<char>,
}

/// Ghost mirror of an inventory-check record.
#[verifier::ext_equal]
pub ghost struct InventoryView {
    pub date_taken: Seq<char>,
    pub serial: Seq<char>,
    pub status: Seq<char>,
}

/// Ghost mirror of a company record.
#[verifier::ext_equal]
pub ghost struct CompanyView {
    pub id: u32,
    pub owner: Seq<char>,
    pub name: Seq<char>,
    pub location: Seq<char>,
    pub assets: Seq<AssetView>,
    pub inventories: Seq<InventoryView>,
}

/// The asset record produced by a registration: status always starts "good".
pub open spec fn new_asset_view(
    name: Seq<char>,
    serial: Seq<char>,
    company_name: Seq<char>,
) -> AssetView {
    AssetView { name, serial, company: company_name, status: "good"@ }
}

/// Registering a company appends one record whose id is the count so far and
/// whose asset and inventory histories start empty.
pub open spec fn spec_register_company(
    companies: Seq<CompanyView>,
    owner: Seq<char>,
    name: Seq<char>,
    location: Seq<char>,
) -> Seq<CompanyView> {
    companies.push(
        CompanyView {
            id: companies.len() as u32,
            owner,
            name,
            location,
            assets: Seq::empty(),
            inventories: Seq::empty(),
        },
    )
}

/// A whole run of registrations, applied first to last: each triple holds the
/// owner, name and location of one company to register.
pub open spec fn spec_register_companies(
    companies: Seq<CompanyView>,
    registrations: Seq<(Seq<char>, Seq<char>, Seq<char>)>,
) -> Seq<CompanyView>
    decreases registrations.len(),
{
    if registrations.len() == 0 {
        companies
    } else {
        spec_register_companies(
            spec_register_company(
                companies,
                registrations.first().0,
                registrations.first().1,
                registrations.first().2,
            ),
            registrations.drop_first(),
        )
    }
}

/// What asset registration does to one company: a company whose name matches
/// gains the new asset at the end of its asset history, any other company is
/// untouched.
pub open spec fn register_asset_in_company(
    c: CompanyView,
    name: Seq<char>,
    serial: Seq<char>,
    company_name: Seq<char>,
) -> CompanyView {
    if c.name == company_name {
        CompanyView { assets: c.assets.push(new_asset_view(name, serial, company_name)), ..c }
    } else {
        c
    }
}

/// Asset registration targets every company whose name matches, in place.
pub open spec fn spec_register_asset(
    companies: Seq<CompanyView>,
    name: Seq<char>,
    serial: Seq<char>,
    company_name: Seq<char>,
) -> Seq<CompanyView> {
    companies.map(|i: int, c: CompanyView| register_asset_in_company(c, name, serial, company_name))
}

/// The asset after an edit: `name` and `serial` overwritten, `company` reset
/// to the name the edit was addressed to, and `status` left alone.
pub open spec fn edited_asset(
    a: AssetView,
    name: Seq<char>,
    serial: Seq<char>,
    company_name: Seq<char>,
) -> AssetView {
    AssetView { name, serial, company: company_name, status: a.status }
}

/// What an edit does to one company: within a company whose name matches,
/// every asset whose serial matches is overwritten; any other company is
/// untouched.
pub open spec fn edit_assets_in_company(
    c: CompanyView,
    name: Seq<char>,
    serial: Seq<char>,
    company_name: Seq<char>,
) -> CompanyView {
    if c.name == company_name {
        CompanyView {
            assets: c.assets.map(
                |j: int, a: AssetView|
                    if a.serial == serial {
                        edited_asset(a, name, serial, company_name)
                    } else {
                        a
                    },
            ),
            ..c
        }
    } else {
        c
    }
}

/// An edit rewrites every serial match within every name match.
pub open spec fn spec_edit_asset(
    companies: Seq<CompanyView>,
    name: Seq<char>,
    serial: Seq<char>,
    company_name: Seq<char>,
) -> Seq<CompanyView> {
    companies.map(|i: int, c: CompanyView| edit_assets_in_company(c, name, serial, company_name))
}

/// How many assets of the sequence carry the given serial.
pub open spec fn matching_count(assets: Seq<AssetView>, serial: Seq<char>) -> nat
    decreases assets.len(),
{
    if assets.len() == 0 {
        0
    } else {
        matching_count(assets.drop_last(), serial) + if assets.last().serial == serial {
            1nat
        } else {
            0nat
        }
    }
}

/// The record an inventory check appends for each matching asset.
pub open spec fn inventory_record(
    serial: Seq<char>,
    status: Seq<char>,
    date_taken: Seq<char>,
) -> InventoryView {
    InventoryView { date_taken, serial, status }
}

/// What an inventory check does to one matching company: one record appended
/// per asset whose serial matches, and each such asset's status overwritten.
pub open spec fn take_inventory_in_company(
    c: CompanyView,
    serial: Seq<char>,
    status: Seq<char>,
    date_taken: Seq<char>,
) -> CompanyView {
    CompanyView {
        assets: c.assets.map(
            |j: int, a: AssetView|
                if a.serial == serial {
                    AssetView { status, ..a }
                } else {
                    a
                },
        ),
        inventories: c.inventories + Seq::new(
            matching_count(c.assets, serial),
            |k: int| inventory_record(serial, status, date_taken),
        ),
        ..c
    }
}

/// An inventory check acts on every company whose name matches and leaves the
/// others untouched.
pub open spec fn spec_take_inventories(
    companies: Seq<CompanyView>,
    company_name: Seq<char>,
    serial: Seq<char>,
    status: Seq<char>,
    date_taken: Seq<char>,
) -> Seq<CompanyView> {
    companies.map(
        |i: int, c: CompanyView|
            if c.name == company_name {
                take_inventory_in_company(c, serial, status, date_taken)
            } else {
                c
            },
    )
}

/// The asset count reported for a company name: the asset-history length of
/// the last company in scan order whose name matches, and 0 when none does.
pub open spec fn spec_count_assets(companies: Seq<CompanyView>, company_name: Seq<char>) -> nat
    decreases companies.len(),
{
    if companies.len() == 0 {
        0
    } else if companies.last().name == company_name {
        companies.last().assets.len()
    } else {
        spec_count_assets(companies.drop_last(), company_name)
    }
}

/// The inventory count reported for a company name: the inventory-history
/// length of the last company in scan order whose name matches, else 0.
pub open spec fn spec_count_inventories(
    companies: Seq<CompanyView>,
    company_name: Seq<char>,
) -> nat
    decreases companies.len(),
{
    if companies.len() == 0 {
        0
    } else if companies.last().name == company_name {
        companies.last().inventories.len()
    } else {
        spec_count_inventories(companies.drop_last(), company_name)
    }
}

/// Extending the counted prefix by one asset raises the matching count by one
/// exactly when the new asset's serial matches.
pub proof fn lemma_matching_count_step(assets: Seq<AssetView>, serial: Seq<char>, j: int)
    requires
        0 <= j < assets.len(),
    ensures
        matching_count(assets.take(j + 1), serial) == matching_count(assets.take(j), serial) + if assets[j].serial == serial {
            1nat
        } else {
            0nat
        },
{
    assert(assets.take(j + 1).drop_last() =~= assets.take(j));
    assert(assets.take(j + 1).last() == assets[j]);
}

/// A sequence with no matching serial has matching count zero.
pub proof fn lemma_matching_count_zero(assets: Seq<AssetView>, serial: Seq<char>)
    requires
        forall|j: int| 0 <= j < assets.len() ==> assets[j].serial != serial,
    ensures
        matching_count(assets, serial) == 0,
    decreases assets.len(),
{
    if assets.len() > 0 {
        lemma_matching_count_zero(assets.drop_last(), serial);
    }
}

} // verus!
