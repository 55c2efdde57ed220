//! The registry's record types and its operations, each carrying the contract
//! that ties it to the model in [`crate::model`].

use vstd::prelude::*;

use crate::model::{
    AssetView, CompanyView, InventoryView, edit_assets_in_company, edited_asset,
    inventory_record, lemma_matching_count_step, matching_count, register_asset_in_company,
    spec_count_assets, spec_count_inventories, spec_edit_asset, spec_register_asset,
    spec_register_company, spec_take_inventories, take_inventory_in_company,
};

verus! {

/// A tracked physical item, identified within its company by `serial`.
pub struct Asset {
    pub name: String,
    pub serial: String,
    pub company: String,
    pub status: String,
}

/// One timestamped condition check of an asset, kept forever.
pub struct Inventory {
    pub date_taken: String,
    pub serial: String,
    pub status: String,
}

/// An owner of assets, identified loosely by `name`; `id` records the
/// company count at the moment of registration.
pub struct Company {
    pub id: u32,
    pub owner: String,
    pub name: String,
    pub location: String,
    pub assets: Vec<Asset>,
    pub inventories: Vec<Inventory>,
}

/// The whole registry: every company in registration order.
pub struct Contract {
    pub companies: Vec<Company>,
}

impl View for Asset {
    type V = AssetView;

    open spec fn view(&self) -> AssetView {
        AssetView {
            name: self.name@,
            serial: self.serial@,
            company: self.company@,
            status: self.status@,
        }
    }
}

impl View for Inventory {
    type V = InventoryView;

    open spec fn view(&self) -> InventoryView {
        InventoryView {
            date_taken: self.date_taken@,
            serial: self.serial@,
            status: self.status@,
        }
    }
}

impl View for Company {
    type V = CompanyView;

    open spec fn view(&self) -> CompanyView {
        CompanyView {
            id: self.id,
            owner: self.owner@,
            name: self.name@,
            location: self.location@,
            assets: self.assets@.map(|i: int, a: Asset| a@),
            inventories: self.inventories@.map(|i: int, v: Inventory| v@),
        }
    }
}

impl View for Contract {
    type V = Seq<CompanyView>;

    open spec fn view(&self) -> Seq<CompanyView> {
        self.companies@.map(|i: int, c: Company| c@)
    }
}

/// Appends a freshly registered asset, with status "good", to a company whose
/// name matches the requested one.
fn push_asset(company: &mut Company, name: &String, serial: &String, company_name: &String)
    requires
        old(company)@.name == company_name@,
    ensures
        final(company)@ == register_asset_in_company(old(company)@, name@, serial@, company_name@),
{
    let asset = Asset {
        name: name.clone(),
        serial: serial.clone(),
        company: company_name.clone(),
        status: "good".to_owned(),
    };
    company.assets.push(asset);
    proof {
        assert(company@ =~~= register_asset_in_company(
            old(company)@,
            name@,
            serial@,
            company_name@,
        ));
    }
}

/// Overwrites an asset's identifying fields, leaving its status alone.
fn overwrite_asset(asset: &mut Asset, name: &String, serial: &String, company_name: &String)
    ensures
        final(asset)@ == edited_asset(old(asset)@, name@, serial@, company_name@),
{
    asset.name = name.clone();
    asset.serial = serial.clone();
    asset.company = company_name.clone();
}

/// Overwrites an asset's status, leaving its identifying fields alone.
fn set_status(asset: &mut Asset, status: &String)
    ensures
        final(asset)@ == (AssetView { status: status@, ..old(asset)@ }),
{
    asset.status = status.clone();
}

/// Applies an edit to every asset of one company whose serial matches.
fn edit_assets(company: &mut Company, name: &String, serial: &String, company_name: &String)
    requires
        old(company)@.name == company_name@,
    ensures
        final(company)@ == edit_assets_in_company(old(company)@, name@, serial@, company_name@),
{
    let ghost oc: CompanyView = company@;
    let ghost oassets: Seq<Asset> = company.assets@;
    let n = company.assets.len();
    let mut j: usize = 0;
    while j < n
        invariant
            j <= n,
            company.assets@.len() == n,
            oassets.len() == n,
            company.id == oc.id,
            company.owner@ == oc.owner,
            company.name@ == oc.name,
            company.location@ == oc.location,
            company.inventories@.map(|k: int, v: Inventory| v@) == oc.inventories,
            forall|k: int|
                0 <= k < j ==> #[trigger] company.assets@[k]@ == (if oassets[k]@.serial
                    == serial@ {
                    edited_asset(oassets[k]@, name@, serial@, company_name@)
                } else {
                    oassets[k]@
                }),
            forall|k: int| j <= k < n ==> #[trigger] company.assets@[k] == oassets[k],
        decreases n - j,
    {
        if company.assets[j].serial == *serial {
            overwrite_asset(&mut company.assets[j], name, serial, company_name);
        }
        j += 1;
    }
    proof {
        assert(company@ =~~= edit_assets_in_company(oc, name@, serial@, company_name@));
    }
}

/// Runs one company's part of an inventory check: per asset whose serial
/// matches, appends a record to the company's inventory history and
/// overwrites the asset's status.
fn take_company_inventory(company: &mut Company, serial: &String, status: &String, date: &String)
    ensures
        final(company)@ == take_inventory_in_company(old(company)@, serial@, status@, date@),
{
    let ghost oc: CompanyView = company@;
    let ghost oassets: Seq<Asset> = company.assets@;
    let ghost oinv: Seq<Inventory> = company.inventories@;
    let n = company.assets.len();
    let mut j: usize = 0;
    while j < n
        invariant
            j <= n,
            company.assets@.len() == n,
            oassets.len() == n,
            oc.assets.len() == n,
            forall|k: int| 0 <= k < n ==> #[trigger] oc.assets[k] == oassets[k]@,
            company.id == oc.id,
            company.owner@ == oc.owner,
            company.name@ == oc.name,
            company.location@ == oc.location,
            company.inventories@.len() == oinv.len() + matching_count(
                oc.assets.take(j as int),
                serial@,
            ),
            forall|k: int| 0 <= k < oinv.len() ==> #[trigger] company.inventories@[k] == oinv[k],
            forall|k: int|
                oinv.len() <= k < company.inventories@.len()
                    ==> #[trigger] company.inventories@[k]@ == inventory_record(
                    serial@,
                    status@,
                    date@,
                ),
            forall|k: int|
                0 <= k < j ==> #[trigger] company.assets@[k]@ == (if oassets[k]@.serial
                    == serial@ {
                    (AssetView { status: status@, ..oassets[k]@ })
                } else {
                    oassets[k]@
                }),
            forall|k: int| j <= k < n ==> #[trigger] company.assets@[k] == oassets[k],
        decreases n - j,
    {
        proof {
            lemma_matching_count_step(oc.assets, serial@, j as int);
        }
        if company.assets[j].serial == *serial {
            let inv = Inventory {
                date_taken: date.clone(),
                serial: serial.clone(),
                status: status.clone(),
            };
            company.inventories.push(inv);
            set_status(&mut company.assets[j], status);
        }
        j += 1;
    }
    proof {
        assert(oc.assets.take(n as int) =~= oc.assets);
        assert(company@ =~~= take_inventory_in_company(oc, serial@, status@, date@));
    }
}

impl Default for Contract {
    /// The default registry is the empty one.
    fn default() -> (r: Contract)
        ensures
            r@ == Seq::<CompanyView>::empty(),
    {
        Contract::new()
    }
}

impl Contract {
    /// An empty registry.
    pub fn new() -> (r: Contract)
        ensures
            r@ == Seq::<CompanyView>::empty(),
    {
        let companies: Vec<Company> = Vec::new();
        let r = Contract { companies };
        proof {
            assert(r@ =~= Seq::<CompanyView>::empty());
        }
        r
    }

    /// The total number of registered companies.
    pub fn count_companies(&self) -> (r: usize)
        ensures
            r == self@.len(),
    {
        self.companies.len()
    }

    /// Registers a company: always succeeds, appending a record whose id is
    /// the company count before the call.
    pub fn new_company(&mut self, owner: String, name: String, location: String)
        ensures
            final(self)@ == spec_register_company(old(self)@, owner@, name@, location@),
    {
        let id = #[verifier::truncate] (self.companies.len() as u32);
        let company = Company {
            id,
            owner,
            name,
            location,
            assets: Vec::new(),
            inventories: Vec::new(),
        };
        self.companies.push(company);
        proof {
            assert(self@ =~~= spec_register_company(old(self)@, owner@, name@, location@));
        }
    }

    /// Registers an asset with every company whose name matches, with status
    /// starting at "good"; a call that matches no company changes nothing.
    pub fn new_asset(&mut self, name: String, serial: String, company_name: String)
        ensures
            final(self)@ == spec_register_asset(old(self)@, name@, serial@, company_name@),
    {
        let ghost orig: Seq<Company> = self.companies@;
        let n = self.companies.len();
        let mut i: usize = 0;
        while i < n
            invariant
                i <= n,
                self.companies@.len() == n,
                orig.len() == n,
                forall|k: int|
                    0 <= k < i ==> #[trigger] self.companies@[k]@ == register_asset_in_company(
                        orig[k]@,
                        name@,
                        serial@,
                        company_name@,
                    ),
                forall|k: int| i <= k < n ==> #[trigger] self.companies@[k] == orig[k],
            decreases n - i,
        {
            if self.companies[i].name == company_name {
                push_asset(&mut self.companies[i], &name, &serial, &company_name);
            }
            proof {
                assert(self.companies@[i as int]@ =~~= register_asset_in_company(
                    orig[i as int]@,
                    name@,
                    serial@,
                    company_name@,
                ));
            }
            i += 1;
        }
        proof {
            assert(self@ =~~= spec_register_asset(old(self)@, name@, serial@, company_name@));
        }
    }

    /// Edits assets in place: within every company whose name matches, every
    /// asset whose serial matches has its `name` and `serial` overwritten and
    /// its `company` reset; a call that matches nothing changes nothing.
    pub fn edit_asset(&mut self, name: String, serial: String, company_name: String)
        ensures
            final(self)@ == spec_edit_asset(old(self)@, name@, serial@, company_name@),
    {
        let ghost orig: Seq<Company> = self.companies@;
        let n = self.companies.len();
        let mut i: usize = 0;
        while i < n
            invariant
                i <= n,
                self.companies@.len() == n,
                orig.len() == n,
                forall|k: int|
                    0 <= k < i ==> #[trigger] self.companies@[k]@ == edit_assets_in_company(
                        orig[k]@,
                        name@,
                        serial@,
                        company_name@,
                    ),
                forall|k: int| i <= k < n ==> #[trigger] self.companies@[k] == orig[k],
            decreases n - i,
        {
            if self.companies[i].name == company_name {
                edit_assets(&mut self.companies[i], &name, &serial, &company_name);
            }
            proof {
                assert(self.companies@[i as int]@ =~~= edit_assets_in_company(
                    orig[i as int]@,
                    name@,
                    serial@,
                    company_name@,
                ));
            }
            i += 1;
        }
        proof {
            assert(self@ =~~= spec_edit_asset(old(self)@, name@, serial@, company_name@));
        }
    }

    /// Runs an inventory check at a caller-supplied timestamp: within every
    /// company whose name matches, every asset whose serial matches gets one
    /// inventory record appended to the company's history and its status
    /// overwritten; a call that matches nothing changes nothing.
    pub fn take_inventories_at(
        &mut self,
        company_name: String,
        serial: String,
        status: String,
        date_taken: String,
    )
        ensures
            final(self)@ == spec_take_inventories(
                old(self)@,
                company_name@,
                serial@,
                status@,
                date_taken@,
            ),
    {
        let ghost orig: Seq<Company> = self.companies@;
        let n = self.companies.len();
        let mut i: usize = 0;
        while i < n
            invariant
                i <= n,
                self.companies@.len() == n,
                orig.len() == n,
                forall|k: int|
                    0 <= k < i ==> #[trigger] self.companies@[k]@ == (if orig[k]@.name
                        == company_name@ {
                        take_inventory_in_company(orig[k]@, serial@, status@, date_taken@)
                    } else {
                        orig[k]@
                    }),
                forall|k: int| i <= k < n ==> #[trigger] self.companies@[k] == orig[k],
            decreases n - i,
        {
            if self.companies[i].name == company_name {
                take_company_inventory(&mut self.companies[i], &serial, &status, &date_taken);
            }
            i += 1;
        }
        proof {
            assert(self@ =~~= spec_take_inventories(
                old(self)@,
                company_name@,
                serial@,
                status@,
                date_taken@,
            ));
        }
    }

    /// Runs an inventory check stamped with the current wall-clock time, as
    /// some non-empty timestamp text read at the moment of the call.
    pub fn take_inventories(&mut self, company_name: String, serial: String, status: String)
        ensures
            exists|date: Seq<char>|
                #![auto]
                date.len() > 0 && final(self)@ == spec_take_inventories(
                    old(self)@,
                    company_name@,
                    serial@,
                    status@,
                    date,
                ),
    {
        let date = crate::clock::current_timestamp();
        let ghost d: Seq<char> = date@;
        self.take_inventories_at(company_name, serial, status, date);
        proof {
            assert(d.len() > 0 && self@ == spec_take_inventories(
                old(self)@,
                company_name@,
                serial@,
                status@,
                d,
            ));
        }
    }

    /// The asset count reported for a company name: the asset-history length
    /// of the last matching company in scan order, and 0 when none matches.
    pub fn count_assets(&self, company_name: String) -> (r: usize)
        ensures
            r == spec_count_assets(self@, company_name@),
    {
        let n = self.companies.len();
        let mut count: usize = 0;
        let mut i: usize = 0;
        while i < n
            invariant
                i <= n,
                self.companies@.len() == n,
                count == spec_count_assets(self@.take(i as int), company_name@),
            decreases n - i,
        {
            if self.companies[i].name == company_name {
                count = self.companies[i].assets.len();
            }
            proof {
                assert(self@.take(i as int + 1).drop_last() =~= self@.take(i as int));
                assert(self@.take(i as int + 1).last() == self@[i as int]);
            }
            i += 1;
        }
        proof {
            assert(self@.take(n as int) =~= self@);
        }
        count
    }

    /// The inventory count reported for a company name: the inventory-history
    /// length of the last matching company in scan order, and 0 when none
    /// matches.
    pub fn count_inventories(&self, company_name: String) -> (r: usize)
        ensures
            r == spec_count_inventories(self@, company_name@),
    {
        let n = self.companies.len();
        let mut count: usize = 0;
        let mut i: usize = 0;
        while i < n
            invariant
                i <= n,
                self.companies@.len() == n,
                count == spec_count_inventories(self@.take(i as int), company_name@),
            decreases n - i,
        {
            if self.companies[i].name == company_name {
                count = self.companies[i].inventories.len();
            }
            proof {
                assert(self@.take(i as int + 1).drop_last() =~= self@.take(i as int));
                assert(self@.take(i as int + 1).last() == self@[i as int]);
            }
            i += 1;
        }
        proof {
            assert(self@.take(n as int) =~= self@);
        }
        count
    }
}

} // verus!
