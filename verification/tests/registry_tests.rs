use asset_registry::registry::Contract;

fn s(text: &str) -> String {
    text.to_string()
}

#[test]
#[allow(non_snake_case)]
fn regCompany() {
    let mut contract = Contract::new();
    contract.new_company(s("clyde.testnet"), s("Kylastroke"), s("kisumu"));
    assert_eq!(contract.count_companies(), 1);
}

#[test]
fn reg_asset() {
    let mut contract = Contract::new();
    contract.new_company(s("clyde.testnet"), s("Kylastroke"), s("kisumu"));
    contract.new_asset(s("laptop"), s("1234"), s("Kylastroke"));
    assert_eq!(contract.count_assets(s("Kylastroke")), 1);
}

#[test]
fn test_inventories() {
    let mut contract = Contract::new();
    contract.new_company(s("clyde.testnet"), s("Kylastroke"), s("kisumu"));
    contract.new_asset(s("laptop"), s("1234"), s("Kylastroke"));
    contract.take_inventories(s("Kylastroke"), s("1234"), s("good"));
    assert_eq!(contract.count_inventories(s("Kylastroke")), 1);
}

#[test]
fn empty_registry_counts_zero() {
    let contract = Contract::new();
    assert_eq!(contract.count_companies(), 0);
    assert_eq!(contract.count_assets(s("anyone")), 0);
    assert_eq!(contract.count_inventories(s("anyone")), 0);
}

#[test]
fn company_ids_follow_insertion_order() {
    let mut contract = Contract::new();
    contract.new_company(s("a.testnet"), s("First"), s("nairobi"));
    contract.new_company(s("b.testnet"), s("Second"), s("mombasa"));
    contract.new_company(s("c.testnet"), s("Third"), s("kisumu"));
    assert_eq!(contract.count_companies(), 3);
    assert_eq!(contract.companies[0].id, 0);
    assert_eq!(contract.companies[1].id, 1);
    assert_eq!(contract.companies[2].id, 2);
    assert_eq!(contract.companies[1].name, s("Second"));
    assert_eq!(contract.companies[1].owner, s("b.testnet"));
    assert_eq!(contract.companies[1].location, s("mombasa"));
    assert!(contract.companies[1].assets.is_empty());
    assert!(contract.companies[1].inventories.is_empty());
}

#[test]
fn asset_registration_targets_all_name_matches() {
    let mut contract = Contract::new();
    contract.new_company(s("a.testnet"), s("Acme"), s("here"));
    contract.new_asset(s("drill"), s("7"), s("Acme"));
    contract.new_company(s("b.testnet"), s("Acme"), s("there"));
    contract.new_asset(s("x"), s("1"), s("Acme"));
    // Both companies named Acme got the second asset; the first also holds
    // the one registered while it was alone.
    assert_eq!(contract.companies[0].assets.len(), 2);
    assert_eq!(contract.companies[1].assets.len(), 1);
    // The reported count is the last matching company's, not a total.
    assert_eq!(contract.count_assets(s("Acme")), 1);
}

#[test]
fn registered_asset_defaults_to_good() {
    let mut contract = Contract::new();
    contract.new_company(s("a.testnet"), s("Acme"), s("here"));
    contract.new_asset(s("drill"), s("7"), s("Acme"));
    let asset = &contract.companies[0].assets[0];
    assert_eq!(asset.name, s("drill"));
    assert_eq!(asset.serial, s("7"));
    assert_eq!(asset.company, s("Acme"));
    assert_eq!(asset.status, s("good"));
}

#[test]
fn edit_with_current_fields_changes_nothing() {
    let mut contract = Contract::new();
    contract.new_company(s("a.testnet"), s("Acme"), s("here"));
    contract.new_asset(s("drill"), s("7"), s("Acme"));
    contract.edit_asset(s("drill"), s("7"), s("Acme"));
    let asset = &contract.companies[0].assets[0];
    assert_eq!(asset.name, s("drill"));
    assert_eq!(asset.serial, s("7"));
    assert_eq!(asset.company, s("Acme"));
    assert_eq!(asset.status, s("good"));
    assert_eq!(contract.count_assets(s("Acme")), 1);
}

#[test]
fn edit_rewrites_every_serial_match() {
    let mut contract = Contract::new();
    contract.new_company(s("a.testnet"), s("Acme"), s("here"));
    contract.new_asset(s("drill"), s("7"), s("Acme"));
    contract.new_asset(s("saw"), s("7"), s("Acme"));
    contract.new_asset(s("lathe"), s("9"), s("Acme"));
    contract.edit_asset(s("grinder"), s("7"), s("Acme"));
    assert_eq!(contract.companies[0].assets[0].name, s("grinder"));
    assert_eq!(contract.companies[0].assets[1].name, s("grinder"));
    assert_eq!(contract.companies[0].assets[2].name, s("lathe"));
}

#[test]
fn inventory_check_has_dual_effect() {
    let mut contract = Contract::new();
    contract.new_company(s("a.testnet"), s("Acme"), s("here"));
    contract.new_asset(s("drill"), s("7"), s("Acme"));
    contract.take_inventories(s("Acme"), s("7"), s("damaged"));
    let company = &contract.companies[0];
    assert_eq!(company.inventories.len(), 1);
    assert_eq!(company.inventories[0].serial, s("7"));
    assert_eq!(company.inventories[0].status, s("damaged"));
    assert!(!company.inventories[0].date_taken.is_empty());
    assert_eq!(company.assets[0].status, s("damaged"));
}

#[test]
fn inventory_check_at_keeps_given_timestamp() {
    let mut contract = Contract::new();
    contract.new_company(s("a.testnet"), s("Acme"), s("here"));
    contract.new_asset(s("drill"), s("7"), s("Acme"));
    contract.take_inventories_at(s("Acme"), s("7"), s("worn"), s("Mon Jan  5 14:03:22 2024"));
    assert_eq!(
        contract.companies[0].inventories[0].date_taken,
        s("Mon Jan  5 14:03:22 2024")
    );
    assert_eq!(contract.companies[0].assets[0].status, s("worn"));
}

#[test]
fn inventory_history_is_append_only() {
    let mut contract = Contract::new();
    contract.new_company(s("a.testnet"), s("Acme"), s("here"));
    contract.new_asset(s("drill"), s("7"), s("Acme"));
    contract.take_inventories(s("Acme"), s("7"), s("good"));
    assert_eq!(contract.count_inventories(s("Acme")), 1);
    let first = contract.companies[0].inventories[0].status.clone();
    contract.take_inventories(s("Acme"), s("7"), s("damaged"));
    assert_eq!(contract.count_inventories(s("Acme")), 2);
    assert_eq!(contract.companies[0].inventories.len(), 2);
    // The earlier record is untouched by the later check.
    assert_eq!(contract.companies[0].inventories[0].status, first);
    assert_eq!(contract.companies[0].inventories[1].status, s("damaged"));
}

#[test]
fn miss_conditions_are_no_ops() {
    let mut contract = Contract::new();
    contract.new_company(s("a.testnet"), s("Acme"), s("here"));
    contract.new_asset(s("drill"), s("7"), s("Acme"));

    contract.new_asset(s("saw"), s("8"), s("NoSuchCompany"));
    contract.edit_asset(s("saw"), s("8"), s("Acme"));
    contract.edit_asset(s("saw"), s("7"), s("NoSuchCompany"));
    contract.take_inventories(s("Acme"), s("8"), s("damaged"));
    contract.take_inventories(s("NoSuchCompany"), s("7"), s("damaged"));

    assert_eq!(contract.count_companies(), 1);
    assert_eq!(contract.count_assets(s("Acme")), 1);
    assert_eq!(contract.count_inventories(s("Acme")), 0);
    assert_eq!(contract.count_assets(s("NoSuchCompany")), 0);
    let asset = &contract.companies[0].assets[0];
    assert_eq!(asset.name, s("drill"));
    assert_eq!(asset.serial, s("7"));
    assert_eq!(asset.status, s("good"));
}

#[test]
fn full_scenario() {
    let mut contract = Contract::new();
    contract.new_company(s("clyde.testnet"), s("Kylastroke"), s("kisumu"));
    assert_eq!(contract.count_companies(), 1);
    contract.new_asset(s("laptop"), s("1234"), s("Kylastroke"));
    assert_eq!(contract.count_assets(s("Kylastroke")), 1);
    contract.take_inventories(s("Kylastroke"), s("1234"), s("good"));
    assert_eq!(contract.count_inventories(s("Kylastroke")), 1);
    assert_eq!(contract.companies[0].assets[0].status, s("good"));
}
