use nimbusbill::azure_scan::{
    azure_retail_skip_at_limit, parse_u64, AzureCatalogScan, PageFailure, RetailItem,
};

fn item(name: Option<&str>, sku: Option<&str>, region: Option<&str>) -> RetailItem {
    RetailItem {
        service_name: name.map(|s| s.to_string()),
        arm_sku_name: sku.map(|s| s.to_string()),
        arm_region_name: region.map(|s| s.to_string()),
    }
}

fn chars(s: &str) -> Vec<char> {
    s.chars().collect()
}

#[test]
fn parses_u64_like_std() {
    for s in ["0", "42", "+7", "18446744073709551615", "", "+", "-1", "1a", "18446744073709551616"] {
        assert_eq!(parse_u64(&chars(s)), s.parse::<u64>().ok(), "input {s:?}");
    }
}

#[test]
fn skip_limit_of_page_urls() {
    let base = "https://prices.azure.com/api/retail/prices?api-version=2023-01-01-preview";
    assert!(!azure_retail_skip_at_limit(base));
    assert!(!azure_retail_skip_at_limit(&format!("{base}&$skip=999900")));
    assert!(azure_retail_skip_at_limit(&format!("{base}&$skip=1000000")));
    assert!(azure_retail_skip_at_limit(&format!("{base}&$skip=1000100&$top=100")));
    assert!(!azure_retail_skip_at_limit(&format!("{base}&$skip=abc")));
}

#[test]
fn scan_gathers_services() {
    let mut scan = AzureCatalogScan::new(2);
    assert!(scan.begin_page("https://prices.azure.com/api/retail/prices"));
    assert_eq!(scan.on_fetch_failure("https://prices.azure.com/api/retail/prices"), PageFailure::Fail);
    scan.on_page(vec![
        item(Some("Virtual Machines"), Some("Standard_D2s_v3"), Some("westeurope")),
        item(None, Some("x"), Some("eastus")),
        item(Some("Virtual Machines"), Some("Standard_B1s"), Some("eastus")),
        item(Some("Storage"), None, None),
        item(Some("Virtual Machines"), None, Some("attdetroit1")),
        item(Some("Virtual Machines"), None, Some("eastus")),
    ]);
    assert_eq!(scan.service_count(), 2);
    assert_eq!(scan.on_fetch_failure("https://prices.azure.com/api/retail/prices"), PageFailure::Finish);
    assert!(scan.begin_page("https://prices.azure.com/api/retail/prices?$skip=100"));
    assert!(!scan.begin_page("https://prices.azure.com/api/retail/prices?$skip=200"));
    assert_eq!(scan.pages(), 3);
    let rows = scan.rows();
    assert_eq!(rows.len(), 2);
    let vm = &rows[0];
    assert_eq!(vm.catalog_id, "azure:virtual-machines");
    assert_eq!(vm.provider, "azure");
    assert_eq!(vm.service_key, "virtual-machines");
    assert_eq!(vm.display_name, "Virtual Machines");
    assert_eq!(vm.category_id, "compute");
    assert_eq!(vm.unit, "hours");
    assert_eq!(vm.default_sku, "Standard_D2s_v3");
    assert_eq!(vm.attr_key.as_deref(), Some("serviceName"));
    assert_eq!(vm.attr_value.as_deref(), Some("Virtual Machines"));
    assert_eq!(vm.sku_description_hint.as_deref(), Some("Standard_D2s_v3"));
    assert_eq!(vm.regions, vec!["eastus".to_string(), "westeurope".to_string()]);
    let st = &rows[1];
    assert_eq!(st.default_sku, "Standard");
    assert_eq!(st.category_id, "storage");
    assert_eq!(st.unit, "gb-month");
    assert_eq!(st.regions, vec!["eastus".to_string()]);
}

#[test]
fn unlimited_scan_stops_only_at_skip_cap() {
    let mut scan = AzureCatalogScan::new(0);
    for _ in 0..5 {
        assert!(scan.begin_page("https://prices.azure.com/api/retail/prices"));
    }
    assert!(!scan.begin_page("https://prices.azure.com/api/retail/prices?$skip=1000000"));
    assert_eq!(
        scan.on_fetch_failure("https://prices.azure.com/api/retail/prices?$skip=1000000"),
        PageFailure::Finish
    );
}
