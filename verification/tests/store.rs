use nimbusbill::store::{batch_price_targets, coalesce_regions, fts_query, search_limit, PriceTarget};

fn target(service: &str, sku: &str, region: &str) -> PriceTarget {
    PriceTarget {
        service_key: service.into(),
        sku: sku.into(),
        region: region.into(),
        unit: "unit".into(),
        offer_code: None,
        attr_key: None,
        attr_value: None,
        billing_service_id: None,
        sku_description_hint: None,
    }
}

#[test]
fn batch_price_targets_prefers_anchor() {
    let targets = vec![
        target("AmazonEC2", "t3.micro", "eu-west-1"),
        target("AmazonEC2", "t3.micro", "us-east-1"),
    ];
    let out = batch_price_targets(targets, "us-east-1");
    assert_eq!(out.len(), 1);
    assert_eq!(out[0].region, "us-east-1");
}

#[test]
fn batch_price_targets_falls_back_when_anchor_missing() {
    let targets = vec![target("AmazonEC2", "t3.micro", "eu-west-1")];
    let out = batch_price_targets(targets, "us-east-1");
    assert_eq!(out.len(), 1);
    assert_eq!(out[0].region, "eu-west-1");
}

#[test]
fn batch_price_targets_prefers_standard_region_and_groups_pairs() {
    let targets = vec![
        target("AmazonEC2", "t3.micro", "us-east-1-bos-1"),
        target("AmazonRDS", "db.t3.micro", "eu-west-2"),
        target("AmazonEC2", "t3.micro", "ap-south-1"),
        target("AmazonEC2", "t3.large", "us-west-2-lax-1"),
    ];
    let out = batch_price_targets(targets, "us-east-1");
    assert_eq!(out.len(), 3);
    assert_eq!(out[0].sku, "t3.micro");
    assert_eq!(out[0].region, "ap-south-1");
    assert_eq!(out[1].service_key, "AmazonRDS");
    assert_eq!(out[1].region, "eu-west-2");
    assert_eq!(out[2].sku, "t3.large");
    assert_eq!(out[2].region, "us-west-2-lax-1");
}

#[test]
fn coalesce_regions_keeps_existing_on_sparse_sync() {
    let existing = vec!["eastus".to_string(), "westeurope".to_string(), "global".to_string()];
    let regions = coalesce_regions(existing, vec!["attdetroit1".to_string()]);
    assert_eq!(regions.len(), 3);
    assert!(regions.contains(&"eastus".to_string()));
}

#[test]
fn coalesce_regions_takes_full_or_first_lists() {
    let full = vec!["a".to_string(), "b".to_string(), "c".to_string()];
    assert_eq!(coalesce_regions(vec!["x".to_string()], full.clone()), full);
    assert_eq!(coalesce_regions(vec![], vec!["z".to_string()]), vec!["z".to_string()]);
    assert_eq!(coalesce_regions(vec!["k".to_string()], vec![]), vec!["k".to_string()]);
}

#[test]
fn fts_query_builds_prefix_terms() {
    assert_eq!(fts_query("  redis  cache "), Some("redis* AND cache*".to_string()));
    assert_eq!(fts_query("\"ela\"sti"), Some("elasti*".to_string()));
    assert_eq!(fts_query("   "), None);
}

#[test]
fn search_limit_is_clamped() {
    assert_eq!(search_limit(0), 1);
    assert_eq!(search_limit(25), 25);
    assert_eq!(search_limit(1000), 100);
}
