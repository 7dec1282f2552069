use nimbusbill::regions::{
    filter_azure_service_regions, filter_gcp_service_regions, filter_standard_aws_regions,
    is_standard_aws_region, is_standard_azure_region, is_standard_gcp_region,
};

#[test]
fn is_standard_aws_region_filters_local_zones() {
    assert!(is_standard_aws_region("us-east-1"));
    assert!(!is_standard_aws_region("us-east-1-bos-1"));
    assert!(!is_standard_aws_region("ap-northeast-1-wl1-nrt1"));
    assert!(!is_standard_aws_region("us-gov-east-1"));
}

#[test]
fn is_standard_azure_region_filters_edge_pops() {
    assert!(is_standard_azure_region("eastus"));
    assert!(is_standard_azure_region("global"));
    assert!(!is_standard_azure_region("attdetroit1"));
    assert!(!is_standard_azure_region("verizon-east-us"));
}

#[test]
fn filter_azure_service_regions_drops_edge_pops() {
    let out = filter_azure_service_regions(vec!["attdetroit1".into(), "eastus".into()]);
    assert!(out.contains(&"eastus".to_string()));
    assert!(!out.contains(&"attdetroit1".to_string()));
}

#[test]
fn filter_azure_service_regions_preserves_global() {
    let out = filter_azure_service_regions(vec!["attdetroit1".into(), "global".into()]);
    assert!(out.contains(&"global".to_string()));
}

#[test]
fn filter_gcp_service_regions_filters_junk() {
    let out = filter_gcp_service_regions(vec!["bad".into(), "us-central1".into()]);
    assert!(out.contains(&"us-central1".to_string()));
    assert!(!out.contains(&"bad".to_string()));
}

#[test]
fn aws_regions_exclude_china_and_keep_order() {
    let out = filter_standard_aws_regions(vec![
        "eu-west-1".into(),
        "cn-north-1".into(),
        "us-east-1".into(),
        "us-west-2-lax-1".into(),
    ]);
    assert_eq!(out, vec!["eu-west-1".to_string(), "us-east-1".to_string()]);
}

#[test]
fn azure_region_rules_cover_length_and_case() {
    assert!(is_standard_azure_region("WestEurope"));
    assert!(!is_standard_azure_region("abc"));
    assert!(!is_standard_azure_region("someedgezone1"));
    assert!(!is_standard_azure_region("intercontinentalx"));
    assert!(!is_standard_azure_region("a23456789012345678901"));
    assert!(is_standard_azure_region("GLOBAL"));
}

#[test]
fn gcp_region_rules_drop_zones() {
    assert!(is_standard_gcp_region("us-central1"));
    assert!(is_standard_gcp_region("Global"));
    assert!(is_standard_gcp_region("northamerica-northeast1"));
    assert!(!is_standard_gcp_region("us-central1-a"));
    assert!(!is_standard_gcp_region("us"));
    assert!(!is_standard_gcp_region("us--east1"));
    assert!(is_standard_gcp_region("europe-west1-abc"));
}

#[test]
fn azure_filter_sorts_dedups_and_keeps_global_spelling() {
    let out = filter_azure_service_regions(vec![
        "westus".into(),
        "eastus".into(),
        "westus".into(),
        "Global".into(),
    ]);
    assert_eq!(
        out,
        vec!["Global".to_string(), "eastus".to_string(), "westus".to_string()]
    );
    let kept = filter_azure_service_regions(vec!["global".into(), "eastus".into()]);
    assert_eq!(kept, vec!["eastus".to_string(), "global".to_string()]);
}

#[test]
fn gcp_filter_sorts_and_keeps_global_spelling() {
    let out = filter_gcp_service_regions(vec![
        "us-east1".into(),
        "GLOBAL".into(),
        "asia-east1".into(),
        "us-east1-b".into(),
    ]);
    assert_eq!(
        out,
        vec!["GLOBAL".to_string(), "asia-east1".to_string(), "us-east1".to_string()]
    );
}
