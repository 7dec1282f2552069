use nimbusbill::sync_plan::catalog_totals;
use nimbusbill::store::{PriceTarget, ProviderServiceMeta};
use nimbusbill::sync_plan::{
    aws_live_target, aws_price_plan, azure_live_target, catalog_record, gcp_live_target,
    llm_record, needs_refresh, provider_sync_note, worker_limit, CATALOG_STALE_SECS,
};

#[test]
fn refresh_when_empty_unknown_or_stale() {
    assert!(needs_refresh(0, Some(10)));
    assert!(needs_refresh(5, None));
    assert!(needs_refresh(5, Some(CATALOG_STALE_SECS as i64)));
    assert!(!needs_refresh(5, Some(CATALOG_STALE_SECS as i64 - 1)));
    assert_eq!(CATALOG_STALE_SECS, 6 * 3600);
}

#[test]
fn catalog_records() {
    let cov = vec![
        ("aws".to_string(), Some((10, 20, 30))),
        ("azure".to_string(), None),
        ("gcp".to_string(), Some((1, 2, 3))),
    ];
    let r = catalog_record((3, 0, 4), 0, &cov, "2024-01-01T00:00:00Z");
    assert_eq!(r.status, "ok");
    assert_eq!(
        r.detail,
        "aws=3 azure=0 gcp=4 entries · aws=10svc/20reg/30pairs gcp=1svc/2reg/3pairs · last_updated=2024-01-01T00:00:00Z"
    );
    let cached = catalog_record((0, 0, 0), 42, &cov, "now");
    assert_eq!(cached.status, "ok");
    assert_eq!(
        cached.detail,
        "refresh failed (network/proxy); using cached catalog (42 services)"
    );
    let none = catalog_record((0, 0, 0), 0, &vec![], "now");
    assert_eq!(none.status, "error");
    assert_eq!(none.detail, "no catalog data and cloud APIs unreachable");
}

#[test]
fn llm_records_and_note() {
    let ok = llm_record(Ok(17));
    assert_eq!((ok.status.as_str(), ok.detail.as_str()), ("ok", "17 LLM models (catalog)"));
    let err = llm_record(Err("timeout".into()));
    assert_eq!((err.status.as_str(), err.detail.as_str()), ("error", "timeout"));
    assert_eq!(
        provider_sync_note(),
        "metadata only — prices fetched per service/region on calculate"
    );
}

#[test]
fn worker_limits() {
    assert_eq!(worker_limit(8, Some(2), Some(100)), 8);
    assert_eq!(worker_limit(500, None, None), 64);
    assert_eq!(worker_limit(0, Some(0), None), 1);
    assert_eq!(worker_limit(0, Some(12), Some(2)), 12);
    assert_eq!(worker_limit(0, None, Some(2)), 4);
    assert_eq!(worker_limit(0, None, Some(100)), 32);
    assert_eq!(worker_limit(0, None, None), 16);
}

fn meta(attr: Option<&str>) -> ProviderServiceMeta {
    ProviderServiceMeta {
        service_key: "AmazonEC2".into(),
        default_sku: "t3.micro".into(),
        unit: "hours".into(),
        attr_key: attr.map(|s| s.to_string()),
        offer_code: Some("AmazonEC2".into()),
        billing_service_id: None,
        attr_value: None,
    }
}

#[test]
fn aws_targets() {
    let m = meta(Some("instanceType"));
    let t = aws_live_target("AmazonEC2", "default", "us-east-1", Some(&m));
    assert_eq!(t.sku, "t3.micro");
    assert_eq!(t.unit, "hours");
    assert_eq!(t.attr_key.as_deref(), Some("instanceType"));
    assert_eq!(t.attr_value.as_deref(), Some("t3.micro"));
    let t2 = aws_live_target("AmazonEC2", "m5.large", "eu-west-1", Some(&meta(None)));
    assert_eq!(t2.sku, "m5.large");
    assert_eq!(t2.attr_key.as_deref(), Some("instanceType"));
    assert!(t2.attr_value.is_none());
    let t3 = aws_live_target("AmazonS3", "", "us-east-1", None);
    assert_eq!(t3.sku, "AmazonS3");
    assert_eq!(t3.unit, "unit");
    assert_eq!(t3.offer_code.as_deref(), Some("AmazonS3"));
    assert!(t3.attr_key.is_none());
}

#[test]
fn azure_and_gcp_targets() {
    let a = azure_live_target("virtual-machines", "D2s v3", "eastus", Some("Virtual Machines".into()));
    assert_eq!(a.attr_key.as_deref(), Some("serviceName"));
    assert_eq!(a.attr_value.as_deref(), Some("Virtual Machines"));
    assert_eq!(a.sku_description_hint.as_deref(), Some("D2s v3"));
    let b = azure_live_target("storage", "LRS", "eastus", None);
    assert_eq!(b.attr_value.as_deref(), Some("storage"));
    let g = gcp_live_target("compute", "N1", "us-central1", "6F81-5844-456A".into());
    assert_eq!(g.billing_service_id.as_deref(), Some("6F81-5844-456A"));
    assert!(g.attr_key.is_none());
    assert_eq!(g.unit, "unit");
}

fn target(service: &str, offer: Option<&str>, attr: Option<&str>) -> PriceTarget {
    PriceTarget {
        service_key: service.into(),
        sku: "x".into(),
        region: "us-east-1".into(),
        unit: "hours".into(),
        offer_code: offer.map(|s| s.to_string()),
        attr_key: attr.map(|s| s.to_string()),
        attr_value: None,
        billing_service_id: None,
        sku_description_hint: None,
    }
}

#[test]
fn aws_price_plans() {
    let p = aws_price_plan(&target("ec2", Some("AmazonEC2"), None)).unwrap();
    assert_eq!(p.offer, "AmazonEC2");
    assert_eq!(p.attr_key.as_deref(), Some("instanceType"));
    let q = aws_price_plan(&target("AmazonS3", None, Some("storageClass"))).unwrap();
    assert_eq!(q.offer, "AmazonS3");
    assert_eq!(q.attr_key.as_deref(), Some("storageClass"));
    assert_eq!(
        aws_price_plan(&target("AmazonBedrockFoundationModels", None, None)).unwrap_err(),
        "AmazonBedrockFoundationModels is token-priced — add models under LLM / Token Usage, not Infrastructure Services"
    );
}

#[test]
fn catalog_totals_need_entries_or_cache() {
    assert_eq!(catalog_totals((1, 0, 2), 0), Ok((1, 0, 2)));
    assert_eq!(catalog_totals((0, 0, 0), 5), Ok((0, 0, 0)));
    assert_eq!(
        catalog_totals((0, 0, 0), 0),
        Err("catalog sync produced no entries for any provider".to_string())
    );
}
