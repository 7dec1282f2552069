use nimbusbill::catalog::{
    CatalogCategory, CatalogProviderEntry, CatalogResponse, CatalogService, ServiceCategory,
};
use nimbusbill::estimate::{
    build_resources_for_provider, effective_quantity, effective_sku, find_service_meta,
    format_usage_display, legacy_from_ui, provider_estimate, providers_for_request,
    reconcile_unit, request_from_requirement, resource_for_input, total_of,
};
use nimbusbill::models::{
    BillingPeriod, CloudProvider, CostRow, CostTable, EstimateRequest, LineItem, PeriodBreakdown,
    ProviderUiEstimate, RequirementSet, ResourceSpec, Timestamp, TokenUsageSpec,
    UiEstimateResponse, UiResourceInput,
};
use nimbusbill::money::Dec;

fn dec(m: i64, s: u32) -> Dec {
    Dec::new(m, s)
}

fn input(catalog_id: &str, provider: CloudProvider) -> UiResourceInput {
    UiResourceInput {
        catalog_id: catalog_id.into(),
        provider,
        region: "us-east-1".into(),
        sub_region: None,
        quantity: dec(730, 0),
        sku: None,
        instance_count: None,
        hours: None,
    }
}

fn spec(unit: &str) -> ResourceSpec {
    ResourceSpec {
        service: "AmazonEC2".into(),
        sku: None,
        region: "us-east-1".into(),
        quantity: dec(730, 0),
        unit: unit.into(),
        provider: None,
        tags: vec![],
        catalog_id: None,
        display_name: None,
        category: None,
        sub_region: None,
        region_label: None,
        instance_count: None,
        hours: None,
    }
}

#[test]
fn effective_sku_maps_placeholder() {
    assert_eq!(effective_sku(Some("default"), "AmazonDynamoDB"), "AmazonDynamoDB");
    assert_eq!(effective_sku(Some("t3.medium"), "AmazonEC2"), "t3.medium");
    assert_eq!(effective_sku(None, "AmazonSNS"), "AmazonSNS");
}

#[test]
fn effective_sku_empty_uses_default() {
    assert_eq!(effective_sku(Some(""), "x"), "x");
}

#[test]
fn providers_for_request_includes_token_clouds() {
    let req = EstimateRequest {
        name: "t".into(),
        providers: vec![CloudProvider::Aws],
        live_pricing: false,
        resources: vec![],
        token_usage: vec![TokenUsageSpec {
            model: "gpt-4o-mini".into(),
            provider: "azure".into(),
            input_tokens_per_month: 1_000_000,
            output_tokens_per_month: 250_000,
            cloud_provider: Some(CloudProvider::Azure),
            display_name: Some("GPT-4o Mini".into()),
        }],
    };
    let ps = providers_for_request(&req);
    assert!(ps.contains(&CloudProvider::Aws));
    assert!(ps.contains(&CloudProvider::Azure));
}

#[test]
fn providers_for_request_keeps_order_without_duplicates() {
    let usage = |p: &str| TokenUsageSpec {
        model: "m".into(),
        provider: p.into(),
        input_tokens_per_month: 1,
        output_tokens_per_month: 1,
        cloud_provider: None,
        display_name: None,
    };
    let req = EstimateRequest {
        name: "t".into(),
        providers: vec![CloudProvider::Gcp],
        live_pricing: false,
        resources: vec![],
        token_usage: vec![usage("aws"), usage("gcp"), usage("other"), usage("aws")],
    };
    assert_eq!(providers_for_request(&req), vec![CloudProvider::Gcp, CloudProvider::Aws]);
}

#[test]
fn reconcile_unit_prefers_inferred_over_hours() {
    assert_eq!(reconcile_unit("AmazonS3 storage", "hours"), "gb-month");
    assert_eq!(reconcile_unit("AmazonEC2", "hours"), "hours");
    assert_eq!(reconcile_unit("AmazonS3 storage", "requests"), "requests");
}

#[test]
fn effective_quantity_multiplies_instances_and_hours() {
    let mut i = input("aws:AmazonEC2", CloudProvider::Aws);
    i.instance_count = Some(dec(3, 0));
    i.hours = Some(dec(100, 0));
    let q = effective_quantity(&i, "hours");
    assert_eq!((q.mantissa, q.scale), (300, 0));
    i.hours = None;
    let q2 = effective_quantity(&i, "hours");
    assert_eq!((q2.mantissa, q2.scale), (2190, 0));
    let q3 = effective_quantity(&i, "gb-month");
    assert_eq!((q3.mantissa, q3.scale), (2190, 0));
    i.instance_count = None;
    let q4 = effective_quantity(&i, "gb-month");
    assert_eq!((q4.mantissa, q4.scale), (730, 0));
}

#[test]
fn usage_display_variants() {
    let mut s = spec("hours");
    assert_eq!(format_usage_display(&s), "730 h");
    s.instance_count = Some(dec(2, 0));
    s.hours = Some(dec(730, 0));
    assert_eq!(format_usage_display(&s), "2 × 730 h");
    let mut g = spec("gb-month");
    g.quantity = dec(100, 0);
    g.instance_count = Some(dec(4, 0));
    assert_eq!(format_usage_display(&g), "4 × 25 gb-month");
    g.instance_count = None;
    assert_eq!(format_usage_display(&g), "100 gb-month");
}

fn catalog() -> CatalogResponse {
    CatalogResponse {
        categories: vec![CatalogCategory {
            id: "compute".into(),
            label: "Compute".into(),
            services: vec![CatalogService {
                id: "aws:AmazonEC2".into(),
                name: "Amazon EC2".into(),
                category: ServiceCategory::Compute,
                unit: "hours".into(),
                providers: vec![CatalogProviderEntry {
                    provider: CloudProvider::Aws,
                    service_key: "AmazonEC2".into(),
                    default_sku: "t3.micro".into(),
                    regions: vec!["us-east-1".into()],
                }],
            }],
        }],
        llm_models: vec![],
    }
}

#[test]
fn find_service_meta_reads_catalog() {
    let cat = catalog();
    let m = find_service_meta(&cat, "aws:AmazonEC2").unwrap();
    assert_eq!(m.0, "Amazon EC2");
    assert_eq!(m.1, ServiceCategory::Compute);
    assert!(find_service_meta(&cat, "aws:Nope").is_none());
}

#[test]
fn resource_for_input_labels_region_and_sku() {
    let mut i = input("aws:AmazonEC2", CloudProvider::Aws);
    i.sub_region = Some("Virginia".into());
    i.sku = Some("default".into());
    let resolved = ("AmazonEC2".to_string(), "t3.micro".to_string(), "hours".to_string());
    let r = resource_for_input(&i, CloudProvider::Aws, &resolved, None);
    assert_eq!(r.sku.as_deref(), Some("t3.micro"));
    assert_eq!(r.region_label.as_deref(), Some("Virginia · us-east-1"));
    assert_eq!(r.display_name.as_deref(), Some("aws:AmazonEC2"));
    assert_eq!(r.category.as_deref(), Some("General"));
    assert_eq!(r.provider.as_deref(), Some("aws"));
}

#[test]
fn build_resources_reports_unknown_entry() {
    let req = EstimateRequest {
        name: "x".into(),
        providers: vec![CloudProvider::Aws],
        live_pricing: false,
        resources: vec![
            input("aws:AmazonEC2", CloudProvider::Aws),
            input("gcp:compute", CloudProvider::Gcp),
            input("aws:Missing", CloudProvider::Aws),
        ],
        token_usage: vec![],
    };
    let resolved = vec![
        Some(("AmazonEC2".to_string(), "t3.micro".to_string(), "hours".to_string())),
        None,
        None,
    ];
    let err = build_resources_for_provider(&req, CloudProvider::Aws, &catalog(), &resolved);
    assert_eq!(err.unwrap_err(), "unknown catalog entry: aws:Missing");
    let resolved_ok = vec![
        Some(("AmazonEC2".to_string(), "t3.micro".to_string(), "hours".to_string())),
        None,
        Some(("AmazonEC2".to_string(), "t3.large".to_string(), "hours".to_string())),
    ];
    let ok = build_resources_for_provider(&req, CloudProvider::Aws, &catalog(), &resolved_ok).unwrap();
    assert_eq!(ok.len(), 2);
    assert_eq!(ok[0].display_name.as_deref(), Some("Amazon EC2"));
    assert_eq!(ok[0].category.as_deref(), Some("Compute"));
    assert_eq!(ok[1].sku.as_deref(), Some("t3.large"));
}

fn line(desc: &str, monthly: Dec) -> LineItem {
    LineItem {
        provider: CloudProvider::Aws,
        category: "Compute".into(),
        description: desc.into(),
        unit_price: dec(416, 4),
        quantity: dec(730, 0),
        unit: "hours".into(),
        monthly_cost: monthly,
    }
}

#[test]
fn provider_estimate_totals_and_combined() {
    let items = vec![line("EC2 — t3.medium in us-east-1", dec(3037, 2)), line("plain", dec(1, 0))];
    let specs = vec![spec("hours"), spec("hours")];
    let token_rows = vec![CostRow {
        category: "LLM".into(),
        service: "m".into(),
        description: "d".into(),
        unit_price: dec(0, 0),
        quantity: dec(0, 0),
        unit: "tokens/month".into(),
        usage_display: "".into(),
        costs: PeriodBreakdown::from_monthly(dec(2, 0)),
    }];
    let est = provider_estimate(CloudProvider::Aws, &items, &specs, token_rows);
    assert_eq!(est.infrastructure.rows.len(), 2);
    assert_eq!(est.infrastructure.rows[0].service, "EC2");
    assert_eq!(est.infrastructure.rows[1].service, "plain");
    assert_eq!(est.infrastructure.rows[0].usage_display, "730 h");
    let m = est.infrastructure.totals.monthly;
    assert_eq!((m.mantissa, m.scale), (3137, 2));
    let c = est.combined.monthly;
    assert_eq!((c.mantissa, c.scale), (3337, 2));
    let y = est.combined.yearly;
    assert_eq!((y.mantissa, y.scale), (40044, 2));
}

#[test]
fn total_of_empty_is_zero() {
    let t = total_of(&vec![]);
    assert_eq!((t.monthly.mantissa, t.daily.mantissa), (0, 0));
}

#[test]
fn legacy_summary_lists_periods() {
    let costs = PeriodBreakdown::from_monthly(dec(3000, 2));
    let ui = UiEstimateResponse {
        id: 7,
        name: "n".into(),
        live_pricing: false,
        providers: vec![ProviderUiEstimate {
            provider: CloudProvider::Azure,
            infrastructure: CostTable {
                rows: vec![CostRow {
                    category: "Compute".into(),
                    service: "VM".into(),
                    description: "vm".into(),
                    unit_price: dec(1, 0),
                    quantity: dec(30, 0),
                    unit: "hours".into(),
                    usage_display: "30 h".into(),
                    costs,
                }],
                totals: costs,
            },
            tokens: CostTable { rows: vec![], totals: PeriodBreakdown::zero() },
            combined: costs,
        }],
        created_at: Timestamp { secs: 1, nanos: 0 },
    };
    let req = RequirementSet { name: "n".into(), description: None, resources: vec![], token_usage: vec![] };
    let out = legacy_from_ui(&ui, req);
    assert_eq!(out.id, 7);
    assert_eq!(out.estimates.len(), 1);
    let e = &out.estimates[0];
    assert_eq!(e.provider, CloudProvider::Azure);
    assert_eq!(e.line_items.len(), 1);
    assert_eq!(e.line_items[0].description, "vm");
    assert_eq!(e.periods.len(), 5);
    assert_eq!(e.periods[0].period, BillingPeriod::Daily);
    assert_eq!(e.periods[2].period, BillingPeriod::Quarterly);
    assert_eq!((e.periods[2].total.mantissa, e.periods[2].total.scale), (9000, 2));
    assert_eq!((e.periods[1].tokens.mantissa), 0);
}

#[test]
fn request_from_requirement_uses_catalog_ids() {
    let mut r = spec("hours");
    r.catalog_id = Some("aws:AmazonEC2".into());
    let mut r2 = spec("hours");
    r2.service = "AmazonS3".into();
    let set = RequirementSet { name: "w".into(), description: None, resources: vec![r, r2], token_usage: vec![] };
    let req = request_from_requirement(&set);
    assert_eq!(req.name, "w");
    assert_eq!(req.providers, vec![CloudProvider::Aws, CloudProvider::Azure, CloudProvider::Gcp]);
    assert!(!req.live_pricing);
    assert_eq!(req.resources[0].catalog_id, "aws:AmazonEC2");
    assert_eq!(req.resources[1].catalog_id, "AmazonS3");
    assert_eq!(req.resources[1].provider, CloudProvider::Aws);
}
