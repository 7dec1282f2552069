use nimbusbill::catalog::{
    CatalogCategory, CatalogProviderEntry, CatalogResponse, CatalogService, ServiceCategory,
};
use nimbusbill::importing::{
    catalog_meta, decimal_to_u64, estimate_import, explicit_catalog_id,
    infer_provider_from_catalog_id, pick_search_hit, requirement_import, spec_import,
    spec_provider, ui_input_import,
};
use nimbusbill::models::{
    CloudProvider, EstimateRequest, RequirementSet, ResourceSpec, TokenUsageSpec,
    UiResourceInput,
};
use nimbusbill::money::Dec;
use nimbusbill::store::CatalogSearchHit;

fn catalog() -> CatalogResponse {
    CatalogResponse {
        categories: vec![CatalogCategory {
            id: "compute".into(),
            label: "Compute".into(),
            services: vec![CatalogService {
                id: "aws:AmazonEC2".into(),
                name: "Amazon EC2".into(),
                category: ServiceCategory::Compute,
                unit: "hours".into(),
                providers: vec![CatalogProviderEntry {
                    provider: CloudProvider::Aws,
                    service_key: "AmazonEC2".into(),
                    default_sku: "t3.medium".into(),
                    regions: vec!["us-east-1".into()],
                }],
            }],
        }],
        llm_models: vec![],
    }
}

fn resolved_ec2() -> (String, String, String) {
    ("AmazonEC2".into(), "t3.medium".into(), "hours".into())
}

fn field(v: &serde_json::Value, k: &str) -> Option<String> {
    v.get(k).and_then(|x| x.as_str()).map(|s| s.to_string())
}

fn spec_from_json(v: &serde_json::Value) -> ResourceSpec {
    let q = field(v, "quantity").unwrap();
    ResourceSpec {
        service: field(v, "service").unwrap(),
        sku: field(v, "sku"),
        region: field(v, "region").unwrap(),
        quantity: Dec::new(q.parse::<i64>().unwrap(), 0),
        unit: field(v, "unit").unwrap_or_else(|| "units".into()),
        provider: field(v, "provider"),
        tags: vec![],
        catalog_id: field(v, "catalog_id"),
        display_name: None,
        category: None,
        sub_region: None,
        region_label: None,
        instance_count: None,
        hours: None,
    }
}

#[test]
fn import_json_requirement_resolves_catalog_id() {
    let json = r#"{
        "name": "test",
        "resources": [{
            "provider": "aws",
            "catalog_id": "aws:AmazonEC2",
            "service": "AmazonEC2",
            "region": "us-east-1",
            "quantity": "730",
            "unit": "hours",
            "sku": "t3.medium"
        }]
    }"#;
    let doc: serde_json::Value = serde_json::from_str(json).unwrap();
    let spec = spec_from_json(&doc["resources"][0]);
    let set = RequirementSet {
        name: field(&doc, "name").unwrap(),
        description: None,
        resources: vec![spec],
        token_usage: vec![],
    };
    let cat = catalog();
    let mut providers = Vec::new();
    let mut outcomes = Vec::new();
    for spec in &set.resources {
        let provider = spec_provider(spec);
        let id = explicit_catalog_id(&provider, spec).unwrap();
        outcomes.push(spec_import(&cat, spec, &provider, id, Some(resolved_ec2())));
        providers.push(provider);
    }
    let out = requirement_import(set, &providers, outcomes);
    assert_eq!(out.resources.len(), 1);
    assert_eq!(out.resources[0].catalog_id, "aws:AmazonEC2");
    assert_eq!(out.resources[0].quantity, 730);
    assert_eq!(out.resources[0].key, "aws:AmazonEC2-aws-us-east-1-t3.medium");
    assert_eq!(out.resources[0].name, "Amazon EC2");
    assert_eq!(out.providers, vec!["aws".to_string()]);
    assert!(out.warnings.is_empty());
}

#[test]
fn providers_inferred_from_catalog_ids() {
    assert_eq!(infer_provider_from_catalog_id(Some("gcp:compute")).as_deref(), Some("gcp"));
    assert_eq!(infer_provider_from_catalog_id(Some("oracle:db")), None);
    assert_eq!(infer_provider_from_catalog_id(Some("azure")).as_deref(), Some("azure"));
    assert_eq!(infer_provider_from_catalog_id(None), None);
    let mut spec = spec_from_json(&serde_json::from_str::<serde_json::Value>(
        r#"{"service":"vm","region":"eastus","quantity":"1","catalog_id":"azure:vm"}"#,
    )
    .unwrap());
    assert_eq!(spec_provider(&spec), "azure");
    spec.catalog_id = None;
    assert_eq!(spec_provider(&spec), "aws");
    assert_eq!(explicit_catalog_id("gcp", &spec), None);
    spec.catalog_id = Some("compute".into());
    assert_eq!(explicit_catalog_id("gcp", &spec).as_deref(), Some("gcp:compute"));
    spec.catalog_id = Some(String::new());
    assert_eq!(explicit_catalog_id("gcp", &spec), None);
}

fn hit(id: &str, provider: &str) -> CatalogSearchHit {
    CatalogSearchHit {
        catalog_id: id.into(),
        provider: provider.into(),
        service_key: "k".into(),
        display_name: "d".into(),
        category_id: "compute".into(),
        category_label: "Compute".into(),
        unit: "hours".into(),
        default_sku: "s".into(),
        regions: vec![],
    }
}

#[test]
fn search_hits_pick_first_of_provider() {
    let hits = vec![hit("azure:redis", "azure"), hit("aws:AmazonElastiCache", "aws"), hit("aws:x", "aws")];
    assert_eq!(pick_search_hit(&hits, "aws", "redis").unwrap(), "aws:AmazonElastiCache");
    assert_eq!(
        pick_search_hit(&hits, "gcp", "redis").unwrap_err(),
        "could not resolve service 'redis' for gcp — set catalog_id"
    );
}

#[test]
fn meta_from_catalog_or_fallback() {
    let cat = catalog();
    assert_eq!(
        catalog_meta(&cat, "aws:AmazonEC2", "AmazonEC2"),
        ("Amazon EC2".to_string(), "Compute".to_string(), "compute".to_string())
    );
    assert_eq!(
        catalog_meta(&cat, "aws:Other", "Other"),
        ("Other".to_string(), "General".to_string(), "compute".to_string())
    );
    assert_eq!(decimal_to_u64(Dec::new(25, 1)), 2);
    assert_eq!(decimal_to_u64(Dec::new(-3, 0)), 0);
}

fn input(sku: Option<&str>) -> UiResourceInput {
    UiResourceInput {
        catalog_id: "aws:AmazonEC2".into(),
        provider: CloudProvider::Aws,
        region: "us-east-1".into(),
        sub_region: None,
        quantity: Dec::new(730, 0),
        sku: sku.map(|s| s.to_string()),
        instance_count: Some(Dec::new(3, 0)),
        hours: Some(Dec::new(100, 0)),
    }
}

#[test]
fn estimate_selection_imports() {
    let cat = catalog();
    let u = ui_input_import(&cat, &input(Some("")), Some(resolved_ec2())).unwrap();
    assert_eq!(u.sku, "t3.medium");
    assert_eq!(u.instance_count, 3);
    assert_eq!(u.hours, Some(100));
    assert_eq!(u.quantity, 300);
    assert_eq!(u.unit, "hours");
    assert_eq!(
        ui_input_import(&cat, &input(None), None).unwrap_err(),
        "unknown catalog entry aws:AmazonEC2"
    );
    let req = EstimateRequest {
        name: "web".into(),
        providers: vec![CloudProvider::Aws, CloudProvider::Gcp],
        live_pricing: true,
        resources: vec![input(Some("m5.large")), input(None)],
        token_usage: vec![],
    };
    let outcomes = vec![
        ui_input_import(&cat, &req.resources[0], Some(resolved_ec2())),
        ui_input_import(&cat, &req.resources[1], None),
    ];
    let out = estimate_import(req, outcomes);
    assert_eq!(out.providers, vec!["aws".to_string(), "gcp".to_string()]);
    assert!(out.live_pricing);
    assert_eq!(out.resources.len(), 1);
    assert_eq!(out.resources[0].sku, "m5.large");
    assert_eq!(
        out.warnings,
        vec!["aws:AmazonEC2: unknown catalog entry aws:AmazonEC2".to_string()]
    );
}

#[test]
fn workload_import_collects_sorted_providers() {
    let cat = catalog();
    let mut spec = spec_from_json(&serde_json::from_str::<serde_json::Value>(
        r#"{"service":"AmazonEC2","region":"us-east-1","quantity":"5","unit":"units"}"#,
    )
    .unwrap());
    spec.provider = Some("gcp".into());
    let failing = spec.clone();
    let ok = spec_import(&cat, &spec, "gcp", "gcp:compute".into(), Some(resolved_ec2())).unwrap();
    assert_eq!(ok.unit, "hours");
    assert_eq!(ok.quantity, 5);
    let set = RequirementSet {
        name: "w".into(),
        description: None,
        resources: vec![spec, failing],
        token_usage: vec![TokenUsageSpec {
            model: "gpt-4o".into(),
            provider: "azure".into(),
            input_tokens_per_month: 1,
            output_tokens_per_month: 1,
            cloud_provider: None,
            display_name: None,
        }],
    };
    let providers = vec!["gcp".to_string(), "aws".to_string()];
    let outcomes = vec![Ok(ok), Err("could not resolve".to_string())];
    let out = requirement_import(set, &providers, outcomes);
    assert_eq!(
        out.providers,
        vec!["aws".to_string(), "azure".to_string(), "gcp".to_string()]
    );
    assert!(!out.live_pricing);
    assert_eq!(out.resources.len(), 1);
    assert_eq!(out.warnings, vec!["AmazonEC2: could not resolve".to_string()]);
}
