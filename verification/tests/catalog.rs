use nimbusbill::catalog::{
    catalog_from_legacy_tables, catalog_from_provider_services, ProviderServiceRow, ServiceCategory,
};
use nimbusbill::models::CloudProvider;

fn row(id: &str, cat: &str, provider: &str, key: &str) -> ProviderServiceRow {
    ProviderServiceRow {
        catalog_id: id.into(),
        category_id: cat.into(),
        display_name: format!("{key} name"),
        unit: "hours".into(),
        provider: provider.into(),
        service_key: key.into(),
        default_sku: "sku".into(),
    }
}

#[test]
fn service_category_ids_round_trip() {
    for c in ServiceCategory::all() {
        assert_eq!(ServiceCategory::from_id(c.id()), c);
    }
    assert_eq!(ServiceCategory::from_id("unknown"), ServiceCategory::Compute);
    assert_eq!(ServiceCategory::AiMl.label(), "AI / ML");
    assert_eq!(ServiceCategory::all().len(), 7);
}

#[test]
fn provider_services_grouped_by_category() {
    let cats = vec![
        ("compute".to_string(), "Compute".to_string()),
        ("database".to_string(), "Database".to_string()),
        ("ai_ml".to_string(), "AI / ML".to_string()),
    ];
    let rows = vec![
        row("aws:AmazonElastiCache", "database", "aws", "AmazonElastiCache"),
        row("aws:AmazonBedrockFoundationModels", "ai_ml", "aws", "AmazonBedrockFoundationModels"),
        row("x:thing", "compute", "oracle", "thing"),
        row("gcp:compute", "compute", "gcp", "compute"),
    ];
    let regions = vec![
        ("aws:AmazonElastiCache".to_string(), "eu-west-1".to_string()),
        ("gcp:compute".to_string(), "us-central1".to_string()),
        ("aws:AmazonElastiCache".to_string(), "us-east-1".to_string()),
    ];
    let cat = catalog_from_provider_services(&cats, &rows, &regions, vec![]);
    assert_eq!(cat.categories.len(), 2);
    assert_eq!(cat.categories[0].id, "compute");
    assert_eq!(cat.categories[0].services.len(), 1);
    assert_eq!(cat.categories[0].services[0].providers[0].provider, CloudProvider::Gcp);
    assert_eq!(cat.categories[1].services[0].id, "aws:AmazonElastiCache");
    assert_eq!(cat.categories[1].services[0].category, ServiceCategory::Database);
    assert_eq!(
        cat.categories[1].services[0].providers[0].regions,
        vec!["eu-west-1".to_string(), "us-east-1".to_string()]
    );
}

#[test]
fn legacy_tables_grouped_by_service() {
    let cats = vec![("storage".to_string(), "Storage".to_string()), ("security".to_string(), "Security".to_string())];
    let services = vec![
        ("s3".to_string(), "storage".to_string(), "S3".to_string(), "gb-month".to_string()),
    ];
    let entries = vec![
        (1i64, "s3".to_string(), "aws".to_string(), "AmazonS3".to_string(), "Standard".to_string()),
        (2i64, "s3".to_string(), "ibm".to_string(), "x".to_string(), "y".to_string()),
        (3i64, "s3".to_string(), "azure".to_string(), "blob".to_string(), "Hot".to_string()),
    ];
    let regions = vec![(1i64, "us-east-1".to_string()), (3i64, "eastus".to_string()), (1i64, "eu-west-1".to_string())];
    let cat = catalog_from_legacy_tables(&cats, &services, &entries, &regions, vec![]);
    assert_eq!(cat.categories.len(), 1);
    let s = &cat.categories[0].services[0];
    assert_eq!(s.category, ServiceCategory::Storage);
    assert_eq!(s.providers.len(), 2);
    assert_eq!(s.providers[0].regions, vec!["us-east-1".to_string(), "eu-west-1".to_string()]);
    assert_eq!(s.providers[1].provider, CloudProvider::Azure);
}
