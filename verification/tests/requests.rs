use nimbusbill::catalog::AddLlmModelRequest;
use nimbusbill::requests::{
    catalog_fresh, default_static_dir, finalize_sku_list, live_sku_source, validate_llm_model,
    SkuSource,
};
use nimbusbill::store::ProviderServiceMeta;

fn strings(v: &[&str]) -> Vec<String> {
    v.iter().map(|s| s.to_string()).collect()
}

#[test]
fn static_dir_default() {
    assert_eq!(default_static_dir(), "static");
}

#[test]
fn sku_list_puts_missing_default_first() {
    assert_eq!(
        finalize_sku_list(strings(&["m5.large", "c5.large"]), &"t3.micro".to_string()),
        strings(&["t3.micro", "m5.large", "c5.large"])
    );
    assert_eq!(
        finalize_sku_list(strings(&["m5.large", "t3.micro"]), &"t3.micro".to_string()),
        strings(&["m5.large", "t3.micro"])
    );
    assert_eq!(finalize_sku_list(strings(&["a"]), &String::new()), strings(&["a"]));
    assert_eq!(finalize_sku_list(vec![], &"d".to_string()), strings(&["d"]));
}

fn meta() -> ProviderServiceMeta {
    ProviderServiceMeta {
        service_key: "AmazonEC2".into(),
        default_sku: "t3.micro".into(),
        unit: "hours".into(),
        attr_key: None,
        offer_code: None,
        billing_service_id: None,
        attr_value: None,
    }
}

#[test]
fn live_sku_sources() {
    match live_sku_source("aws", &meta()) {
        SkuSource::AwsOffer { offer, attr_key } => {
            assert_eq!(offer, "AmazonEC2");
            assert_eq!(attr_key, "instanceType");
        }
        other => panic!("unexpected {other:?}"),
    }
    let mut s3 = meta();
    s3.service_key = "AmazonS3".into();
    assert!(matches!(live_sku_source("aws", &s3), SkuSource::Unavailable));
    let mut az = meta();
    assert!(matches!(live_sku_source("azure", &az), SkuSource::Unavailable));
    az.attr_value = Some("Virtual Machines".into());
    match live_sku_source("azure", &az) {
        SkuSource::AzureService { service_name } => assert_eq!(service_name, "Virtual Machines"),
        other => panic!("unexpected {other:?}"),
    }
    let mut g = meta();
    g.billing_service_id = Some("6F81".into());
    match live_sku_source("gcp", &g) {
        SkuSource::GcpBilling { billing_id } => assert_eq!(billing_id, "6F81"),
        other => panic!("unexpected {other:?}"),
    }
    assert!(matches!(live_sku_source("oracle", &g), SkuSource::Unavailable));
}

fn model(id: &str, label: &str, provider: &str) -> AddLlmModelRequest {
    AddLlmModelRequest {
        id: id.into(),
        label: label.into(),
        provider: provider.into(),
        input_per_mtok: " 2.50 ".into(),
        output_per_mtok: "10".into(),
    }
}

#[test]
fn custom_llm_models_validated() {
    let v = validate_llm_model(&model(" my-model ", " My Model", " azure ")).unwrap();
    assert_eq!(v.0, "my-model");
    assert_eq!(v.1, "My Model");
    assert_eq!(v.2, "azure");
    assert_eq!(v.3, "2.50");
    assert_eq!(v.4, "10");
    assert!(validate_llm_model(&model("  ", "x", "aws")).is_none());
    assert!(validate_llm_model(&model("x", "", "aws")).is_none());
    assert!(validate_llm_model(&model("x", "y", "openai")).is_none());
}

#[test]
fn catalog_freshness() {
    assert!(catalog_fresh(Some(0)));
    assert!(catalog_fresh(Some(21_599)));
    assert!(!catalog_fresh(Some(21_600)));
    assert!(!catalog_fresh(None));
}
