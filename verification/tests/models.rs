use nimbusbill::models::{
    default_name, BillingPeriod, CloudProvider, PeriodBreakdown, SyncConfig, TokenUsageSpec,
};
use nimbusbill::money::Dec;
use nimbusbill::service_rules::{
    aws_attr_key, aws_default_sku, humanize_service_key, infer_category, infer_unit,
    is_llm_token_service,
};

fn parts(d: Dec) -> (i128, u32) {
    (d.mantissa(), d.scale())
}

#[test]
fn provider_keys_round_trip() {
    let all = CloudProvider::all();
    assert_eq!(all, vec![CloudProvider::Aws, CloudProvider::Azure, CloudProvider::Gcp]);
    for p in all {
        assert_eq!(CloudProvider::parse(p.as_str()), Some(p));
    }
    assert_eq!(CloudProvider::Gcp.label(), "GCP");
    assert_eq!(CloudProvider::Azure.label(), "Azure");
    assert_eq!(CloudProvider::parse("AWS"), None);
    assert_eq!(CloudProvider::parse("oracle"), None);
}

#[test]
fn billing_periods_in_order() {
    let all = BillingPeriod::all();
    assert_eq!(all.len(), 5);
    assert_eq!(all[0], BillingPeriod::Daily);
    assert_eq!(all[4], BillingPeriod::Yearly);
    assert_eq!(BillingPeriod::HalfYearly.column_label(), "Half-Yearly");
    assert_eq!(parts(BillingPeriod::Quarterly.months()), (3, 0));
    assert_eq!(parts(BillingPeriod::Monthly.months()), (1, 0));
    let daily = BillingPeriod::Daily.months();
    let value = daily.mantissa() as f64 / 10f64.powi(daily.scale() as i32);
    assert!((value - 0.01 / 30.0).abs() < 1e-12);
}

#[test]
fn breakdown_from_monthly() {
    let b = PeriodBreakdown::from_monthly(Dec::new(3037, 2));
    assert_eq!(parts(b.monthly), (3037, 2));
    assert_eq!(parts(b.quarterly), (9111, 2));
    assert_eq!(parts(b.half_yearly), (18222, 2));
    assert_eq!(parts(b.yearly), (36444, 2));
    let daily = b.daily.mantissa() as f64 / 10f64.powi(b.daily.scale() as i32);
    assert!((daily - 30.37 / 30.0).abs() < 1e-9);
    let z = PeriodBreakdown::zero();
    assert_eq!(z.yearly.mantissa(), 0);
    let sum = b.add(&z);
    assert_eq!(parts(sum.yearly), (36444, 2));
    let twice = b.add(&b);
    assert_eq!(parts(twice.monthly), (6074, 2));
}

#[test]
fn token_usage_cloud() {
    let mut u = TokenUsageSpec {
        model: "gpt-4o".into(),
        provider: "azure".into(),
        input_tokens_per_month: 1,
        output_tokens_per_month: 1,
        cloud_provider: None,
        display_name: None,
    };
    assert_eq!(u.cloud(), Some(CloudProvider::Azure));
    u.cloud_provider = Some(CloudProvider::Gcp);
    assert_eq!(u.cloud(), Some(CloudProvider::Gcp));
    u.cloud_provider = None;
    u.provider = "openai".into();
    assert_eq!(u.cloud(), None);
}

#[test]
fn defaults() {
    assert_eq!(default_name(), "estimate");
    let c = SyncConfig::default();
    assert_eq!(c.interval_secs, 86_400);
    assert_eq!(c.providers.len(), 3);
    assert_eq!(c.concurrency, 0);
}

#[test]
fn decimals() {
    assert_eq!(parts(Dec::zero()), (0, 0));
    assert_eq!(parts(Dec::one()), (1, 0));
    assert_eq!(parts(Dec::from_u64(42)), (42, 0));
    assert_eq!(Dec::new(5, 0).to_u64(), Some(5));
    assert_eq!(Dec::new(-5, 0).to_u64(), None);
    assert!(Dec::from_parts(1, 29).is_none());
    assert_eq!(Dec::from_parts(7, 3).map(parts), Some((7, 3)));
}

#[test]
fn service_categories_and_units() {
    assert_eq!(infer_category("Amazon S3"), "storage");
    assert_eq!(infer_category("Azure Cosmos DB"), "database");
    assert_eq!(infer_category("Amazon SQS"), "messaging");
    assert_eq!(infer_category("Cloud CDN"), "networking");
    assert_eq!(infer_category("Key Vault"), "security");
    assert_eq!(infer_category("Amazon SageMaker"), "ai_ml");
    assert_eq!(infer_category("Virtual Machines"), "compute");
    assert_eq!(infer_unit("Blob Storage"), "gb-month");
    assert_eq!(infer_unit("AWS Lambda"), "million-invocations");
    assert_eq!(infer_unit("Virtual Machines"), "hours");
}

#[test]
fn aws_offer_defaults() {
    assert_eq!(aws_attr_key("AmazonEC2"), Some("instanceType"));
    assert_eq!(aws_attr_key("AmazonS3"), None);
    assert_eq!(aws_default_sku("AmazonRDS"), "db.t3.micro");
    assert_eq!(aws_default_sku("AmazonES"), "t3.small.elasticsearch");
    assert_eq!(aws_default_sku("AmazonS3"), "AmazonS3");
    assert!(is_llm_token_service("AmazonBedrockFoundationModels"));
    assert!(!is_llm_token_service("AmazonBedrock"));
}

#[test]
fn humanized_keys() {
    assert_eq!(humanize_service_key("AmazonElastiCache"), "ElastiCache");
    assert_eq!(humanize_service_key("load-balancer"), "Load Balancer");
    assert_eq!(humanize_service_key("AzureAzure__key_vault"), "Key Vault");
}
