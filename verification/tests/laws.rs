use nimbusbill::catalog::{catalog_from_provider_services, ProviderServiceRow};
use nimbusbill::estimate::{checked_provider_estimate, provider_token_rows};
use nimbusbill::importing::import_counts_fit;
use nimbusbill::llm::slugify;
use nimbusbill::models::{CloudProvider, CostRow, LineItem, PeriodBreakdown, ResourceSpec, TokenUsageSpec};
use nimbusbill::money::Dec;
use nimbusbill::pricing::{cache_key, TokenCostError};
use nimbusbill::regions::{
    filter_azure_service_regions, filter_gcp_service_regions, filter_standard_aws_regions,
};
use nimbusbill::estimate::reconcile_unit;
use nimbusbill::service_rules::{humanize_service_key, infer_category, infer_unit};
use nimbusbill::text::first_piece;
use nimbusbill::store::coalesce_regions;

fn dec(m: i64, s: u32) -> Dec {
    Dec::new(m, s)
}

fn strings(v: &[&str]) -> Vec<String> {
    v.iter().map(|s| s.to_string()).collect()
}

fn spec() -> ResourceSpec {
    ResourceSpec {
        service: "AmazonEC2".into(),
        sku: None,
        region: "us-east-1".into(),
        quantity: dec(730, 0),
        unit: "hours".into(),
        provider: None,
        tags: vec![],
        catalog_id: None,
        display_name: None,
        category: None,
        sub_region: None,
        region_label: None,
        instance_count: None,
        hours: None,
    }
}

fn item(monthly: Dec) -> LineItem {
    LineItem {
        provider: CloudProvider::Aws,
        category: "Compute".into(),
        description: "EC2 — t3.medium in us-east-1".into(),
        unit_price: dec(416, 4),
        quantity: dec(730, 0),
        unit: "hours".into(),
        monthly_cost: monthly,
    }
}

fn usage(provider: &str, input: u64, output: u64) -> TokenUsageSpec {
    TokenUsageSpec {
        model: "m".into(),
        provider: provider.into(),
        input_tokens_per_month: input,
        output_tokens_per_month: output,
        cloud_provider: None,
        display_name: None,
    }
}

#[test]
fn infer_category_ignores_ascii_case() {
    assert_eq!(infer_category("Amazon S3"), "storage");
    assert_eq!(infer_category(&"Amazon S3".to_ascii_uppercase()), "storage");
    assert_eq!(infer_category("AZURE COSMOS DB"), infer_category("azure cosmos db"));
    assert_eq!(infer_category("Virtual Machines"), "compute");
}

#[test]
fn aws_region_filter_is_idempotent() {
    let once = filter_standard_aws_regions(strings(&["us-east-1", "us-east-1-bos-1", "cn-north-1", "eu-west-2"]));
    assert_eq!(once, strings(&["us-east-1", "eu-west-2"]));
    assert_eq!(filter_standard_aws_regions(once.clone()), once);
}

#[test]
fn region_filters_keep_global_as_given() {
    let az = filter_azure_service_regions(strings(&["GLOBAL", "eastus", "attdetroit1"]));
    assert_eq!(az, strings(&["GLOBAL", "eastus"]));
    let gcp = filter_gcp_service_regions(strings(&["Global", "us-central1", "us-central1-a"]));
    assert_eq!(gcp, strings(&["Global", "us-central1"]));
}

#[test]
fn slugify_twice_is_slugify_once() {
    let s = slugify("Azure  OpenAI (GPT-4o)");
    assert_eq!(s, "azure-openai-gpt-4o");
    assert_eq!(slugify(&s), s);
    assert_eq!(slugify("--"), "");
    assert_eq!(slugify(""), "");
}

#[test]
fn loaded_catalog_has_no_empty_category() {
    let rows = vec![ProviderServiceRow {
        catalog_id: "aws:AmazonS3".into(),
        category_id: "storage".into(),
        display_name: "Amazon S3".into(),
        unit: "gb-month".into(),
        provider: "aws".into(),
        service_key: "AmazonS3".into(),
        default_sku: "Standard".into(),
    }];
    let cats = vec![("compute".to_string(), "Compute".to_string()), ("storage".to_string(), "Storage".to_string())];
    let cat = catalog_from_provider_services(&cats, &rows, &vec![], vec![]);
    assert_eq!(cat.categories.len(), 1);
    assert_eq!(cat.categories[0].id, "storage");
    assert_eq!(cat.categories[0].services[0].category.id(), "storage");
}

#[test]
fn cache_key_uses_sku_or_service() {
    let mut s = spec();
    assert_eq!(
        cache_key(CloudProvider::Aws, &s),
        ("aws".to_string(), "AmazonEC2".to_string(), "AmazonEC2".to_string(), "us-east-1".to_string())
    );
    s.sku = Some("t3.medium".into());
    assert_eq!(cache_key(CloudProvider::Aws, &s).2, "t3.medium");
}

#[test]
fn coalesce_keeps_longer_stored_list() {
    let kept = coalesce_regions(strings(&["a", "b", "c"]), strings(&["a"]));
    assert_eq!(kept, strings(&["a", "b", "c"]));
    assert_eq!(coalesce_regions(strings(&["a"]), strings(&["x", "y", "z"])), strings(&["x", "y", "z"]));
}

#[test]
fn checked_estimate_totals_rows() {
    let items = vec![item(dec(3037, 2)), item(dec(1, 0))];
    let specs = vec![spec(), spec()];
    let token_rows = vec![CostRow {
        category: "LLM".into(),
        service: "m".into(),
        description: "d".into(),
        unit_price: dec(0, 0),
        quantity: dec(0, 0),
        unit: "tokens/month".into(),
        usage_display: "".into(),
        costs: PeriodBreakdown::from_monthly(dec(2, 0)),
    }];
    let est = checked_provider_estimate(CloudProvider::Aws, &items, &specs, token_rows).unwrap();
    assert_eq!(est.infrastructure.rows.len(), 2);
    assert_eq!((est.infrastructure.totals.monthly.mantissa, est.infrastructure.totals.monthly.scale), (3137, 2));
    assert_eq!((est.combined.monthly.mantissa, est.combined.monthly.scale), (3337, 2));
    assert_eq!((est.combined.yearly.mantissa, est.combined.yearly.scale), (40044, 2));
}

#[test]
fn checked_estimate_refuses_overflow() {
    let huge = Dec::from_parts(79228162514264337593543950335, 0).unwrap();
    assert!(!PeriodBreakdown::monthly_fits(huge));
    assert!(PeriodBreakdown::monthly_fits(dec(100, 2)));
    let est = checked_provider_estimate(CloudProvider::Aws, &vec![item(huge)], &vec![spec()], vec![]);
    assert!(est.is_none());
    let a = PeriodBreakdown::from_monthly(dec(1, 0));
    let sum = a.checked_add(&a).unwrap();
    assert_eq!((sum.monthly.mantissa, sum.yearly.mantissa), (2, 24));
}

#[test]
fn token_rows_one_per_line_of_the_cloud() {
    let usage = vec![usage("azure", 1_000_000, 0), usage("aws", 5, 5), usage("azure", 0, 2_000_000)];
    let rates = vec![
        Some(("2.5".to_string(), "10".to_string())),
        None,
        Some(("2.5".to_string(), "10".to_string())),
    ];
    let rows = provider_token_rows(&usage, CloudProvider::Azure, &rates).unwrap();
    assert_eq!(rows.len(), 2);
    assert_eq!((rows[0].costs.monthly.mantissa, rows[0].costs.monthly.scale), (25, 1));
    let aws = provider_token_rows(&usage, CloudProvider::Aws, &rates).unwrap();
    assert_eq!(aws.len(), 1);
    assert_eq!(aws[0].costs.monthly.mantissa, 0);
    let bad = vec![Some(("x".to_string(), "1".to_string())), None, None];
    assert_eq!(provider_token_rows(&usage, CloudProvider::Azure, &bad).unwrap_err(), TokenCostError::InputRate);
}

#[test]
fn import_counts_fit_in_64_bits() {
    assert!(import_counts_fit("hours", Some(dec(3, 0)), Some(dec(730, 0)), dec(730, 0)));
    assert!(!import_counts_fit("hours", Some(Dec::new(i64::MAX, 0)), Some(dec(4, 0)), dec(1, 0)));
    assert!(import_counts_fit("gb-month", Some(Dec::new(i64::MAX, 0)), Some(dec(4, 0)), dec(1, 0)));
}

#[test]
fn breakdown_of_sum_is_sum_of_breakdowns() {
    let a = PeriodBreakdown::from_monthly(dec(30, 0));
    let b = PeriodBreakdown::from_monthly(dec(60, 0));
    let s = PeriodBreakdown::from_monthly(dec(90, 0));
    let t = a.add(&b);
    assert_eq!(
        (s.daily.mantissa, s.monthly.mantissa, s.quarterly.mantissa, s.half_yearly.mantissa, s.yearly.mantissa),
        (t.daily.mantissa, t.monthly.mantissa, t.quarterly.mantissa, t.half_yearly.mantissa, t.yearly.mantissa)
    );
    assert_eq!((s.daily.mantissa, s.yearly.mantissa), (3, 1080));
}

#[test]
fn unit_inference_ignores_ascii_case() {
    assert_eq!(infer_unit("AMAZON SQS"), infer_unit("amazon sqs"));
    assert_eq!(infer_unit("AMAZON SQS"), "million-invocations");
    assert_eq!(reconcile_unit("AMAZON SIMPLE STORAGE SERVICE", "hours"), "gb-month");
    assert_eq!(reconcile_unit("AMAZONEC2", "hours"), "hours");
}

#[test]
fn humanized_keys_capitalise_ascii_words() {
    assert_eq!(humanize_service_key("AmazonElastic_file-system"), "Elastic File System");
    assert_eq!(humanize_service_key("azure cosmos"), "Azure Cosmos");
}

#[test]
fn first_piece_of_empty_separator_is_empty() {
    assert_eq!(first_piece("abc", ""), "abc".split("").next().unwrap());
    assert_eq!(first_piece("a — b", " — "), "a");
}

#[test]
fn same_scale_breakdowns_add_up() {
    let a = PeriodBreakdown::from_monthly(dec(125, 2));
    let b = PeriodBreakdown::from_monthly(dec(275, 2));
    let s = PeriodBreakdown::from_monthly(dec(400, 2));
    let t = a.add(&b);
    assert_eq!((s.monthly.mantissa, s.monthly.scale), (t.monthly.mantissa, t.monthly.scale));
    assert_eq!((s.quarterly.mantissa, s.yearly.mantissa), (t.quarterly.mantissa, t.yearly.mantissa));
    let z = PeriodBreakdown::zero();
    assert_eq!((z.daily.mantissa, z.monthly.mantissa, z.yearly.mantissa), (0, 0, 0));
}
