use nimbusbill::models::{CloudProvider, ResourceSpec, TokenUsageSpec};
use nimbusbill::money::Dec;
use nimbusbill::pricing::{
    cached_line_item, line_item, priced_line_item, quantity_note, token_cost, token_row,
    PriceError, TokenCostError,
};

fn spec() -> ResourceSpec {
    ResourceSpec {
        service: "AmazonEC2".into(),
        sku: Some("t3.medium".into()),
        region: "us-east-1".into(),
        quantity: Dec::new(730, 0),
        unit: "hours".into(),
        provider: Some("aws".into()),
        tags: vec![],
        catalog_id: None,
        display_name: Some("Amazon EC2".into()),
        category: Some("Compute".into()),
        sub_region: None,
        region_label: None,
        instance_count: Some(Dec::new(1, 0)),
        hours: Some(Dec::new(730, 0)),
    }
}

fn usage(input: u64, output: u64) -> TokenUsageSpec {
    TokenUsageSpec {
        model: "gpt-4o".into(),
        provider: "azure".into(),
        input_tokens_per_month: input,
        output_tokens_per_month: output,
        cloud_provider: None,
        display_name: None,
    }
}

#[test]
fn quantity_note_cases() {
    let mut s = spec();
    assert_eq!(quantity_note(&s), "");
    s.instance_count = Some(Dec::new(3, 0));
    assert_eq!(quantity_note(&s), " × 3 resources × 730 h/mo");
    s.unit = "gb-month".into();
    assert_eq!(quantity_note(&s), " × 3 resources");
    let mut h = spec();
    h.hours = Some(Dec::new(100, 0));
    assert_eq!(quantity_note(&h), " × 1 resources × 100 h/mo");
}

#[test]
fn line_item_prices_quantity() {
    let li = line_item(CloudProvider::Aws, &spec(), "t3.medium", "0.0416", false).unwrap();
    assert_eq!(li.description, "Amazon EC2 — t3.medium in us-east-1");
    assert_eq!(li.category, "Compute");
    assert_eq!((li.monthly_cost.mantissa, li.monthly_cost.scale), (303680, 4));
    let live = line_item(CloudProvider::Aws, &spec(), "t3.medium", "0.0416", true).unwrap();
    assert!(live.description.ends_with(" (live)"));
    assert_eq!(
        line_item(CloudProvider::Aws, &spec(), "t3.medium", "abc", false).unwrap_err(),
        PriceError::Unparsable
    );
}

#[test]
fn cached_line_item_defaults_to_zero() {
    let li = cached_line_item(CloudProvider::Gcp, &spec(), None).unwrap();
    assert_eq!(li.monthly_cost.mantissa, 0);
    assert_eq!(li.provider, CloudProvider::Gcp);
    let priced = cached_line_item(CloudProvider::Aws, &spec(), Some("2")).unwrap();
    assert_eq!((priced.monthly_cost.mantissa, priced.monthly_cost.scale), (1460, 0));
    assert_eq!(
        cached_line_item(CloudProvider::Aws, &spec(), Some("x")).unwrap_err(),
        PriceError::Unparsable
    );
}

#[test]
fn priced_line_item_uses_region_label() {
    let mut s = spec();
    s.region_label = Some("Virginia · us-east-1".into());
    s.display_name = None;
    let li = priced_line_item(CloudProvider::Aws, &s, "t3.medium", Dec::new(1, 0), false);
    assert_eq!(li.description, "t3.medium — t3.medium in Virginia · us-east-1");
}

#[test]
fn token_cost_from_rates() {
    let c = token_cost(&usage(1_000_000, 250_000), Some(("2.50", "10.00"))).unwrap();
    let value = (c.mantissa as f64) / 10f64.powi(c.scale as i32);
    assert!((value - 5.0).abs() < 1e-9);
    let zero = token_cost(&usage(5, 5), None).unwrap();
    assert_eq!(zero.mantissa, 0);
    assert_eq!(token_cost(&usage(1, 1), Some(("x", "1"))).unwrap_err(), TokenCostError::InputRate);
    assert_eq!(token_cost(&usage(1, 1), Some(("1", "y"))).unwrap_err(), TokenCostError::OutputRate);
}

#[test]
fn token_row_describes_usage() {
    let monthly = Dec::new(5, 0);
    let row = token_row(&usage(1_000_000, 250_000), monthly, Some(("2.50", "10.00"))).unwrap();
    assert_eq!(row.category, "LLM");
    assert_eq!(row.service, "gpt-4o");
    assert_eq!(
        row.description,
        "1000000 in / 250000 out tokens per month ($2.50/M in · $10.00/M out)"
    );
    assert_eq!(row.usage_display, "1000000 in · 250000 out");
    assert_eq!((row.quantity.mantissa, row.quantity.scale), (1_250_000, 0));
    assert_eq!((row.unit_price.mantissa, row.unit_price.scale), (4, 0));
    let bare = token_row(&usage(0, 0), Dec::new(0, 0), None).unwrap();
    assert_eq!(bare.description, "0 in / 0 out tokens per month");
    assert_eq!(bare.unit_price.mantissa, 0);
}
