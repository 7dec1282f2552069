use nimbusbill::llm::is_wanted;
use nimbusbill::llm::{
    azure_apply, azure_direction, azure_model_key, azure_rate_score, azure_token_unit,
    bedrock_apply, bedrock_direction, bedrock_model_id, bedrock_usage_region, bedrock_usage_score,
    bump_rate, foundry_model_filter, gcp_apply, models_for_cloud, slugify, AzureMeter, RateBook,
    TokenDirection,
};
use nimbusbill::models::{CloudProvider, TokenUsageSpec};

#[test]
fn bedrock_picks_on_demand_input() {
    assert_eq!(
        bedrock_direction("USE1-MP:USE1_InputTokenCount-Units"),
        Some(TokenDirection::Input)
    );
    assert_eq!(bedrock_direction("USE1-MP:USE1_InputTokenCount_Batch-Units"), None);
}

#[test]
fn azure_model_key_groups_gpt4o() {
    let (id, label) = azure_model_key("Azure OpenAI", "gpt-4o-0806-Inp-glbl");
    assert_eq!(id, "azure-gpt-4o-0806");
    assert!(label.contains("gpt-4o-0806"));
}

#[test]
fn bedrock_usage_region_maps_sae1() {
    assert_eq!(
        bedrock_usage_region("SAE1-MP:SAE1_InputTokenCount-Units"),
        Some("sa-east-1".into())
    );
}

#[test]
fn azure_selective_filter_includes_slug() {
    let filter = foundry_model_filter("gpt-4o-0806");
    assert!(filter.contains("Foundry Models"));
    assert!(filter.contains("gpt-4o-0806"));
}

#[test]
fn foundry_filter_strips_prefix_and_escapes_quotes() {
    assert_eq!(
        foundry_model_filter("azure-o'brien"),
        "serviceName eq 'Foundry Models' and contains(skuName,'o''brien')"
    );
}

#[test]
fn bedrock_direction_rejects_provisioned_and_reads_output() {
    assert_eq!(bedrock_direction("USE1-OutputTokenCount-Units"), Some(TokenDirection::Output));
    assert_eq!(bedrock_direction("USE1-ProvisionedThroughput"), None);
    assert_eq!(bedrock_direction("USE1-Something"), None);
}

#[test]
fn bedrock_scores_prefer_units_over_global() {
    assert_eq!(bedrock_usage_score("USE1-InputTokenCount-Units"), 10);
    assert_eq!(bedrock_usage_score("USE1_Global-InputTokenCount-Units"), 7);
    assert_eq!(bedrock_usage_score("USE1-InputTokenCount"), 0);
}

#[test]
fn bedrock_model_id_drops_edition_suffix() {
    assert_eq!(
        bedrock_model_id("Titan Text Express (Amazon Bedrock Edition)"),
        "bedrock-titan-text-express"
    );
    assert_eq!(bedrock_model_id("Llama 3 70B"), "bedrock-llama-3-70b");
}

#[test]
fn bedrock_region_none_for_global_or_unknown() {
    assert_eq!(bedrock_usage_region("USE1_Global-InputTokenCount"), None);
    assert_eq!(bedrock_usage_region("XYZ9-InputTokenCount"), None);
    assert_eq!(bedrock_usage_region("EUC1-InputTokenCount"), Some("eu-central-1".into()));
}

#[test]
fn slugify_collapses_separators() {
    assert_eq!(slugify("  Hello, World!! 2 "), "hello-world-2");
    assert_eq!(slugify("---"), "");
}

#[test]
fn azure_direction_and_units() {
    assert_eq!(azure_direction("gpt-4o-Inp", "Tokens"), Some(TokenDirection::Input));
    assert_eq!(azure_direction("gpt-4o", "Output Tokens"), Some(TokenDirection::Output));
    assert_eq!(azure_direction("gpt-4o-batch-inp", "x"), None);
    assert_eq!(azure_direction("gpt-4o", "Training"), None);
    assert!(azure_token_unit("1M"));
    assert!(azure_token_unit("1K"));
    assert!(!azure_token_unit("1 Hour"));
}

#[test]
fn azure_rate_score_rewards_global() {
    assert_eq!(azure_rate_score("gpt-4o-Inp-glbl", "x"), 20);
    assert_eq!(azure_rate_score("gpt-4o-Inp-regnl", "x"), -4);
    assert_eq!(azure_rate_score("gpt-4o-cchd-glbl", "x"), 5);
    assert_eq!(azure_rate_score("gpt-rt-4o", "x"), -8);
}

#[test]
fn azure_model_key_uses_sku_when_family_empty() {
    let (id, label) = azure_model_key("Azure AI", "Inp-glbl");
    assert_eq!(id, "azure-inp-glbl");
    assert_eq!(label, "Inp-glbl (AI)");
    let (id2, label2) = azure_model_key("", "phi-3 extra");
    assert_eq!(id2, "azure-phi-3");
    assert_eq!(label2, "phi-3");
}

#[test]
fn bump_rate_keeps_higher_score() {
    let mut slot: Option<(i32, u32)> = None;
    bump_rate(&mut slot, 5, 100);
    assert_eq!(slot, Some((5, 100)));
    bump_rate(&mut slot, 5, 200);
    assert_eq!(slot, Some((5, 100)));
    bump_rate(&mut slot, 7, 300);
    assert_eq!(slot, Some((7, 300)));
    bump_rate(&mut slot, 1, 400);
    assert_eq!(slot, Some((7, 300)));
}

#[test]
fn bedrock_book_tracks_regions_and_best_rates() {
    let mut book: RateBook<u32> = RateBook::new();
    assert!(bedrock_apply(&mut book, "Titan", "USE1-InputTokenCount-Units", 3, None));
    assert!(bedrock_apply(&mut book, "Titan", "EUW1-InputTokenCount", 9, None));
    assert!(bedrock_apply(&mut book, "Titan", "USE1-OutputTokenCount-Units", 4, None));
    assert!(!bedrock_apply(&mut book, "Titan", "USE1-Batch-InputTokenCount", 1, None));
    assert_eq!(book.entries.len(), 1);
    let (id, agg) = &book.entries[0];
    assert_eq!(id, "bedrock-titan");
    assert_eq!(agg.label, "Titan");
    assert_eq!(agg.input, Some((10, 3)));
    assert_eq!(agg.output, Some((10, 4)));
    let mut regions = agg.regions.clone();
    regions.sort();
    assert_eq!(regions, vec!["eu-west-1".to_string(), "us-east-1".to_string()]);
    assert!(!agg.global);
    assert!(bedrock_apply(&mut book, "Titan", "USE1_Global-InputTokenCount", 1, None));
    assert!(book.entries[0].1.global);
    assert!(book.entries[0].1.regions.is_empty());
    let want = vec!["bedrock-other".to_string()];
    assert!(!bedrock_apply(&mut book, "Titan", "USE1-InputTokenCount", 1, Some(&want)));
}

#[test]
fn azure_book_keeps_consumption_token_meters() {
    let mut book: RateBook<u32> = RateBook::new();
    let meter = AzureMeter {
        item_type: Some("Consumption".into()),
        product: "Azure OpenAI".into(),
        sku: "gpt-4o-0806-Inp-glbl".into(),
        meter: "Input Tokens".into(),
        unit: "1M".into(),
    };
    assert!(azure_apply(&mut book, &meter, 250));
    let reserved = AzureMeter { item_type: Some("Reservation".into()), ..meter };
    assert!(!azure_apply(&mut book, &reserved, 1));
    assert_eq!(book.entries.len(), 1);
    assert_eq!(book.entries[0].0, "azure-gpt-4o-0806");
    assert_eq!(book.entries[0].1.label, "gpt-4o-0806 (OpenAI)");
    assert_eq!(book.entries[0].1.input, Some((20, 250)));
}

#[test]
fn gcp_book_labels_once() {
    let mut book: RateBook<u32> = RateBook::new();
    assert!(gcp_apply(&mut book, "Gemini 1.5 Pro - input tokens", "Vertex AI", 125, None));
    assert!(gcp_apply(&mut book, "Gemini 1.5 Pro - output tokens", "Other", 500, None));
    assert!(!gcp_apply(&mut book, "Gemini 1.5 Pro - images", "Vertex AI", 1, None));
    assert_eq!(book.entries.len(), 1);
    assert_eq!(book.entries[0].0, "gcp-gemini-1-5-pro");
    assert_eq!(book.entries[0].1.label, "Gemini 1.5 Pro (Vertex AI)");
    assert_eq!(book.entries[0].1.input, Some((0, 125)));
    assert_eq!(book.entries[0].1.output, Some((0, 500)));
}

#[test]
fn models_for_cloud_dedups_by_pricing_key() {
    let usage = vec![
        TokenUsageSpec {
            model: "gpt-4o".into(),
            provider: "azure".into(),
            input_tokens_per_month: 1,
            output_tokens_per_month: 1,
            cloud_provider: None,
            display_name: None,
        },
        TokenUsageSpec {
            model: "gpt-4o".into(),
            provider: "x".into(),
            input_tokens_per_month: 1,
            output_tokens_per_month: 1,
            cloud_provider: Some(CloudProvider::Azure),
            display_name: None,
        },
        TokenUsageSpec {
            model: "titan".into(),
            provider: "aws".into(),
            input_tokens_per_month: 1,
            output_tokens_per_month: 1,
            cloud_provider: None,
            display_name: None,
        },
    ];
    assert_eq!(models_for_cloud(&usage, "azure"), vec!["gpt-4o".to_string()]);
    assert_eq!(models_for_cloud(&usage, "aws"), vec!["titan".to_string()]);
    assert!(models_for_cloud(&usage, "gcp").is_empty());
}

#[test]
fn wanted_models() {
    let ids = vec!["azure-gpt-4o".to_string()];
    assert!(is_wanted(None, &"anything".to_string()));
    assert!(is_wanted(Some(&ids), &"azure-gpt-4o".to_string()));
    assert!(!is_wanted(Some(&ids), &"azure-o1".to_string()));
}

#[test]
fn rate_book_keeps_wanted_models() {
    let mut book: RateBook<u32> = RateBook::new();
    assert!(gcp_apply(&mut book, "Gemini 1.5 Pro - input tokens", "Vertex AI", 125, None));
    assert!(gcp_apply(&mut book, "Gemini 1.5 Flash - input tokens", "Vertex AI", 7, None));
    assert_eq!(book.entries.len(), 2);
    let want = vec!["gcp-gemini-1-5-flash".to_string()];
    book.retain_wanted(Some(&want));
    assert_eq!(book.entries.len(), 1);
    assert_eq!(book.entries[0].0, "gcp-gemini-1-5-flash");
    book.retain_wanted(None);
    assert_eq!(book.entries.len(), 1);
}

#[test]
fn baseline_rates_cover_five_models() {
    let rows = nimbusbill::llm::baseline_token_rates();
    assert_eq!(rows.len(), 5);
    assert_eq!(rows[0], ("aws".to_string(), "bedrock-llama3-70b".to_string(), "Llama 3 70B (Bedrock)".to_string(), "2.65".to_string(), "3.50".to_string()));
    assert_eq!(rows[4], ("gcp".to_string(), "gemini-1.5-flash".to_string(), "Gemini 1.5 Flash (Vertex)".to_string(), "0.075".to_string(), "0.30".to_string()));
}
