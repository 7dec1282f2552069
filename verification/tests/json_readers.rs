use nimbusbill::gcp_catalog::quote_sku;
use nimbusbill::azure_retail::{
    azure_meter_of, next_meter_page_link, next_page_link, retail_item, retail_page_items,
    retail_price_filter, retail_query_url, retail_sku_filter, SkuNames,
};
use nimbusbill::bedrock_book::{
    bedrock_lines, bedrock_on_demand_usd, bedrock_pricebook_url, bedrock_region_index_url,
};
use nimbusbill::gcp_catalog::{
    collect_service_regions, find_sku, gcp_service_row, gcp_sku_choices, next_page_token,
    sku_description, sku_regions, vertex_service,
};
use nimbusbill::json::{get, str_field, Json};
use nimbusbill::offer_index::{
    aws_fallback_regions, aws_first_on_demand, aws_index_first_price, aws_list_attr_values,
    aws_offer_codes, aws_offer_index_url, aws_offer_price, aws_offer_row, aws_on_demand_price,
    aws_region_codes, aws_region_index_url,
};

fn to_json(v: &serde_json::Value) -> Json {
    match v {
        serde_json::Value::Null => Json::Null,
        serde_json::Value::Bool(b) => Json::Bool(*b),
        serde_json::Value::Number(n) => Json::Num(n.to_string()),
        serde_json::Value::String(s) => Json::Str(s.clone()),
        serde_json::Value::Array(a) => Json::Arr(a.iter().map(to_json).collect()),
        serde_json::Value::Object(m) => {
            Json::Obj(m.iter().map(|(k, v)| (k.clone(), to_json(v))).collect())
        }
    }
}

fn parse(text: &str) -> Json {
    to_json(&serde_json::from_str::<serde_json::Value>(text).unwrap())
}

fn strings(v: &[&str]) -> Vec<String> {
    v.iter().map(|s| s.to_string()).collect()
}

#[test]
fn collect_service_regions_unions_all_skus() {
    let skus = vec![
        parse(r#"{ "serviceRegions": ["us-central1", "europe-west1"] }"#),
        parse(r#"{ "serviceRegions": ["asia-east1"] }"#),
    ];
    let regions = collect_service_regions(&skus);
    assert_eq!(regions.len(), 3);
    assert!(regions.contains(&"us-central1".to_string()));
    assert!(regions.contains(&"europe-west1".to_string()));
    assert!(regions.contains(&"asia-east1".to_string()));
}

#[test]
fn json_lookups() {
    let j = parse(r#"{"a": {"b": "x"}, "n": 3.5, "arr": [1, "two"]}"#);
    assert!(matches!(get(&j, "a"), Some(Json::Obj(_))));
    assert_eq!(str_field(get(&j, "a").unwrap(), "b"), Some("x"));
    assert!(get(&j, "missing").is_none());
    assert!(str_field(&j, "n").is_none());
    assert!(matches!(get(&j, "n"), Some(Json::Num(t)) if t == "3.5"));
    assert_eq!(sku_regions(&parse(r#"{"serviceRegions": ["a", 1, "b"]}"#)), strings(&["a", "b"]));
    assert!(sku_regions(&parse(r#"{"serviceRegions": "a"}"#)).is_empty());
}

const OFFER_INDEX: &str = r#"{
  "products": {
    "AAA": {"sku": "AAA", "attributes": {"instanceType": "m5.large", "location": "US East (N. Virginia)"}},
    "BBB": {"sku": "BBB", "attributes": {"instanceType": "t3.micro", "location": "US East (N. Virginia)"}},
    "CCC": {"sku": "CCC", "attributes": {"instanceType": "t3.micro"}},
    "DDD": {"sku": "DDD", "attributes": {"instanceType": ""}}
  },
  "terms": {"OnDemand": {
    "AAA": {"AAA.T1": {"priceDimensions": {"AAA.T1.D1": {"pricePerUnit": {"USD": "0.0960000000"}}}}},
    "BBB": {"BBB.T1": {"priceDimensions": {"BBB.T1.D1": {"pricePerUnit": {"USD": "0.0104000000"}}}}},
    "DDD": {"DDD.T1": {"priceDimensions": {}}}
  }}
}"#;

#[test]
fn aws_offer_index_prices() {
    let idx = parse(OFFER_INDEX);
    assert_eq!(
        aws_on_demand_price(&idx, "instanceType", "t3.micro").unwrap().as_deref(),
        Some("0.0104000000")
    );
    assert_eq!(aws_on_demand_price(&idx, "instanceType", "c5.xlarge").unwrap(), None);
    assert_eq!(
        aws_on_demand_price(&parse(r#"{"terms": {}}"#), "k", "v").unwrap_err(),
        "missing products"
    );
    assert_eq!(
        aws_on_demand_price(&parse(r#"{"products": {}}"#), "k", "v").unwrap_err(),
        "missing OnDemand terms"
    );
    assert_eq!(
        aws_first_on_demand(&idx),
        Some(("instanceType".to_string(), "m5.large".to_string(), "0.0960000000".to_string()))
    );
    assert_eq!(aws_first_on_demand(&parse(r#"{"products": {"X": {}}, "terms": {"OnDemand": {}}}"#)), None);
    assert_eq!(aws_list_attr_values(&idx, "instanceType"), strings(&["m5.large", "t3.micro"]));
    assert!(aws_list_attr_values(&parse("{}"), "instanceType").is_empty());
    assert_eq!(
        aws_offer_price(&idx, Some("instanceType"), Some("t3.micro")).unwrap(),
        "0.0104000000"
    );
    assert_eq!(aws_offer_price(&idx, Some("instanceType"), Some("nope")).unwrap(), "0.0960000000");
    assert_eq!(aws_offer_price(&idx, None, Some("t3.micro")).unwrap(), "0.0960000000");
    assert_eq!(
        aws_offer_price(&parse(r#"{"products": {}, "terms": {"OnDemand": {}}}"#), None, None).unwrap_err(),
        "no on-demand price in AWS offer index"
    );
    assert_eq!(
        aws_index_first_price(&idx, "AmazonEC2", "us-east-1").unwrap(),
        ("0.0960000000".to_string(), "m5.large".to_string())
    );
    assert_eq!(
        aws_index_first_price(&parse("{}"), "AmazonEC2", "us-east-1").unwrap_err(),
        "no on-demand price for AmazonEC2 in us-east-1"
    );
}

#[test]
fn aws_indexes_and_rows() {
    let index = parse(
        r#"{"offers": {"AmazonEC2": {"currentRegionIndexUrl": "/offers/v1.0/aws/AmazonEC2/current/region_index.json"}, "AmazonS3": {}}}"#,
    );
    assert_eq!(aws_offer_codes(&index).unwrap(), strings(&["AmazonEC2", "AmazonS3"]));
    assert_eq!(aws_offer_codes(&parse("{}")).unwrap_err(), "missing AWS offers index");
    let ec2 = get(get(&index, "offers").unwrap(), "AmazonEC2").unwrap();
    assert_eq!(
        aws_region_index_url(ec2).unwrap(),
        "https://pricing.us-east-1.amazonaws.com/offers/v1.0/aws/AmazonEC2/current/region_index.json"
    );
    assert_eq!(
        aws_region_index_url(&parse("{}")).unwrap_err(),
        "missing currentRegionIndexUrl"
    );
    assert_eq!(
        aws_offer_index_url("AmazonRDS", "eu-west-1"),
        "https://pricing.us-east-1.amazonaws.com/offers/v1.0/aws/AmazonRDS/current/eu-west-1/index.json"
    );
    assert_eq!(
        aws_region_codes(&parse(r#"{"regions": {"us-west-2": {}, "eu-west-1": {}}}"#)).unwrap(),
        strings(&["eu-west-1", "us-west-2"])
    );
    assert_eq!(
        aws_region_codes(&parse(r#"{"regions": {}}"#)).unwrap_err(),
        "no regions in AWS region index"
    );
    let row = aws_offer_row("AmazonRDS", strings(&["us-east-1"])).unwrap();
    assert_eq!(row.catalog_id, "aws:AmazonRDS");
    assert_eq!(row.display_name, "RDS");
    assert_eq!(row.default_sku, "db.t3.micro");
    assert_eq!(row.attr_key.as_deref(), Some("instanceType"));
    assert_eq!(row.offer_code.as_deref(), Some("AmazonRDS"));
    assert_eq!(row.regions, strings(&["us-east-1"]));
    assert!(aws_offer_row("AmazonBedrockFoundationModels", vec![]).is_none());
    let s3 = aws_offer_row("AmazonS3", vec![]).unwrap();
    assert_eq!(s3.category_id, "storage");
    assert!(s3.attr_key.is_none());
}

#[test]
fn aws_region_fallbacks() {
    assert_eq!(
        aws_fallback_regions(Some(strings(&["us-east-1", "us-gov-west-1", "us-east-1-bos-1"])), vec![])
            .unwrap(),
        strings(&["us-east-1"])
    );
    assert_eq!(
        aws_fallback_regions(Some(strings(&["cn-north-1"])), strings(&["eu-west-1"])).unwrap(),
        strings(&["eu-west-1"])
    );
    assert_eq!(
        aws_fallback_regions(None, vec![]).unwrap_err(),
        "no AWS regions from pricing API or database cache"
    );
}

#[test]
fn gcp_readers() {
    let skus = vec![
        parse(r#"{"skuId": "A1", "description": "N1 Predefined Instance Core", "serviceRegions": ["us-central1"]}"#),
        parse(r#"{"name": "services/x/skus/B2", "description": "", "serviceRegions": []}"#),
        parse(r#"{"skuId": "C3", "description": "Egress", "serviceRegions": ["europe-west1"]}"#),
        parse(r#"{"description": "no id"}"#),
        parse(r#"{"skuId": "D4", "description": "Egress"}"#),
    ];
    assert_eq!(find_sku(&skus, "C3"), Some(2));
    assert_eq!(find_sku(&skus, "services/x/skus/B2"), Some(1));
    assert_eq!(find_sku(&skus, "Predefined"), Some(0));
    assert_eq!(find_sku(&skus, "GPU"), None);
    let choices = gcp_sku_choices(&skus, "us-central1");
    assert_eq!(
        choices,
        vec![
            ("D4".to_string(), "Egress".to_string()),
            ("A1".to_string(), "N1 Predefined Instance Core".to_string()),
            ("services/x/skus/B2".to_string(), "services/x/skus/B2".to_string()),
        ]
    );
    let row = gcp_service_row(
        &parse(r#"{"serviceId": "6F81-5844-456A", "displayName": "Compute Engine"}"#),
        strings(&["us-central1"]),
    )
    .unwrap();
    assert_eq!(row.catalog_id, "gcp:compute-engine");
    assert_eq!(row.billing_service_id.as_deref(), Some("6F81-5844-456A"));
    assert_eq!(row.default_sku, "default");
    assert_eq!(row.sku_description_hint.as_deref(), Some("Compute Engine"));
    let bare = gcp_service_row(&parse(r#"{"serviceId": "ABCD"}"#), vec![]).unwrap();
    assert_eq!(bare.display_name, "ABCD");
    assert_eq!(
        gcp_service_row(&parse(r#"{"displayName": "X"}"#), vec![]).unwrap_err(),
        "gcp service missing serviceId"
    );
    assert_eq!(next_page_token(&parse(r#"{"nextPageToken": "t1"}"#)).as_deref(), Some("t1"));
    assert_eq!(next_page_token(&parse(r#"{"nextPageToken": ""}"#)), None);
    assert_eq!(
        vertex_service(&parse(r#"{"serviceId": "C7E2", "displayName": "Vertex AI"}"#)),
        Some(("Vertex AI".to_string(), "C7E2".to_string()))
    );
    assert_eq!(vertex_service(&parse(r#"{"serviceId": "X", "displayName": "BigQuery"}"#)), None);
    assert_eq!(vertex_service(&parse(r#"{"displayName": "Gemini API"}"#)), None);
    assert_eq!(sku_description(&parse(r#"{"description": "Gemini 1.5 Pro Input Tokens"}"#)), "Gemini 1.5 Pro Input Tokens");
    assert_eq!(sku_description(&parse("{}")), "");
}

#[test]
fn azure_retail_readers() {
    assert_eq!(
        retail_sku_filter("Virtual Machines", "eastus"),
        "serviceName eq 'Virtual Machines' and armRegionName eq 'eastus' and priceType eq 'Consumption'"
    );
    assert_eq!(
        retail_price_filter("O'Reilly", "", "westus"),
        "serviceName eq 'O''Reilly' and armSkuName eq 'Standard' and armRegionName eq 'westus' and priceType eq 'Consumption'"
    );
    assert_eq!(
        retail_query_url("serviceName eq 'A B'"),
        "https://prices.azure.com/api/retail/prices?$filter=serviceName%20eq%20%27A%20B%27"
    );
    let page = parse(
        r#"{"Items": [
            {"serviceName": "Storage", "armSkuName": "Hot_LRS", "armRegionName": "eastus"},
            {"serviceName": "Storage", "armSkuName": "", "armRegionName": "westus"},
            {"armSkuName": "Cool_LRS"}
        ], "NextPageLink": "https://prices.azure.com/api/retail/prices?$skip=1000000"}"#,
    );
    let items = retail_page_items(&page);
    assert_eq!(items.len(), 3);
    assert_eq!(items[0].service_name.as_deref(), Some("Storage"));
    assert!(items[2].service_name.is_none());
    let single = retail_item(&parse(r#"{"serviceName": "X"}"#));
    assert!(single.arm_region_name.is_none());
    assert_eq!(
        next_page_link(&page).as_deref(),
        Some("https://prices.azure.com/api/retail/prices?$skip=1000000")
    );
    assert_eq!(next_meter_page_link(&page), None);
    let mut names = SkuNames::new();
    names.add_page(&page);
    names.add_page(&parse(r#"{"Items": [{"armSkuName": "Archive_LRS"}, {"armSkuName": "Hot_LRS"}]}"#));
    assert_eq!(names.into_sorted(), strings(&["Archive_LRS", "Cool_LRS", "Hot_LRS"]));
    let meter = azure_meter_of(&parse(
        r#"{"type": "Consumption", "productName": "Azure OpenAI", "armSkuName": "gpt-4o-0806-Inp-glbl", "meterName": "gpt 4o 0806 Inp glbl Tokens", "unitOfMeasure": "1K"}"#,
    ));
    assert_eq!(meter.item_type.as_deref(), Some("Consumption"));
    assert_eq!(meter.sku, "gpt-4o-0806-Inp-glbl");
    assert_eq!(meter.unit, "1K");
    let named = azure_meter_of(&parse(r#"{"skuName": 5, "armSkuName": "x"}"#));
    assert_eq!(named.sku, "");
    assert_eq!(named.product, "");
    assert!(named.item_type.is_none());
}

const PRICEBOOK: &str = r#"{
  "products": {
    "P1": {"sku": "P1", "attributes": {"servicename": "Titan Text Express", "usagetype": "USE1-InputTokenCount-Units"}},
    "P2": {"sku": "P2", "attributes": {"servicename": "Titan Text Express", "usagetype": "USE1-Batch-InputTokenCount"}},
    "P3": {"sku": "P3", "attributes": {"servicename": "Titan Text Express", "usagetype": "USE1-OutputTokenCount-Units"}},
    "P4": {"sku": "P4", "attributes": {"servicename": "Llama", "usagetype": "USE1-InputTokenCount"}}
  },
  "terms": {"OnDemand": {
    "P1": {"P1.T": {"priceDimensions": {"P1.T.D": {"unit": "1K tokens", "pricePerUnit": {"USD": "0.0002"}}}}},
    "P2": {"P2.T": {"priceDimensions": {"P2.T.D": {"unit": "1K tokens", "pricePerUnit": {"USD": "0.0001"}}}}},
    "P3": {"P3.T": {"priceDimensions": {"P3.T.A": {"unit": "Hrs", "pricePerUnit": {"USD": "9"}}, "P3.T.B": {"unit": "1K Tokens", "pricePerUnit": {"USD": "0.0006"}}}}},
    "P4": {"P4.T": {"priceDimensions": {"P4.T.D": {"pricePerUnit": {"USD": "1"}}}}}
  }}
}"#;

#[test]
fn bedrock_pricebook_lines() {
    let book = parse(PRICEBOOK);
    let lines = bedrock_lines(&book).unwrap();
    assert_eq!(lines.len(), 2);
    assert_eq!(lines[0].service_name, "Titan Text Express");
    assert_eq!(lines[0].usage, "USE1-InputTokenCount-Units");
    assert_eq!(lines[0].usd, "0.0002");
    assert_eq!(lines[1].usd, "0.0006");
    assert_eq!(bedrock_lines(&parse("{}")).unwrap_err(), "missing bedrock products");
    assert_eq!(
        bedrock_lines(&parse(r#"{"products": {}}"#)).unwrap_err(),
        "missing bedrock OnDemand terms"
    );
    let od = match get(get(&book, "terms").unwrap(), "OnDemand").unwrap() {
        Json::Obj(e) => e,
        _ => panic!("terms"),
    };
    assert_eq!(bedrock_on_demand_usd(od, "P4"), None);
    assert_eq!(bedrock_on_demand_usd(od, "missing"), None);
    let index = parse(
        r#"{"offers": {"AmazonBedrockFoundationModels": {"currentRegionIndexUrl": "/offers/v1.0/aws/AmazonBedrockFoundationModels/current/region_index.json"}}}"#,
    );
    assert_eq!(
        bedrock_region_index_url(&index).unwrap(),
        "https://pricing.us-east-1.amazonaws.com/offers/v1.0/aws/AmazonBedrockFoundationModels/current/region_index.json"
    );
    assert_eq!(
        bedrock_region_index_url(&parse(r#"{"offers": {}}"#)).unwrap_err(),
        "AmazonBedrockFoundationModels missing from AWS pricing index"
    );
    let regions = parse(r#"{"regions": {"us-east-1": {"currentVersionUrl": "/v/us-east-1/index.json"}}}"#);
    assert_eq!(
        bedrock_pricebook_url(&regions).unwrap(),
        "https://pricing.us-east-1.amazonaws.com/v/us-east-1/index.json"
    );
    assert_eq!(
        bedrock_pricebook_url(&parse(r#"{"regions": {}}"#)).unwrap_err(),
        "bedrock us-east-1 region missing"
    );
}

#[test]
fn gcp_quote_sku_falls_back_to_first() {
    let skus = vec![
        parse(r#"{"skuId": "A1", "description": "Core"}"#),
        parse(r#"{"skuId": "B2", "description": "Ram"}"#),
    ];
    assert_eq!(quote_sku(&skus, "Ram"), Some(1));
    assert_eq!(quote_sku(&skus, "GPU"), Some(0));
    assert_eq!(quote_sku(&vec![], "GPU"), None);
}
