use nimbusbill::models::{CloudProvider, EstimateRequest, TokenUsageSpec, UiResourceInput};
use nimbusbill::money::Dec;
use nimbusbill::workload::{
    estimate_to_requirement, is_estimate_upload, parse_csv_bytes, parse_row_resource, parse_text,
    row_to_map, upload_kind, workload_from_table, RowError, TableKind, UploadKind, WorkloadError,
};

fn strings(v: &[&str]) -> Vec<String> {
    v.iter().map(|s| s.to_string()).collect()
}

#[test]
fn parse_csv_workload() {
    let csv = b"provider,service,region,sku,quantity,instance_count,hours\naws,ec2,us-east-1,t3.medium,730,1,730\n";
    let set = parse_csv_bytes(csv).unwrap();
    assert_eq!(set.resources.len(), 1);
    assert_eq!(set.resources[0].region, "us-east-1");
}

#[test]
fn csv_workload_reads_every_column() {
    let csv = b"Provider , Service,Region,SKU,Quantity,Unit\naws,ec2,us-east-1,t3.medium,2.5,\n,,,,,\ngcp,gce,us-central1,,4,vcpu\n";
    let set = parse_csv_bytes(csv).unwrap();
    assert_eq!(set.name, "csv-import");
    assert!(set.description.is_none());
    assert_eq!(set.resources.len(), 2);
    let first = &set.resources[0];
    assert_eq!(first.provider.as_deref(), Some("aws"));
    assert_eq!(first.service, "ec2");
    assert_eq!(first.sku.as_deref(), Some("t3.medium"));
    assert_eq!((first.quantity.mantissa, first.quantity.scale), (25, 1));
    assert_eq!(first.unit, "hours");
    let second = &set.resources[1];
    assert!(second.sku.is_none());
    assert_eq!(second.unit, "vcpu");
}

#[test]
fn csv_workload_errors() {
    assert_eq!(
        parse_csv_bytes(b"service,region,quantity\n").unwrap_err(),
        WorkloadError::NoRows
    );
    assert_eq!(
        parse_csv_bytes(b"service,region,quantity\nec2,us-east-1,lots\n").unwrap_err(),
        WorkloadError::Row(0, RowError::QuantityNotNumber)
    );
    assert_eq!(
        parse_csv_bytes(b"service,quantity\nec2,1\n").unwrap_err(),
        WorkloadError::Row(0, RowError::NeedsRegion)
    );
    let err = parse_csv_bytes(b"service,region,quantity\nec2,us-east-1,1\n,eu-west-1,1\n").unwrap_err();
    assert_eq!(err, WorkloadError::Row(1, RowError::NeedsService));
    assert_eq!(
        err.message(TableKind::Csv),
        "csv row 3: csv/xlsx row needs service or catalog_id"
    );
}

#[test]
fn text_workload_lines() {
    let set = parse_text("# resources\n\nec2, us-east-1, 730, t3.medium\ns3,eu-west-1,100\r\n").unwrap();
    assert_eq!(set.name, "text-import");
    assert_eq!(set.resources.len(), 2);
    assert_eq!(set.resources[0].service, "ec2");
    assert_eq!(set.resources[0].region, "us-east-1");
    assert_eq!(set.resources[0].sku.as_deref(), Some("t3.medium"));
    assert_eq!(set.resources[0].unit, "units");
    assert_eq!((set.resources[0].quantity.mantissa, set.resources[0].quantity.scale), (730, 0));
    assert!(set.resources[1].sku.is_none());
    assert!(set.resources[1].provider.is_none());
}

#[test]
fn text_workload_errors() {
    let err = parse_text("ec2,us-east-1,1\nbroken line\n").unwrap_err();
    assert_eq!(err, WorkloadError::LineFormat(2));
    assert_eq!(
        err.message(TableKind::Csv),
        "line 2: expected service,region,quantity[,sku]"
    );
    assert_eq!(parse_text("ec2,us-east-1,many").unwrap_err(), WorkloadError::TextQuantity);
    assert_eq!(WorkloadError::TextQuantity.message(TableKind::Csv), "quantity");
    assert!(parse_text("").unwrap().resources.is_empty());
}

#[test]
fn row_map_drops_empty_values_and_trims() {
    let headers = strings(&["service", "region", "sku"]);
    let row = strings(&[" ec2 ", "us-east-1", "  "]);
    let map = row_to_map(&headers, &row);
    assert_eq!(
        map,
        vec![
            ("service".to_string(), "ec2".to_string()),
            ("region".to_string(), "us-east-1".to_string())
        ]
    );
}

#[test]
fn row_resource_defaults_and_errors() {
    let pairs = |v: &[(&str, &str)]| -> Vec<(String, String)> {
        v.iter().map(|(a, b)| (a.to_string(), b.to_string())).collect()
    };
    let spec = parse_row_resource(&pairs(&[
        ("catalog_id", "aws:AmazonEC2"),
        ("region", "us-east-1"),
        ("quantity", "3"),
        ("hours", "100"),
    ]))
    .unwrap();
    assert_eq!(spec.service, "aws:AmazonEC2");
    assert_eq!(spec.catalog_id.as_deref(), Some("aws:AmazonEC2"));
    assert_eq!(spec.unit, "hours");
    assert_eq!(spec.hours.map(|h| h.mantissa), Some(100));
    assert!(spec.instance_count.is_none());
    assert_eq!(
        parse_row_resource(&pairs(&[("service", "ec2"), ("region", "r")])).unwrap_err(),
        RowError::NeedsQuantity
    );
    assert_eq!(
        parse_row_resource(&pairs(&[
            ("service", "ec2"),
            ("region", "r"),
            ("quantity", "1"),
            ("instance_count", "two")
        ]))
        .unwrap_err(),
        RowError::InstanceCount
    );
    assert_eq!(
        parse_row_resource(&pairs(&[
            ("service", "ec2"),
            ("region", "r"),
            ("quantity", "1"),
            ("hours", "x")
        ]))
        .unwrap_err(),
        RowError::Hours
    );
    assert_eq!(RowError::Hours.reason(), "hours");
}

#[test]
fn table_rows_from_spreadsheet() {
    let headers = strings(&["Service", "Region", "Quantity"]);
    let rows = vec![
        Some(strings(&["", " "])),
        Some(strings(&["vm", "eastus", "2"])),
    ];
    let set = workload_from_table(TableKind::Xlsx, &headers, &rows).unwrap();
    assert_eq!(set.name, "xlsx-import");
    assert_eq!(set.resources.len(), 1);
    assert_eq!(set.resources[0].region, "eastus");
    let bad = vec![Some(strings(&["vm", "eastus", "2"])), None];
    let err = workload_from_table(TableKind::Xlsx, &headers, &bad).unwrap_err();
    assert_eq!(err, WorkloadError::Row(1, RowError::Unreadable));
    assert_eq!(err.message(TableKind::Xlsx), "xlsx row 3: record could not be read");
    assert_eq!(
        workload_from_table(TableKind::Xlsx, &headers, &vec![]).unwrap_err().message(TableKind::Xlsx),
        "xlsx has no resource rows"
    );
    assert_eq!(WorkloadError::NoHeader.message(TableKind::Csv), "csv header row");
}

#[test]
fn upload_kinds_by_extension() {
    assert_eq!(upload_kind(Some("JSON")).unwrap(), UploadKind::Json);
    assert_eq!(upload_kind(Some("yml")).unwrap(), UploadKind::Yaml);
    assert_eq!(upload_kind(Some("yaml")).unwrap(), UploadKind::Yaml);
    assert_eq!(upload_kind(Some("csv")).unwrap(), UploadKind::Csv);
    assert_eq!(upload_kind(Some("xlsx")).unwrap(), UploadKind::Xlsx);
    assert_eq!(upload_kind(Some("Txt")).unwrap(), UploadKind::Text);
    assert_eq!(
        upload_kind(Some("pdf")).unwrap_err(),
        "unsupported format: pdf (use json, yaml, csv, or xlsx)"
    );
    assert_eq!(
        upload_kind(None).unwrap_err(),
        "unsupported format:  (use json, yaml, csv, or xlsx)"
    );
}

fn request(providers: Vec<CloudProvider>, with_resource: bool) -> EstimateRequest {
    let resources = if with_resource {
        vec![UiResourceInput {
            catalog_id: "aws:AmazonEC2".into(),
            provider: CloudProvider::Aws,
            region: "us-east-1".into(),
            sub_region: Some("us-east-1a".into()),
            quantity: Dec::new(2, 0),
            sku: Some("t3.micro".into()),
            instance_count: Some(Dec::new(2, 0)),
            hours: None,
        }]
    } else {
        vec![]
    };
    EstimateRequest {
        name: "web".into(),
        providers,
        live_pricing: false,
        resources,
        token_usage: vec![TokenUsageSpec {
            model: "gpt-4o".into(),
            provider: "azure".into(),
            input_tokens_per_month: 10,
            output_tokens_per_month: 20,
            cloud_provider: None,
            display_name: None,
        }],
    }
}

#[test]
fn estimate_uploads_need_providers_and_resources() {
    assert!(is_estimate_upload(&request(vec![CloudProvider::Aws], true)));
    assert!(!is_estimate_upload(&request(vec![], true)));
    assert!(!is_estimate_upload(&request(vec![CloudProvider::Aws], false)));
}

#[test]
fn estimate_request_as_workload() {
    let set = estimate_to_requirement(request(vec![CloudProvider::Aws], true));
    assert_eq!(set.name, "web");
    assert_eq!(set.resources.len(), 1);
    let r = &set.resources[0];
    assert_eq!(r.service, "aws:AmazonEC2");
    assert_eq!(r.catalog_id.as_deref(), Some("aws:AmazonEC2"));
    assert_eq!(r.provider.as_deref(), Some("aws"));
    assert_eq!(r.unit, "units");
    assert_eq!(r.sub_region.as_deref(), Some("us-east-1a"));
    assert_eq!(r.sku.as_deref(), Some("t3.micro"));
    assert_eq!(set.token_usage.len(), 1);
}
