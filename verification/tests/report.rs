use nimbusbill::models::{
    CloudProvider, CostRow, CostTable, PeriodBreakdown, ProviderUiEstimate, Timestamp,
    UiEstimateResponse,
};
use nimbusbill::money::Dec;
use nimbusbill::report::{
    csv_report, dec_str, export_file, export_filename, pdf_report, provider_label, row_record,
    totals_record, truncate, xlsx_report, CellStyle, CellValue, ExportFormat,
};

fn sample() -> UiEstimateResponse {
    let costs = PeriodBreakdown::from_monthly(Dec::new(3037, 2));
    UiEstimateResponse {
        id: 7,
        name: "test".into(),
        live_pricing: false,
        providers: vec![ProviderUiEstimate {
            provider: CloudProvider::Aws,
            infrastructure: CostTable {
                rows: vec![CostRow {
                    category: "Compute".into(),
                    service: "EC2".into(),
                    description: "ec2".into(),
                    unit_price: Dec::new(416, 4),
                    quantity: Dec::from_u64(730),
                    unit: "hours".into(),
                    usage_display: "730 h".into(),
                    costs,
                }],
                totals: costs,
            },
            tokens: CostTable {
                rows: vec![],
                totals: PeriodBreakdown::zero(),
            },
            combined: costs,
        }],
        created_at: Timestamp { secs: 0, nanos: 0 },
    }
}

fn csv_bytes(records: &[Vec<String>]) -> Vec<u8> {
    let mut w = csv::WriterBuilder::new().flexible(true).from_writer(Vec::new());
    for r in records {
        w.write_record(r).unwrap();
    }
    w.into_inner().unwrap()
}

#[test]
fn all_export_formats() {
    let est = sample();
    for fmt in [ExportFormat::Csv, ExportFormat::Xlsx, ExportFormat::Pdf] {
        let bytes = match fmt {
            ExportFormat::Csv => csv_bytes(&csv_report(&est, "2024-01-01 00:00 UTC")),
            ExportFormat::Xlsx => {
                let sheets = xlsx_report(&est, "2024-01-01 00:00 UTC");
                assert!(sheets.iter().all(|s| !s.cells.is_empty()));
                sheets.iter().flat_map(|s| s.name.clone().into_bytes()).collect()
            }
            ExportFormat::Pdf => {
                let report = pdf_report(&est, "2024-01-01 00:00 UTC");
                assert!(!report.sections.is_empty());
                report.title.clone().into_bytes()
            }
        };
        let f = export_file(bytes, "20240101-000000", fmt);
        assert!(!f.bytes.is_empty());
    }
}

#[test]
fn export_names_and_types() {
    assert_eq!(
        export_filename("20240102-030405", ExportFormat::Xlsx),
        "nimbusbill-estimate-20240102-030405.xlsx"
    );
    let f = export_file(vec![1, 2], "20240102-030405", ExportFormat::Pdf);
    assert_eq!(f.content_type, "application/pdf");
    assert_eq!(f.filename, "nimbusbill-estimate-20240102-030405.pdf");
    assert_eq!(f.bytes, vec![1, 2]);
    assert_eq!(ExportFormat::Csv.content_type(), "text/csv");
    assert_eq!(provider_label(CloudProvider::Gcp), "GCP");
}

#[test]
fn money_and_truncation() {
    assert_eq!(dec_str(Dec::new(416, 4)), "0.04");
    assert_eq!(dec_str(Dec::new(3037, 2)), "30.37");
    assert_eq!(dec_str(Dec::from_u64(5)), "5.00");
    assert_eq!(truncate("Compute", 12), "Compute");
    assert_eq!(truncate("Amazon Elastic Compute", 8), "Amazon …");
    assert_eq!(truncate("abc", 0), "…");
}

#[test]
fn csv_report_records() {
    let est = sample();
    let recs = csv_report(&est, "2024-01-01 00:00 UTC");
    assert_eq!(recs.len(), 12);
    assert_eq!(recs[0], vec!["NimbusBill — Cost Report".to_string()]);
    assert_eq!(recs[1], vec!["Name".to_string(), "test".to_string()]);
    assert_eq!(recs[3], vec!["Pricing Source".to_string(), "Cached database".to_string()]);
    assert!(recs[4].is_empty());
    assert_eq!(recs[5], vec!["AWS".to_string()]);
    assert_eq!(recs[6], vec!["Infrastructure".to_string()]);
    assert_eq!(recs[7][2], "Unit Price");
    assert_eq!(
        recs[8],
        vec!["Compute", "EC2", "0.04", "730 h", "hours", "1.01", "30.37", "91.11", "182.22", "364.44"]
            .into_iter()
            .map(String::from)
            .collect::<Vec<_>>()
    );
    assert_eq!(recs[9][0], "Subtotal");
    assert_eq!(recs[10][0], "Combined Total (Infra + LLM)");
    assert!(recs[11].is_empty());
    let row = &est.providers[0].infrastructure.rows[0];
    assert_eq!(row_record(row), recs[8]);
    let tot = totals_record("Subtotal", &row.costs);
    assert_eq!(tot[1], "");
    assert_eq!(tot[9], "364.44");
}

#[test]
fn spreadsheet_and_pdf_content() {
    let est = sample();
    let sheets = xlsx_report(&est, "now");
    assert_eq!(sheets.len(), 2);
    assert_eq!(sheets[0].name, "AWS");
    assert_eq!(sheets[1].name, "Summary");
    let first = &sheets[0].cells[0];
    assert_eq!((first.row, first.col, first.style), (0, 0, CellStyle::Plain));
    match &first.value {
        CellValue::Text(t) => assert_eq!(t, "Report: test"),
        CellValue::Amount(_) => panic!("expected text"),
    }
    let report = pdf_report(&est, "now");
    assert_eq!(report.meta, "Report: test  |  Generated: now");
    assert_eq!(report.pricing, "Pricing: Cached database");
    assert_eq!(report.sections.len(), 1);
    assert_eq!(report.sections[0].label, "AWS");
    assert_eq!(report.sections[0].infrastructure.rows.len(), 1);
    assert!(report.sections[0].tokens.is_none());
}

#[test]
fn pdf_table_header() {
    assert_eq!(
        nimbusbill::report::pdf_header(),
        vec!["Category", "Service", "Daily", "Monthly", "Quarterly", "Half-Yr", "Yearly"]
            .into_iter()
            .map(String::from)
            .collect::<Vec<_>>()
    );
}
