//! Estimate reports: the content of the CSV, spreadsheet and PDF exports,
//! record by record and cell by cell (writing the file formats is left to the
//! application).
use vstd::prelude::*;
use crate::models::{CloudProvider, CostRow, CostTable, PeriodBreakdown, ProviderUiEstimate, UiEstimateResponse};
use crate::money::{Dec, dec_text_2dp, decimal_text_fixed};
use crate::text::{chars_of, push_str, string_of, strs};

verus! {

/// The export formats.
#[derive(Debug, Clone, Copy, PartialEq, Eq, Structural)]
pub enum ExportFormat {
    Csv,
    Xlsx,
    Pdf,
}

/// An exported file.
#[derive(Debug, Clone)]
pub struct ExportFile {
    pub bytes: Vec<u8>,
    pub content_type: &'static str,
    pub filename: String,
}

pub open spec fn content_type_spec(f: ExportFormat) -> Seq<char> {
    match f {
        ExportFormat::Csv => "text/csv"@,
        ExportFormat::Xlsx => "application/vnd.openxmlformats-officedocument.spreadsheetml.sheet"@,
        ExportFormat::Pdf => "application/pdf"@,
    }
}

pub open spec fn extension_spec(f: ExportFormat) -> Seq<char> {
    match f {
        ExportFormat::Csv => ".csv"@,
        ExportFormat::Xlsx => ".xlsx"@,
        ExportFormat::Pdf => ".pdf"@,
    }
}

impl ExportFormat {
    pub fn content_type(self) -> (res: &'static str)
        ensures
            res@ == content_type_spec(self),
    {
        match self {
            ExportFormat::Csv => "text/csv",
            ExportFormat::Xlsx => "application/vnd.openxmlformats-officedocument.spreadsheetml.sheet",
            ExportFormat::Pdf => "application/pdf",
        }
    }
}

/// The file name of an export: `nimbusbill-estimate-STAMP` and the format's
/// extension, where `STAMP` is the estimate's creation time as
/// `YYYYMMDD-HHMMSS`.
pub fn export_filename(stamp: &str, format: ExportFormat) -> (res: String)
    ensures
        res@ == "nimbusbill-estimate-"@ + stamp@ + extension_spec(format),
{
    let mut out = "nimbusbill-estimate-".to_owned();
    push_str(&mut out, stamp);
    push_str(
        &mut out,
        match format {
            ExportFormat::Csv => ".csv",
            ExportFormat::Xlsx => ".xlsx",
            ExportFormat::Pdf => ".pdf",
        },
    );
    out
}

/// The file of an export with its bytes.
pub fn export_file(bytes: Vec<u8>, stamp: &str, format: ExportFormat) -> (res: ExportFile)
    ensures
        res.bytes@ == bytes@,
        res.content_type@ == content_type_spec(format),
        res.filename@ == "nimbusbill-estimate-"@ + stamp@ + extension_spec(format),
{
    ExportFile { bytes, content_type: format.content_type(), filename: export_filename(stamp, format) }
}

pub fn provider_label(p: CloudProvider) -> (res: String)
    ensures
        res@ == p.label_spec(),
{
    p.label().to_owned()
}

/// An amount with two decimals.
pub open spec fn money_text(d: Dec) -> Seq<char> {
    Dec::text_fixed(d, 2)
}

pub fn dec_str(d: Dec) -> (res: String)
    requires
        d.wf(),
    ensures
        res@ == money_text(d),
{
    dec_text_2dp(d)
}

/// `s` cut to `max` characters, the last one replaced by an ellipsis, when it
/// is longer than `max`.
pub open spec fn truncated(s: Seq<char>, max: int) -> Seq<char> {
    if s.len() <= max {
        s
    } else {
        s.take(if max >= 1 { max - 1 } else { 0 }).push('…')
    }
}

pub fn truncate(s: &str, max: usize) -> (res: String)
    ensures
        res@ == truncated(s@, max as int),
{
    let v = chars_of(s);
    if v.len() <= max {
        return s.to_owned();
    }
    let keep = if max >= 1 {
        max - 1
    } else {
        0
    };
    let mut out: Vec<char> = Vec::new();
    let mut i: usize = 0;
    while i < keep
        invariant
            i <= keep,
            keep < v.len(),
            out@ == v@.take(i as int),
        decreases keep - i,
    {
        out.push(v[i]);
        assert(v@.take(i + 1) =~= v@.take(i as int).push(v@[i as int]));
        i = i + 1;
    }
    out.push('…');
    string_of(&out)
}

/// The five period amounts of a breakdown as text, daily to yearly.
pub open spec fn period_texts(c: PeriodBreakdown) -> Seq<Seq<char>> {
    seq![
        money_text(c.daily),
        money_text(c.monthly),
        money_text(c.quarterly),
        money_text(c.half_yearly),
        money_text(c.yearly),
    ]
}

/// The record of a cost row: category, service, unit price, usage (the
/// quantity when no usage text is given), unit and the five period amounts.
pub open spec fn row_record_spec(row: CostRow) -> Seq<Seq<char>> {
    seq![
        row.category@,
        row.service@,
        money_text(row.unit_price),
        if row.usage_display@.len() == 0 {
            money_text(row.quantity)
        } else {
            row.usage_display@
        },
        row.unit@,
    ] + period_texts(row.costs)
}

/// The record of a totals line: the label, four empty cells and the five
/// period amounts.
pub open spec fn totals_record_spec(label: Seq<char>, c: PeriodBreakdown) -> Seq<Seq<char>> {
    seq![label, seq![], seq![], seq![], seq![]] + period_texts(c)
}

fn push_periods(out: &mut Vec<String>, c: &PeriodBreakdown)
    requires
        c.wf(),
    ensures
        strs(final(out)@) == strs(old(out)@) + period_texts(*c),
{
    let ghost before = strs(out@);
    out.push(dec_str(c.daily));
    out.push(dec_str(c.monthly));
    out.push(dec_str(c.quarterly));
    out.push(dec_str(c.half_yearly));
    out.push(dec_str(c.yearly));
    assert(strs(out@) =~= before + period_texts(*c));
}

pub open spec fn row_ok(row: CostRow) -> bool {
    row.unit_price.wf() && row.quantity.wf() && row.costs.wf()
}

pub fn row_record(row: &CostRow) -> (res: Vec<String>)
    requires
        row_ok(*row),
    ensures
        strs(res@) == row_record_spec(*row),
{
    let mut out: Vec<String> = Vec::new();
    out.push(row.category.clone());
    out.push(row.service.clone());
    out.push(dec_str(row.unit_price));
    if row.usage_display.as_str().is_empty() {
        out.push(dec_str(row.quantity));
    } else {
        out.push(row.usage_display.clone());
    }
    out.push(row.unit.clone());
    let ghost mid = strs(out@);
    push_periods(&mut out, &row.costs);
    assert(strs(out@) =~= row_record_spec(*row));
    out
}

pub fn totals_record(label: &str, costs: &PeriodBreakdown) -> (res: Vec<String>)
    requires
        costs.wf(),
    ensures
        strs(res@) == totals_record_spec(label@, *costs),
{
    let mut out: Vec<String> = Vec::new();
    out.push(label.to_owned());
    out.push(String::new());
    out.push(String::new());
    out.push(String::new());
    out.push(String::new());
    push_periods(&mut out, costs);
    assert(strs(out@) =~= totals_record_spec(label@, *costs));
    out
}

/// The column titles of a cost table.
pub open spec fn table_header_spec() -> Seq<Seq<char>> {
    seq![
        "Category"@,
        "Service"@,
        "Unit Price"@,
        "Usage"@,
        "Unit"@,
        "Daily"@,
        "Monthly"@,
        "Quarterly"@,
        "Half-Yearly"@,
        "Yearly"@,
    ]
}

pub open spec fn records_view(r: Seq<Vec<String>>) -> Seq<Seq<Seq<char>>> {
    r.map_values(|x: Vec<String>| strs(x@))
}

pub open spec fn row_records(rows: Seq<CostRow>) -> Seq<Seq<Seq<char>>> {
    rows.map_values(|r: CostRow| row_record_spec(r))
}

/// The records of a cost table section: its title, the column titles, a
/// record per row and the subtotal.
pub open spec fn table_records(section: Seq<char>, t: CostTable) -> Seq<Seq<Seq<char>>> {
    seq![seq![section], table_header_spec()] + row_records(t.rows@) + seq![
        totals_record_spec("Subtotal"@, t.totals),
    ]
}

pub open spec fn table_ok(t: CostTable) -> bool {
    t.totals.wf() && forall|i: int| 0 <= i < t.rows.len() ==> row_ok(#[trigger] t.rows[i])
}

fn table_header() -> (res: Vec<String>)
    ensures
        strs(res@) == table_header_spec(),
{
    let v = vec![
        "Category".to_owned(),
        "Service".to_owned(),
        "Unit Price".to_owned(),
        "Usage".to_owned(),
        "Unit".to_owned(),
        "Daily".to_owned(),
        "Monthly".to_owned(),
        "Quarterly".to_owned(),
        "Half-Yearly".to_owned(),
        "Yearly".to_owned(),
    ];
    assert(strs(v@) =~= table_header_spec());
    v
}

fn one_cell(s: String) -> (res: Vec<String>)
    ensures
        strs(res@) == seq![s@],
{
    let v = vec![s];
    assert(strs(v@) =~= seq![s@]);
    v
}

fn push_table(out: &mut Vec<Vec<String>>, section: String, t: &CostTable)
    requires
        table_ok(*t),
    ensures
        records_view(final(out)@) == records_view(old(out)@) + table_records(section@, *t),
{
    let ghost before = records_view(out@);
    out.push(one_cell(section));
    out.push(table_header());
    let mut i: usize = 0;
    while i < t.rows.len()
        invariant
            i <= t.rows.len(),
            table_ok(*t),
            records_view(out@) == before + seq![seq![section@], table_header_spec()] + row_records(
                t.rows@.take(i as int),
            ),
        decreases t.rows.len() - i,
    {
        let rec = row_record(&t.rows[i]);
        let ghost mid = records_view(out@);
        out.push(rec);
        assert(records_view(out@) =~= mid.push(strs(rec@)));
        assert(row_records(t.rows@.take(i + 1)) =~= row_records(t.rows@.take(i as int)).push(
            row_record_spec(t.rows@[i as int]),
        ));
        i = i + 1;
    }
    assert(t.rows@.take(t.rows.len() as int) =~= t.rows@);
    let ghost mid = records_view(out@);
    let tot = totals_record("Subtotal", &t.totals);
    out.push(tot);
    assert(records_view(out@) =~= mid.push(strs(tot@)));
    assert(records_view(out@) =~= before + table_records(section@, *t));
}

/// The records of one provider in the CSV report: its label, the
/// infrastructure table, the LLM table when it has rows, the combined total
/// and an empty record.
pub open spec fn provider_records(pe: ProviderUiEstimate) -> Seq<Seq<Seq<char>>> {
    let label = pe.provider.label_spec();
    seq![seq![label]] + table_records("Infrastructure"@, pe.infrastructure) + (if pe.tokens.rows.len()
        > 0 {
        table_records("LLM / Tokens ("@ + label + ")"@, pe.tokens)
    } else {
        seq![]
    }) + seq![totals_record_spec("Combined Total (Infra + LLM)"@, pe.combined), seq![]]
}

pub open spec fn estimate_ok(est: UiEstimateResponse) -> bool {
    forall|i: int|
        0 <= i < est.providers.len() ==> {
            let pe = #[trigger] est.providers[i];
            table_ok(pe.infrastructure) && table_ok(pe.tokens) && pe.combined.wf()
        }
}

pub open spec fn providers_records(ps: Seq<ProviderUiEstimate>) -> Seq<Seq<Seq<char>>>
    decreases ps.len(),
{
    if ps.len() == 0 {
        seq![]
    } else {
        providers_records(ps.drop_last()) + provider_records(ps.last())
    }
}

/// The records of the CSV report: a title, the estimate's name, when it was
/// generated (`generated`, as `YYYY-MM-DD HH:MM UTC`), the pricing source,
/// an empty record, then each provider's records.
pub open spec fn csv_report_spec(est: UiEstimateResponse, generated: Seq<char>) -> Seq<Seq<Seq<char>>> {
    seq![
        seq!["NimbusBill — Cost Report"@],
        seq!["Name"@, est.name@],
        seq!["Generated"@, generated],
        seq![
            "Pricing Source"@,
            if est.live_pricing {
                "Live capture"@
            } else {
                "Cached database"@
            },
        ],
        seq![],
    ] + providers_records(est.providers@)
}

pub fn csv_report(est: &UiEstimateResponse, generated: &str) -> (res: Vec<Vec<String>>)
    requires
        estimate_ok(*est),
    ensures
        records_view(res@) == csv_report_spec(*est, generated@),
{
    let mut out: Vec<Vec<String>> = Vec::new();
    out.push(one_cell("NimbusBill — Cost Report".to_owned()));
    out.push(vec!["Name".to_owned(), est.name.clone()]);
    out.push(vec!["Generated".to_owned(), generated.to_owned()]);
    out.push(
        vec![
            "Pricing Source".to_owned(),
            if est.live_pricing {
                "Live capture".to_owned()
            } else {
                "Cached database".to_owned()
            },
        ],
    );
    out.push(Vec::new());
    let ghost head = records_view(out@);
    assert(head =~= csv_report_spec(*est, generated@).take(5)) by {
        assert(strs(out@[1]@) =~= seq!["Name"@, est.name@]);
        assert(strs(out@[2]@) =~= seq!["Generated"@, generated@]);
        assert(strs(out@[3]@) =~= csv_report_spec(*est, generated@)[3]);
        assert(strs(out@[4]@) =~= Seq::<Seq<char>>::empty());
    }
    let mut i: usize = 0;
    while i < est.providers.len()
        invariant
            i <= est.providers.len(),
            estimate_ok(*est),
            records_view(out@) == head + providers_records(est.providers@.take(i as int)),
        decreases est.providers.len() - i,
    {
        let pe = &est.providers[i];
        assert(table_ok(pe.infrastructure) && table_ok(pe.tokens) && pe.combined.wf()) by {
            assert(est.providers[i as int] == *pe);
        }
        let ghost before = records_view(out@);
        let label = provider_label(pe.provider);
        let first = one_cell(label.clone());
        out.push(first);
        let ghost r1 = records_view(out@);
        assert(r1 =~= before + seq![seq![label@]]);
        push_table(&mut out, "Infrastructure".to_owned(), &pe.infrastructure);
        let ghost r2 = records_view(out@);
        let ghost opt: Seq<Seq<Seq<char>>> = if pe.tokens.rows.len() > 0 {
            table_records("LLM / Tokens ("@ + label@ + ")"@, pe.tokens)
        } else {
            seq![]
        };
        if pe.tokens.rows.len() > 0 {
            let mut section = "LLM / Tokens (".to_owned();
            push_str(&mut section, label.as_str());
            push_str(&mut section, ")");
            push_table(&mut out, section, &pe.tokens);
        }
        let ghost r3 = records_view(out@);
        assert(r3 =~= r2 + opt);
        let tot = totals_record("Combined Total (Infra + LLM)", &pe.combined);
        out.push(tot);
        let empty: Vec<String> = Vec::new();
        out.push(empty);
        proof {
            assert(strs(empty@) =~= Seq::<Seq<char>>::empty());
            assert(records_view(out@) =~= r3 + seq![strs(tot@), strs(empty@)]);
            assert(est.providers@.take(i + 1).drop_last() =~= est.providers@.take(i as int));
            assert(est.providers@.take(i + 1).last() == *pe);
            assert(records_view(out@) =~= before + provider_records(*pe));
        }
        i = i + 1;
    }
    assert(est.providers@.take(est.providers.len() as int) =~= est.providers@);
    assert(records_view(out@) =~= csv_report_spec(*est, generated@));
    out
}

/// How a spreadsheet cell is formatted.
#[derive(Debug, Clone, Copy, PartialEq, Eq, Structural)]
pub enum CellStyle {
    Plain,
    Bold,
    Header,
    Money,
}

/// What a spreadsheet cell holds.
#[derive(Debug, Clone)]
pub enum CellValue {
    Text(String),
    Amount(Dec),
}

/// A spreadsheet cell.
#[derive(Debug, Clone)]
pub struct Cell {
    pub row: u32,
    pub col: u16,
    pub value: CellValue,
    pub style: CellStyle,
}

/// A worksheet: its name and cells, in the order they are written.
#[derive(Debug, Clone)]
pub struct Sheet {
    pub name: String,
    pub cells: Vec<Cell>,
}

/// Row, column, text (empty for an amount), amount (for an amount cell) and
/// style of a cell.
pub type CellView = (int, int, Seq<char>, Option<Dec>, CellStyle);

impl Cell {
    pub open spec fn view(&self) -> CellView {
        match self.value {
            CellValue::Text(t) => (self.row as int, self.col as int, t@, None, self.style),
            CellValue::Amount(d) => (self.row as int, self.col as int, seq![], Some(d), self.style),
        }
    }
}

pub open spec fn cell_views(v: Seq<Cell>) -> Seq<CellView> {
    v.map_values(|c: Cell| c.view())
}

pub open spec fn text_at(r: int, c: int, t: Seq<char>, st: CellStyle) -> CellView {
    (r, c, t, None, st)
}

pub open spec fn amount_at(r: int, c: int, d: Dec) -> CellView {
    (r, c, seq![], Some(d), CellStyle::Money)
}

/// The five period amounts of a breakdown in a row, from column `c0` on.
pub open spec fn period_cells(r: int, c0: int, b: PeriodBreakdown) -> Seq<CellView> {
    seq![
        amount_at(r, c0, b.daily),
        amount_at(r, c0 + 1, b.monthly),
        amount_at(r, c0 + 2, b.quarterly),
        amount_at(r, c0 + 3, b.half_yearly),
        amount_at(r, c0 + 4, b.yearly),
    ]
}

/// The period names as headers in a row, from column `c0` on.
pub open spec fn period_header_cells(r: int, c0: int) -> Seq<CellView> {
    seq![
        text_at(r, c0, "Daily"@, CellStyle::Header),
        text_at(r, c0 + 1, "Monthly"@, CellStyle::Header),
        text_at(r, c0 + 2, "Quarterly"@, CellStyle::Header),
        text_at(r, c0 + 3, "Half-Yearly"@, CellStyle::Header),
        text_at(r, c0 + 4, "Yearly"@, CellStyle::Header),
    ]
}

/// The column titles of a cost table in row `r`.
pub open spec fn header_cells(r: int) -> Seq<CellView> {
    Seq::new(10, |c: int| text_at(r, c, table_header_spec()[c], CellStyle::Header))
}

/// The cells of a cost row in row `r`.
pub open spec fn item_cells(r: int, item: CostRow) -> Seq<CellView> {
    seq![
        text_at(r, 0, item.category@, CellStyle::Plain),
        text_at(r, 1, item.service@, CellStyle::Plain),
        amount_at(r, 2, item.unit_price),
        text_at(
            r,
            3,
            if item.usage_display@.len() == 0 {
                money_text(item.quantity)
            } else {
                item.usage_display@
            },
            CellStyle::Plain,
        ),
        text_at(r, 4, item.unit@, CellStyle::Plain),
    ] + period_cells(r, 5, item.costs)
}

/// The cells of cost rows written from row `r0` down.
pub open spec fn items_cells(r0: int, rows: Seq<CostRow>) -> Seq<CellView>
    decreases rows.len(),
{
    if rows.len() == 0 {
        seq![]
    } else {
        items_cells(r0, rows.drop_last()) + item_cells(r0 + rows.len() - 1, rows.last())
    }
}

/// A cost table written from row `r`: its title in bold, the column titles,
/// a row per cost row, and the subtotal. It takes `rows + 3` rows.
pub open spec fn table_cells(r: int, title: Seq<char>, t: CostTable) -> Seq<CellView> {
    let n = t.rows.len() as int;
    seq![text_at(r, 0, title, CellStyle::Bold)] + header_cells(r + 1) + items_cells(r + 2, t.rows@)
        + seq![text_at(r + 2 + n, 0, "Subtotal"@, CellStyle::Bold)] + period_cells(
        r + 2 + n,
        5,
        t.totals,
    )
}

/// The grand total written from row `r`: a bold title, the period names and
/// the `Grand Total` row.
pub open spec fn combined_cells(r: int, c: PeriodBreakdown) -> Seq<CellView> {
    seq![text_at(r, 0, "Total (Infrastructure + Tokens)"@, CellStyle::Bold)] + period_header_cells(
        r + 1,
        0,
    ) + seq![text_at(r + 2, 0, "Grand Total"@, CellStyle::Bold)] + period_cells(r + 2, 1, c)
}

pub open spec fn pricing_word(live: bool) -> Seq<char> {
    if live {
        "Live"@
    } else {
        "Cached"@
    }
}

/// The sheet of one provider: the report name, generation time and pricing
/// in rows 0-2, the infrastructure table from row 4, the LLM table after a
/// blank row when there are token rows, and the grand total after a blank
/// row.
pub open spec fn provider_sheet_cells(est: UiEstimateResponse, generated: Seq<char>, pe: ProviderUiEstimate) -> Seq<CellView> {
    let meta = seq![
        text_at(0, 0, "Report: "@ + est.name@, CellStyle::Plain),
        text_at(1, 0, "Generated: "@ + generated, CellStyle::Plain),
        text_at(2, 0, "Pricing: "@ + pricing_word(est.live_pricing), CellStyle::Plain),
    ];
    let n1 = pe.infrastructure.rows.len() as int;
    let after_infra = 4 + n1 + 3;
    let label = pe.provider.label_spec();
    let (tokens, after_tokens) = if pe.tokens.rows.len() > 0 {
        (
            table_cells(after_infra + 1, "LLM / Token Costs ("@ + label + ")"@, pe.tokens),
            after_infra + 1 + pe.tokens.rows.len() + 3,
        )
    } else {
        (seq![], after_infra)
    };
    meta + table_cells(4, "Infrastructure Costs"@, pe.infrastructure) + tokens + combined_cells(
        after_tokens + 1,
        pe.combined,
    )
}

/// The summary rows: a row per provider from row `r0` with its label and
/// combined period amounts.
pub open spec fn summary_rows(r0: int, ps: Seq<ProviderUiEstimate>) -> Seq<CellView>
    decreases ps.len(),
{
    if ps.len() == 0 {
        seq![]
    } else {
        let r = r0 + ps.len() - 1;
        summary_rows(r0, ps.drop_last()) + seq![
            text_at(r, 0, ps.last().provider.label_spec(), CellStyle::Plain),
        ] + period_cells(r, 1, ps.last().combined)
    }
}

/// The summary sheet: a title, the report name and generation time, then
/// from row 4 a table of each provider's combined amounts.
pub open spec fn summary_cells(est: UiEstimateResponse, generated: Seq<char>) -> Seq<CellView> {
    seq![
        text_at(0, 0, "NimbusBill — Summary"@, CellStyle::Bold),
        text_at(1, 0, "Report: "@ + est.name@, CellStyle::Plain),
        text_at(2, 0, "Generated: "@ + generated, CellStyle::Plain),
        text_at(4, 0, "Provider"@, CellStyle::Header),
    ] + period_header_cells(4, 1) + summary_rows(5, est.providers@)
}

fn text_cell(row: u32, col: u16, t: String, style: CellStyle) -> (res: Cell)
    ensures
        res.view() == text_at(row as int, col as int, t@, style),
{
    Cell { row, col, value: CellValue::Text(t), style }
}

fn amount_cell(row: u32, col: u16, d: Dec) -> (res: Cell)
    ensures
        res.view() == amount_at(row as int, col as int, d),
{
    Cell { row, col, value: CellValue::Amount(d), style: CellStyle::Money }
}

fn push_period_cells(out: &mut Vec<Cell>, row: u32, c0: u16, b: &PeriodBreakdown)
    requires
        c0 <= 10,
    ensures
        cell_views(final(out)@) == cell_views(old(out)@) + period_cells(row as int, c0 as int, *b),
{
    let ghost before = cell_views(out@);
    out.push(amount_cell(row, c0, b.daily));
    out.push(amount_cell(row, c0 + 1, b.monthly));
    out.push(amount_cell(row, c0 + 2, b.quarterly));
    out.push(amount_cell(row, c0 + 3, b.half_yearly));
    out.push(amount_cell(row, c0 + 4, b.yearly));
    assert(cell_views(out@) =~= before + period_cells(row as int, c0 as int, *b));
}

fn push_period_headers(out: &mut Vec<Cell>, row: u32, c0: u16)
    requires
        c0 <= 10,
    ensures
        cell_views(final(out)@) == cell_views(old(out)@) + period_header_cells(row as int, c0 as int),
{
    let ghost before = cell_views(out@);
    out.push(text_cell(row, c0, "Daily".to_owned(), CellStyle::Header));
    out.push(text_cell(row, c0 + 1, "Monthly".to_owned(), CellStyle::Header));
    out.push(text_cell(row, c0 + 2, "Quarterly".to_owned(), CellStyle::Header));
    out.push(text_cell(row, c0 + 3, "Half-Yearly".to_owned(), CellStyle::Header));
    out.push(text_cell(row, c0 + 4, "Yearly".to_owned(), CellStyle::Header));
    assert(cell_views(out@) =~= before + period_header_cells(row as int, c0 as int));
}

fn push_table_cells(out: &mut Vec<Cell>, row: u32, title: String, t: &CostTable) -> (next: u32)
    requires
        table_ok(*t),
        row + t.rows.len() + 3 <= u32::MAX,
    ensures
        next == row + t.rows.len() + 3,
        cell_views(final(out)@) == cell_views(old(out)@) + table_cells(row as int, title@, *t),
{
    let ghost before = cell_views(out@);
    let ghost title_view = title@;
    out.push(text_cell(row, 0, title, CellStyle::Bold));
    let hdr = table_header();
    assert(hdr.len() == 10) by {
        assert(strs(hdr@).len() == hdr@.len());
    }
    let mut c: usize = 0;
    let ghost mid0 = cell_views(out@);
    assert(mid0 =~= before + seq![text_at(row as int, 0, title_view, CellStyle::Bold)]);
    while c < hdr.len()
        invariant
            c <= hdr.len(),
            hdr.len() == 10,
            strs(hdr@) == table_header_spec(),
            row + t.rows.len() + 3 <= u32::MAX,
            cell_views(out@) == mid0 + header_cells(row + 1).take(c as int),
        decreases hdr.len() - c,
    {
        let ghost m = cell_views(out@);
        assert(strs(hdr@)[c as int] == hdr@[c as int]@);
        out.push(text_cell(row + 1, c as u16, hdr[c].clone(), CellStyle::Header));
        assert(cell_views(out@) =~= m.push(text_at(row + 1, c as int, hdr@[c as int]@, CellStyle::Header)));
        assert(header_cells(row + 1)[c as int] == text_at(row + 1, c as int, hdr@[c as int]@, CellStyle::Header));
        assert(header_cells(row + 1).take(c + 1) =~= header_cells(row + 1).take(c as int).push(
            header_cells(row + 1)[c as int],
        ));
        c = c + 1;
    }
    assert(header_cells(row + 1).take(10) =~= header_cells(row + 1));
    let ghost mid1 = cell_views(out@);
    assert(mid1 =~= mid0 + header_cells(row + 1));
    let mut r = row + 2;
    let mut i: usize = 0;
    while i < t.rows.len()
        invariant
            i <= t.rows.len(),
            table_ok(*t),
            row + t.rows.len() + 3 <= u32::MAX,
            r == row + 2 + i,
            cell_views(out@) == mid1 + items_cells(row + 2, t.rows@.take(i as int)),
        decreases t.rows.len() - i,
    {
        let item = &t.rows[i];
        assert(row_ok(*item)) by {
            assert(t.rows[i as int] == *item);
        }
        let ghost m = cell_views(out@);
        out.push(text_cell(r, 0, item.category.clone(), CellStyle::Plain));
        out.push(text_cell(r, 1, item.service.clone(), CellStyle::Plain));
        out.push(amount_cell(r, 2, item.unit_price));
        let usage = if item.usage_display.as_str().is_empty() {
            dec_str(item.quantity)
        } else {
            item.usage_display.clone()
        };
        out.push(text_cell(r, 3, usage, CellStyle::Plain));
        out.push(text_cell(r, 4, item.unit.clone(), CellStyle::Plain));
        push_period_cells(out, r, 5, &item.costs);
        proof {
            assert(cell_views(out@) =~= m + item_cells(r as int, *item));
            let tk = t.rows@.take(i + 1);
            assert(tk.drop_last() =~= t.rows@.take(i as int));
            assert(tk.last() == *item);
        }
        r = r + 1;
        i = i + 1;
    }
    assert(t.rows@.take(t.rows.len() as int) =~= t.rows@);
    let ghost mid2 = cell_views(out@);
    assert(mid2 =~= mid1 + items_cells(row + 2, t.rows@));
    out.push(text_cell(r, 0, "Subtotal".to_owned(), CellStyle::Bold));
    let ghost mid3 = cell_views(out@);
    assert(mid3 =~= mid2 + seq![text_at(r as int, 0, "Subtotal"@, CellStyle::Bold)]);
    push_period_cells(out, r, 5, &t.totals);
    assert(cell_views(out@) =~= mid3 + period_cells(r as int, 5, t.totals));
    assert(cell_views(out@) =~= before + table_cells(row as int, title_view, *t));
    r + 1
}

fn push_combined_cells(out: &mut Vec<Cell>, row: u32, c: &PeriodBreakdown)
    requires
        row + 2 <= u32::MAX,
    ensures
        cell_views(final(out)@) == cell_views(old(out)@) + combined_cells(row as int, *c),
{
    let ghost before = cell_views(out@);
    out.push(text_cell(row, 0, "Total (Infrastructure + Tokens)".to_owned(), CellStyle::Bold));
    let ghost a = cell_views(out@);
    assert(a =~= before + seq![text_at(row as int, 0, "Total (Infrastructure + Tokens)"@, CellStyle::Bold)]);
    push_period_headers(out, row + 1, 0);
    let ghost b = cell_views(out@);
    assert(b =~= a + period_header_cells(row + 1, 0));
    out.push(text_cell(row + 2, 0, "Grand Total".to_owned(), CellStyle::Bold));
    let ghost d = cell_views(out@);
    assert(d =~= b + seq![text_at(row + 2, 0, "Grand Total"@, CellStyle::Bold)]);
    push_period_cells(out, row + 2, 1, c);
    assert(cell_views(out@) =~= d + period_cells(row + 2, 1, *c));
    assert(cell_views(out@) =~= before + combined_cells(row as int, *c));
}

/// Rows fit the 32-bit row numbers of a spreadsheet.
pub open spec fn sheet_rows_fit(est: UiEstimateResponse) -> bool {
    &&& est.providers.len() + 6 <= u32::MAX
    &&& forall|i: int|
        0 <= i < est.providers.len() ==> (#[trigger] est.providers[i]).infrastructure.rows.len()
            + est.providers[i].tokens.rows.len() + 20 <= u32::MAX
}

fn provider_sheet(est: &UiEstimateResponse, generated: &str, pe: &ProviderUiEstimate) -> (res: Sheet)
    requires
        table_ok(pe.infrastructure),
        table_ok(pe.tokens),
        pe.infrastructure.rows.len() + pe.tokens.rows.len() + 20 <= u32::MAX,
    ensures
        res.name@ == pe.provider.label_spec(),
        cell_views(res.cells@) == provider_sheet_cells(*est, generated@, *pe),
{
    let label = provider_label(pe.provider);
    let mut cells: Vec<Cell> = Vec::new();
    let mut report = "Report: ".to_owned();
    push_str(&mut report, est.name.as_str());
    cells.push(text_cell(0, 0, report, CellStyle::Plain));
    let mut gen = "Generated: ".to_owned();
    push_str(&mut gen, generated);
    cells.push(text_cell(1, 0, gen, CellStyle::Plain));
    let mut pricing = "Pricing: ".to_owned();
    push_str(&mut pricing, if est.live_pricing { "Live" } else { "Cached" });
    cells.push(text_cell(2, 0, pricing, CellStyle::Plain));
    let ghost meta = cell_views(cells@);
    let mut row = push_table_cells(&mut cells, 4, "Infrastructure Costs".to_owned(), &pe.infrastructure);
    let ghost m1 = cell_views(cells@);
    if pe.tokens.rows.len() > 0 {
        let mut title = "LLM / Token Costs (".to_owned();
        push_str(&mut title, label.as_str());
        push_str(&mut title, ")");
        row = push_table_cells(&mut cells, row + 1, title, &pe.tokens);
    }
    let ghost m2 = cell_views(cells@);
    push_combined_cells(&mut cells, row + 1, &pe.combined);
    proof {
        let spec_all = provider_sheet_cells(*est, generated@, *pe);
        assert(cell_views(cells@) =~= spec_all);
    }
    Sheet { name: label, cells }
}

fn summary_sheet(est: &UiEstimateResponse, generated: &str) -> (res: Sheet)
    requires
        est.providers.len() + 6 <= u32::MAX,
    ensures
        res.name@ == "Summary"@,
        cell_views(res.cells@) == summary_cells(*est, generated@),
{
    let mut cells: Vec<Cell> = Vec::new();
    cells.push(text_cell(0, 0, "NimbusBill — Summary".to_owned(), CellStyle::Bold));
    let mut report = "Report: ".to_owned();
    push_str(&mut report, est.name.as_str());
    cells.push(text_cell(1, 0, report, CellStyle::Plain));
    let mut gen = "Generated: ".to_owned();
    push_str(&mut gen, generated);
    cells.push(text_cell(2, 0, gen, CellStyle::Plain));
    cells.push(text_cell(4, 0, "Provider".to_owned(), CellStyle::Header));
    push_period_headers(&mut cells, 4, 1);
    let ghost head = cell_views(cells@);
    let mut r: u32 = 5;
    let mut i: usize = 0;
    while i < est.providers.len()
        invariant
            i <= est.providers.len(),
            est.providers.len() + 6 <= u32::MAX,
            r == 5 + i,
            cell_views(cells@) == head + summary_rows(5, est.providers@.take(i as int)),
        decreases est.providers.len() - i,
    {
        let pe = &est.providers[i];
        let ghost m = cell_views(cells@);
        let lab = provider_label(pe.provider);
        cells.push(text_cell(r, 0, lab, CellStyle::Plain));
        let ghost m2 = cell_views(cells@);
        assert(m2 =~= m + seq![text_at(r as int, 0, pe.provider.label_spec(), CellStyle::Plain)]);
        push_period_cells(&mut cells, r, 1, &pe.combined);
        assert(cell_views(cells@) =~= m2 + period_cells(r as int, 1, pe.combined));
        proof {
            let tk = est.providers@.take(i + 1);
            assert(tk.drop_last() =~= est.providers@.take(i as int));
            assert(tk.last() == *pe);
            assert(cell_views(cells@) =~= head + summary_rows(5, tk));
        }
        r = r + 1;
        i = i + 1;
    }
    assert(est.providers@.take(est.providers.len() as int) =~= est.providers@);
    assert(cell_views(cells@) =~= summary_cells(*est, generated@));
    Sheet { name: "Summary".to_owned(), cells }
}

/// The sheets of the spreadsheet report: one per provider, in order, then
/// the summary.
pub fn xlsx_report(est: &UiEstimateResponse, generated: &str) -> (res: Vec<Sheet>)
    requires
        estimate_ok(*est),
        sheet_rows_fit(*est),
    ensures
        res.len() == est.providers.len() + 1,
        forall|i: int|
            0 <= i < est.providers.len() ==> (#[trigger] res[i]).name@ == est.providers[i].provider.label_spec()
                && cell_views(res[i].cells@) == provider_sheet_cells(
                *est,
                generated@,
                est.providers[i],
            ),
        res[est.providers.len() as int].name@ == "Summary"@,
        cell_views(res[est.providers.len() as int].cells@) == summary_cells(*est, generated@),
{
    let mut sheets: Vec<Sheet> = Vec::new();
    let mut i: usize = 0;
    while i < est.providers.len()
        invariant
            i <= est.providers.len(),
            estimate_ok(*est),
            sheet_rows_fit(*est),
            sheets.len() == i,
            forall|k: int|
                0 <= k < i ==> (#[trigger] sheets[k]).name@ == est.providers[k].provider.label_spec()
                    && cell_views(sheets[k].cells@) == provider_sheet_cells(
                    *est,
                    generated@,
                    est.providers[k],
                ),
        decreases est.providers.len() - i,
    {
        let pe = &est.providers[i];
        assert(table_ok(pe.infrastructure) && table_ok(pe.tokens) && pe.infrastructure.rows.len()
            + pe.tokens.rows.len() + 20 <= u32::MAX) by {
            assert(est.providers[i as int] == *pe);
        }
        sheets.push(provider_sheet(est, generated, pe));
        i = i + 1;
    }
    sheets.push(summary_sheet(est, generated));
    sheets
}

/// A table of the PDF report: its title, its rows of cells and its subtotal
/// row.
#[derive(Debug, Clone)]
pub struct PdfTable {
    pub title: String,
    pub rows: Vec<Vec<String>>,
    pub subtotal: Vec<String>,
}

/// One provider's part of the PDF report.
#[derive(Debug, Clone)]
pub struct PdfSection {
    pub label: String,
    pub infrastructure: PdfTable,
    /// The LLM table, when the provider has token rows.
    pub tokens: Option<PdfTable>,
    /// The grand-total row, shown with the LLM table.
    pub grand_total: Option<Vec<String>>,
}

/// The content of the PDF report.
#[derive(Debug, Clone)]
pub struct PdfReport {
    pub title: String,
    pub meta: String,
    pub pricing: String,
    pub sections: Vec<PdfSection>,
}

/// The header row of a PDF table.
pub open spec fn pdf_header_spec() -> Seq<Seq<char>> {
    seq!["Category"@, "Service"@, "Daily"@, "Monthly"@, "Quarterly"@, "Half-Yr"@, "Yearly"@]
}

/// The header row of every PDF table.
pub fn pdf_header() -> (res: Vec<String>)
    ensures
        strs(res@) == pdf_header_spec(),
{
    let v = vec![
        "Category".to_owned(),
        "Service".to_owned(),
        "Daily".to_owned(),
        "Monthly".to_owned(),
        "Quarterly".to_owned(),
        "Half-Yr".to_owned(),
        "Yearly".to_owned(),
    ];
    assert(strs(v@) =~= pdf_header_spec());
    v
}

/// A PDF table row: category cut to 12 characters, service to 16, and the
/// five period amounts.
pub open spec fn pdf_row_spec(r: CostRow) -> Seq<Seq<char>> {
    seq![truncated(r.category@, 12), truncated(r.service@, 16)] + period_texts(r.costs)
}

/// A PDF total row: the label, an empty cell and the five period amounts.
pub open spec fn pdf_total_spec(label: Seq<char>, c: PeriodBreakdown) -> Seq<Seq<char>> {
    seq![label, seq![]] + period_texts(c)
}

pub open spec fn pdf_table_ok(title: Seq<char>, t: CostTable, p: PdfTable) -> bool {
    &&& p.title@ == title
    &&& p.rows.len() == t.rows.len()
    &&& forall|i: int| 0 <= i < p.rows.len() ==> strs((#[trigger] p.rows[i])@) == pdf_row_spec(t.rows[i])
    &&& strs(p.subtotal@) == pdf_total_spec("Subtotal"@, t.totals)
}

/// The section of a provider: its label, the infrastructure table, and with
/// token rows the LLM table and the grand total.
pub open spec fn pdf_section_ok(pe: ProviderUiEstimate, s: PdfSection) -> bool {
    let label = pe.provider.label_spec();
    &&& s.label@ == label
    &&& pdf_table_ok("Infrastructure"@, pe.infrastructure, s.infrastructure)
    &&& (pe.tokens.rows.len() > 0 <==> s.tokens is Some)
    &&& (s.tokens matches Some(t) ==> pdf_table_ok("LLM / Tokens ("@ + label + ")"@, pe.tokens, t))
    &&& (pe.tokens.rows.len() > 0 <==> s.grand_total is Some)
    &&& (s.grand_total matches Some(g) ==> strs(g@) == pdf_total_spec("Grand Total"@, pe.combined))
}

/// Providers with something to show.
pub open spec fn pdf_shown(ps: Seq<ProviderUiEstimate>) -> Seq<ProviderUiEstimate>
    decreases ps.len(),
{
    if ps.len() == 0 {
        seq![]
    } else {
        let prev = pdf_shown(ps.drop_last());
        let p = ps.last();
        if p.infrastructure.rows.len() > 0 || p.tokens.rows.len() > 0 {
            prev.push(p)
        } else {
            prev
        }
    }
}

fn pdf_cells_total(label: &str, c: &PeriodBreakdown) -> (res: Vec<String>)
    requires
        c.wf(),
    ensures
        strs(res@) == pdf_total_spec(label@, *c),
{
    let mut out: Vec<String> = Vec::new();
    out.push(label.to_owned());
    out.push(String::new());
    push_periods(&mut out, c);
    assert(strs(out@) =~= pdf_total_spec(label@, *c));
    out
}

fn pdf_table(title: String, t: &CostTable) -> (res: PdfTable)
    requires
        table_ok(*t),
    ensures
        pdf_table_ok(title@, *t, res),
{
    let mut rows: Vec<Vec<String>> = Vec::new();
    let mut i: usize = 0;
    while i < t.rows.len()
        invariant
            i <= t.rows.len(),
            table_ok(*t),
            rows.len() == i,
            forall|k: int| 0 <= k < i ==> strs((#[trigger] rows[k])@) == pdf_row_spec(t.rows[k]),
        decreases t.rows.len() - i,
    {
        let r = &t.rows[i];
        assert(row_ok(*r)) by {
            assert(t.rows[i as int] == *r);
        }
        let mut cells: Vec<String> = Vec::new();
        cells.push(truncate(r.category.as_str(), 12));
        cells.push(truncate(r.service.as_str(), 16));
        push_periods(&mut cells, &r.costs);
        assert(strs(cells@) =~= pdf_row_spec(*r));
        rows.push(cells);
        i = i + 1;
    }
    PdfTable { title, rows, subtotal: pdf_cells_total("Subtotal", &t.totals) }
}

/// The PDF report: a title, a `Report: NAME  |  Generated: TIME` line, the
/// pricing source, and a section per provider with rows to show, in order.
pub fn pdf_report(est: &UiEstimateResponse, generated: &str) -> (res: PdfReport)
    requires
        estimate_ok(*est),
    ensures
        res.title@ == "NimbusBill — Cost Report"@,
        res.meta@ == "Report: "@ + est.name@ + "  |  Generated: "@ + generated@,
        res.pricing@ == "Pricing: "@ + (if est.live_pricing {
            "Live capture"@
        } else {
            "Cached database"@
        }),
        res.sections.len() == pdf_shown(est.providers@).len(),
        forall|i: int|
            0 <= i < res.sections.len() ==> pdf_section_ok(
                pdf_shown(est.providers@)[i],
                #[trigger] res.sections[i],
            ),
{
    let mut meta = "Report: ".to_owned();
    push_str(&mut meta, est.name.as_str());
    push_str(&mut meta, "  |  Generated: ");
    push_str(&mut meta, generated);
    let mut pricing = "Pricing: ".to_owned();
    push_str(&mut pricing, if est.live_pricing { "Live capture" } else { "Cached database" });
    let mut sections: Vec<PdfSection> = Vec::new();
    let mut i: usize = 0;
    while i < est.providers.len()
        invariant
            i <= est.providers.len(),
            estimate_ok(*est),
            sections.len() == pdf_shown(est.providers@.take(i as int)).len(),
            forall|k: int|
                0 <= k < sections.len() ==> pdf_section_ok(
                    pdf_shown(est.providers@.take(i as int))[k],
                    #[trigger] sections[k],
                ),
        decreases est.providers.len() - i,
    {
        let pe = &est.providers[i];
        assert(table_ok(pe.infrastructure) && table_ok(pe.tokens) && pe.combined.wf()) by {
            assert(est.providers[i as int] == *pe);
        }
        proof {
            let tk = est.providers@.take(i + 1);
            assert(tk.drop_last() =~= est.providers@.take(i as int));
            assert(tk.last() == *pe);
        }
        if pe.infrastructure.rows.len() > 0 || pe.tokens.rows.len() > 0 {
            let label = provider_label(pe.provider);
            let infrastructure = pdf_table("Infrastructure".to_owned(), &pe.infrastructure);
            let (tokens, grand_total) = if pe.tokens.rows.len() > 0 {
                let mut title = "LLM / Tokens (".to_owned();
                push_str(&mut title, label.as_str());
                push_str(&mut title, ")");
                (
                    Some(pdf_table(title, &pe.tokens)),
                    Some(pdf_cells_total("Grand Total", &pe.combined)),
                )
            } else {
                (None, None)
            };
            let sec = PdfSection { label, infrastructure, tokens, grand_total };
            let ghost before = sections@;
            sections.push(sec);
            proof {
                let sh = pdf_shown(est.providers@.take(i + 1));
                assert(sh == pdf_shown(est.providers@.take(i as int)).push(*pe));
                assert forall|k: int| 0 <= k < sections.len() implies pdf_section_ok(
                    sh[k],
                    #[trigger] sections[k],
                ) by {
                    if k < before.len() {
                        assert(sections[k] == before[k]);
                    }
                }
            }
        }
        i = i + 1;
    }
    assert(est.providers@.take(est.providers.len() as int) =~= est.providers@);
    PdfReport { title: "NimbusBill — Cost Report".to_owned(), meta, pricing, sections }
}

} // verus!
