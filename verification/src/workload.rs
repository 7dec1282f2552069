//! Reading workloads: the plain-text format, table rows (CSV and
//! spreadsheets) keyed by their header, and an estimate request seen as a
//! workload.
use vstd::prelude::*;
use crate::estimate::opt_view;
use crate::money::{Dec, dec_parse, decimal_parse};
use crate::models::{CloudProvider, EstimateRequest, RequirementSet, ResourceSpec, TokenUsageSpec};
use crate::text::{
    chars_of, lowercase, nat_text, push_str, seq_starts, split, split_on, string_of, strs, trim,
    trimmed, unicode_lowercase, views,
};

verus! {

/// Why a workload could not be read.
#[derive(Debug, Clone, PartialEq, Eq)]
pub enum WorkloadError {
    /// A text line (numbered from 1) is not `service,region,quantity[,sku]`.
    LineFormat(usize),
    /// A text line's quantity is not a decimal number.
    TextQuantity,
    /// A table row could not be read or lacks something: the row's position
    /// after the header (0-based; the file numbers it from 2) and the reason.
    Row(usize, RowError),
    /// The table has no resource rows.
    NoRows,
    /// The table has no header row.
    NoHeader,
}

/// What is wrong with a table row.
#[derive(Debug, Clone, Copy, PartialEq, Eq, Structural)]
pub enum RowError {
    /// The row could not be read.
    Unreadable,
    NeedsService,
    NeedsRegion,
    NeedsQuantity,
    QuantityNotNumber,
    InstanceCount,
    Hours,
}

/// `s` without one trailing carriage return.
pub open spec fn strip_cr(s: Seq<char>) -> Seq<char> {
    if s.len() > 0 && s.last() == '\r' {
        s.drop_last()
    } else {
        s
    }
}

/// The lines of a text (`str::lines`): split at line feeds, without a final
/// empty piece, each without a trailing carriage return.
pub open spec fn text_lines(s: Seq<char>) -> Seq<Seq<char>> {
    let parts = split_on(s, '\n');
    let ps = if parts.last().len() == 0 {
        parts.drop_last()
    } else {
        parts
    };
    ps.map_values(|p: Seq<char>| strip_cr(p))
}

fn lines_of(s: &str) -> (res: Vec<Vec<char>>)
    ensures
        views(res@) == text_lines(s@),
{
    let v = chars_of(s);
    let parts = split(&v, '\n');
    proof {
        crate::text::lemma_split_nonempty(v@, '\n');
    }
    let ghost sp = split_on(v@, '\n');
    let n = if parts[parts.len() - 1].len() == 0 {
        assert(parts[parts.len() - 1]@ == sp.last());
        parts.len() - 1
    } else {
        assert(parts[parts.len() - 1]@ == sp.last());
        parts.len()
    };
    let ghost ps = if sp.last().len() == 0 {
        sp.drop_last()
    } else {
        sp
    };
    assert(ps.len() == n);
    let mut out: Vec<Vec<char>> = Vec::new();
    let mut i: usize = 0;
    while i < n
        invariant
            i <= n,
            n <= parts.len(),
            parts.len() == sp.len(),
            ps.len() == n,
            forall|k: int| 0 <= k < n ==> ps[k] == sp[k],
            forall|k: int| 0 <= k < parts.len() ==> (#[trigger] parts[k])@ == sp[k],
            views(out@) == ps.take(i as int).map_values(|p: Seq<char>| strip_cr(p)),
        decreases n - i,
    {
        let p = &parts[i];
        assert(p@ == ps[i as int]);
        let mut line: Vec<char> = p.clone();
        assert(line@ =~= p@);
        if line.len() > 0 && line[line.len() - 1] == '\r' {
            line.pop();
        }
        assert(line@ =~= strip_cr(ps[i as int]));
        let ghost before = out@;
        out.push(line);
        assert(views(out@) =~= views(before).push(line@));
        assert(ps.take(i + 1).map_values(|p: Seq<char>| strip_cr(p)) =~= ps.take(i as int).map_values(
            |p: Seq<char>| strip_cr(p),
        ).push(strip_cr(ps[i as int])));
        i = i + 1;
    }
    assert(ps.take(n as int) =~= ps);
    out
}

/// A text line that holds a resource: not blank and not a `#` comment.
pub open spec fn text_line_used(line: Seq<char>) -> bool {
    let t = trimmed(line);
    t.len() > 0 && t[0] != '#'
}

/// The trimmed comma-separated fields of a text line.
pub open spec fn text_fields(line: Seq<char>) -> Seq<Seq<char>> {
    split_on(trimmed(line), ',').map_values(|f: Seq<char>| trimmed(f))
}

/// The error a used text line (number `n`) gives, if any.
pub open spec fn text_line_error(line: Seq<char>, n: int) -> Option<WorkloadError> {
    let f = text_fields(line);
    if f.len() < 3 {
        Some(WorkloadError::LineFormat(n as usize))
    } else if decimal_parse(f[2]) is None {
        Some(WorkloadError::TextQuantity)
    } else {
        None
    }
}

/// Line `i` is the first used line with an error.
pub open spec fn first_bad_line(lines: Seq<Seq<char>>, i: int) -> bool {
    &&& 0 <= i < lines.len()
    &&& text_line_used(lines[i])
    &&& text_line_error(lines[i], i + 1) is Some
    &&& forall|j: int|
        0 <= j < i ==> !(text_line_used(#[trigger] lines[j]) && text_line_error(lines[j], j + 1) is Some)
}

/// Positions of the used lines.
pub open spec fn used_lines(lines: Seq<Seq<char>>) -> Seq<int>
    decreases lines.len(),
{
    if lines.len() == 0 {
        seq![]
    } else {
        let prev = used_lines(lines.drop_last());
        if text_line_used(lines.last()) {
            prev.push(lines.len() - 1)
        } else {
            prev
        }
    }
}

/// The resource a used text line describes: service, region and quantity,
/// the fourth field as SKU when there is one, in `units`, nothing else set.
pub open spec fn text_resource(line: Seq<char>, r: ResourceSpec) -> bool {
    let f = text_fields(line);
    &&& r.service@ == f[0]
    &&& r.region@ == f[1]
    &&& Dec::parsed(f[2]) == Some(r.quantity)
    &&& opt_view(r.sku) == (if f.len() > 3 {
        Some(f[3])
    } else {
        None
    })
    &&& r.unit@ == "units"@
    &&& r.provider is None
    &&& r.tags@.len() == 0
    &&& r.catalog_id is None
    &&& r.display_name is None
    &&& r.category is None
    &&& r.sub_region is None
    &&& r.region_label is None
    &&& r.instance_count is None
    &&& r.hours is None
    &&& r.wf()
}

fn fields_of(line: &Vec<char>) -> (res: Vec<String>)
    ensures
        strs(res@) == text_fields(line@),
{
    let t = trim(line);
    let parts = split(&t, ',');
    let ghost sp = split_on(t@, ',');
    let mut out: Vec<String> = Vec::new();
    let mut i: usize = 0;
    while i < parts.len()
        invariant
            i <= parts.len(),
            parts.len() == sp.len(),
            forall|k: int| 0 <= k < parts.len() ==> (#[trigger] parts[k])@ == sp[k],
            strs(out@) == sp.take(i as int).map_values(|f: Seq<char>| trimmed(f)),
        decreases parts.len() - i,
    {
        assert(parts[i as int]@ == sp[i as int]);
        let f = string_of(&trim(&parts[i]));
        let ghost before = out@;
        out.push(f);
        assert(strs(out@) =~= strs(before).push(f@));
        assert(sp.take(i + 1).map_values(|f: Seq<char>| trimmed(f)) =~= sp.take(i as int).map_values(
            |f: Seq<char>| trimmed(f),
        ).push(trimmed(sp[i as int])));
        i = i + 1;
    }
    assert(sp.take(parts.len() as int) =~= sp);
    out
}

/// Reads the plain-text workload format: one resource per line as
/// `service,region,quantity[,sku]`; blank lines and `#` comments are skipped.
pub fn parse_text(content: &str) -> (res: Result<RequirementSet, WorkloadError>)
    ensures
        match res {
            Err(e) => exists|i: int|
                first_bad_line(text_lines(content@), i) && Some(e) == text_line_error(
                    #[trigger] text_lines(content@)[i],
                    i + 1,
                ),
            Ok(set) => {
                &&& forall|i: int|
                    0 <= i < text_lines(content@).len() ==> !(text_line_used(
                        #[trigger] text_lines(content@)[i],
                    ) && text_line_error(text_lines(content@)[i], i + 1) is Some)
                &&& set.name@ == "text-import"@
                &&& set.description is None
                &&& set.token_usage@.len() == 0
                &&& set.resources.len() == used_lines(text_lines(content@)).len()
                &&& forall|k: int|
                    0 <= k < set.resources.len() ==> text_resource(
                        text_lines(content@)[used_lines(text_lines(content@))[k]],
                        #[trigger] set.resources[k],
                    )
            },
        },
{
    let lines = lines_of(content);
    let ghost ls = text_lines(content@);
    let mut resources: Vec<ResourceSpec> = Vec::new();
    let mut i: usize = 0;
    while i < lines.len()
        invariant
            i <= lines.len(),
            views(lines@) == ls,
            ls == text_lines(content@),
            forall|j: int|
                0 <= j < i ==> !(text_line_used(#[trigger] ls[j]) && text_line_error(ls[j], j + 1) is Some),
            resources.len() == used_lines(ls.take(i as int)).len(),
            forall|k: int|
                0 <= k < resources.len() ==> text_resource(
                    ls[used_lines(ls.take(i as int))[k]],
                    #[trigger] resources[k],
                ),
        decreases lines.len() - i,
    {
        proof {
            assert(ls.take(i + 1).drop_last() =~= ls.take(i as int));
            assert(ls.take(i + 1).last() == ls[i as int]);
            assert(lines[i as int]@ == ls[i as int]);
        }
        let t = trim(&lines[i]);
        if t.len() > 0 && t[0] != '#' {
            let f = fields_of(&lines[i]);
            if f.len() < 3 {
                assert(first_bad_line(ls, i as int));
                return Err(WorkloadError::LineFormat(i + 1));
            }
            let quantity = match dec_parse(f[2].as_str()) {
                Some(q) => q,
                None => {
                    assert(strs(f@)[2] == f@[2]@);
                    assert(first_bad_line(ls, i as int));
                    return Err(WorkloadError::TextQuantity);
                },
            };
            let sku = if f.len() > 3 {
                Some(f[3].clone())
            } else {
                None
            };
            let r = ResourceSpec {
                service: f[0].clone(),
                sku,
                region: f[1].clone(),
                quantity,
                unit: "units".to_owned(),
                provider: None,
                tags: Vec::new(),
                catalog_id: None,
                display_name: None,
                category: None,
                sub_region: None,
                region_label: None,
                instance_count: None,
                hours: None,
            };
            proof {
                assert(strs(f@)[0] == f@[0]@);
                assert(strs(f@)[1] == f@[1]@);
                assert(strs(f@)[2] == f@[2]@);
                if f.len() > 3 {
                    assert(strs(f@)[3] == f@[3]@);
                }
                assert(text_resource(ls[i as int], r));
            }
            let ghost before = resources@;
            resources.push(r);
            proof {
                let u = used_lines(ls.take(i + 1));
                assert(u == used_lines(ls.take(i as int)).push(i as int));
                assert forall|k: int| 0 <= k < resources.len() implies text_resource(
                    ls[u[k]],
                    #[trigger] resources[k],
                ) by {
                    if k < before.len() {
                        assert(resources[k] == before[k]);
                    }
                }
            }
        }
        i = i + 1;
    }
    assert(ls.take(lines.len() as int) =~= ls);
    Ok(
        RequirementSet {
            name: "text-import".to_owned(),
            description: None,
            resources,
            token_usage: Vec::new(),
        },
    )
}

/// The header/value pairs of a table row: as many as both lists have, values
/// trimmed, empty values left out.
pub open spec fn row_pairs(headers: Seq<Seq<char>>, row: Seq<Seq<char>>) -> Seq<(Seq<char>, Seq<char>)>
    decreases row.len(),
{
    if row.len() == 0 {
        seq![]
    } else {
        let prev = row_pairs(headers, row.drop_last());
        let i = row.len() - 1;
        if i < headers.len() && trimmed(row.last()).len() > 0 {
            prev.push((headers[i], trimmed(row.last())))
        } else {
            prev
        }
    }
}

/// The value of column `key` in a row's pairs (a later column wins).
pub open spec fn row_get(pairs: Seq<(Seq<char>, Seq<char>)>, key: Seq<char>) -> Option<Seq<char>>
    decreases pairs.len(),
{
    if pairs.len() == 0 {
        None
    } else if pairs.last().0 == key {
        Some(pairs.last().1)
    } else {
        row_get(pairs.drop_last(), key)
    }
}

pub open spec fn pair_views(v: Seq<(String, String)>) -> Seq<(Seq<char>, Seq<char>)> {
    v.map_values(|p: (String, String)| (p.0@, p.1@))
}

/// The non-empty trimmed values of a row keyed by header.
pub fn row_to_map(headers: &Vec<String>, row: &Vec<String>) -> (res: Vec<(String, String)>)
    ensures
        pair_views(res@) == row_pairs(strs(headers@), strs(row@)),
{
    let mut out: Vec<(String, String)> = Vec::new();
    let mut i: usize = 0;
    while i < row.len()
        invariant
            i <= row.len(),
            pair_views(out@) == row_pairs(strs(headers@), strs(row@).take(i as int)),
        decreases row.len() - i,
    {
        proof {
            let rv = strs(row@);
            assert(rv.take(i + 1).drop_last() =~= rv.take(i as int));
            assert(rv.take(i + 1).last() == row@[i as int]@);
        }
        let v = string_of(&trim(&chars_of(row[i].as_str())));
        if i < headers.len() && !v.as_str().is_empty() {
            assert(strs(headers@)[i as int] == headers@[i as int]@);
            let h = headers[i].clone();
            let ghost before = out@;
            out.push((h, v));
            assert(pair_views(out@) =~= pair_views(before).push((h@, v@)));
        }
        i = i + 1;
    }
    assert(strs(row@).take(row.len() as int) =~= strs(row@));
    out
}

fn map_get(map: &Vec<(String, String)>, key: &str) -> (res: Option<String>)
    ensures
        opt_view(res) == row_get(pair_views(map@), key@),
{
    let mut i = map.len();
    assert(pair_views(map@).take(i as int) =~= pair_views(map@));
    while i > 0
        invariant
            i <= map.len(),
            row_get(pair_views(map@), key@) == row_get(pair_views(map@).take(i as int), key@),
        decreases i,
    {
        let ghost pv = pair_views(map@);
        assert(pv.take(i as int).drop_last() =~= pv.take(i - 1));
        assert(pv.take(i as int).last() == (map@[i - 1].0@, map@[i - 1].1@));
        if crate::text::str_eq(map[i - 1].0.as_str(), key) {
            return Some(map[i - 1].1.clone());
        }
        i = i - 1;
    }
    None
}

/// Parses an optional decimal column.
fn parse_opt(v: Option<String>) -> (res: Result<Option<Dec>, ()>)
    ensures
        match opt_view(v) {
            None => res == Ok::<Option<Dec>, ()>(None),
            Some(t) => match res {
                Ok(Some(d)) => Dec::parsed(t) == Some(d) && d.wf(),
                Ok(None) => false,
                Err(_) => decimal_parse(t) is None,
            },
        },
{
    match v {
        None => Ok(None),
        Some(t) => match dec_parse(t.as_str()) {
            Some(d) => Ok(Some(d)),
            None => Err(()),
        },
    }
}

/// The outcome of reading one table row's pairs: its resource, or why not.
pub open spec fn row_error(p: Seq<(Seq<char>, Seq<char>)>) -> Option<RowError> {
    let service = match row_get(p, "service"@) {
        Some(s) => Some(s),
        None => row_get(p, "catalog_id"@),
    };
    if service is None {
        Some(RowError::NeedsService)
    } else if row_get(p, "region"@) is None {
        Some(RowError::NeedsRegion)
    } else if row_get(p, "quantity"@) is None {
        Some(RowError::NeedsQuantity)
    } else if decimal_parse(row_get(p, "quantity"@)->Some_0) is None {
        Some(RowError::QuantityNotNumber)
    } else if row_get(p, "instance_count"@) is Some && decimal_parse(
        row_get(p, "instance_count"@)->Some_0,
    ) is None {
        Some(RowError::InstanceCount)
    } else if row_get(p, "hours"@) is Some && decimal_parse(row_get(p, "hours"@)->Some_0) is None {
        Some(RowError::Hours)
    } else {
        None
    }
}

pub open spec fn parsed_opt(v: Option<Seq<char>>) -> Option<Dec> {
    match v {
        Some(t) => Dec::parsed(t),
        None => None,
    }
}

/// The resource a readable table row describes: each field from the column
/// of the same name (the service falling back to the catalog id, the unit to
/// `hours`).
pub open spec fn row_resource(p: Seq<(Seq<char>, Seq<char>)>, r: ResourceSpec) -> bool {
    &&& r.service@ == (match row_get(p, "service"@) {
        Some(s) => s,
        None => row_get(p, "catalog_id"@)->Some_0,
    })
    &&& opt_view(r.sku) == row_get(p, "sku"@)
    &&& r.region@ == row_get(p, "region"@)->Some_0
    &&& Some(r.quantity) == Dec::parsed(row_get(p, "quantity"@)->Some_0)
    &&& r.unit@ == (match row_get(p, "unit"@) {
        Some(u) => u,
        None => "hours"@,
    })
    &&& opt_view(r.provider) == row_get(p, "provider"@)
    &&& r.tags@.len() == 0
    &&& opt_view(r.catalog_id) == row_get(p, "catalog_id"@)
    &&& opt_view(r.display_name) == row_get(p, "display_name"@)
    &&& opt_view(r.category) == row_get(p, "category"@)
    &&& opt_view(r.sub_region) == row_get(p, "sub_region"@)
    &&& r.region_label is None
    &&& r.instance_count == parsed_opt(row_get(p, "instance_count"@))
    &&& r.hours == parsed_opt(row_get(p, "hours"@))
    &&& r.wf()
}

/// Reads the resource of one table row from its header/value pairs.
pub fn parse_row_resource(map: &Vec<(String, String)>) -> (res: Result<ResourceSpec, RowError>)
    ensures
        match res {
            Ok(r) => row_error(pair_views(map@)) is None && row_resource(pair_views(map@), r),
            Err(e) => row_error(pair_views(map@)) == Some(e),
        },
{
    let provider = map_get(map, "provider");
    let catalog_id = map_get(map, "catalog_id");
    let service = match map_get(map, "service") {
        Some(s) => s,
        None => match &catalog_id {
            Some(c) => c.clone(),
            None => return Err(RowError::NeedsService),
        },
    };
    let region = match map_get(map, "region") {
        Some(r) => r,
        None => return Err(RowError::NeedsRegion),
    };
    let quantity = match map_get(map, "quantity") {
        Some(q) => match dec_parse(q.as_str()) {
            Some(d) => d,
            None => return Err(RowError::QuantityNotNumber),
        },
        None => return Err(RowError::NeedsQuantity),
    };
    let unit = match map_get(map, "unit") {
        Some(u) => u,
        None => "hours".to_owned(),
    };
    let instance_count = match parse_opt(map_get(map, "instance_count")) {
        Ok(v) => v,
        Err(_) => return Err(RowError::InstanceCount),
    };
    let hours = match parse_opt(map_get(map, "hours")) {
        Ok(v) => v,
        Err(_) => return Err(RowError::Hours),
    };
    Ok(
        ResourceSpec {
            service,
            sku: map_get(map, "sku"),
            region,
            quantity,
            unit,
            provider,
            tags: Vec::new(),
            catalog_id,
            display_name: map_get(map, "display_name"),
            category: map_get(map, "category"),
            sub_region: map_get(map, "sub_region"),
            region_label: None,
            instance_count,
            hours,
        },
    )
}

/// Where a workload table came from.
#[derive(Debug, Clone, Copy, PartialEq, Eq, Structural)]
pub enum TableKind {
    Csv,
    Xlsx,
}

pub open spec fn table_name(kind: TableKind) -> Seq<char> {
    match kind {
        TableKind::Csv => "csv-import"@,
        TableKind::Xlsx => "xlsx-import"@,
    }
}

/// Column names compared trimmed and lower-cased.
pub open spec fn norm_headers(h: Seq<Seq<char>>) -> Seq<Seq<char>> {
    h.map_values(|x: Seq<char>| unicode_lowercase(trimmed(x)))
}

/// A row with nothing but white space.
pub open spec fn blank_row(row: Seq<Seq<char>>) -> bool {
    forall|i: int| 0 <= i < row.len() ==> trimmed(#[trigger] row[i]).len() == 0
}

pub open spec fn row_views(rows: Seq<Option<Vec<String>>>) -> Seq<Option<Seq<Seq<char>>>> {
    rows.map_values(|r: Option<Vec<String>>| match r {
        Some(v) => Some(strs(v@)),
        None => None,
    })
}

/// The error table row `i` (0-based after the header) gives, if any.
pub open spec fn table_row_error(h: Seq<Seq<char>>, row: Option<Seq<Seq<char>>>, i: int) -> Option<WorkloadError> {
    match row {
        None => Some(WorkloadError::Row(i as usize, RowError::Unreadable)),
        Some(r) => if blank_row(r) {
            None
        } else {
            match row_error(row_pairs(norm_headers(h), r)) {
                Some(e) => Some(WorkloadError::Row(i as usize, e)),
                None => None,
            }
        },
    }
}

/// The rows that hold a resource.
pub open spec fn used_rows(rows: Seq<Option<Seq<Seq<char>>>>) -> Seq<int>
    decreases rows.len(),
{
    if rows.len() == 0 {
        seq![]
    } else {
        let prev = used_rows(rows.drop_last());
        match rows.last() {
            Some(r) => if blank_row(r) {
                prev
            } else {
                prev.push(rows.len() - 1)
            },
            None => prev,
        }
    }
}

fn normalize_headers(headers: &Vec<String>) -> (res: Vec<String>)
    ensures
        strs(res@) == norm_headers(strs(headers@)),
{
    let mut out: Vec<String> = Vec::new();
    let mut i: usize = 0;
    while i < headers.len()
        invariant
            i <= headers.len(),
            strs(out@) == norm_headers(strs(headers@)).take(i as int),
        decreases headers.len() - i,
    {
        let t = string_of(&trim(&chars_of(headers[i].as_str())));
        let l = lowercase(t.as_str());
        let ghost before = out@;
        out.push(l);
        assert(strs(out@) =~= strs(before).push(l@));
        assert(strs(out@) =~= norm_headers(strs(headers@)).take(i + 1));
        i = i + 1;
    }
    assert(norm_headers(strs(headers@)).take(headers.len() as int) =~= norm_headers(strs(headers@)));
    out
}

fn is_blank_row(row: &Vec<String>) -> (res: bool)
    ensures
        res == blank_row(strs(row@)),
{
    let mut i: usize = 0;
    while i < row.len()
        invariant
            i <= row.len(),
            forall|k: int| 0 <= k < i ==> trimmed(#[trigger] strs(row@)[k]).len() == 0,
        decreases row.len() - i,
    {
        assert(strs(row@)[i as int] == row@[i as int]@);
        if trim(&chars_of(row[i].as_str())).len() > 0 {
            return false;
        }
        i = i + 1;
    }
    true
}

/// A workload read from a table: the header row, then one resource per row
/// that is not blank (rows numbered from 2 in errors; an unreadable row
/// stops the read). A table without resource rows is an error.
pub fn workload_from_table(
    kind: TableKind,
    headers: &Vec<String>,
    rows: &Vec<Option<Vec<String>>>,
) -> (res: Result<RequirementSet, WorkloadError>)
    ensures
        match res {
            Err(e) => (exists|i: int|
                0 <= i < rows.len() && table_row_error(strs(headers@), row_views(rows@)[i], i)
                    == Some(e) && forall|j: int|
                    0 <= j < i ==> #[trigger] table_row_error(
                        strs(headers@),
                        row_views(rows@)[j],
                        j,
                    ) is None) || (e == WorkloadError::NoRows && used_rows(row_views(rows@)).len()
                == 0 && forall|j: int|
                0 <= j < rows.len() ==> #[trigger] table_row_error(
                    strs(headers@),
                    row_views(rows@)[j],
                    j,
                ) is None),
            Ok(set) => {
                &&& forall|j: int|
                    0 <= j < rows.len() ==> #[trigger] table_row_error(
                        strs(headers@),
                        row_views(rows@)[j],
                        j,
                    ) is None
                &&& set.name@ == table_name(kind)
                &&& set.description is None
                &&& set.token_usage@.len() == 0
                &&& set.resources.len() == used_rows(row_views(rows@)).len() > 0
                &&& forall|k: int|
                    0 <= k < set.resources.len() ==> row_resource(
                        row_pairs(
                            norm_headers(strs(headers@)),
                            row_views(rows@)[used_rows(row_views(rows@))[k]]->Some_0,
                        ),
                        #[trigger] set.resources[k],
                    )
            },
        },
{
    let hs = normalize_headers(headers);
    let ghost rv = row_views(rows@);
    let mut resources: Vec<ResourceSpec> = Vec::new();
    let mut i: usize = 0;
    while i < rows.len()
        invariant
            i <= rows.len(),
            rv == row_views(rows@),
            strs(hs@) == norm_headers(strs(headers@)),
            forall|j: int|
                0 <= j < i ==> #[trigger] table_row_error(strs(headers@), rv[j], j) is None,
            resources.len() == used_rows(rv.take(i as int)).len(),
            forall|k: int|
                0 <= k < resources.len() ==> row_resource(
                    row_pairs(norm_headers(strs(headers@)), rv[used_rows(rv.take(i as int))[k]]->Some_0),
                    #[trigger] resources[k],
                ),
        decreases rows.len() - i,
    {
        proof {
            assert(rv.take(i + 1).drop_last() =~= rv.take(i as int));
            assert(rv.take(i + 1).last() == rv[i as int]);
        }
        match &rows[i] {
            None => {
                return Err(WorkloadError::Row(i, RowError::Unreadable));
            },
            Some(values) => {
                assert(rv[i as int] == Some(strs(values@)));
                if !is_blank_row(values) {
                    let map = row_to_map(&hs, values);
                    match parse_row_resource(&map) {
                        Err(e) => {
                            return Err(WorkloadError::Row(i, e));
                        },
                        Ok(r) => {
                            let ghost before = resources@;
                            resources.push(r);
                            proof {
                                let u = used_rows(rv.take(i + 1));
                                assert(u == used_rows(rv.take(i as int)).push(i as int));
                                assert forall|k: int| 0 <= k < resources.len() implies row_resource(
                                    row_pairs(norm_headers(strs(headers@)), rv[u[k]]->Some_0),
                                    #[trigger] resources[k],
                                ) by {
                                    if k < before.len() {
                                        assert(resources[k] == before[k]);
                                    }
                                }
                            }
                        },
                    }
                }
            },
        }
        i = i + 1;
    }
    assert(rv.take(rows.len() as int) =~= rv);
    if resources.len() == 0 {
        return Err(WorkloadError::NoRows);
    }
    let name = match kind {
        TableKind::Csv => "csv-import".to_owned(),
        TableKind::Xlsx => "xlsx-import".to_owned(),
    };
    Ok(RequirementSet { name, description: None, resources, token_usage: Vec::new() })
}

/// A workload read from a request: one resource per selection (service and
/// catalog id both the selection's catalog id, in `units`, on the selection's
/// provider), with the request's name and token usage.
pub open spec fn resource_from_input(i: crate::models::UiResourceInput, r: ResourceSpec) -> bool {
    &&& r.service@ == i.catalog_id@
    &&& opt_view(r.sku) == opt_view(i.sku)
    &&& r.region@ == i.region@
    &&& r.quantity == i.quantity
    &&& r.unit@ == "units"@
    &&& opt_view(r.provider) == Some(i.provider.key())
    &&& r.tags@.len() == 0
    &&& opt_view(r.catalog_id) == Some(i.catalog_id@)
    &&& r.display_name is None
    &&& r.category is None
    &&& opt_view(r.sub_region) == opt_view(i.sub_region)
    &&& r.region_label is None
    &&& r.instance_count == i.instance_count
    &&& r.hours == i.hours
}

pub fn estimate_to_requirement(req: EstimateRequest) -> (res: RequirementSet)
    ensures
        res.name@ == req.name@,
        res.description is None,
        res.token_usage@ == req.token_usage@,
        res.resources.len() == req.resources.len(),
        forall|k: int|
            0 <= k < res.resources.len() ==> resource_from_input(
                req.resources[k],
                #[trigger] res.resources[k],
            ),
{
    let mut resources: Vec<ResourceSpec> = Vec::new();
    let mut k: usize = 0;
    while k < req.resources.len()
        invariant
            k <= req.resources.len(),
            resources.len() == k,
            forall|q: int|
                0 <= q < k ==> resource_from_input(req.resources[q], #[trigger] resources[q]),
        decreases req.resources.len() - k,
    {
        let r = &req.resources[k];
        let sku = match &r.sku {
            Some(s) => Some(s.clone()),
            None => None,
        };
        let sub_region = match &r.sub_region {
            Some(s) => Some(s.clone()),
            None => None,
        };
        resources.push(
            ResourceSpec {
                service: r.catalog_id.clone(),
                sku,
                region: r.region.clone(),
                quantity: r.quantity,
                unit: "units".to_owned(),
                provider: Some(r.provider.as_str().to_owned()),
                tags: Vec::new(),
                catalog_id: Some(r.catalog_id.clone()),
                display_name: None,
                category: None,
                sub_region,
                region_label: None,
                instance_count: r.instance_count,
                hours: r.hours,
            },
        );
        k = k + 1;
    }
    RequirementSet { name: req.name, description: None, resources, token_usage: req.token_usage }
}

/// The formats an upload can be in.
#[derive(Debug, Clone, Copy, PartialEq, Eq, Structural)]
pub enum UploadKind {
    Json,
    Yaml,
    Csv,
    Xlsx,
    Text,
}

/// The format a (lower-cased) file extension names.
pub open spec fn upload_kind_spec(ext: Seq<char>) -> Option<UploadKind> {
    if ext == "json"@ {
        Some(UploadKind::Json)
    } else if ext == "yaml"@ || ext == "yml"@ {
        Some(UploadKind::Yaml)
    } else if ext == "csv"@ {
        Some(UploadKind::Csv)
    } else if ext == "xlsx"@ {
        Some(UploadKind::Xlsx)
    } else if ext == "txt"@ || ext == "text"@ {
        Some(UploadKind::Text)
    } else {
        None
    }
}

/// The format of an upload from its file extension (if any), compared in
/// lower case; any other extension is refused with `unsupported format: EXT
/// (use json, yaml, csv, or xlsx)`.
pub fn upload_kind(extension: Option<&str>) -> (res: Result<UploadKind, String>)
    ensures
        ({
            let ext = match extension {
                Some(e) => unicode_lowercase(e@),
                None => unicode_lowercase(""@),
            };
            match res {
                Ok(k) => upload_kind_spec(ext) == Some(k),
                Err(msg) => upload_kind_spec(ext) is None && msg@ == "unsupported format: "@ + ext
                    + " (use json, yaml, csv, or xlsx)"@,
            }
        }),
{
    let ext = match extension {
        Some(e) => lowercase(e),
        None => lowercase(""),
    };
    let e = ext.as_str();
    if crate::text::str_eq(e, "json") {
        Ok(UploadKind::Json)
    } else if crate::text::str_eq(e, "yaml") || crate::text::str_eq(e, "yml") {
        Ok(UploadKind::Yaml)
    } else if crate::text::str_eq(e, "csv") {
        Ok(UploadKind::Csv)
    } else if crate::text::str_eq(e, "xlsx") {
        Ok(UploadKind::Xlsx)
    } else if crate::text::str_eq(e, "txt") || crate::text::str_eq(e, "text") {
        Ok(UploadKind::Text)
    } else {
        let mut msg = "unsupported format: ".to_owned();
        push_str(&mut msg, e);
        push_str(&mut msg, " (use json, yaml, csv, or xlsx)");
        Err(msg)
    }
}

/// A JSON upload is read as an estimate request when it selects providers
/// and resources; otherwise it is read as a workload.
pub fn is_estimate_upload(req: &EstimateRequest) -> (res: bool)
    ensures
        res == (req.providers@.len() > 0 && req.resources@.len() > 0),
{
    req.providers.len() > 0 && req.resources.len() > 0
}

/// Name for what the `csv` crate reads from a file (flexible records, every
/// field trimmed): the header row, and each record's fields or `None` for a
/// record that could not be read; `None` when the header cannot be read.
pub uninterp spec fn csv_table(bytes: Seq<u8>) -> Option<(Seq<Seq<char>>, Seq<Option<Seq<Seq<char>>>>)>;

/// Reads a CSV file with the `csv` crate (`ReaderBuilder` with flexible
/// records and `Trim::All`). Claimed: the header and records are
/// `csv_table` of the bytes.
#[verifier::external_body]
fn read_csv(bytes: &[u8]) -> (res: Option<(Vec<String>, Vec<Option<Vec<String>>>)>)
    ensures
        match res {
            None => csv_table(bytes@) is None,
            Some((h, rows)) => csv_table(bytes@) == Some((strs(h@), row_views(rows@))),
        },
{
    let mut rdr = csv::ReaderBuilder::new().flexible(true).trim(csv::Trim::All).from_reader(bytes);
    let headers: Vec<String> = match rdr.headers() {
        Ok(h) => h.iter().map(|f| f.to_string()).collect(),
        Err(_) => return None,
    };
    let rows = rdr.records().map(|r| r.ok().map(|rec| rec.iter().map(|f| f.to_string()).collect())).collect();
    Some((headers, rows))
}

/// Reads a CSV workload (see `workload_from_table`); an unreadable header is
/// `NoHeader`.
pub fn parse_csv_bytes(bytes: &[u8]) -> (res: Result<RequirementSet, WorkloadError>)
    ensures
        match csv_table(bytes@) {
            None => res == Err::<RequirementSet, WorkloadError>(WorkloadError::NoHeader),
            Some((h, rows)) => match res {
                Ok(set) => set.name@ == "csv-import"@ && set.resources.len() == used_rows(rows).len()
                    && forall|k: int|
                    0 <= k < set.resources.len() ==> row_resource(
                        row_pairs(norm_headers(h), rows[used_rows(rows)[k]]->Some_0),
                        #[trigger] set.resources[k],
                    ),
                Err(e) => (exists|i: int|
                    0 <= i < rows.len() && table_row_error(h, rows[i], i) == Some(e) && forall|j: int|
                        0 <= j < i ==> #[trigger] table_row_error(h, rows[j], j) is None) || (e
                    == WorkloadError::NoRows && used_rows(rows).len() == 0),
            },
        },
{
    match read_csv(bytes) {
        None => Err(WorkloadError::NoHeader),
        Some((h, rows)) => workload_from_table(TableKind::Csv, &h, &rows),
    }
}

/// The reason shown for a row error.
pub open spec fn row_reason(e: RowError) -> Seq<char> {
    match e {
        RowError::Unreadable => "record could not be read"@,
        RowError::NeedsService => "csv/xlsx row needs service or catalog_id"@,
        RowError::NeedsRegion => "region column required"@,
        RowError::NeedsQuantity => "quantity column required"@,
        RowError::QuantityNotNumber => "quantity must be a number"@,
        RowError::InstanceCount => "instance_count"@,
        RowError::Hours => "hours"@,
    }
}

impl RowError {
    pub fn reason(&self) -> (res: &'static str)
        ensures
            res@ == row_reason(*self),
    {
        match self {
            RowError::Unreadable => "record could not be read",
            RowError::NeedsService => "csv/xlsx row needs service or catalog_id",
            RowError::NeedsRegion => "region column required",
            RowError::NeedsQuantity => "quantity column required",
            RowError::QuantityNotNumber => "quantity must be a number",
            RowError::InstanceCount => "instance_count",
            RowError::Hours => "hours",
        }
    }
}

impl WorkloadError {
    /// The message shown for the error.
    pub fn message(&self, kind: TableKind) -> (res: String)
        ensures
            match *self {
                WorkloadError::LineFormat(n) => res@ == "line "@ + nat_text(n as nat)
                    + ": expected service,region,quantity[,sku]"@,
                WorkloadError::TextQuantity => res@ == "quantity"@,
                WorkloadError::NoRows => res@ == (match kind {
                    TableKind::Csv => "csv has no resource rows"@,
                    TableKind::Xlsx => "xlsx has no resource rows"@,
                }),
                WorkloadError::NoHeader => res@ == (match kind {
                    TableKind::Csv => "csv header row"@,
                    TableKind::Xlsx => "xlsx header row"@,
                }),
                WorkloadError::Row(i, e) => res@ == (match kind {
                    TableKind::Csv => "csv row "@,
                    TableKind::Xlsx => "xlsx row "@,
                }) + nat_text((i + 2) as nat) + ": "@ + row_reason(e),
            },
    {
        match self {
            WorkloadError::LineFormat(n) => {
                let mut m = "line ".to_owned();
                push_str(&mut m, crate::text::u64_text(*n as u64).as_str());
                push_str(&mut m, ": expected service,region,quantity[,sku]");
                m
            },
            WorkloadError::TextQuantity => "quantity".to_owned(),
            WorkloadError::NoRows => match kind {
                TableKind::Csv => "csv has no resource rows".to_owned(),
                TableKind::Xlsx => "xlsx has no resource rows".to_owned(),
            },
            WorkloadError::NoHeader => match kind {
                TableKind::Csv => "csv header row".to_owned(),
                TableKind::Xlsx => "xlsx header row".to_owned(),
            },
            WorkloadError::Row(i, e) => {
                let mut m = match kind {
                    TableKind::Csv => "csv row ".to_owned(),
                    TableKind::Xlsx => "xlsx row ".to_owned(),
                };
                let n: u128 = (*i as u128) + 2;
                push_str(&mut m, crate::text::u128_text(n).as_str());
                push_str(&mut m, ": ");
                push_str(&mut m, e.reason());
                m
            },
        }
    }
}

} // verus!
