//! The Azure Retail Prices API: query URLs, and reading its pages (catalog
//! items, SKU names, LLM token meters, the next page).
use vstd::prelude::*;
use crate::azure_scan::{RetailItem, at_skip_limit, azure_retail_skip_at_limit};
use crate::estimate::opt_view;
use crate::json::{Json, arr_at, arr_field, get, jget, jstr, str_at, str_field, as_str};
use crate::llm::{AzureMeter, escape_quotes, quote_escaped};
use crate::order::strictly_sorted;
use crate::regions::sorted_unique;
use crate::text::{all_ascii, chars_of, push_str, strs, views};

verus! {

/// Characters that URL encoding leaves as they are.
pub open spec fn url_safe(c: char) -> bool {
    ('0' <= c <= '9') || ('A' <= c <= 'Z') || ('a' <= c <= 'z') || c == '-' || c == '.' || c == '_'
        || c == '~'
}

/// An upper-case hexadecimal digit.
pub open spec fn hex_digit(d: int) -> char {
    if d < 10 {
        (48 + d) as char
    } else {
        (55 + d) as char
    }
}

/// An ASCII character URL-encoded: kept when safe, else `%` and its two
/// hexadecimal digits.
pub open spec fn pct_char(c: char) -> Seq<char> {
    if url_safe(c) {
        seq![c]
    } else {
        seq!['%', hex_digit(c as int / 16), hex_digit(c as int % 16)]
    }
}

/// URL encoding of ASCII text.
pub open spec fn ascii_url_encoded(s: Seq<char>) -> Seq<char>
    decreases s.len(),
{
    if s.len() == 0 {
        seq![]
    } else {
        ascii_url_encoded(s.drop_last()) + pct_char(s.last())
    }
}

/// Name for the text `urlencoding::encode` gives (percent-encoding of the
/// UTF-8 bytes of a string).
pub uninterp spec fn url_encoded(s: Seq<char>) -> Seq<char>;

/// Calls `urlencoding::encode`. Claimed: the result is `url_encoded` of the
/// text; for ASCII text, every character but ASCII letters, digits and
/// `-._~` is written as `%` and two upper-case hexadecimal digits.
#[verifier::external_body]
fn url_encode(s: &str) -> (res: String)
    ensures
        res@ == url_encoded(s@),
        all_ascii(s@) ==> res@ == ascii_url_encoded(s@),
{
    urlencoding::encode(s).into_owned()
}

/// The Retail Prices endpoint.
pub open spec fn retail_endpoint() -> Seq<char> {
    "https://prices.azure.com/api/retail/prices"@
}

/// The first page of a Retail Prices query with an OData filter.
pub fn retail_query_url(filter: &str) -> (res: String)
    ensures
        res@ == retail_endpoint() + "?$filter="@ + url_encoded(filter@),
{
    let mut url = "https://prices.azure.com/api/retail/prices".to_owned();
    push_str(&mut url, "?$filter=");
    let enc = url_encode(filter);
    push_str(&mut url, enc.as_str());
    url
}

/// The filter for a service's consumption SKUs in a region.
pub open spec fn sku_filter_spec(service: Seq<char>, region: Seq<char>) -> Seq<char> {
    "serviceName eq '"@ + quote_escaped(service) + "' and armRegionName eq '"@ + quote_escaped(region)
        + "' and priceType eq 'Consumption'"@
}

pub fn retail_sku_filter(service_name: &str, region: &str) -> (res: String)
    ensures
        res@ == sku_filter_spec(service_name@, region@),
{
    let mut f = "serviceName eq '".to_owned();
    push_str(&mut f, escape_quotes(service_name).as_str());
    push_str(&mut f, "' and armRegionName eq '");
    push_str(&mut f, escape_quotes(region).as_str());
    push_str(&mut f, "' and priceType eq 'Consumption'");
    f
}

/// The filter for the consumption price of one SKU of a service in a
/// region (`Standard` when no SKU is named).
pub open spec fn price_filter_spec(service: Seq<char>, sku: Seq<char>, region: Seq<char>) -> Seq<char> {
    let s = if sku.len() == 0 {
        "Standard"@
    } else {
        sku
    };
    "serviceName eq '"@ + quote_escaped(service) + "' and armSkuName eq '"@ + quote_escaped(s)
        + "' and armRegionName eq '"@ + quote_escaped(region) + "' and priceType eq 'Consumption'"@
}

pub fn retail_price_filter(service_name: &str, sku_name: &str, region: &str) -> (res: String)
    ensures
        res@ == price_filter_spec(service_name@, sku_name@, region@),
{
    let sku = if sku_name.is_empty() {
        "Standard"
    } else {
        sku_name
    };
    let mut f = "serviceName eq '".to_owned();
    push_str(&mut f, escape_quotes(service_name).as_str());
    push_str(&mut f, "' and armSkuName eq '");
    push_str(&mut f, escape_quotes(sku).as_str());
    push_str(&mut f, "' and armRegionName eq '");
    push_str(&mut f, escape_quotes(region).as_str());
    push_str(&mut f, "' and priceType eq 'Consumption'");
    f
}

fn opt_owned(s: Option<&str>) -> (res: Option<String>)
    ensures
        opt_view(res) == match s {
            Some(t) => Some(t@),
            None => None,
        },
{
    match s {
        Some(t) => Some(t.to_owned()),
        None => None,
    }
}

/// The fields of a retail item that the catalog scan reads.
pub open spec fn retail_item_ok(item: Json, it: RetailItem) -> bool {
    &&& opt_view(it.service_name) == str_at(item, "serviceName"@)
    &&& opt_view(it.arm_sku_name) == str_at(item, "armSkuName"@)
    &&& opt_view(it.arm_region_name) == str_at(item, "armRegionName"@)
}

pub fn retail_item(item: &Json) -> (res: RetailItem)
    ensures
        retail_item_ok(*item, res),
{
    RetailItem {
        service_name: opt_owned(str_field(item, "serviceName")),
        arm_sku_name: opt_owned(str_field(item, "armSkuName")),
        arm_region_name: opt_owned(str_field(item, "armRegionName")),
    }
}

/// The items of a page (`Items`), none when it has no such array.
pub open spec fn page_items(page: Json) -> Seq<Json> {
    match arr_at(page, "Items"@) {
        Some(a) => a,
        None => seq![],
    }
}

/// The catalog items of a page, in order.
pub fn retail_page_items(page: &Json) -> (res: Vec<RetailItem>)
    ensures
        res.len() == page_items(*page).len(),
        forall|i: int| 0 <= i < res.len() ==> retail_item_ok(page_items(*page)[i], #[trigger] res@[i]),
{
    let mut out: Vec<RetailItem> = Vec::new();
    let items = match arr_field(page, "Items") {
        Some(a) => a,
        None => return out,
    };
    let mut i: usize = 0;
    while i < items.len()
        invariant
            i <= items.len(),
            items@ == page_items(*page),
            out.len() == i,
            forall|k: int| 0 <= k < i ==> retail_item_ok(items@[k], #[trigger] out@[k]),
        decreases items.len() - i,
    {
        out.push(retail_item(&items[i]));
        i = i + 1;
    }
    out
}

/// The link to the next page, when the page gives one.
pub fn next_page_link(page: &Json) -> (res: Option<String>)
    ensures
        opt_view(res) == str_at(*page, "NextPageLink"@),
{
    opt_owned(str_field(page, "NextPageLink"))
}

/// The link to the next page of an LLM meter scan: none once it has reached
/// the `$skip` cap.
pub fn next_meter_page_link(page: &Json) -> (res: Option<String>)
    ensures
        opt_view(res) == match str_at(*page, "NextPageLink"@) {
            Some(u) => if at_skip_limit(u) {
                None
            } else {
                Some(u)
            },
            None => None,
        },
{
    match str_field(page, "NextPageLink") {
        Some(u) => if azure_retail_skip_at_limit(u) {
            None
        } else {
            Some(u.to_owned())
        },
        None => None,
    }
}

/// An item's non-empty SKU name.
pub open spec fn item_sku_name(item: Json) -> Option<Seq<char>> {
    match str_at(item, "armSkuName"@) {
        Some(s) => if s.len() > 0 {
            Some(s)
        } else {
            None
        },
        None => None,
    }
}

/// The SKU names gathered while paging through a service's retail prices:
/// distinct and sorted.
pub struct SkuNames {
    names: Vec<Vec<char>>,
}

impl SkuNames {
    pub closed spec fn set(&self) -> Set<Seq<char>> {
        views(self.names@).to_set()
    }

    pub closed spec fn wf(&self) -> bool {
        strictly_sorted(views(self.names@))
    }

    pub fn new() -> (res: SkuNames)
        ensures
            res.wf(),
            res.set() == Set::<Seq<char>>::empty(),
    {
        let res = SkuNames { names: Vec::new() };
        assert(views(res.names@).to_set() =~= Set::<Seq<char>>::empty());
        res
    }

    /// Adds the non-empty SKU names of a page's items.
    pub fn add_page(&mut self, page: &Json)
        requires
            old(self).wf(),
        ensures
            final(self).wf(),
            forall|s: Seq<char>|
                #![trigger final(self).set().contains(s)]
                final(self).set().contains(s) <==> (old(self).set().contains(s) || exists|i: int|
                    0 <= i < page_items(*page).len() && item_sku_name(#[trigger] page_items(*page)[i])
                        == Some(s)),
    {
        let items = match arr_field(page, "Items") {
            Some(a) => a,
            None => return,
        };
        let ghost start = self.set();
        let mut i: usize = 0;
        while i < items.len()
            invariant
                i <= items.len(),
                items@ == page_items(*page),
                self.wf(),
                forall|s: Seq<char>|
                    #![trigger self.set().contains(s)]
                    self.set().contains(s) <==> (start.contains(s) || exists|k: int|
                        0 <= k < i && item_sku_name(#[trigger] items@[k]) == Some(s)),
            decreases items.len() - i,
        {
            let ghost before = self.set();
            match str_field(&items[i], "armSkuName") {
                Some(sku) => if !sku.is_empty() {
                    crate::order::insert_sorted(&mut self.names, chars_of(sku));
                    proof {
                        assert forall|s: Seq<char>| self.set().contains(s) <==> (before.contains(s) || s == sku@) by {
                            if self.set().contains(s) {
                                assert(views(self.names@).contains(s));
                            }
                            if before.contains(s) || s == sku@ {
                                assert(views(self.names@).contains(s));
                            }
                        }
                    }
                },
                None => {},
            }
            proof {
                assert forall|s: Seq<char>|
                    #![trigger self.set().contains(s)]
                    self.set().contains(s) <==> (start.contains(s) || exists|k: int|
                        0 <= k < i + 1 && item_sku_name(#[trigger] items@[k]) == Some(s)) by {
                    if exists|k: int| 0 <= k < i + 1 && item_sku_name(#[trigger] items@[k]) == Some(s) {
                        let k = choose|k: int| 0 <= k < i + 1 && item_sku_name(#[trigger] items@[k]) == Some(s);
                        if k < i {
                            assert(before.contains(s));
                        }
                    }
                    if before.contains(s) {
                        if !start.contains(s) {
                            let k = choose|k: int| 0 <= k < i && item_sku_name(#[trigger] items@[k]) == Some(s);
                            assert(0 <= k < i + 1);
                        }
                    }
                }
            }
            i = i + 1;
        }
    }

    /// The names gathered, sorted.
    pub fn into_sorted(self) -> (res: Vec<String>)
        requires
            self.wf(),
        ensures
            strictly_sorted(strs(res@)),
            forall|s: Seq<char>| strs(res@).contains(s) <==> self.set().contains(s),
    {
        let out = crate::text::string_list(&self.names);
        proof {
            assert forall|s: Seq<char>| strs(out@).contains(s) <==> self.set().contains(s) by {
                if self.set().contains(s) {
                    assert(views(self.names@).contains(s));
                }
            }
        }
        out
    }
}

/// The meter fields of a retail item as the LLM rate scan reads them: the
/// SKU is `skuName` when the item has that member, else `armSkuName`;
/// missing text reads as empty.
pub open spec fn meter_ok(item: Json, m: AzureMeter) -> bool {
    let text = |k: Seq<char>|
        match str_at(item, k) {
            Some(s) => s,
            None => seq![],
        };
    &&& opt_view(m.item_type) == str_at(item, "type"@)
    &&& m.product@ == text("productName"@)
    &&& m.sku@ == (match jget(item, "skuName"@) {
        Some(v) => match jstr(v) {
            Some(s) => s,
            None => seq![],
        },
        None => text("armSkuName"@),
    })
    &&& m.meter@ == text("meterName"@)
    &&& m.unit@ == text("unitOfMeasure"@)
}

fn text_or_empty(s: Option<&str>) -> (res: String)
    ensures
        res@ == match s {
            Some(t) => t@,
            None => seq![],
        },
{
    match s {
        Some(t) => t.to_owned(),
        None => String::new(),
    }
}

pub fn azure_meter_of(item: &Json) -> (res: AzureMeter)
    ensures
        meter_ok(*item, res),
{
    let sku = match get(item, "skuName") {
        Some(v) => text_or_empty(as_str(v)),
        None => text_or_empty(str_field(item, "armSkuName")),
    };
    AzureMeter {
        item_type: opt_owned(str_field(item, "type")),
        product: text_or_empty(str_field(item, "productName")),
        sku,
        meter: text_or_empty(str_field(item, "meterName")),
        unit: text_or_empty(str_field(item, "unitOfMeasure")),
    }
}

} // verus!
