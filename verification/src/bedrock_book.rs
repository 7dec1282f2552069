//! Reading the Amazon Bedrock pricebook: where it is published, and its
//! on-demand token meters (model, usage type and USD price text).
use vstd::prelude::*;
use crate::json::{
    Json, as_obj, first_some, get, jget, jobj, lemma_first_some_step, obj_at, obj_field, str_at,
    str_field,
};
use crate::llm::{bedrock_direction, bedrock_direction_spec};
use crate::offer_index::{
    dim_usd, lemma_first_some_prefix, on_demand_terms, pricing_host, sku_term,
};
use crate::text::{ascii_lower, chars_of, has_lit, push_str, seq_has, to_ascii_lower};

verus! {

/// The Bedrock offer code.
pub open spec fn bedrock_offer() -> Seq<char> {
    "AmazonBedrockFoundationModels"@
}

/// The URL of the Bedrock region index named by the AWS offer index.
pub open spec fn bedrock_region_index_spec(index: Json) -> Result<Seq<char>, Seq<char>> {
    let offer = match jget(index, "offers"@) {
        Some(o) => jget(o, bedrock_offer()),
        None => None,
    };
    match offer {
        None => Err("AmazonBedrockFoundationModels missing from AWS pricing index"@),
        Some(o) => match str_at(o, "currentRegionIndexUrl"@) {
            None => Err("missing bedrock region index url"@),
            Some(path) => Ok(pricing_host() + path),
        },
    }
}

pub fn bedrock_region_index_url(index: &Json) -> (res: Result<String, String>)
    ensures
        match res {
            Ok(u) => bedrock_region_index_spec(*index) == Ok::<Seq<char>, Seq<char>>(u@),
            Err(e) => bedrock_region_index_spec(*index) == Err::<Seq<char>, Seq<char>>(e@),
        },
{
    let offer = match get(index, "offers") {
        Some(o) => get(o, "AmazonBedrockFoundationModels"),
        None => None,
    };
    let offer = match offer {
        Some(o) => o,
        None => return Err("AmazonBedrockFoundationModels missing from AWS pricing index".to_owned()),
    };
    match str_field(offer, "currentRegionIndexUrl") {
        Some(path) => {
            let mut url = "https://pricing.us-east-1.amazonaws.com".to_owned();
            push_str(&mut url, path);
            Ok(url)
        },
        None => Err("missing bedrock region index url".to_owned()),
    }
}

/// The URL of the us-east-1 Bedrock pricebook named by the region index.
pub open spec fn bedrock_pricebook_spec(region_index: Json) -> Result<Seq<char>, Seq<char>> {
    let entry = match jget(region_index, "regions"@) {
        Some(r) => jget(r, "us-east-1"@),
        None => None,
    };
    match entry {
        None => Err("bedrock us-east-1 region missing"@),
        Some(e) => match str_at(e, "currentVersionUrl"@) {
            None => Err("missing bedrock pricebook url"@),
            Some(path) => Ok(pricing_host() + path),
        },
    }
}

pub fn bedrock_pricebook_url(region_index: &Json) -> (res: Result<String, String>)
    ensures
        match res {
            Ok(u) => bedrock_pricebook_spec(*region_index) == Ok::<Seq<char>, Seq<char>>(u@),
            Err(e) => bedrock_pricebook_spec(*region_index) == Err::<Seq<char>, Seq<char>>(e@),
        },
{
    let entry = match get(region_index, "regions") {
        Some(r) => get(r, "us-east-1"),
        None => None,
    };
    let entry = match entry {
        Some(e) => e,
        None => return Err("bedrock us-east-1 region missing".to_owned()),
    };
    match str_field(entry, "currentVersionUrl") {
        Some(path) => {
            let mut url = "https://pricing.us-east-1.amazonaws.com".to_owned();
            push_str(&mut url, path);
            Ok(url)
        },
        None => Err("missing bedrock pricebook url".to_owned()),
    }
}

/// What a price dimension decides: `None` when it is not priced per token
/// (go on), `Some(None)` when it has no unit or no USD price (give up),
/// `Some(Some(p))` for its USD price text.
pub open spec fn token_dim_step(dim: Json) -> Option<Option<Seq<char>>> {
    match str_at(dim, "unit"@) {
        None => Some(None),
        Some(u) => if !seq_has(ascii_lower(u), "token"@) {
            None
        } else {
            Some(dim_usd(dim))
        },
    }
}

pub open spec fn token_dim_step_f() -> spec_fn((String, Json)) -> Option<Option<Seq<char>>> {
    |d: (String, Json)| token_dim_step(d.1)
}

/// What an offer of a term decides: give up without price dimensions,
/// else what its first deciding dimension decides.
pub open spec fn token_offer_step(offer: Json) -> Option<Option<Seq<char>>> {
    match obj_at(offer, "priceDimensions"@) {
        None => Some(None),
        Some(dims) => first_some(dims, token_dim_step_f()),
    }
}

pub open spec fn token_offer_step_f() -> spec_fn((String, Json)) -> Option<Option<Seq<char>>> {
    |o: (String, Json)| token_offer_step(o.1)
}

/// The USD price text of a SKU's on-demand token meter.
pub open spec fn token_usd_spec(od: Seq<(String, Json)>, sku: Seq<char>) -> Option<Seq<char>> {
    match sku_term(od, sku) {
        None => None,
        Some(t) => match first_some(t, token_offer_step_f()) {
            Some(r) => r,
            None => None,
        },
    }
}

fn token_dim(dim: &Json) -> (res: Option<Option<String>>)
    ensures
        match res {
            None => token_dim_step(*dim) is None,
            Some(None) => token_dim_step(*dim) == Some(None::<Seq<char>>),
            Some(Some(p)) => token_dim_step(*dim) == Some(Some(p@)),
        },
{
    let unit = match str_field(dim, "unit") {
        Some(u) => u,
        None => return Some(None),
    };
    let lower = to_ascii_lower(&chars_of(unit));
    if !has_lit(&lower, "token") {
        return None;
    }
    let usd = match get(dim, "pricePerUnit") {
        Some(p) => str_field(p, "USD"),
        None => None,
    };
    match usd {
        Some(u) => Some(Some(u.to_owned())),
        None => Some(None),
    }
}

fn token_offer(offer: &Json) -> (res: Option<Option<String>>)
    ensures
        match res {
            None => token_offer_step(*offer) is None,
            Some(None) => token_offer_step(*offer) == Some(None::<Seq<char>>),
            Some(Some(p)) => token_offer_step(*offer) == Some(Some(p@)),
        },
{
    let dims = match obj_field(offer, "priceDimensions") {
        Some(d) => d,
        None => return Some(None),
    };
    let mut i: usize = 0;
    while i < dims.len()
        invariant
            i <= dims.len(),
            obj_at(*offer, "priceDimensions"@) == Some(dims@),
            first_some(dims@.take(i as int), token_dim_step_f()) is None,
        decreases dims.len() - i,
    {
        proof {
            lemma_first_some_step(dims@, token_dim_step_f(), i as int);
        }
        match token_dim(&dims[i].1) {
            None => {},
            Some(r) => {
                proof {
                    lemma_first_some_prefix(dims@, token_dim_step_f(), i as int + 1);
                }
                return Some(r);
            },
        }
        i = i + 1;
    }
    assert(dims@.take(dims.len() as int) =~= dims@);
    None
}

/// The USD price text of a SKU's on-demand token meter: the first
/// per-token price dimension of its term; none when the SKU has no term or
/// an offer or dimension before it lacks what is read.
pub fn bedrock_on_demand_usd(od: &Vec<(String, Json)>, sku: &str) -> (res: Option<String>)
    ensures
        crate::estimate::opt_view(res) == token_usd_spec(od@, sku@),
{
    let term = match crate::json::lookup(od, sku) {
        Some(t) => match as_obj(t) {
            Some(e) => e,
            None => return None,
        },
        None => return None,
    };
    let mut i: usize = 0;
    while i < term.len()
        invariant
            i <= term.len(),
            sku_term(od@, sku@) == Some(term@),
            first_some(term@.take(i as int), token_offer_step_f()) is None,
        decreases term.len() - i,
    {
        proof {
            lemma_first_some_step(term@, token_offer_step_f(), i as int);
        }
        match token_offer(&term[i].1) {
            None => {},
            Some(r) => {
                proof {
                    lemma_first_some_prefix(term@, token_offer_step_f(), i as int + 1);
                }
                return r;
            },
        }
        i = i + 1;
    }
    assert(term@.take(term.len() as int) =~= term@);
    None
}

/// A priced on-demand token meter of the pricebook.
#[derive(Debug)]
pub struct BedrockLine {
    /// The product's `servicename` (the model).
    pub service_name: String,
    /// The product's `usagetype`.
    pub usage: String,
    /// The USD price per unit, as written in the pricebook.
    pub usd: String,
}

/// The meter a product gives: its model, usage type and token price when
/// it has them all and its usage type is an input or output token count.
pub open spec fn product_line(od: Seq<(String, Json)>, product: Json) -> Option<(Seq<char>, Seq<char>, Seq<char>)> {
    match jget(product, "attributes"@) {
        Some(a) => match jobj(a) {
            Some(_) => match (str_at(a, "servicename"@), str_at(a, "usagetype"@)) {
                (Some(name), Some(usage)) => if bedrock_direction_spec(usage) is Some {
                    match str_at(product, "sku"@) {
                        Some(sku) => match token_usd_spec(od, sku) {
                            Some(p) => Some((name, usage, p)),
                            None => None,
                        },
                        None => None,
                    }
                } else {
                    None
                },
                _ => None,
            },
            None => None,
        },
        None => None,
    }
}

/// The meters of the products, in order.
pub open spec fn product_lines(od: Seq<(String, Json)>, ps: Seq<(String, Json)>) -> Seq<
    (Seq<char>, Seq<char>, Seq<char>),
>
    decreases ps.len(),
{
    if ps.len() == 0 {
        seq![]
    } else {
        let prev = product_lines(od, ps.drop_last());
        match product_line(od, ps.last().1) {
            Some(l) => prev.push(l),
            None => prev,
        }
    }
}

pub open spec fn line_views(v: Seq<BedrockLine>) -> Seq<(Seq<char>, Seq<char>, Seq<char>)> {
    v.map_values(|l: BedrockLine| (l.service_name@, l.usage@, l.usd@))
}

/// The pricebook's token meters; a pricebook without products or on-demand
/// terms is an error.
pub open spec fn bedrock_lines_spec(book: Json) -> Result<Seq<(Seq<char>, Seq<char>, Seq<char>)>, Seq<char>> {
    match obj_at(book, "products"@) {
        None => Err("missing bedrock products"@),
        Some(ps) => match on_demand_terms(book) {
            None => Err("missing bedrock OnDemand terms"@),
            Some(od) => Ok(product_lines(od, ps)),
        },
    }
}

fn product_line_of(od: &Vec<(String, Json)>, product: &Json) -> (res: Option<BedrockLine>)
    ensures
        match res {
            Some(l) => product_line(od@, *product) == Some((l.service_name@, l.usage@, l.usd@)),
            None => product_line(od@, *product) is None,
        },
{
    let attrs = match get(product, "attributes") {
        Some(a) => a,
        None => return None,
    };
    if as_obj(attrs).is_none() {
        return None;
    }
    let name = match str_field(attrs, "servicename") {
        Some(s) => s,
        None => return None,
    };
    let usage = match str_field(attrs, "usagetype") {
        Some(u) => u,
        None => return None,
    };
    if bedrock_direction(usage).is_none() {
        return None;
    }
    let sku = match str_field(product, "sku") {
        Some(s) => s,
        None => return None,
    };
    match bedrock_on_demand_usd(od, sku) {
        Some(p) => Some(BedrockLine { service_name: name.to_owned(), usage: usage.to_owned(), usd: p }),
        None => None,
    }
}

/// The token meters of a Bedrock pricebook, in product order.
pub fn bedrock_lines(book: &Json) -> (res: Result<Vec<BedrockLine>, String>)
    ensures
        match res {
            Ok(v) => bedrock_lines_spec(*book) == Ok::<Seq<(Seq<char>, Seq<char>, Seq<char>)>, Seq<char>>(
                line_views(v@),
            ),
            Err(e) => bedrock_lines_spec(*book) == Err::<Seq<(Seq<char>, Seq<char>, Seq<char>)>, Seq<char>>(
                e@,
            ),
        },
{
    let products = match obj_field(book, "products") {
        Some(p) => p,
        None => return Err("missing bedrock products".to_owned()),
    };
    let od = match get(book, "terms") {
        Some(t) => obj_field(t, "OnDemand"),
        None => None,
    };
    let od = match od {
        Some(o) => o,
        None => return Err("missing bedrock OnDemand terms".to_owned()),
    };
    let mut out: Vec<BedrockLine> = Vec::new();
    let mut i: usize = 0;
    while i < products.len()
        invariant
            i <= products.len(),
            line_views(out@) == product_lines(od@, products@.take(i as int)),
        decreases products.len() - i,
    {
        assert(products@.take(i + 1).drop_last() =~= products@.take(i as int));
        match product_line_of(od, &products[i].1) {
            Some(l) => {
                let ghost before = out@;
                out.push(l);
                assert(line_views(out@) =~= line_views(before).push((l.service_name@, l.usage@, l.usd@)));
            },
            None => {},
        }
        i = i + 1;
    }
    assert(products@.take(products.len() as int) =~= products@);
    Ok(out)
}

} // verus!
