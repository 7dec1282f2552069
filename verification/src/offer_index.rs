//! Reading AWS Price List offer indexes: the on-demand USD price of a
//! product, the first on-demand price with the attribute it is sold by, and
//! the attribute values that have on-demand terms.
use vstd::prelude::*;
use crate::estimate::opt_view;
use crate::json::{
    Json, as_obj, as_str, first_some, get, jget, jobj, jstr, lemma_first_some_step, lookup,
    member, obj_at, obj_field, str_at, str_field,
};
use crate::order::strictly_sorted;
use crate::regions::{aws_region_ok, filter_standard_aws_regions, sorted_unique};
use crate::service_rules::{
    aws_attr_key, aws_default_sku, aws_default_sku_spec, category_rule, has_instance_type_attr,
    humanize_service_key, humanized, infer_category, infer_unit, is_llm_token_service,
    is_llm_token_service_spec, unit_rule,
};
use crate::store::ProviderServiceIngest;
use crate::text::{chars_of, push_str, str_eq, strs, unicode_lowercase, views};

verus! {

/// The USD price of a price dimension (`pricePerUnit.USD`).
pub open spec fn dim_usd(dim: Json) -> Option<Seq<char>> {
    match jget(dim, "pricePerUnit"@) {
        Some(p) => str_at(p, "USD"@),
        None => None,
    }
}

pub open spec fn dim_usd_f() -> spec_fn((String, Json)) -> Option<Seq<char>> {
    |d: (String, Json)| dim_usd(d.1)
}

/// The first USD price among an offer term's price dimensions.
pub open spec fn offer_usd(offer: Json) -> Option<Seq<char>> {
    match obj_at(offer, "priceDimensions"@) {
        Some(dims) => first_some(dims, dim_usd_f()),
        None => None,
    }
}

pub open spec fn offer_usd_f() -> spec_fn((String, Json)) -> Option<Seq<char>> {
    |o: (String, Json)| offer_usd(o.1)
}

/// The first USD price among the offers of a SKU's on-demand term.
pub open spec fn term_usd(term: Seq<(String, Json)>) -> Option<Seq<char>> {
    first_some(term, offer_usd_f())
}

/// `terms.OnDemand` of an offer index.
pub open spec fn on_demand_terms(index: Json) -> Option<Seq<(String, Json)>> {
    match jget(index, "terms"@) {
        Some(t) => obj_at(t, "OnDemand"@),
        None => None,
    }
}

/// The on-demand term of a SKU, as an object.
pub open spec fn sku_term(od: Seq<(String, Json)>, sku: Seq<char>) -> Option<Seq<(String, Json)>> {
    match member(od, sku) {
        Some(t) => jobj(t),
        None => None,
    }
}

/// The price of a product whose attribute `key` is the string `value`.
pub open spec fn product_price(
    od: Seq<(String, Json)>,
    key: Seq<char>,
    value: Seq<char>,
    p: (String, Json),
) -> Option<Seq<char>> {
    match obj_at(p.1, "attributes"@) {
        Some(attrs) => {
            let v = match member(attrs, key) {
                Some(x) => jstr(x),
                None => None,
            };
            if v == Some(value) {
                match sku_term(od, p.0@) {
                    Some(t) => term_usd(t),
                    None => None,
                }
            } else {
                None
            }
        },
        None => None,
    }
}

pub open spec fn product_price_f(od: Seq<(String, Json)>, key: Seq<char>, value: Seq<char>) -> spec_fn(
    (String, Json),
) -> Option<Seq<char>> {
    |p: (String, Json)| product_price(od, key, value, p)
}

/// The on-demand USD price of the first product (in index order) whose
/// attribute `key` is `value` and which has one; an index without products
/// or on-demand terms is an error.
pub open spec fn on_demand_price_spec(index: Json, key: Seq<char>, value: Seq<char>) -> Result<
    Option<Seq<char>>,
    Seq<char>,
> {
    match obj_at(index, "products"@) {
        None => Err("missing products"@),
        Some(products) => match on_demand_terms(index) {
            None => Err("missing OnDemand terms"@),
            Some(od) => Ok(first_some(products, product_price_f(od, key, value))),
        },
    }
}

fn dims_usd(dims: &Vec<(String, Json)>) -> (res: Option<String>)
    ensures
        opt_view(res) == first_some(dims@, dim_usd_f()),
{
    let mut i: usize = 0;
    while i < dims.len()
        invariant
            i <= dims.len(),
            first_some(dims@.take(i as int), dim_usd_f()) is None,
        decreases dims.len() - i,
    {
        proof {
            lemma_first_some_step(dims@, dim_usd_f(), i as int);
        }
        let usd = match get(&dims[i].1, "pricePerUnit") {
            Some(p) => str_field(p, "USD"),
            None => None,
        };
        if let Some(u) = usd {
            proof {
                lemma_first_some_prefix(dims@, dim_usd_f(), i as int + 1);
            }
            return Some(u.to_owned());
        }
        i = i + 1;
    }
    assert(dims@.take(dims.len() as int) =~= dims@);
    None
}

/// A `Some` found in a prefix is the first of the whole.
pub proof fn lemma_first_some_prefix<A, B>(s: Seq<A>, f: spec_fn(A) -> Option<B>, n: int)
    requires
        0 <= n <= s.len(),
        first_some(s.take(n), f) is Some,
    ensures
        first_some(s, f) == first_some(s.take(n), f),
    decreases s.len() - n,
{
    if n < s.len() {
        assert(s.take(n + 1).drop_last() =~= s.take(n));
        lemma_first_some_prefix(s, f, n + 1);
    } else {
        assert(s.take(n) =~= s);
    }
}

fn offer_price(offer: &Json) -> (res: Option<String>)
    ensures
        opt_view(res) == offer_usd(*offer),
{
    match obj_field(offer, "priceDimensions") {
        Some(dims) => dims_usd(dims),
        None => None,
    }
}

fn term_price(term: &Vec<(String, Json)>) -> (res: Option<String>)
    ensures
        opt_view(res) == term_usd(term@),
{
    let mut i: usize = 0;
    while i < term.len()
        invariant
            i <= term.len(),
            first_some(term@.take(i as int), offer_usd_f()) is None,
        decreases term.len() - i,
    {
        proof {
            lemma_first_some_step(term@, offer_usd_f(), i as int);
        }
        if let Some(u) = offer_price(&term[i].1) {
            proof {
                lemma_first_some_prefix(term@, offer_usd_f(), i as int + 1);
            }
            return Some(u);
        }
        i = i + 1;
    }
    assert(term@.take(term.len() as int) =~= term@);
    None
}

fn on_demand_of(index: &Json) -> (res: Option<&Vec<(String, Json)>>)
    ensures
        match res {
            Some(e) => on_demand_terms(*index) == Some(e@),
            None => on_demand_terms(*index) is None,
        },
{
    match get(index, "terms") {
        Some(t) => obj_field(t, "OnDemand"),
        None => None,
    }
}

fn sku_term_of<'a>(od: &'a Vec<(String, Json)>, sku: &str) -> (res: Option<&'a Vec<(String, Json)>>)
    ensures
        match res {
            Some(e) => sku_term(od@, sku@) == Some(e@),
            None => sku_term(od@, sku@) is None,
        },
{
    match lookup(od, sku) {
        Some(t) => as_obj(t),
        None => None,
    }
}

fn product_price_of(od: &Vec<(String, Json)>, key: &str, value: &str, p: &(String, Json)) -> (res: Option<String>)
    ensures
        opt_view(res) == product_price(od@, key@, value@, *p),
{
    let attrs = match obj_field(&p.1, "attributes") {
        Some(a) => a,
        None => return None,
    };
    let v = match lookup(attrs, key) {
        Some(x) => as_str(x),
        None => None,
    };
    match v {
        Some(s) => if !str_eq(s, value) {
            return None;
        },
        None => return None,
    }
    match sku_term_of(od, p.0.as_str()) {
        Some(t) => term_price(t),
        None => None,
    }
}

/// The on-demand USD price (as written in the index) of the first product
/// whose attribute `attr_key` is `attr_value` and that has one.
pub fn aws_on_demand_price(index: &Json, attr_key: &str, attr_value: &str) -> (res: Result<Option<String>, String>)
    ensures
        match res {
            Ok(o) => on_demand_price_spec(*index, attr_key@, attr_value@) == Ok::<Option<Seq<char>>, Seq<char>>(opt_view(o)),
            Err(e) => on_demand_price_spec(*index, attr_key@, attr_value@) == Err::<Option<Seq<char>>, Seq<char>>(e@),
        },
{
    let products = match obj_field(index, "products") {
        Some(p) => p,
        None => return Err("missing products".to_owned()),
    };
    let od = match on_demand_of(index) {
        Some(o) => o,
        None => return Err("missing OnDemand terms".to_owned()),
    };
    let ghost f = product_price_f(od@, attr_key@, attr_value@);
    let mut i: usize = 0;
    while i < products.len()
        invariant
            i <= products.len(),
            f == product_price_f(od@, attr_key@, attr_value@),
            obj_at(*index, "products"@) == Some(products@),
            on_demand_terms(*index) == Some(od@),
            first_some(products@.take(i as int), f) is None,
        decreases products.len() - i,
    {
        proof {
            lemma_first_some_step(products@, f, i as int);
        }
        if let Some(u) = product_price_of(od, attr_key, attr_value, &products[i]) {
            proof {
                lemma_first_some_prefix(products@, f, i as int + 1);
            }
            return Ok(Some(u));
        }
        i = i + 1;
    }
    assert(products@.take(products.len() as int) =~= products@);
    Ok(None)
}

/// The string value of a member, or empty text.
pub open spec fn str_or_empty(v: Json) -> Seq<char> {
    match jstr(v) {
        Some(s) => s,
        None => seq![],
    }
}

/// The attribute a product is sold by: its first attribute other than
/// `location` and `locationType`, with its string value (empty if none).
pub open spec fn sold_by(e: (String, Json)) -> Option<(Seq<char>, Seq<char>)> {
    if e.0@ != "location"@ && e.0@ != "locationType"@ {
        Some((e.0@, str_or_empty(e.1)))
    } else {
        None
    }
}

pub open spec fn sold_by_f() -> spec_fn((String, Json)) -> Option<(Seq<char>, Seq<char>)> {
    |e: (String, Json)| sold_by(e)
}

/// What a product decides for the first on-demand price: `None` to go on
/// with the next product, `Some(None)` to give up (no attributes, no term,
/// or a priced product without a selling attribute), `Some(Some(..))` for
/// the attribute, its value and the price.
pub open spec fn first_od_step(od: Seq<(String, Json)>, p: (String, Json)) -> Option<
    Option<(Seq<char>, Seq<char>, Seq<char>)>,
> {
    match obj_at(p.1, "attributes"@) {
        None => Some(None),
        Some(attrs) => match sku_term(od, p.0@) {
            None => Some(None),
            Some(t) => match term_usd(t) {
                None => None,
                Some(u) => match first_some(attrs, sold_by_f()) {
                    None => Some(None),
                    Some((k, v)) => Some(Some((k, v, u))),
                },
            },
        },
    }
}

pub open spec fn first_od_step_f(od: Seq<(String, Json)>) -> spec_fn((String, Json)) -> Option<
    Option<(Seq<char>, Seq<char>, Seq<char>)>,
> {
    |p: (String, Json)| first_od_step(od, p)
}

/// The first on-demand price of an offer index with the attribute pair it
/// is sold by.
pub open spec fn first_on_demand_spec(index: Json) -> Option<(Seq<char>, Seq<char>, Seq<char>)> {
    match (obj_at(index, "products"@), on_demand_terms(index)) {
        (Some(ps), Some(od)) => match first_some(ps, first_od_step_f(od)) {
            Some(r) => r,
            None => None,
        },
        _ => None,
    }
}

fn selling_attr(attrs: &Vec<(String, Json)>) -> (res: Option<(String, String)>)
    ensures
        match res {
            Some((k, v)) => first_some(attrs@, sold_by_f()) == Some((k@, v@)),
            None => first_some(attrs@, sold_by_f()) is None,
        },
{
    let mut i: usize = 0;
    while i < attrs.len()
        invariant
            i <= attrs.len(),
            first_some(attrs@.take(i as int), sold_by_f()) is None,
        decreases attrs.len() - i,
    {
        proof {
            lemma_first_some_step(attrs@, sold_by_f(), i as int);
        }
        let k = attrs[i].0.as_str();
        if !str_eq(k, "location") && !str_eq(k, "locationType") {
            let v = match as_str(&attrs[i].1) {
                Some(s) => s.to_owned(),
                None => String::new(),
            };
            proof {
                lemma_first_some_prefix(attrs@, sold_by_f(), i as int + 1);
            }
            return Some((k.to_owned(), v));
        }
        i = i + 1;
    }
    assert(attrs@.take(attrs.len() as int) =~= attrs@);
    None
}

fn first_od_of(od: &Vec<(String, Json)>, p: &(String, Json)) -> (res: Option<Option<(String, String, String)>>)
    ensures
        match res {
            None => first_od_step(od@, *p) is None,
            Some(None) => first_od_step(od@, *p) == Some(None::<(Seq<char>, Seq<char>, Seq<char>)>),
            Some(Some((k, v, u))) => first_od_step(od@, *p) == Some(Some((k@, v@, u@))),
        },
{
    let attrs = match obj_field(&p.1, "attributes") {
        Some(a) => a,
        None => return Some(None),
    };
    let term = match sku_term_of(od, p.0.as_str()) {
        Some(t) => t,
        None => return Some(None),
    };
    let usd = match term_price(term) {
        Some(u) => u,
        None => return None,
    };
    match selling_attr(attrs) {
        Some((k, v)) => Some(Some((k, v, usd))),
        None => Some(None),
    }
}

/// The first on-demand USD price of an offer index (products in index
/// order), with the attribute and value of its product.
pub fn aws_first_on_demand(index: &Json) -> (res: Option<(String, String, String)>)
    ensures
        match res {
            Some((k, v, u)) => first_on_demand_spec(*index) == Some((k@, v@, u@)),
            None => first_on_demand_spec(*index) is None,
        },
{
    let products = match obj_field(index, "products") {
        Some(p) => p,
        None => return None,
    };
    let od = match on_demand_of(index) {
        Some(o) => o,
        None => return None,
    };
    let ghost f = first_od_step_f(od@);
    let mut i: usize = 0;
    while i < products.len()
        invariant
            i <= products.len(),
            f == first_od_step_f(od@),
            obj_at(*index, "products"@) == Some(products@),
            on_demand_terms(*index) == Some(od@),
            first_some(products@.take(i as int), f) is None,
        decreases products.len() - i,
    {
        proof {
            lemma_first_some_step(products@, f, i as int);
        }
        match first_od_of(od, &products[i]) {
            None => {},
            Some(r) => {
                proof {
                    lemma_first_some_prefix(products@, f, i as int + 1);
                }
                return r;
            },
        }
        i = i + 1;
    }
    assert(products@.take(products.len() as int) =~= products@);
    None
}

/// The value of attribute `key` of a product that has an on-demand term,
/// when it is a non-empty string.
pub open spec fn listed_value(od: Seq<(String, Json)>, key: Seq<char>, p: (String, Json)) -> Option<Seq<char>> {
    if member(od, p.0@) is Some {
        match obj_at(p.1, "attributes"@) {
            Some(attrs) => match member(attrs, key) {
                Some(x) => match jstr(x) {
                    Some(v) => if v.len() > 0 {
                        Some(v)
                    } else {
                        None
                    },
                    None => None,
                },
                None => None,
            },
            None => None,
        }
    } else {
        None
    }
}

/// The values of attribute `key` among products with on-demand terms (none
/// when the index lacks products or terms).
pub open spec fn listed_values(index: Json, key: Seq<char>) -> Set<Seq<char>> {
    match (obj_at(index, "products"@), on_demand_terms(index)) {
        (Some(ps), Some(od)) => Set::new(
            |v: Seq<char>| exists|i: int| 0 <= i < ps.len() && listed_value(od, key, #[trigger] ps[i]) == Some(v),
        ),
        _ => Set::empty(),
    }
}

fn listed_value_of(od: &Vec<(String, Json)>, key: &str, p: &(String, Json)) -> (res: Option<Vec<char>>)
    ensures
        match res {
            Some(v) => listed_value(od@, key@, *p) == Some(v@),
            None => listed_value(od@, key@, *p) is None,
        },
{
    if lookup(od, p.0.as_str()).is_none() {
        return None;
    }
    let attrs = match obj_field(&p.1, "attributes") {
        Some(a) => a,
        None => return None,
    };
    match lookup(attrs, key) {
        Some(x) => match as_str(x) {
            Some(v) => if !v.is_empty() {
                Some(chars_of(v))
            } else {
                None
            },
            None => None,
        },
        None => None,
    }
}

/// The distinct non-empty values of attribute `attr_key` (instance types,
/// for instance) of the products that have on-demand terms, sorted.
pub fn aws_list_attr_values(index: &Json, attr_key: &str) -> (res: Vec<String>)
    ensures
        strictly_sorted(strs(res@)),
        forall|y: Seq<char>| strs(res@).contains(y) <==> listed_values(*index, attr_key@).contains(y),
{
    let products = match obj_field(index, "products") {
        Some(p) => p,
        None => {
            let out: Vec<String> = Vec::new();
            assert(strs(out@) =~= Seq::<Seq<char>>::empty());
            return out;
        },
    };
    let od = match on_demand_of(index) {
        Some(o) => o,
        None => {
            let out: Vec<String> = Vec::new();
            assert(strs(out@) =~= Seq::<Seq<char>>::empty());
            return out;
        },
    };
    let mut raw: Vec<Vec<char>> = Vec::new();
    let mut i: usize = 0;
    while i < products.len()
        invariant
            i <= products.len(),
            forall|y: Seq<char>|
                views(raw@).contains(y) <==> exists|k: int|
                    0 <= k < i && listed_value(od@, attr_key@, #[trigger] products@[k]) == Some(y),
        decreases products.len() - i,
    {
        match listed_value_of(od, attr_key, &products[i]) {
            Some(v) => {
                let ghost before = views(raw@);
                raw.push(v);
                proof {
                    assert(views(raw@) =~= before.push(v@));
                    assert forall|y: Seq<char>|
                        views(raw@).contains(y) <==> exists|k: int|
                            0 <= k < i + 1 && listed_value(od@, attr_key@, #[trigger] products@[k]) == Some(y) by {
                        if views(raw@).contains(y) && y != v@ {
                            let q = choose|q: int| 0 <= q < views(raw@).len() && views(raw@)[q] == y;
                            assert(before[q] == y);
                            assert(before.contains(y));
                        }
                        if y == v@ {
                            assert(views(raw@)[before.len() as int] == y);
                        }
                        if exists|k: int| 0 <= k < i + 1 && listed_value(od@, attr_key@, #[trigger] products@[k]) == Some(y) {
                            let k = choose|k: int| 0 <= k < i + 1 && listed_value(od@, attr_key@, #[trigger] products@[k]) == Some(y);
                            if k < i {
                                assert(before.contains(y));
                                let q = choose|q: int| 0 <= q < before.len() && before[q] == y;
                                assert(views(raw@)[q] == y);
                            }
                        }
                    }
                }
            },
            None => {
                assert forall|y: Seq<char>|
                    views(raw@).contains(y) <==> exists|k: int|
                        0 <= k < i + 1 && listed_value(od@, attr_key@, #[trigger] products@[k]) == Some(y) by {
                    if exists|k: int| 0 <= k < i + 1 && listed_value(od@, attr_key@, #[trigger] products@[k]) == Some(y) {
                        let k = choose|k: int| 0 <= k < i + 1 && listed_value(od@, attr_key@, #[trigger] products@[k]) == Some(y);
                        assert(k < i);
                    }
                }
            },
        }
        i = i + 1;
    }
    sorted_unique(&raw)
}

/// The AWS Price List host.
pub open spec fn pricing_host() -> Seq<char> {
    "https://pricing.us-east-1.amazonaws.com"@
}

/// The names of an object's members, in order.
pub open spec fn keys(entries: Seq<(String, Json)>) -> Seq<Seq<char>> {
    entries.map_values(|e: (String, Json)| e.0@)
}

fn key_list(entries: &Vec<(String, Json)>) -> (res: Vec<String>)
    ensures
        strs(res@) == keys(entries@),
{
    let mut out: Vec<String> = Vec::new();
    let mut i: usize = 0;
    while i < entries.len()
        invariant
            i <= entries.len(),
            strs(out@) == keys(entries@.take(i as int)),
        decreases entries.len() - i,
    {
        let ghost before = strs(out@);
        let k = crate::text::owned(entries[i].0.as_str());
        out.push(k);
        assert(strs(out@) =~= before.push(k@));
        assert(keys(entries@.take(i + 1)) =~= keys(entries@.take(i as int)).push(entries@[i as int].0@));
        i = i + 1;
    }
    assert(entries@.take(entries.len() as int) =~= entries@);
    out
}

/// The offer codes of the AWS offer index, in index order.
pub fn aws_offer_codes(index: &Json) -> (res: Result<Vec<String>, String>)
    ensures
        match res {
            Ok(codes) => obj_at(*index, "offers"@) is Some && strs(codes@) == keys(
                obj_at(*index, "offers"@)->Some_0,
            ),
            Err(m) => obj_at(*index, "offers"@) is None && m@ == "missing AWS offers index"@,
        },
{
    match obj_field(index, "offers") {
        Some(offers) => Ok(key_list(offers)),
        None => Err("missing AWS offers index".to_owned()),
    }
}

/// The region codes of an AWS region index (the names of its `regions`
/// object, which are distinct), sorted; an index without any is an error.
pub fn aws_region_codes(region_index: &Json) -> (res: Result<Vec<String>, String>)
    ensures
        ({
            let names = match obj_at(*region_index, "regions"@) {
                Some(r) => keys(r),
                None => Seq::empty(),
            };
            match res {
                Ok(codes) => codes.len() > 0 && strictly_sorted(strs(codes@)) && forall|y: Seq<char>|
                    strs(codes@).contains(y) <==> names.contains(y),
                Err(m) => names.len() == 0 && m@ == "no regions in AWS region index"@,
            }
        }),
{
    let names: Vec<String> = match obj_field(region_index, "regions") {
        Some(r) => key_list(r),
        None => Vec::new(),
    };
    assert(strs(names@) == match obj_at(*region_index, "regions"@) {
        Some(r) => keys(r),
        None => Seq::<Seq<char>>::empty(),
    });
    if names.len() == 0 {
        return Err("no regions in AWS region index".to_owned());
    }
    let mut raw: Vec<Vec<char>> = Vec::new();
    let mut i: usize = 0;
    while i < names.len()
        invariant
            i <= names.len(),
            views(raw@) == strs(names@).take(i as int),
        decreases names.len() - i,
    {
        let ghost before = views(raw@);
        let c = chars_of(names[i].as_str());
        raw.push(c);
        assert(views(raw@) =~= before.push(c@));
        assert(strs(names@).take(i + 1) =~= strs(names@).take(i as int).push(names@[i as int]@));
        i = i + 1;
    }
    assert(strs(names@).take(names.len() as int) =~= strs(names@));
    let out = sorted_unique(&raw);
    assert(strs(names@).contains(strs(names@)[0]));
    assert(strs(out@).len() > 0);
    Ok(out)
}

/// The URL of an offer's region index.
pub fn aws_region_index_url(offer: &Json) -> (res: Result<String, String>)
    ensures
        match res {
            Ok(url) => str_at(*offer, "currentRegionIndexUrl"@) is Some && url@ == pricing_host() + str_at(
                *offer,
                "currentRegionIndexUrl"@,
            )->Some_0,
            Err(m) => str_at(*offer, "currentRegionIndexUrl"@) is None && m@ == "missing currentRegionIndexUrl"@,
        },
{
    match str_field(offer, "currentRegionIndexUrl") {
        Some(path) => {
            let mut url = "https://pricing.us-east-1.amazonaws.com".to_owned();
            push_str(&mut url, path);
            Ok(url)
        },
        None => Err("missing currentRegionIndexUrl".to_owned()),
    }
}

/// The URL of an offer's regional index.
pub fn aws_offer_index_url(offer_code: &str, region: &str) -> (res: String)
    ensures
        res@ == pricing_host() + "/offers/v1.0/aws/"@ + offer_code@ + "/current/"@ + region@
            + "/index.json"@,
{
    let mut url = "https://pricing.us-east-1.amazonaws.com".to_owned();
    push_str(&mut url, "/offers/v1.0/aws/");
    push_str(&mut url, offer_code);
    push_str(&mut url, "/current/");
    push_str(&mut url, region);
    push_str(&mut url, "/index.json");
    url
}

/// The price an offer index gives: the on-demand price of the product with
/// the attribute pair when one is given and found, else the first on-demand
/// price of the index.
pub open spec fn offer_price_spec(index: Json, attr: Option<(Seq<char>, Seq<char>)>) -> Result<Seq<char>, Seq<char>> {
    let fallback = match first_on_demand_spec(index) {
        Some(t) => Ok(t.2),
        None => Err("no on-demand price in AWS offer index"@),
    };
    match attr {
        Some((k, v)) => match on_demand_price_spec(index, k, v) {
            Err(e) => Err(e),
            Ok(Some(p)) => Ok(p),
            Ok(None) => fallback,
        },
        None => fallback,
    }
}

/// The price text of an offer index for a SKU chosen by an attribute pair
/// (when both parts are known).
pub fn aws_offer_price(index: &Json, attr_key: Option<&str>, attr_value: Option<&str>) -> (res: Result<String, String>)
    ensures
        ({
            let attr = match (attr_key, attr_value) {
                (Some(k), Some(v)) => Some((k@, v@)),
                _ => None,
            };
            match res {
                Ok(p) => offer_price_spec(*index, attr) == Ok::<Seq<char>, Seq<char>>(p@),
                Err(e) => offer_price_spec(*index, attr) == Err::<Seq<char>, Seq<char>>(e@),
            }
        }),
{
    match (attr_key, attr_value) {
        (Some(k), Some(v)) => match aws_on_demand_price(index, k, v) {
            Err(e) => return Err(e),
            Ok(Some(p)) => return Ok(p),
            Ok(None) => {},
        },
        _ => {},
    }
    match aws_first_on_demand(index) {
        Some((_k, _v, p)) => Ok(p),
        None => Err("no on-demand price in AWS offer index".to_owned()),
    }
}

/// The first on-demand price of an offer index and the attribute value of
/// its product; `no on-demand price for OFFER in REGION` when it has none.
pub fn aws_index_first_price(index: &Json, offer: &str, region: &str) -> (res: Result<(String, String), String>)
    ensures
        match res {
            Ok((p, v)) => first_on_demand_spec(*index) matches Some(t) && t.2 == p@ && t.1 == v@,
            Err(m) => first_on_demand_spec(*index) is None && m@ == "no on-demand price for "@ + offer@
                + " in "@ + region@,
        },
{
    match aws_first_on_demand(index) {
        Some((_k, v, p)) => Ok((p, v)),
        None => {
            let mut m = "no on-demand price for ".to_owned();
            push_str(&mut m, offer);
            push_str(&mut m, " in ");
            push_str(&mut m, region);
            Err(m)
        },
    }
}

/// The catalog row of an AWS offer: everything derived from the offer code
/// (the display name from its humanized code), the shared region list, and
/// no row for a token-priced LLM offer.
pub open spec fn aws_offer_row_ok(code: Seq<char>, regions: Seq<Seq<char>>, row: ProviderServiceIngest) -> bool {
    let name = humanized(code);
    &&& row.catalog_id@ == "aws:"@ + code
    &&& row.provider@ == "aws"@
    &&& row.service_key@ == code
    &&& row.display_name@ == name
    &&& row.category_id@ == category_rule(unicode_lowercase(name))
    &&& row.unit@ == unit_rule(unicode_lowercase(name))
    &&& row.default_sku@ == aws_default_sku_spec(code)
    &&& opt_view(row.offer_code) == Some(code)
    &&& opt_view(row.attr_key) == (if has_instance_type_attr(code) {
        Some("instanceType"@)
    } else {
        None
    })
    &&& row.attr_value is None
    &&& row.billing_service_id is None
    &&& row.sku_description_hint is None
    &&& strs(row.regions@) == regions
}

pub fn aws_offer_row(offer_code: &str, regions: Vec<String>) -> (res: Option<ProviderServiceIngest>)
    ensures
        match res {
            Some(row) => !is_llm_token_service_spec(offer_code@) && aws_offer_row_ok(offer_code@, strs(regions@), row),
            None => is_llm_token_service_spec(offer_code@),
        },
{
    if is_llm_token_service(offer_code) {
        return None;
    }
    let display_name = humanize_service_key(offer_code);
    let category_id = infer_category(display_name.as_str());
    let unit = infer_unit(display_name.as_str());
    let attr_key = match aws_attr_key(offer_code) {
        Some(k) => Some(k.to_owned()),
        None => None,
    };
    let mut catalog_id = "aws:".to_owned();
    push_str(&mut catalog_id, offer_code);
    Some(
        ProviderServiceIngest {
            catalog_id,
            provider: "aws".to_owned(),
            service_key: offer_code.to_owned(),
            display_name,
            category_id: category_id.to_owned(),
            unit: unit.to_owned(),
            default_sku: aws_default_sku(offer_code),
            offer_code: Some(offer_code.to_owned()),
            attr_key,
            attr_value: None,
            billing_service_id: None,
            sku_description_hint: None,
            regions,
        },
    )
}

/// The region list shared by AWS catalog rows: the standard regions of the
/// EC2 region index when it could be read and has any, else the regions
/// already stored, else an error.
pub fn aws_fallback_regions(ec2_regions: Option<Vec<String>>, cached: Vec<String>) -> (res: Result<Vec<String>, String>)
    ensures
        ({
            let from_ec2 = match ec2_regions {
                Some(r) => strs(r@).filter(|x: Seq<char>| aws_region_ok(x)),
                None => Seq::empty(),
            };
            match res {
                Ok(v) => if from_ec2.len() > 0 {
                    strs(v@) == from_ec2
                } else {
                    cached.len() > 0 && v@ == cached@
                },
                Err(m) => from_ec2.len() == 0 && cached.len() == 0 && m@
                    == "no AWS regions from pricing API or database cache"@,
            }
        }),
{
    if let Some(r) = ec2_regions {
        let kept = filter_standard_aws_regions(r);
        if kept.len() > 0 {
            return Ok(kept);
        }
    }
    if cached.len() > 0 {
        Ok(cached)
    } else {
        Err("no AWS regions from pricing API or database cache".to_owned())
    }
}

} // verus!
