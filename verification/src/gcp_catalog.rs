//! Reading the GCP Cloud Billing catalog: the regions SKUs are offered in,
//! looking a SKU up, and the catalog row of a billing service.
use vstd::prelude::*;
use crate::json::{Json, arr_at, arr_field, as_str, jstr, str_at, str_field};
use crate::llm::{slug, slugify};
use crate::order::{lex_less, lex_lt, strictly_sorted};
use crate::regions::sorted_unique;
use crate::service_rules::{category_rule, infer_category, infer_unit, unit_rule};
use crate::store::ProviderServiceIngest;
use crate::text::{chars_of, has_lit, push_str, seq_has, str_eq, strs, unicode_lowercase, views};

verus! {

/// The strings among `items`, in order.
pub open spec fn string_items(items: Seq<Json>) -> Seq<Seq<char>>
    decreases items.len(),
{
    if items.len() == 0 {
        seq![]
    } else {
        let prev = string_items(items.drop_last());
        match jstr(items.last()) {
            Some(s) => prev.push(s),
            None => prev,
        }
    }
}

/// The regions a SKU advertises (`serviceRegions`).
pub open spec fn sku_regions_spec(sku: Json) -> Seq<Seq<char>> {
    match arr_at(sku, "serviceRegions"@) {
        Some(items) => string_items(items),
        None => seq![],
    }
}

/// The regions a SKU advertises, in order.
pub fn sku_regions(sku: &Json) -> (res: Vec<String>)
    ensures
        strs(res@) == sku_regions_spec(*sku),
{
    let mut out: Vec<String> = Vec::new();
    let items = match arr_field(sku, "serviceRegions") {
        Some(a) => a,
        None => {
            assert(strs(out@) =~= Seq::<Seq<char>>::empty());
            return out;
        },
    };
    let mut i: usize = 0;
    while i < items.len()
        invariant
            i <= items.len(),
            strs(out@) == string_items(items@.take(i as int)),
        decreases items.len() - i,
    {
        assert(items@.take(i + 1).drop_last() =~= items@.take(i as int));
        if let Some(s) = as_str(&items[i]) {
            let ghost before = strs(out@);
            let owned = s.to_owned();
            out.push(owned);
            assert(strs(out@) =~= before.push(owned@));
        }
        i = i + 1;
    }
    assert(items@.take(items.len() as int) =~= items@);
    out
}

/// Every region some SKU advertises.
pub open spec fn service_regions(skus: Seq<Json>) -> Set<Seq<char>> {
    Set::new(
        |r: Seq<char>| exists|i: int| 0 <= i < skus.len() && sku_regions_spec(#[trigger] skus[i]).contains(r),
    )
}

/// The union of the regions a billing service's SKUs advertise, sorted.
pub fn collect_service_regions(skus: &Vec<Json>) -> (res: Vec<String>)
    ensures
        strictly_sorted(strs(res@)),
        forall|r: Seq<char>| strs(res@).contains(r) <==> service_regions(skus@).contains(r),
{
    let mut raw: Vec<Vec<char>> = Vec::new();
    let mut i: usize = 0;
    while i < skus.len()
        invariant
            i <= skus.len(),
            forall|r: Seq<char>|
                views(raw@).contains(r) <==> exists|k: int|
                    0 <= k < i && sku_regions_spec(#[trigger] skus@[k]).contains(r),
        decreases skus.len() - i,
    {
        let regions = sku_regions(&skus[i]);
        let ghost start = views(raw@);
        let mut j: usize = 0;
        while j < regions.len()
            invariant
                j <= regions.len(),
                strs(regions@) == sku_regions_spec(skus@[i as int]),
                views(raw@) == start + strs(regions@).take(j as int),
            decreases regions.len() - j,
        {
            let ghost before = views(raw@);
            let c = chars_of(regions[j].as_str());
            raw.push(c);
            assert(views(raw@) =~= before.push(c@));
            assert(strs(regions@).take(j + 1) =~= strs(regions@).take(j as int).push(regions@[j as int]@));
            j = j + 1;
        }
        proof {
            assert(strs(regions@).take(regions.len() as int) =~= strs(regions@));
            let here = sku_regions_spec(skus@[i as int]);
            assert forall|r: Seq<char>|
                views(raw@).contains(r) <==> exists|k: int|
                    0 <= k < i + 1 && sku_regions_spec(#[trigger] skus@[k]).contains(r) by {
                if views(raw@).contains(r) {
                    let q = choose|q: int| 0 <= q < views(raw@).len() && views(raw@)[q] == r;
                    if q < start.len() {
                        assert(start[q] == r);
                        assert(start.contains(r));
                    } else {
                        assert(here[q - start.len()] == r);
                        assert(here.contains(r));
                    }
                }
                if exists|k: int| 0 <= k < i + 1 && sku_regions_spec(#[trigger] skus@[k]).contains(r) {
                    let k = choose|k: int| 0 <= k < i + 1 && sku_regions_spec(#[trigger] skus@[k]).contains(r);
                    if k < i {
                        assert(start.contains(r));
                        let q = choose|q: int| 0 <= q < start.len() && start[q] == r;
                        assert(views(raw@)[q] == r);
                    } else {
                        let q = choose|q: int| 0 <= q < here.len() && here[q] == r;
                        assert(views(raw@)[start.len() + q] == r);
                    }
                }
            }
        }
        i = i + 1;
    }
    let out = sorted_unique(&raw);
    proof {
        assert forall|r: Seq<char>| strs(out@).contains(r) <==> service_regions(skus@).contains(r) by {
            if strs(out@).contains(r) {
                assert(views(raw@).contains(r));
            }
            if service_regions(skus@).contains(r) {
                assert(views(raw@).contains(r));
            }
        }
    }
    out
}

/// A SKU matches `needle` by its id, its resource name, or a description
/// that contains it.
pub open spec fn sku_matches(sku: Json, needle: Seq<char>) -> bool {
    ||| str_at(sku, "skuId"@) == Some(needle)
    ||| str_at(sku, "name"@) == Some(needle)
    ||| (str_at(sku, "description"@) matches Some(d) && seq_has(d, needle))
}

/// The position of the first SKU that matches `needle`.
pub fn find_sku(skus: &Vec<Json>, needle: &str) -> (res: Option<usize>)
    ensures
        match res {
            Some(i) => i < skus.len() && sku_matches(skus@[i as int], needle@) && forall|j: int|
                0 <= j < i ==> !sku_matches(#[trigger] skus@[j], needle@),
            None => forall|j: int| 0 <= j < skus.len() ==> !sku_matches(#[trigger] skus@[j], needle@),
        },
{
    let n = chars_of(needle);
    let mut i: usize = 0;
    while i < skus.len()
        invariant
            i <= skus.len(),
            n@ == needle@,
            forall|j: int| 0 <= j < i ==> !sku_matches(#[trigger] skus@[j], needle@),
        decreases skus.len() - i,
    {
        let by_id = match str_field(&skus[i], "skuId") {
            Some(s) => str_eq(s, needle),
            None => false,
        };
        let by_name = match str_field(&skus[i], "name") {
            Some(s) => str_eq(s, needle),
            None => false,
        };
        let by_desc = match str_field(&skus[i], "description") {
            Some(d) => seq_contains(&chars_of(d), &n),
            None => false,
        };
        if by_id || by_name || by_desc {
            return Some(i);
        }
        i = i + 1;
    }
    None
}

/// Whether `p` occurs in `s`.
fn seq_contains(s: &Vec<char>, p: &Vec<char>) -> (res: bool)
    ensures
        res == seq_has(s@, p@),
{
    let text = crate::text::string_of(p);
    has_lit(s, text.as_str())
}

/// The catalog row of a GCP billing service: keyed by the slug of its
/// display name (the service id when it has none), priced through its
/// billing id, with a `default` SKU and the regions given.
pub open spec fn gcp_service_row_ok(service: Json, regions: Seq<Seq<char>>, row: ProviderServiceIngest) -> bool {
    let id = str_at(service, "serviceId"@)->Some_0;
    let name = match str_at(service, "displayName"@) {
        Some(n) => n,
        None => id,
    };
    &&& row.catalog_id@ == "gcp:"@ + slug(name)
    &&& row.provider@ == "gcp"@
    &&& row.service_key@ == slug(name)
    &&& row.display_name@ == name
    &&& row.category_id@ == category_rule(unicode_lowercase(name))
    &&& row.unit@ == unit_rule(unicode_lowercase(name))
    &&& row.default_sku@ == "default"@
    &&& row.offer_code is None
    &&& row.attr_key is None
    &&& row.attr_value is None
    &&& crate::estimate::opt_view(row.billing_service_id) == Some(id)
    &&& crate::estimate::opt_view(row.sku_description_hint) == Some(name)
    &&& strs(row.regions@) == regions
}

/// The catalog row of a GCP billing service (see `gcp_service_row_ok`); a
/// service without a `serviceId` is an error.
pub fn gcp_service_row(service: &Json, regions: Vec<String>) -> (res: Result<ProviderServiceIngest, String>)
    ensures
        match res {
            Ok(row) => str_at(*service, "serviceId"@) is Some && gcp_service_row_ok(*service, strs(regions@), row),
            Err(m) => str_at(*service, "serviceId"@) is None && m@ == "gcp service missing serviceId"@,
        },
{
    let billing_id = match str_field(service, "serviceId") {
        Some(id) => id,
        None => return Err("gcp service missing serviceId".to_owned()),
    };
    let display_name: String = match str_field(service, "displayName") {
        Some(n) => n.to_owned(),
        None => billing_id.to_owned(),
    };
    let category_id = infer_category(display_name.as_str());
    let unit = infer_unit(display_name.as_str());
    let service_key = slugify(display_name.as_str());
    let mut catalog_id = "gcp:".to_owned();
    push_str(&mut catalog_id, service_key.as_str());
    let hint = display_name.clone();
    Ok(
        ProviderServiceIngest {
            catalog_id,
            provider: "gcp".to_owned(),
            service_key,
            display_name,
            category_id: category_id.to_owned(),
            unit: unit.to_owned(),
            default_sku: "default".to_owned(),
            offer_code: None,
            attr_key: None,
            attr_value: None,
            billing_service_id: Some(billing_id.to_owned()),
            sku_description_hint: Some(hint),
            regions,
        },
    )
}

/// The token of the next page of a Cloud Billing listing, when there is one.
pub fn next_page_token(page: &Json) -> (res: Option<String>)
    ensures
        match res {
            Some(t) => str_at(*page, "nextPageToken"@) == Some(t@) && t@.len() > 0,
            None => !(str_at(*page, "nextPageToken"@) matches Some(t) && t.len() > 0),
        },
{
    match str_field(page, "nextPageToken") {
        Some(t) => if !t.is_empty() {
            Some(t.to_owned())
        } else {
            None
        },
        None => None,
    }
}

/// A billing service whose (ASCII lower-cased) display name mentions Vertex
/// or Gemini carries LLM SKUs: its display name (empty when it has none)
/// and billing id, when it has one.
pub open spec fn vertex_service_spec(service: Json) -> Option<(Seq<char>, Seq<char>)> {
    let name = match str_at(service, "displayName"@) {
        Some(n) => n,
        None => seq![],
    };
    let lower = crate::text::ascii_lower(name);
    if !seq_has(lower, "vertex"@) && !seq_has(lower, "gemini"@) {
        None
    } else {
        match str_at(service, "serviceId"@) {
            Some(id) => Some((name, id)),
            None => None,
        }
    }
}

pub fn vertex_service(service: &Json) -> (res: Option<(String, String)>)
    ensures
        match res {
            Some((n, id)) => vertex_service_spec(*service) == Some((n@, id@)),
            None => vertex_service_spec(*service) is None,
        },
{
    let name: String = match str_field(service, "displayName") {
        Some(n) => n.to_owned(),
        None => String::new(),
    };
    let lower = crate::text::to_ascii_lower(&chars_of(name.as_str()));
    if !has_lit(&lower, "vertex") && !has_lit(&lower, "gemini") {
        return None;
    }
    match str_field(service, "serviceId") {
        Some(id) => Some((name, id.to_owned())),
        None => None,
    }
}

/// A SKU's description (empty when it has none).
pub fn sku_description(sku: &Json) -> (res: String)
    ensures
        res@ == match str_at(*sku, "description"@) {
            Some(d) => d,
            None => seq![],
        },
{
    match str_field(sku, "description") {
        Some(d) => d.to_owned(),
        None => String::new(),
    }
}

/// The choice a SKU offers in `region`: its id (`skuId`, else `name`) and
/// label (its description, else its id); none when it names regions other
/// than `region` only, or has no id.
pub open spec fn sku_choice(sku: Json, region: Seq<char>) -> Option<(Seq<char>, Seq<char>)> {
    let regions = sku_regions_spec(sku);
    if regions.len() > 0 && !regions.contains(region) {
        None
    } else {
        let id = match str_at(sku, "skuId"@) {
            Some(i) => i,
            None => match str_at(sku, "name"@) {
                Some(n) => n,
                None => seq![],
            },
        };
        if id.len() == 0 {
            None
        } else {
            let label = match str_at(sku, "description"@) {
                Some(d) => if d.len() > 0 {
                    d
                } else {
                    id
                },
                None => id,
            };
            Some((id, label))
        }
    }
}

/// The choices of the SKUs, in SKU order.
pub open spec fn sku_choices_raw(skus: Seq<Json>, region: Seq<char>) -> Seq<(Seq<char>, Seq<char>)>
    decreases skus.len(),
{
    if skus.len() == 0 {
        seq![]
    } else {
        let prev = sku_choices_raw(skus.drop_last(), region);
        match sku_choice(skus.last(), region) {
            Some(c) => prev.push(c),
            None => prev,
        }
    }
}

/// `x` put into `s` before the first element whose label sorts after its
/// own (so after every element with an equal label).
pub open spec fn insert_by_label(s: Seq<(Seq<char>, Seq<char>)>, x: (Seq<char>, Seq<char>)) -> Seq<
    (Seq<char>, Seq<char>),
>
    decreases s.len(),
{
    if s.len() == 0 {
        seq![x]
    } else if lex_lt(x.1, s[0].1) {
        seq![x] + s
    } else {
        seq![s[0]] + insert_by_label(s.drop_first(), x)
    }
}

/// `s` sorted by label, keeping the order of equal labels (a stable sort).
pub open spec fn sorted_by_label(s: Seq<(Seq<char>, Seq<char>)>) -> Seq<(Seq<char>, Seq<char>)>
    decreases s.len(),
{
    if s.len() == 0 {
        seq![]
    } else {
        insert_by_label(sorted_by_label(s.drop_last()), s.last())
    }
}

/// Labels never decrease along `s`.
pub open spec fn labels_ordered(s: Seq<(Seq<char>, Seq<char>)>) -> bool {
    forall|i: int, j: int| 0 <= i < j < s.len() ==> !lex_lt(#[trigger] s[j].1, #[trigger] s[i].1)
}

proof fn lemma_insert_at(s: Seq<(Seq<char>, Seq<char>)>, x: (Seq<char>, Seq<char>), k: int)
    requires
        0 <= k <= s.len(),
        forall|j: int| 0 <= j < k ==> !lex_lt(x.1, #[trigger] s[j].1),
        k < s.len() ==> lex_lt(x.1, s[k].1),
    ensures
        insert_by_label(s, x) == s.take(k) + seq![x] + s.skip(k),
    decreases k,
{
    if s.len() == 0 {
        assert(s.take(k) + seq![x] + s.skip(k) =~= seq![x]);
    } else if k == 0 {
        assert(s.take(0) + seq![x] + s.skip(0) =~= seq![x] + s);
    } else {
        assert(!lex_lt(x.1, s[0].1));
        let t = s.drop_first();
        assert forall|j: int| 0 <= j < k - 1 implies !lex_lt(x.1, #[trigger] t[j].1) by {
            assert(t[j] == s[j + 1]);
        }
        lemma_insert_at(t, x, k - 1);
        assert(s.take(k) + seq![x] + s.skip(k) =~= seq![s[0]] + (t.take(k - 1) + seq![x] + t.skip(k - 1)));
    }
}

/// Inserting by label into a list ordered by label keeps it ordered.
proof fn lemma_insert_ordered(s: Seq<(Seq<char>, Seq<char>)>, x: (Seq<char>, Seq<char>))
    requires
        labels_ordered(s),
    ensures
        labels_ordered(insert_by_label(s, x)),
        insert_by_label(s, x).len() == s.len() + 1,
    decreases s.len(),
{
    if s.len() == 0 {
    } else if lex_lt(x.1, s[0].1) {
        let r = seq![x] + s;
        assert forall|i: int, j: int| 0 <= i < j < r.len() implies !lex_lt(#[trigger] r[j].1, #[trigger] r[i].1) by {
            if i == 0 {
                crate::order::lemma_lex_asymmetric(x.1, s[0].1);
                if j > 1 {
                    assert(!lex_lt(s[j - 1].1, s[0].1));
                    crate::order::lemma_lex_total(s[j - 1].1, s[0].1);
                    if lex_lt(s[j - 1].1, x.1) {
                        if s[j - 1].1 == s[0].1 {
                            crate::order::lemma_lex_asymmetric(x.1, s[0].1);
                        } else {
                            crate::order::lemma_lex_transitive(s[0].1, s[j - 1].1, x.1);
                            crate::order::lemma_lex_transitive(x.1, s[0].1, x.1);
                            crate::order::lemma_lex_irreflexive(x.1);
                        }
                    }
                }
            } else {
                assert(r[i] == s[i - 1] && r[j] == s[j - 1]);
            }
        }
    } else {
        let t = s.drop_first();
        assert(labels_ordered(t)) by {
            assert forall|i: int, j: int| 0 <= i < j < t.len() implies !lex_lt(#[trigger] t[j].1, #[trigger] t[i].1) by {
                assert(t[i] == s[i + 1] && t[j] == s[j + 1]);
            }
        }
        lemma_insert_ordered(t, x);
        let it = insert_by_label(t, x);
        let r = seq![s[0]] + it;
        assert forall|i: int, j: int| 0 <= i < j < r.len() implies !lex_lt(#[trigger] r[j].1, #[trigger] r[i].1) by {
            if i == 0 {
                lemma_insert_member(t, x, j - 1);
                let e = it[j - 1];
                assert(r[j] == e);
                if e == x {
                    assert(!lex_lt(x.1, s[0].1));
                } else {
                    let q = choose|q: int| 0 <= q < t.len() && t[q] == e;
                    assert(t[q] == s[q + 1]);
                    assert(!lex_lt(s[q + 1].1, s[0].1));
                }
            } else {
                assert(r[i] == it[i - 1] && r[j] == it[j - 1]);
            }
        }
    }
}

/// An element of an insertion is `x` or an element of `s`.
proof fn lemma_insert_member(s: Seq<(Seq<char>, Seq<char>)>, x: (Seq<char>, Seq<char>), j: int)
    requires
        0 <= j < s.len() + 1,
    ensures
        insert_by_label(s, x).len() == s.len() + 1,
        insert_by_label(s, x)[j] == x || exists|q: int| 0 <= q < s.len() && s[q] == insert_by_label(s, x)[j],
    decreases s.len(),
{
    if s.len() == 0 {
    } else if lex_lt(x.1, s[0].1) {
        if j > 0 {
            assert((seq![x] + s)[j] == s[j - 1]);
        }
    } else {
        let t = s.drop_first();
        if j > 0 {
            lemma_insert_member(t, x, j - 1);
            let r = seq![s[0]] + insert_by_label(t, x);
            assert(r[j] == insert_by_label(t, x)[j - 1]);
            if insert_by_label(t, x)[j - 1] != x {
                let q = choose|q: int| 0 <= q < t.len() && t[q] == insert_by_label(t, x)[j - 1];
                assert(s[q + 1] == t[q]);
            }
        } else {
            lemma_insert_member(t, x, 0);
        }
    }
}

/// Sorting by label leaves the labels in order (never decreasing).
pub proof fn lemma_sorted_by_label_ordered(s: Seq<(Seq<char>, Seq<char>)>)
    ensures
        labels_ordered(sorted_by_label(s)),
        sorted_by_label(s).len() == s.len(),
    decreases s.len(),
{
    if s.len() > 0 {
        lemma_sorted_by_label_ordered(s.drop_last());
        lemma_insert_ordered(sorted_by_label(s.drop_last()), s.last());
    }
}

pub open spec fn pair_views(v: Seq<(String, String)>) -> Seq<(Seq<char>, Seq<char>)> {
    v.map_values(|p: (String, String)| (p.0@, p.1@))
}

fn choice_of(sku: &Json, region: &str) -> (res: Option<(String, String)>)
    ensures
        match res {
            Some((id, label)) => sku_choice(*sku, region@) == Some((id@, label@)),
            None => sku_choice(*sku, region@) is None,
        },
{
    let regions = sku_regions(sku);
    if regions.len() > 0 {
        let mut found = false;
        let mut k: usize = 0;
        while k < regions.len()
            invariant
                k <= regions.len(),
                found <==> exists|q: int| 0 <= q < k && strs(regions@)[q] == region@,
            decreases regions.len() - k,
        {
            if str_eq(regions[k].as_str(), region) {
                found = true;
                assert(strs(regions@)[k as int] == region@);
            } else {
                assert(strs(regions@)[k as int] != region@);
            }
            k = k + 1;
        }
        if !found {
            proof {
                if strs(regions@).contains(region@) {
                    let q = choose|q: int| 0 <= q < strs(regions@).len() && strs(regions@)[q] == region@;
                    assert(q < k);
                }
            }
            return None;
        }
    }
    let id: String = match str_field(sku, "skuId") {
        Some(i) => i.to_owned(),
        None => match str_field(sku, "name") {
            Some(n) => n.to_owned(),
            None => String::new(),
        },
    };
    if id.as_str().is_empty() {
        return None;
    }
    let label: String = match str_field(sku, "description") {
        Some(d) => if !d.is_empty() {
            d.to_owned()
        } else {
            id.clone()
        },
        None => id.clone(),
    };
    Some((id, label))
}

/// The SKU choices of a billing service in a region, sorted by label (a
/// stable sort: SKUs with equal labels keep their order).
pub fn gcp_sku_choices(skus: &Vec<Json>, region: &str) -> (res: Vec<(String, String)>)
    ensures
        pair_views(res@) == sorted_by_label(sku_choices_raw(skus@, region@)),
{
    let mut out: Vec<(String, String)> = Vec::new();
    let mut i: usize = 0;
    while i < skus.len()
        invariant
            i <= skus.len(),
            pair_views(out@) == sorted_by_label(sku_choices_raw(skus@.take(i as int), region@)),
        decreases skus.len() - i,
    {
        assert(skus@.take(i + 1).drop_last() =~= skus@.take(i as int));
        let ghost raw = sku_choices_raw(skus@.take(i as int), region@);
        match choice_of(&skus[i], region) {
            Some(c) => {
                let ghost before = pair_views(out@);
                let ghost x = (c.0@, c.1@);
                assert(sku_choices_raw(skus@.take(i + 1), region@) == raw.push(x));
                assert(raw.push(x).drop_last() =~= raw);
                let label = crate::text::chars_of(c.1.as_str());
                let mut k: usize = 0;
                while k < out.len() && !lex_less(&label, &crate::text::chars_of(out[k].1.as_str()))
                    invariant
                        k <= out.len(),
                        pair_views(out@) == before,
                        label@ == x.1,
                        forall|j: int| 0 <= j < k ==> !lex_lt(x.1, #[trigger] before[j].1),
                    decreases out.len() - k,
                {
                    k = k + 1;
                }
                proof {
                    lemma_insert_at(before, x, k as int);
                }
                out.insert(k, c);
                assert(pair_views(out@) =~= before.take(k as int) + seq![x] + before.skip(k as int));
            },
            None => {},
        }
        i = i + 1;
    }
    assert(skus@.take(skus.len() as int) =~= skus@);
    out
}

/// The SKU a live GCP quote is read from: the first that matches `hint`,
/// else the first SKU; none when there are no SKUs.
pub fn quote_sku(skus: &Vec<Json>, hint: &str) -> (res: Option<usize>)
    ensures
        match res {
            Some(i) => i < skus.len() && ((sku_matches(skus@[i as int], hint@) && forall|j: int|
                0 <= j < i ==> !sku_matches(#[trigger] skus@[j], hint@)) || (i == 0 && forall|j: int|
                0 <= j < skus.len() ==> !sku_matches(#[trigger] skus@[j], hint@))),
            None => skus.len() == 0,
        },
{
    match find_sku(skus, hint) {
        Some(i) => Some(i),
        None => if skus.len() > 0 {
            Some(0)
        } else {
            None
        },
    }
}

} // verus!
