//! Records kept in the pricing database and the decisions made around
//! storing and querying them: which region list survives a sparse sync, how a
//! search query becomes a full-text expression, and which region of a
//! service/SKU pair is priced.
use vstd::prelude::*;
use crate::regions::{aws_region_ok, is_standard_aws_region};
use crate::text::{
    strs,
    chars_of, join, join_with, push_char, split_words, string_of, trim, trimmed, views, words,
};

verus! {

/// One row to fetch from a cloud pricing API.
#[derive(Debug, Clone)]
pub struct PriceTarget {
    pub service_key: String,
    pub sku: String,
    pub region: String,
    pub unit: String,
    pub offer_code: Option<String>,
    pub attr_key: Option<String>,
    pub attr_value: Option<String>,
    pub billing_service_id: Option<String>,
    pub sku_description_hint: Option<String>,
}

/// A service discovered in a cloud provider's catalog API.
#[derive(Debug, Clone)]
pub struct ProviderServiceIngest {
    pub catalog_id: String,
    pub provider: String,
    pub service_key: String,
    pub display_name: String,
    pub category_id: String,
    pub unit: String,
    pub default_sku: String,
    pub offer_code: Option<String>,
    pub attr_key: Option<String>,
    pub attr_value: Option<String>,
    pub billing_service_id: Option<String>,
    pub sku_description_hint: Option<String>,
    pub regions: Vec<String>,
}

/// A catalog search result.
#[derive(Debug, Clone)]
pub struct CatalogSearchHit {
    pub catalog_id: String,
    pub provider: String,
    pub service_key: String,
    pub display_name: String,
    pub category_id: String,
    pub category_label: String,
    pub unit: String,
    pub default_sku: String,
    pub regions: Vec<String>,
}

/// The latest sync outcome of a provider.
#[derive(Debug, Clone)]
pub struct SyncStatusEntry {
    pub provider: String,
    pub status: String,
    pub detail: Option<String>,
    pub synced_at: String,
}

/// How a provider service is priced.
#[derive(Debug, Clone)]
pub struct ProviderServiceMeta {
    pub service_key: String,
    pub default_sku: String,
    pub unit: String,
    pub attr_key: Option<String>,
    pub offer_code: Option<String>,
    pub billing_service_id: Option<String>,
    pub attr_value: Option<String>,
}

/// The region list to store: an empty incoming list keeps what is stored, and
/// so does a short one (fewer than three) when more regions are stored.
pub open spec fn coalesced(existing: Seq<Seq<char>>, incoming: Seq<Seq<char>>) -> Seq<Seq<char>> {
    if incoming.len() == 0 {
        existing
    } else if incoming.len() < 3 && existing.len() > incoming.len() {
        existing
    } else {
        incoming
    }
}

pub fn coalesce_regions(existing: Vec<String>, incoming: Vec<String>) -> (res: Vec<String>)
    ensures
        strs(res@) == coalesced(strs(existing@), strs(incoming@)),
        res@ == (if incoming.len() == 0 || (incoming.len() < 3 && existing.len()
            > incoming.len()) {
            existing@
        } else {
            incoming@
        }),
{
    if incoming.len() == 0 {
        return existing;
    }
    if incoming.len() < 3 && existing.len() > incoming.len() {
        return existing;
    }
    incoming
}

/// A sync pass never leaves a service with fewer stored regions than it had
/// unless it brought at least three.
pub proof fn lemma_coalesce_keeps_regions(existing: Seq<Seq<char>>, incoming: Seq<Seq<char>>)
    ensures
        coalesced(existing, incoming).len() >= existing.len() || coalesced(
            existing,
            incoming,
        ).len() >= 3,
        existing.len() > 0 ==> coalesced(existing, incoming).len() > 0,
{
}

/// The full-text expression for a search: the query's words with double
/// quotes removed, each made a prefix match, joined with `AND`.
pub open spec fn fts_expression(q: Seq<char>) -> Seq<char> {
    join_with(
        words(q.filter(|c: char| c != '"')).map_values(|w: Seq<char>| w.push('*')),
        " AND "@,
    )
}

/// The search expression for `query`, or `None` when the query is blank.
pub fn fts_query(query: &str) -> (res: Option<String>)
    ensures
        match res {
            None => trimmed(query@).len() == 0,
            Some(e) => trimmed(query@).len() > 0 && e@ == fts_expression(trimmed(query@)),
        },
{
    let q = trim(&chars_of(query));
    if q.len() == 0 {
        return None;
    }
    let mut unquoted: Vec<char> = Vec::new();
    let mut i: usize = 0;
    while i < q.len()
        invariant
            i <= q.len(),
            unquoted@ == q@.take(i as int).filter(|c: char| c != '"'),
        decreases q.len() - i,
    {
        proof {
            crate::text::lemma_take_filter(q@, i as int, |c: char| c != '"');
        }
        if q[i] != '"' {
            unquoted.push(q[i]);
        }
        i = i + 1;
    }
    assert(q@.take(q.len() as int) =~= q@);
    let ws = split_words(&unquoted);
    let mut terms: Vec<Vec<char>> = Vec::new();
    let mut k: usize = 0;
    while k < ws.len()
        invariant
            k <= ws.len(),
            views(terms@) == views(ws@).take(k as int).map_values(|w: Seq<char>| w.push('*')),
        decreases ws.len() - k,
    {
        let mut t = ws[k].clone();
        assert(t@ =~= ws@[k as int]@);
        t.push('*');
        let ghost before = terms@;
        terms.push(t);
        assert(views(terms@) =~= views(before).push(views(ws@)[k as int].push('*')));
        assert(views(terms@) =~= views(ws@).take(k + 1).map_values(|w: Seq<char>| w.push('*')));
        k = k + 1;
    }
    assert(views(ws@).take(ws.len() as int) =~= views(ws@));
    let joined = join(&terms, " AND ");
    Some(string_of(&joined))
}

/// The number of search hits asked for, clamped to 1..=100.
pub fn search_limit(limit: usize) -> (res: i64)
    ensures
        res == (if limit < 1 {
            1
        } else if limit > 100 {
            100
        } else {
            limit as int
        }),
{
    if limit < 1 {
        1
    } else if limit > 100 {
        100
    } else {
        limit as i64
    }
}

/// The service/SKU pair a target prices.
pub open spec fn target_key(t: PriceTarget) -> (Seq<char>, Seq<char>) {
    (t.service_key@, t.sku@)
}

/// The distinct service/SKU pairs, in order of first appearance.
pub open spec fn target_keys(ts: Seq<PriceTarget>) -> Seq<(Seq<char>, Seq<char>)>
    decreases ts.len(),
{
    if ts.len() == 0 {
        seq![]
    } else {
        let prev = target_keys(ts.drop_last());
        let k = target_key(ts.last());
        if prev.contains(k) {
            prev
        } else {
            prev.push(k)
        }
    }
}

/// Targets of pair `key`: in region `anchor` (mode 0), in a standard AWS
/// region (mode 1), or in any region (mode 2).
pub open spec fn target_pred(
    key: (Seq<char>, Seq<char>),
    anchor: Seq<char>,
    mode: int,
) -> spec_fn(PriceTarget) -> bool {
    |t: PriceTarget|
        target_key(t) == key && (mode == 0 ==> t.region@ == anchor) && (mode == 1
            ==> aws_region_ok(t.region@))
}

/// `j` is the first index of `s` where `p` holds.
pub open spec fn first_at(s: Seq<PriceTarget>, p: spec_fn(PriceTarget) -> bool, j: int) -> bool {
    &&& 0 <= j < s.len()
    &&& p(s[j])
    &&& forall|k: int| 0 <= k < j ==> !p(#[trigger] s[k])
}

/// `p` holds nowhere in `s`.
pub open spec fn none_in(s: Seq<PriceTarget>, p: spec_fn(PriceTarget) -> bool) -> bool {
    forall|k: int| 0 <= k < s.len() ==> !p(#[trigger] s[k])
}

/// `ts[j]` is the target priced for `key`: the first one in region `anchor`;
/// failing that the first in a standard AWS region; failing that the first.
pub open spec fn chosen_at(
    ts: Seq<PriceTarget>,
    key: (Seq<char>, Seq<char>),
    anchor: Seq<char>,
    j: int,
) -> bool {
    ||| first_at(ts, target_pred(key, anchor, 0), j)
    ||| none_in(ts, target_pred(key, anchor, 0)) && first_at(ts, target_pred(key, anchor, 1), j)
    ||| none_in(ts, target_pred(key, anchor, 0)) && none_in(ts, target_pred(key, anchor, 1))
        && first_at(ts, target_pred(key, anchor, 2), j)
}

fn copy_opt(o: &Option<String>) -> (res: Option<String>)
    ensures
        res == *o,
{
    match o {
        Some(s) => Some(s.clone()),
        None => None,
    }
}

fn copy_target(t: &PriceTarget) -> (res: PriceTarget)
    ensures
        res == *t,
{
    PriceTarget {
        service_key: t.service_key.clone(),
        sku: t.sku.clone(),
        region: t.region.clone(),
        unit: t.unit.clone(),
        offer_code: copy_opt(&t.offer_code),
        attr_key: copy_opt(&t.attr_key),
        attr_value: copy_opt(&t.attr_value),
        billing_service_id: copy_opt(&t.billing_service_id),
        sku_description_hint: copy_opt(&t.sku_description_hint),
    }
}

fn first_match(
    ts: &Vec<PriceTarget>,
    service_key: &String,
    sku: &String,
    anchor: &str,
    mode: u8,
) -> (res: Option<usize>)
    requires
        mode <= 2,
    ensures
        match res {
            Some(j) => first_at(
                ts@,
                target_pred((service_key@, sku@), anchor@, mode as int),
                j as int,
            ),
            None => none_in(ts@, target_pred((service_key@, sku@), anchor@, mode as int)),
        },
{
    let ghost p = target_pred((service_key@, sku@), anchor@, mode as int);
    let mut j: usize = 0;
    while j < ts.len()
        invariant
            j <= ts.len(),
            mode <= 2,
            p == target_pred((service_key@, sku@), anchor@, mode as int),
            forall|k: int| 0 <= k < j ==> !p(#[trigger] ts@[k]),
        decreases ts.len() - j,
    {
        let t = &ts[j];
        let hit = t.service_key == *service_key && t.sku == *sku && (mode != 0
            || crate::text::str_eq(t.region.as_str(), anchor)) && (mode != 1
            || is_standard_aws_region(t.region.as_str()));
        if hit {
            return Some(j);
        }
        j = j + 1;
    }
    None
}

/// `t` is the target priced for `key`.
pub open spec fn priced_for(
    ts: Seq<PriceTarget>,
    key: (Seq<char>, Seq<char>),
    anchor: Seq<char>,
    t: PriceTarget,
) -> bool {
    exists|j: int| #[trigger] chosen_at(ts, key, anchor, j) && t == ts[j]
}

/// One target per service/SKU pair, in order of first appearance: the one in
/// the `anchor` region, else the first in a standard AWS region, else the
/// first listed.
pub fn batch_price_targets(targets: Vec<PriceTarget>, anchor: &str) -> (res: Vec<PriceTarget>)
    ensures
        res.len() == target_keys(targets@).len(),
        forall|i: int|
            0 <= i < res.len() ==> priced_for(
                targets@,
                target_keys(targets@)[i],
                anchor@,
                #[trigger] res[i],
            ),
{
    let ts = &targets;
    let mut out: Vec<PriceTarget> = Vec::new();
    let mut i: usize = 0;
    while i < ts.len()
        invariant
            i <= ts.len(),
            out.len() == target_keys(ts@.take(i as int)).len(),
            forall|m: int|
                0 <= m < out.len() ==> target_key(#[trigger] out[m]) == target_keys(
                    ts@.take(i as int),
                )[m],
            forall|m: int|
                0 <= m < out.len() ==> priced_for(
                    ts@,
                    target_keys(ts@.take(i as int))[m],
                    anchor@,
                    #[trigger] out[m],
                ),
        decreases ts.len() - i,
    {
        let ghost prev = target_keys(ts@.take(i as int));
        let ghost key = target_key(ts@[i as int]);
        proof {
            assert(ts@.take(i + 1).drop_last() =~= ts@.take(i as int));
            assert(ts@.take(i + 1).last() == ts@[i as int]);
        }
        let mut seen = false;
        let mut m: usize = 0;
        while m < out.len()
            invariant
                m <= out.len(),
                out.len() == prev.len(),
                forall|q: int| 0 <= q < out.len() ==> target_key(#[trigger] out[q]) == prev[q],
                seen <==> exists|q: int| 0 <= q < m && prev[q] == key,
                key == target_key(ts@[i as int]),
                i < ts.len(),
            decreases out.len() - m,
        {
            if out[m].service_key == ts[i].service_key && out[m].sku == ts[i].sku {
                seen = true;
            }
            m = m + 1;
        }
        if !seen {
            let k0 = &ts[i].service_key;
            let k1 = &ts[i].sku;
            let pick = match first_match(ts, k0, k1, anchor, 0) {
                Some(j) => j,
                None => match first_match(ts, k0, k1, anchor, 1) {
                    Some(j) => j,
                    None => match first_match(ts, k0, k1, anchor, 2) {
                        Some(j) => j,
                        None => {
                            proof {
                                assert(target_pred(key, anchor@, 2)(ts@[i as int]));
                            }
                            i
                        },
                    },
                },
            };
            let c = copy_target(&ts[pick]);
            let ghost before = out@;
            out.push(c);
            proof {
                assert(!prev.contains(key));
                assert(target_keys(ts@.take(i + 1)) == prev.push(key));
                assert(chosen_at(ts@, key, anchor@, pick as int));
                assert(priced_for(ts@, key, anchor@, c));
                assert forall|q: int| 0 <= q < out.len() implies priced_for(
                    ts@,
                    target_keys(ts@.take(i + 1))[q],
                    anchor@,
                    #[trigger] out[q],
                ) by {
                    if q < before.len() {
                        assert(out[q] == before[q]);
                        assert(target_keys(ts@.take(i + 1))[q] == prev[q]);
                    }
                }
            }
        } else {
            proof {
                let q = choose|q: int| 0 <= q < out.len() && prev[q] == key;
                assert(prev.contains(key));
                assert(target_keys(ts@.take(i + 1)) == prev);
            }
        }
        i = i + 1;
    }
    assert(ts@.take(ts.len() as int) =~= ts@);
    out
}

} // verus!
