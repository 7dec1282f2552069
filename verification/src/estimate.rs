//! Turning an estimate request into priced resources and cost tables: which
//! providers are estimated, how each selected resource is resolved, sized and
//! labelled, how tables are totalled, and the per-provider period summary.
use vstd::prelude::*;
use crate::money::{Dec, MANTISSA_BOUND, MAX_SCALE, abs, dec_gt, dec_mul, dec_div, dec_text, pow10, lemma_pow10_pos};
use crate::models::{
    BillingPeriod, CloudProvider, CostRow, CostTable, EstimateRequest, EstimateResult, LineItem,
    PeriodBreakdown, PeriodCost, ProviderEstimate, ProviderUiEstimate, RequirementSet, ResourceSpec,
    TokenUsageSpec, UiEstimateResponse, UiResourceInput,
};
use crate::service_rules::{infer_unit, unit_rule};
use crate::catalog::{CatalogCategory, CatalogResponse, CatalogService, ServiceCategory};
use crate::money::decimal_parse;
use crate::pricing::{
    TokenCostError, rate_views, token_cost, token_cost_spec, token_row, token_row_matches,
};
use crate::text::{all_ascii, ascii_lower, before_first, first_piece, owned, push_str, str_eq, unicode_lowercase};

verus! {

/// The characters of an optional string slice.
pub open spec fn opt_str(o: Option<&str>) -> Option<Seq<char>> {
    match o {
        Some(s) => Some(s@),
        None => None,
    }
}

/// The SKU to price: the one chosen, unless it is empty or the `default`
/// placeholder, in which case the service's default SKU.
pub open spec fn effective_sku_spec(input: Option<Seq<char>>, default_sku: Seq<char>) -> Seq<char> {
    match input {
        Some(s) => if s.len() > 0 && s != "default"@ {
            s
        } else {
            default_sku
        },
        None => default_sku,
    }
}

/// The SKU chosen is priced unless it is missing, empty or the `default`
/// placeholder, in which case the service's default SKU is.
pub proof fn lemma_effective_sku(chosen: Seq<char>, default_sku: Seq<char>)
    ensures
        effective_sku_spec(None, default_sku) == default_sku,
        effective_sku_spec(Some(Seq::<char>::empty()), default_sku) == default_sku,
        effective_sku_spec(Some("default"@), default_sku) == default_sku,
        chosen.len() > 0 && chosen != "default"@ ==> effective_sku_spec(Some(chosen), default_sku) == chosen,
{
}

pub fn effective_sku(input_sku: Option<&str>, default_sku: &str) -> (res: String)
    ensures
        res@ == effective_sku_spec(opt_str(input_sku), default_sku@),
{
    match input_sku {
        Some(s) => {
            if !s.is_empty() && !str_eq(s, "default") {
                return s.to_owned();
            }
            default_sku.to_owned()
        },
        None => default_sku.to_owned(),
    }
}

/// The unit to use for a service: a stored `hours` unit gives way to the unit
/// the service key suggests when that is not `hours`.
pub open spec fn reconciled_unit(service_key: Seq<char>, stored_unit: Seq<char>) -> Seq<char> {
    let inferred = unit_rule(unicode_lowercase(service_key));
    if stored_unit == "hours"@ && inferred != "hours"@ {
        inferred
    } else {
        stored_unit
    }
}

/// `reconciled_unit` for an ASCII service key, lower-cased the ASCII way.
pub open spec fn reconciled_unit_ascii(service_key: Seq<char>, stored_unit: Seq<char>) -> Seq<char> {
    let inferred = unit_rule(ascii_lower(service_key));
    if stored_unit == "hours"@ && inferred != "hours"@ {
        inferred
    } else {
        stored_unit
    }
}

pub fn reconcile_unit(service_key: &str, stored_unit: &str) -> (res: String)
    ensures
        res@ == reconciled_unit(service_key@, stored_unit@),
        all_ascii(service_key@) ==> res@ == reconciled_unit_ascii(service_key@, stored_unit@),
{
    let inferred = infer_unit(service_key);
    if str_eq(stored_unit, "hours") && !str_eq(inferred, "hours") {
        inferred.to_owned()
    } else {
        stored_unit.to_owned()
    }
}

pub open spec fn or_one(o: Option<Dec>) -> Dec {
    match o {
        Some(n) => n,
        None => Dec::one_spec(),
    }
}

pub open spec fn or_dec(o: Option<Dec>, d: Dec) -> Dec {
    match o {
        Some(n) => n,
        None => d,
    }
}

/// The two factors of a resource's billable quantity: for an hourly unit,
/// instances (default one) and hours (default the quantity); otherwise the
/// instance count and the quantity, or the quantity alone.
pub open spec fn quantity_factors(input: UiResourceInput, unit: Seq<char>) -> Option<(Dec, Dec)> {
    if unit == "hours"@ {
        Some((or_one(input.instance_count), or_dec(input.hours, input.quantity)))
    } else {
        match input.instance_count {
            Some(n) => Some((n, input.quantity)),
            None => None,
        }
    }
}

/// The billable quantity of a resource.
pub open spec fn effective_quantity_spec(input: UiResourceInput, unit: Seq<char>) -> Dec {
    match quantity_factors(input, unit) {
        Some((a, b)) => Dec::mul(a, b),
        None => input.quantity,
    }
}

/// The billable quantity fits (the product does not overflow).
pub open spec fn quantity_ok(input: UiResourceInput, unit: Seq<char>) -> bool {
    match quantity_factors(input, unit) {
        Some((a, b)) => Dec::mul_ok(a, b),
        None => true,
    }
}

pub fn effective_quantity(input: &UiResourceInput, unit: &str) -> (res: Dec)
    requires
        input.wf(),
        quantity_ok(*input, unit@),
    ensures
        res == effective_quantity_spec(*input, unit@),
        res.wf(),
{
    if str_eq(unit, "hours") {
        let instances = match input.instance_count {
            Some(n) => n,
            None => Dec::one(),
        };
        let hours = match input.hours {
            Some(h) => h,
            None => input.quantity,
        };
        return dec_mul(instances, hours);
    }
    match input.instance_count {
        Some(instances) => dec_mul(instances, input.quantity),
        None => input.quantity,
    }
}

/// The billable quantity of a resource, in value: for an hourly unit, the
/// instance count (one when not given) times the hours (the quantity when not
/// given); for any other unit, the instance count times the quantity when a
/// count is given, else the quantity. Products are stated where they need no
/// rounding, on the finest grain scaled once more by 10^28.
pub proof fn lemma_billable_quantity(input: UiResourceInput, unit: Seq<char>)
    requires
        input.wf(),
    ensures
        unit == "hours"@ && input.instance_count is None && input.hours is Some
            ==> effective_quantity_spec(input, unit).units() == input.hours->Some_0.units(),
        unit == "hours"@ && input.instance_count is None && input.hours is None
            ==> effective_quantity_spec(input, unit).units() == input.quantity.units(),
        unit == "hours"@ && input.instance_count is Some && input.hours is Some && Dec::mul_exact(
            input.instance_count->Some_0,
            input.hours->Some_0,
        ) ==> effective_quantity_spec(input, unit).units() * pow10(MAX_SCALE as nat)
            == input.instance_count->Some_0.units() * input.hours->Some_0.units(),
        unit == "hours"@ && input.instance_count is Some && input.hours is None && Dec::mul_exact(
            input.instance_count->Some_0,
            input.quantity,
        ) ==> effective_quantity_spec(input, unit).units() * pow10(MAX_SCALE as nat)
            == input.instance_count->Some_0.units() * input.quantity.units(),
        unit != "hours"@ && input.instance_count is None ==> effective_quantity_spec(input, unit)
            == input.quantity,
        unit != "hours"@ && input.instance_count is Some && Dec::mul_exact(
            input.instance_count->Some_0,
            input.quantity,
        ) ==> effective_quantity_spec(input, unit).units() * pow10(MAX_SCALE as nat)
            == input.instance_count->Some_0.units() * input.quantity.units(),
{
    let one = Dec::one_spec();
    assert(one.m() == 1 && one.s() == 0 && one.wf());
    lemma_pow10_pos(MAX_SCALE as nat);
    let p28 = pow10(MAX_SCALE as nat);
    assert(one.units() == p28) by {
        assert(one.units() == 1 * pow10((MAX_SCALE - 0) as nat));
    }
    let q = input.quantity;
    match input.instance_count {
        Some(n) => {
            match input.hours {
                Some(h) => {
                    if Dec::mul_exact(n, h) {
                        crate::money::lemma_units_mul(n, h);
                    }
                },
                None => {},
            }
            if Dec::mul_exact(n, q) {
                crate::money::lemma_units_mul(n, q);
            }
        },
        None => {
            let x = match input.hours {
                Some(h) => h,
                None => q,
            };
            assert(abs(one.m() * x.m()) < MANTISSA_BOUND);
            assert(Dec::mul_exact(one, x));
            crate::money::lemma_units_mul(one, x);
            let r = Dec::mul(one, x).units();
            assert(r * p28 == p28 * x.units());
            assert(r == x.units()) by (nonlinear_arith)
                requires
                    r * p28 == p28 * x.units(),
                    p28 >= 1,
            ;
        },
    }
}

/// The providers to estimate: those asked for, then each cloud named by the
/// token usage that is not yet listed, in order of first mention.
pub open spec fn providers_with_tokens(
    providers: Seq<CloudProvider>,
    usage: Seq<TokenUsageSpec>,
) -> Seq<CloudProvider>
    decreases usage.len(),
{
    if usage.len() == 0 {
        providers
    } else {
        let prev = providers_with_tokens(providers, usage.drop_last());
        match usage.last().cloud_spec() {
            Some(p) => if prev.contains(p) {
                prev
            } else {
                prev.push(p)
            },
            None => prev,
        }
    }
}

fn contains_provider(v: &Vec<CloudProvider>, p: CloudProvider) -> (res: bool)
    ensures
        res == v@.contains(p),
{
    let mut i: usize = 0;
    while i < v.len()
        invariant
            i <= v.len(),
            forall|k: int| 0 <= k < i ==> v@[k] != p,
        decreases v.len() - i,
    {
        if v[i] == p {
            assert(v@[i as int] == p);
            return true;
        }
        i = i + 1;
    }
    false
}

pub fn providers_for_request(request: &EstimateRequest) -> (res: Vec<CloudProvider>)
    ensures
        res@ == providers_with_tokens(request.providers@, request.token_usage@),
{
    let mut providers = request.providers.clone();
    assert(providers@ =~= request.providers@);
    let mut i: usize = 0;
    while i < request.token_usage.len()
        invariant
            i <= request.token_usage.len(),
            providers@ == providers_with_tokens(
                request.providers@,
                request.token_usage@.take(i as int),
            ),
        decreases request.token_usage.len() - i,
    {
        proof {
            let u = request.token_usage@;
            assert(u.take(i + 1).drop_last() =~= u.take(i as int));
            assert(u.take(i + 1).last() == u[i as int]);
        }
        match request.token_usage[i].cloud() {
            Some(p) => {
                if !contains_provider(&providers, p) {
                    providers.push(p);
                }
            },
            None => {},
        }
        i = i + 1;
    }
    assert(request.token_usage@.take(request.token_usage.len() as int) =~= request.token_usage@);
    providers
}

pub proof fn lemma_pow10_add(a: nat, b: nat)
    ensures
        pow10(a + b) == pow10(a) * pow10(b),
    decreases a,
{
    if a > 0 {
        lemma_pow10_add((a - 1) as nat, b);
        assert(pow10(a + b) == 10 * pow10((a - 1 + b) as nat));
        assert(pow10(a) == 10 * pow10((a - 1) as nat));
        assert(10 * (pow10((a - 1) as nat) * pow10(b)) == (10 * pow10((a - 1) as nat)) * pow10(b))
            by (nonlinear_arith);
    }
}

/// Dividing by a value above one never overflows.
pub proof fn lemma_div_by_more_than_one_ok(q: Dec, n: Dec)
    requires
        q.wf(),
        n.wf(),
        Dec::gt(n, Dec::one_spec()),
    ensures
        Dec::div_ok(q, n),
{
    let ns = n.s() as nat;
    let rest = (MAX_SCALE - n.scale) as nat;
    lemma_pow10_add(rest, ns);
    assert(rest + ns == MAX_SCALE as nat);
    lemma_pow10_pos(rest);
    lemma_pow10_pos(ns);
    lemma_pow10_pos(q.s() as nat);
    let pr = pow10(rest);
    let pn = pow10(ns);
    let pq = pow10(q.s() as nat);
    let o = Dec::one_spec();
    assert(o.mantissa == 1i128);
    assert(o.scale == 0u32);
    assert(o.units() == (o.mantissa as int) * pow10((MAX_SCALE - o.scale) as nat));
    assert((MAX_SCALE - o.scale) as nat == MAX_SCALE as nat);
    let p28 = pow10(MAX_SCALE as nat);
    assert(o.units() == p28) by (nonlinear_arith)
        requires
            o.units() == (o.mantissa as int) * p28,
            o.mantissa == 1,
    ;
    assert(n.m() * pr > pr * pn);
    assert(n.m() > pn) by (nonlinear_arith)
        requires
            n.m() * pr > pr * pn,
            pr >= 1,
    ;
    let big: int = MANTISSA_BOUND - 1;
    let x = abs(q.m());
    assert(x <= big);
    assert(x * pn <= big * n.m()) by (nonlinear_arith)
        requires
            0 <= x <= big,
            1 <= pn < n.m(),
    ;
    assert(big * n.m() <= big * n.m() * pq) by (nonlinear_arith)
        requires
            big >= 0,
            n.m() >= 1,
            pq >= 1,
    ;
    assert(abs(n.m()) == n.m());
}

/// The usage shown for a resource: `N × H h` or `H h` for hourly units (N
/// shown only above one), otherwise `N × PER unit` with the per-instance
/// quantity when there are more than one instance, or `Q unit`.
pub open spec fn usage_display_spec(spec: ResourceSpec) -> Seq<char> {
    if spec.unit@ == "hours"@ {
        let n = or_one(spec.instance_count);
        let h = or_dec(spec.hours, spec.quantity);
        if Dec::gt(n, Dec::one_spec()) {
            Dec::text(n) + " × "@ + Dec::text(h) + " h"@
        } else {
            Dec::text(h) + " h"@
        }
    } else {
        match spec.instance_count {
            Some(n) => if Dec::gt(n, Dec::one_spec()) {
                Dec::text(n) + " × "@ + Dec::text(Dec::div(spec.quantity, n)) + " "@ + spec.unit@
            } else {
                Dec::text(spec.quantity) + " "@ + spec.unit@
            },
            None => Dec::text(spec.quantity) + " "@ + spec.unit@,
        }
    }
}

pub fn format_usage_display(spec: &ResourceSpec) -> (res: String)
    requires
        spec.wf(),
    ensures
        res@ == usage_display_spec(*spec),
{
    let one = Dec::one();
    if str_eq(spec.unit.as_str(), "hours") {
        let n = match spec.instance_count {
            Some(n) => n,
            None => one,
        };
        let h = match spec.hours {
            Some(h) => h,
            None => spec.quantity,
        };
        let mut out = String::new();
        if dec_gt(n, one) {
            out = dec_text(n);
            push_str(&mut out, " × ");
            push_str(&mut out, dec_text(h).as_str());
        } else {
            out = dec_text(h);
        }
        push_str(&mut out, " h");
        return out;
    }
    let mut out = String::new();
    match spec.instance_count {
        Some(n) => {
            if dec_gt(n, one) {
                proof {
                    lemma_div_by_more_than_one_ok(spec.quantity, n);
                }
                let per = dec_div(spec.quantity, n);
                out = dec_text(n);
                push_str(&mut out, " × ");
                push_str(&mut out, dec_text(per).as_str());
            } else {
                out = dec_text(spec.quantity);
            }
        },
        None => {
            out = dec_text(spec.quantity);
        },
    }
    push_str(&mut out, " ");
    push_str(&mut out, spec.unit.as_str());
    out
}

/// The characters of an optional string.
pub open spec fn opt_view(o: Option<String>) -> Option<Seq<char>> {
    match o {
        Some(s) => Some(s@),
        None => None,
    }
}

/// The services of all categories, category by category.
pub open spec fn all_services(cats: Seq<CatalogCategory>) -> Seq<CatalogService>
    decreases cats.len(),
{
    if cats.len() == 0 {
        seq![]
    } else {
        all_services(cats.drop_last()) + cats.last().services@
    }
}

/// The first service with id `id`.
pub open spec fn first_service(svcs: Seq<CatalogService>, id: Seq<char>) -> Option<CatalogService>
    decreases svcs.len(),
{
    if svcs.len() == 0 {
        None
    } else {
        let prev = first_service(svcs.drop_last(), id);
        if prev is Some {
            prev
        } else if svcs.last().id@ == id {
            Some(svcs.last())
        } else {
            None
        }
    }
}

/// Name and category of the first catalog service with id `id`.
pub fn find_service_meta(cat: &CatalogResponse, id: &str) -> (res: Option<(String, ServiceCategory)>)
    ensures
        match (res, first_service(all_services(cat.categories@), id@)) {
            (Some((name, c)), Some(s)) => name@ == s.name@ && c == s.category,
            (None, None) => true,
            _ => false,
        },
{
    let cats = &cat.categories;
    let mut found: Option<(String, ServiceCategory)> = None;
    let ghost mut acc: Seq<CatalogService> = seq![];
    let mut i: usize = 0;
    while i < cats.len()
        invariant
            i <= cats.len(),
            acc == all_services(cats@.take(i as int)),
            match (found, first_service(acc, id@)) {
                (Some((name, c)), Some(s)) => name@ == s.name@ && c == s.category,
                (None, None) => true,
                _ => false,
            },
        decreases cats.len() - i,
    {
        let svcs = &cats[i].services;
        let ghost base = acc;
        let mut j: usize = 0;
        while j < svcs.len()
            invariant
                j <= svcs.len(),
                i < cats.len(),
                svcs == cats@[i as int].services,
                acc == base + svcs@.take(j as int),
                match (found, first_service(acc, id@)) {
                    (Some((name, c)), Some(s)) => name@ == s.name@ && c == s.category,
                    (None, None) => true,
                    _ => false,
                },
            decreases svcs.len() - j,
        {
            let ghost next = acc.push(svcs@[j as int]);
            assert(next.drop_last() =~= acc);
            if found.is_none() && str_eq(svcs[j].id.as_str(), id) {
                found = Some((svcs[j].name.clone(), svcs[j].category));
            }
            proof {
                assert(base + svcs@.take(j + 1) =~= next);
                acc = next;
            }
            j = j + 1;
        }
        proof {
            assert(svcs@.take(svcs.len() as int) =~= svcs@);
            assert(cats@.take(i + 1).drop_last() =~= cats@.take(i as int));
            assert(cats@.take(i + 1).last() == cats@[i as int]);
        }
        i = i + 1;
    }
    assert(cats@.take(cats.len() as int) =~= cats@);
    found
}

/// The label a resource's location is shown with: `SUB · REGION` when a
/// non-empty sub-region is chosen, otherwise the region.
pub open spec fn region_label_spec(sub_region: Option<Seq<char>>, region: Seq<char>) -> Seq<char> {
    match sub_region {
        Some(sub) => if sub.len() > 0 {
            sub + " · "@ + region
        } else {
            region
        },
        None => region,
    }
}

/// What the catalog resolved a selection to: service key, default SKU and
/// stored unit.
pub type Resolved = (String, String, String);

/// `r` is the resource priced for selection `input` of `provider`, given what
/// the catalog resolved it to and the catalog service with its id (if any).
pub open spec fn resource_matches(
    input: UiResourceInput,
    provider: CloudProvider,
    resolved: Resolved,
    meta: Option<CatalogService>,
    r: ResourceSpec,
) -> bool {
    let unit = reconciled_unit(resolved.0@, resolved.2@);
    &&& r.service@ == resolved.0@
    &&& opt_view(r.sku) == Some(effective_sku_spec(opt_view(input.sku), resolved.1@))
    &&& r.region@ == input.region@
    &&& r.quantity == effective_quantity_spec(input, unit)
    &&& r.unit@ == unit
    &&& opt_view(r.provider) == Some(provider.key())
    &&& r.tags@.len() == 0
    &&& opt_view(r.catalog_id) == Some(input.catalog_id@)
    &&& opt_view(r.display_name) == Some(
        match meta {
            Some(s) => s.name@,
            None => input.catalog_id@,
        },
    )
    &&& opt_view(r.category) == Some(
        match meta {
            Some(s) => s.category.label_spec(),
            None => "General"@,
        },
    )
    &&& opt_view(r.sub_region) == opt_view(input.sub_region)
    &&& opt_view(r.region_label) == Some(region_label_spec(opt_view(input.sub_region), input.region@))
    &&& r.instance_count == input.instance_count
    &&& r.hours == input.hours
    &&& r.wf()
}

fn copy_opt_string(o: &Option<String>) -> (res: Option<String>)
    ensures
        res == *o,
{
    match o {
        Some(s) => Some(s.clone()),
        None => None,
    }
}

/// The resource to price for one selection.
pub fn resource_for_input(
    input: &UiResourceInput,
    provider: CloudProvider,
    resolved: &Resolved,
    meta: Option<(String, ServiceCategory)>,
) -> (res: ResourceSpec)
    requires
        input.wf(),
        quantity_ok(*input, reconciled_unit(resolved.0@, resolved.2@)),
    ensures
        opt_view(res.display_name) == Some(
            match meta {
                Some(m) => m.0@,
                None => input.catalog_id@,
            },
        ),
        opt_view(res.category) == Some(
            match meta {
                Some(m) => m.1.label_spec(),
                None => "General"@,
            },
        ),
        res.service@ == resolved.0@,
        opt_view(res.sku) == Some(effective_sku_spec(opt_view(input.sku), resolved.1@)),
        res.region@ == input.region@,
        res.quantity == effective_quantity_spec(*input, reconciled_unit(resolved.0@, resolved.2@)),
        res.unit@ == reconciled_unit(resolved.0@, resolved.2@),
        opt_view(res.provider) == Some(provider.key()),
        res.tags@.len() == 0,
        opt_view(res.catalog_id) == Some(input.catalog_id@),
        opt_view(res.sub_region) == opt_view(input.sub_region),
        opt_view(res.region_label) == Some(
            region_label_spec(opt_view(input.sub_region), input.region@),
        ),
        res.instance_count == input.instance_count,
        res.hours == input.hours,
        res.wf(),
{
    let unit = reconcile_unit(resolved.0.as_str(), resolved.2.as_str());
    let (display_name, category) = match meta {
        Some((name, c)) => (name, c.label().to_owned()),
        None => (input.catalog_id.clone(), "General".to_owned()),
    };
    let sku = match &input.sku {
        Some(s) => effective_sku(Some(s.as_str()), resolved.1.as_str()),
        None => effective_sku(None, resolved.1.as_str()),
    };
    let quantity = effective_quantity(input, unit.as_str());
    let region_label = match &input.sub_region {
        Some(sub) => {
            if !sub.as_str().is_empty() {
                let mut l = sub.clone();
                push_str(&mut l, " · ");
                push_str(&mut l, input.region.as_str());
                l
            } else {
                input.region.clone()
            }
        },
        None => input.region.clone(),
    };
    ResourceSpec {
        service: resolved.0.clone(),
        sku: Some(sku),
        region: input.region.clone(),
        quantity,
        unit,
        provider: Some(provider.as_str().to_owned()),
        tags: Vec::new(),
        catalog_id: Some(input.catalog_id.clone()),
        display_name: Some(display_name),
        category: Some(category),
        sub_region: copy_opt_string(&input.sub_region),
        region_label: Some(region_label),
        instance_count: input.instance_count,
        hours: input.hours,
    }
}

/// Positions of the selections made for `p`, in order.
pub open spec fn selection_indices(inputs: Seq<UiResourceInput>, p: CloudProvider) -> Seq<int>
    decreases inputs.len(),
{
    if inputs.len() == 0 {
        seq![]
    } else {
        let prev = selection_indices(inputs.drop_last(), p);
        if inputs.last().provider == p {
            prev.push(inputs.len() - 1)
        } else {
            prev
        }
    }
}

/// Selection `i` is for `p` but the catalog did not resolve it.
pub open spec fn unresolved_at(
    inputs: Seq<UiResourceInput>,
    resolved: Seq<Option<Resolved>>,
    p: CloudProvider,
    i: int,
) -> bool {
    0 <= i < inputs.len() && inputs[i].provider == p && resolved[i] is None
}

/// `i` is the first unresolved selection for `p`.
pub open spec fn first_unresolved(
    inputs: Seq<UiResourceInput>,
    resolved: Seq<Option<Resolved>>,
    p: CloudProvider,
    i: int,
) -> bool {
    unresolved_at(inputs, resolved, p, i) && forall|j: int|
        0 <= j < i ==> !#[trigger] unresolved_at(inputs, resolved, p, j)
}

/// Resource `k` of the result is priced for the `k`-th selection of `p`.
pub open spec fn built_resource(
    inputs: Seq<UiResourceInput>,
    resolved: Seq<Option<Resolved>>,
    cat: CatalogResponse,
    p: CloudProvider,
    i: int,
    r: ResourceSpec,
) -> bool {
    resource_matches(
        inputs[i],
        p,
        resolved[i]->Some_0,
        first_service(all_services(cat.categories@), inputs[i].catalog_id@),
        r,
    )
}

/// The resources of one provider's estimate: one per selection made for it,
/// in order, resolved through the catalog (`resolved[i]` is what the catalog
/// gave for selection `i`). The first selection the catalog could not resolve
/// is reported as `unknown catalog entry: ID`.
pub fn build_resources_for_provider(
    request: &EstimateRequest,
    provider: CloudProvider,
    cat: &CatalogResponse,
    resolved: &Vec<Option<Resolved>>,
) -> (res: Result<Vec<ResourceSpec>, String>)
    requires
        resolved.len() == request.resources.len(),
        forall|i: int| 0 <= i < request.resources.len() ==> (#[trigger] request.resources[i]).wf(),
        forall|i: int|
            0 <= i < request.resources.len() && request.resources[i].provider == provider
                && resolved[i] is Some ==> quantity_ok(
                request.resources[i],
                reconciled_unit(resolved[i]->Some_0.0@, resolved[i]->Some_0.2@),
            ),
    ensures
        match res {
            Err(msg) => exists|i: int|
                first_unresolved(request.resources@, resolved@, provider, i) && msg@
                    == "unknown catalog entry: "@ + (#[trigger] request.resources@[i]).catalog_id@,
            Ok(v) => {
                &&& forall|i: int| !#[trigger] unresolved_at(request.resources@, resolved@, provider, i)
                &&& v.len() == selection_indices(request.resources@, provider).len()
                &&& forall|k: int|
                    0 <= k < v.len() ==> built_resource(
                        request.resources@,
                        resolved@,
                        *cat,
                        provider,
                        selection_indices(request.resources@, provider)[k],
                        #[trigger] v[k],
                    )
            },
        },
{
    let inputs = &request.resources;
    let mut out: Vec<ResourceSpec> = Vec::new();
    let mut i: usize = 0;
    while i < inputs.len()
        invariant
            i <= inputs.len(),
            resolved.len() == inputs.len(),
            inputs == request.resources,
            forall|q: int| 0 <= q < inputs.len() ==> (#[trigger] inputs[q]).wf(),
            forall|q: int|
                0 <= q < inputs.len() && inputs[q].provider == provider && resolved[q] is Some
                    ==> quantity_ok(
                    inputs[q],
                    reconciled_unit(resolved[q]->Some_0.0@, resolved[q]->Some_0.2@),
                ),
            forall|j: int| 0 <= j < i ==> !#[trigger] unresolved_at(inputs@, resolved@, provider, j),
            out.len() == selection_indices(inputs@.take(i as int), provider).len(),
            forall|k: int|
                0 <= k < out.len() ==> built_resource(
                    inputs@,
                    resolved@,
                    *cat,
                    provider,
                    selection_indices(inputs@.take(i as int), provider)[k],
                    #[trigger] out[k],
                ),
        decreases inputs.len() - i,
    {
        proof {
            assert(inputs@.take(i + 1).drop_last() =~= inputs@.take(i as int));
            assert(inputs@.take(i + 1).last() == inputs@[i as int]);
        }
        let input = &inputs[i];
        if input.provider == provider {
            match &resolved[i] {
                None => {
                    let mut msg = "unknown catalog entry: ".to_owned();
                    push_str(&mut msg, input.catalog_id.as_str());
                    assert(first_unresolved(inputs@, resolved@, provider, i as int));
                    return Err(msg);
                },
                Some(r) => {
                    let meta = find_service_meta(cat, input.catalog_id.as_str());
                    let spec = resource_for_input(input, provider, r, meta);
                    let ghost before = out@;
                    out.push(spec);
                    proof {
                        let sel = selection_indices(inputs@.take(i + 1), provider);
                        assert(sel == selection_indices(inputs@.take(i as int), provider).push(
                            i as int,
                        ));
                        assert forall|k: int| 0 <= k < out.len() implies built_resource(
                            inputs@,
                            resolved@,
                            *cat,
                            provider,
                            sel[k],
                            #[trigger] out[k],
                        ) by {
                            if k < before.len() {
                                assert(out[k] == before[k]);
                            }
                        }
                    }
                },
            }
        }
        proof {
            assert(!unresolved_at(inputs@, resolved@, provider, i as int));
        }
        i = i + 1;
    }
    assert(inputs@.take(inputs.len() as int) =~= inputs@);
    proof {
        assert forall|j: int| !#[trigger] unresolved_at(request.resources@, resolved@, provider, j) by {
            if 0 <= j < inputs.len() {
            }
        }
    }
    Ok(out)
}

/// The sum of breakdowns, added in order from zero.
pub open spec fn sum_breakdowns(bs: Seq<PeriodBreakdown>) -> PeriodBreakdown
    decreases bs.len(),
{
    if bs.len() == 0 {
        PeriodBreakdown::zero_spec()
    } else {
        sum_breakdowns(bs.drop_last()).add_spec(bs.last())
    }
}

/// Every running total of `bs` can be formed without overflow.
pub open spec fn sum_ok(bs: Seq<PeriodBreakdown>) -> bool
    decreases bs.len(),
{
    bs.len() == 0 || (sum_ok(bs.drop_last()) && bs.last().wf() && sum_breakdowns(
        bs.drop_last(),
    ).add_ok(bs.last()))
}

pub open spec fn row_costs(rows: Seq<CostRow>) -> Seq<PeriodBreakdown> {
    rows.map_values(|r: CostRow| r.costs)
}

/// The totals of a table's rows.
pub fn total_of(rows: &Vec<CostRow>) -> (res: PeriodBreakdown)
    requires
        sum_ok(row_costs(rows@)),
    ensures
        res == sum_breakdowns(row_costs(rows@)),
        res.wf(),
{
    let mut acc = PeriodBreakdown::zero();
    let mut i: usize = 0;
    while i < rows.len()
        invariant
            i <= rows.len(),
            sum_ok(row_costs(rows@)),
            acc == sum_breakdowns(row_costs(rows@).take(i as int)),
            acc.wf(),
        decreases rows.len() - i,
    {
        proof {
            let rc = row_costs(rows@);
            assert(rc.take(i + 1).drop_last() =~= rc.take(i as int));
            assert(rc.take(i + 1).last() == rows@[i as int].costs);
            lemma_sum_ok_prefix(rc, i + 1);
        }
        acc = acc.add(&rows[i].costs);
        i = i + 1;
    }
    assert(row_costs(rows@).take(rows.len() as int) =~= row_costs(rows@));
    acc
}

/// Running totals that fit for a list fit for each of its prefixes.
pub proof fn lemma_sum_ok_prefix(bs: Seq<PeriodBreakdown>, n: int)
    requires
        sum_ok(bs),
        0 <= n <= bs.len(),
    ensures
        sum_ok(bs.take(n)),
    decreases bs.len() - n,
{
    if n < bs.len() {
        lemma_sum_ok_prefix(bs, n + 1);
        assert(bs.take(n + 1).drop_last() =~= bs.take(n));
    } else {
        assert(bs.take(n) =~= bs);
    }
}

/// The infrastructure row shown for a priced resource: its category,
/// the service name (the description up to ` — `), description, price,
/// quantity and unit, the usage display of the resource, and the breakdown of
/// its monthly cost.
pub open spec fn infra_row(item: LineItem, spec: ResourceSpec, r: CostRow) -> bool {
    &&& r.category@ == item.category@
    &&& r.service@ == before_first(item.description@, " — "@)
    &&& r.description@ == item.description@
    &&& r.unit_price == item.unit_price
    &&& r.quantity == item.quantity
    &&& r.unit@ == item.unit@
    &&& r.usage_display@ == usage_display_spec(spec)
    &&& r.costs == PeriodBreakdown::from_monthly_spec(item.monthly_cost)
}

pub open spec fn min_len(a: int, b: int) -> int {
    if a <= b {
        a
    } else {
        b
    }
}

/// The breakdowns of the first `n` line items' monthly costs.
pub open spec fn item_breakdowns(items: Seq<LineItem>, n: int) -> Seq<PeriodBreakdown> {
    items.take(n).map_values(|it: LineItem| PeriodBreakdown::from_monthly_spec(it.monthly_cost))
}

/// Infrastructure rows for line items paired with the resources they price
/// (as many as both lists have).
pub fn infra_rows(items: &Vec<LineItem>, specs: &Vec<ResourceSpec>) -> (res: Vec<CostRow>)
    requires
        forall|k: int|
            0 <= k < min_len(items.len() as int, specs.len() as int) ==> PeriodBreakdown::monthly_ok(
                (#[trigger] items[k]).monthly_cost,
            ) && specs[k].wf(),
    ensures
        res.len() == min_len(items.len() as int, specs.len() as int),
        forall|k: int| 0 <= k < res.len() ==> infra_row(items[k], specs[k], #[trigger] res[k]),
        forall|k: int| 0 <= k < res.len() ==> (#[trigger] res[k]).costs.wf(),
{
    let n = if items.len() <= specs.len() {
        items.len()
    } else {
        specs.len()
    };
    let mut out: Vec<CostRow> = Vec::new();
    let mut k: usize = 0;
    while k < n
        invariant
            k <= n,
            n == min_len(items.len() as int, specs.len() as int),
            forall|q: int|
                0 <= q < n ==> PeriodBreakdown::monthly_ok((#[trigger] items[q]).monthly_cost)
                    && specs[q].wf(),
            out.len() == k,
            forall|q: int| 0 <= q < k ==> infra_row(items[q], specs[q], #[trigger] out[q]),
            forall|q: int| 0 <= q < k ==> (#[trigger] out[q]).costs.wf(),
        decreases n - k,
    {
        let item = &items[k];
        proof {
            reveal_strlit(" — ");
        }
        let row = CostRow {
            category: item.category.clone(),
            service: first_piece(item.description.as_str(), " — "),
            description: item.description.clone(),
            unit_price: item.unit_price,
            quantity: item.quantity,
            unit: item.unit.clone(),
            usage_display: format_usage_display(&specs[k]),
            costs: PeriodBreakdown::from_monthly(item.monthly_cost),
        };
        out.push(row);
        k = k + 1;
    }
    out
}

/// One provider's estimate: the infrastructure rows for its priced
/// resources with their totals, the token rows with theirs, and the two
/// totals added together.
pub fn provider_estimate(
    provider: CloudProvider,
    items: &Vec<LineItem>,
    specs: &Vec<ResourceSpec>,
    token_rows: Vec<CostRow>,
) -> (res: ProviderUiEstimate)
    requires
        forall|k: int|
            0 <= k < min_len(items.len() as int, specs.len() as int) ==> PeriodBreakdown::monthly_ok(
                (#[trigger] items[k]).monthly_cost,
            ) && specs[k].wf(),
        sum_ok(item_breakdowns(items@, min_len(items.len() as int, specs.len() as int))),
        sum_ok(row_costs(token_rows@)),
        sum_breakdowns(item_breakdowns(items@, min_len(items.len() as int, specs.len() as int))).add_ok(
            sum_breakdowns(row_costs(token_rows@)),
        ),
    ensures
        res.provider == provider,
        res.infrastructure.rows.len() == min_len(items.len() as int, specs.len() as int),
        forall|k: int|
            0 <= k < res.infrastructure.rows.len() ==> infra_row(
                items[k],
                specs[k],
                #[trigger] res.infrastructure.rows[k],
            ),
        res.infrastructure.totals == sum_breakdowns(row_costs(res.infrastructure.rows@)),
        res.tokens.rows@ == token_rows@,
        res.tokens.totals == sum_breakdowns(row_costs(token_rows@)),
        res.combined == res.infrastructure.totals.add_spec(res.tokens.totals),
        res.combined.wf(),
{
    let rows = infra_rows(items, specs);
    let ghost n = min_len(items.len() as int, specs.len() as int);
    assert(row_costs(rows@) =~= item_breakdowns(items@, n));
    let infra_totals = total_of(&rows);
    let token_totals = total_of(&token_rows);
    let combined = infra_totals.add(&token_totals);
    ProviderUiEstimate {
        provider,
        infrastructure: CostTable { rows, totals: infra_totals },
        tokens: CostTable { rows: token_rows, totals: token_totals },
        combined,
    }
}

/// The totals of a table's rows, or `None` when a running total does not
/// fit a decimal.
pub fn checked_total_of(rows: &Vec<CostRow>) -> (res: Option<PeriodBreakdown>)
    requires
        forall|k: int| 0 <= k < rows.len() ==> (#[trigger] rows[k]).costs.wf(),
    ensures
        sum_ok(row_costs(rows@)) ==> res is Some,
        res matches Some(t) ==> t == sum_breakdowns(row_costs(rows@)) && t.wf(),
{
    let mut acc = PeriodBreakdown::zero();
    let mut i: usize = 0;
    while i < rows.len()
        invariant
            i <= rows.len(),
            forall|k: int| 0 <= k < rows.len() ==> (#[trigger] rows[k]).costs.wf(),
            acc == sum_breakdowns(row_costs(rows@).take(i as int)),
            acc.wf(),
        decreases rows.len() - i,
    {
        let ghost rc = row_costs(rows@);
        proof {
            assert(rc.take(i + 1).drop_last() =~= rc.take(i as int));
            assert(rc.take(i + 1).last() == rows@[i as int].costs);
            if sum_ok(rc) {
                lemma_sum_ok_prefix(rc, i + 1);
            }
        }
        match acc.checked_add(&rows[i].costs) {
            Some(next) => {
                acc = next;
            },
            None => {
                return None;
            },
        }
        i = i + 1;
    }
    assert(row_costs(rows@).take(rows.len() as int) =~= row_costs(rows@));
    Some(acc)
}

/// `provider_estimate` where the sums are checked: `None` when a monthly cost
/// cannot be broken down or a total does not fit a decimal, and otherwise the
/// same estimate.
pub fn checked_provider_estimate(
    provider: CloudProvider,
    items: &Vec<LineItem>,
    specs: &Vec<ResourceSpec>,
    token_rows: Vec<CostRow>,
) -> (res: Option<ProviderUiEstimate>)
    requires
        forall|k: int|
            0 <= k < min_len(items.len() as int, specs.len() as int) ==> (#[trigger] items[k]).monthly_cost.wf()
                && specs[k].wf(),
        forall|k: int| 0 <= k < token_rows.len() ==> (#[trigger] token_rows[k]).costs.wf(),
    ensures
        ((forall|k: int|
            0 <= k < min_len(items.len() as int, specs.len() as int) ==> PeriodBreakdown::monthly_ok(
                (#[trigger] items[k]).monthly_cost,
            )) && sum_ok(item_breakdowns(items@, min_len(items.len() as int, specs.len() as int)))
            && sum_ok(row_costs(token_rows@)) && sum_breakdowns(
            item_breakdowns(items@, min_len(items.len() as int, specs.len() as int)),
        ).add_ok(sum_breakdowns(row_costs(token_rows@)))) ==> res is Some,
        res matches Some(e) ==> {
            &&& e.provider == provider
            &&& e.infrastructure.rows.len() == min_len(items.len() as int, specs.len() as int)
            &&& forall|k: int|
                0 <= k < e.infrastructure.rows.len() ==> infra_row(
                    items[k],
                    specs[k],
                    #[trigger] e.infrastructure.rows[k],
                )
            &&& e.infrastructure.totals == sum_breakdowns(row_costs(e.infrastructure.rows@))
            &&& e.tokens.rows@ == token_rows@
            &&& e.tokens.totals == sum_breakdowns(row_costs(token_rows@))
            &&& e.combined == e.infrastructure.totals.add_spec(e.tokens.totals)
            &&& e.combined.wf()
        },
{
    let n = if items.len() <= specs.len() {
        items.len()
    } else {
        specs.len()
    };
    let mut k: usize = 0;
    while k < n
        invariant
            k <= n,
            n == min_len(items.len() as int, specs.len() as int),
            forall|q: int| 0 <= q < n ==> (#[trigger] items[q]).monthly_cost.wf() && specs[q].wf(),
            forall|q: int| 0 <= q < k ==> PeriodBreakdown::monthly_ok((#[trigger] items[q]).monthly_cost),
        decreases n - k,
    {
        if !PeriodBreakdown::monthly_fits(items[k].monthly_cost) {
            return None;
        }
        k = k + 1;
    }
    let rows = infra_rows(items, specs);
    assert(row_costs(rows@) =~= item_breakdowns(items@, n as int));
    let infra_totals = match checked_total_of(&rows) {
        Some(t) => t,
        None => return None,
    };
    let token_totals = match checked_total_of(&token_rows) {
        Some(t) => t,
        None => return None,
    };
    let combined = match infra_totals.checked_add(&token_totals) {
        Some(c) => c,
        None => return None,
    };
    Some(
        ProviderUiEstimate {
            provider,
            infrastructure: CostTable { rows, totals: infra_totals },
            tokens: CostTable { rows: token_rows, totals: token_totals },
            combined,
        },
    )
}

/// Positions of the token usage lines billed on `p`, in order.
pub open spec fn usage_positions(usage: Seq<TokenUsageSpec>, p: CloudProvider) -> Seq<int>
    decreases usage.len(),
{
    if usage.len() == 0 {
        seq![]
    } else {
        let prev = usage_positions(usage.drop_last(), p);
        if usage.last().cloud_spec() == Some(p) {
            prev.push(usage.len() - 1)
        } else {
            prev
        }
    }
}

pub open spec fn rate_pair_view(r: Option<(String, String)>) -> Option<(Seq<char>, Seq<char>)> {
    match r {
        Some((i, o)) => Some((i@, o@)),
        None => None,
    }
}

/// The monthly cost of a usage line at its cached rates (zero without
/// rates), when both rates read as decimals.
pub open spec fn usage_monthly(u: TokenUsageSpec, r: Option<(Seq<char>, Seq<char>)>) -> Option<Dec> {
    match r {
        None => Some(Dec::zero_spec()),
        Some((i, o)) => match (Dec::parsed(i), Dec::parsed(o)) {
            (Some(a), Some(b)) => Some(
                token_cost_spec(u.input_tokens_per_month, u.output_tokens_per_month, a, b),
            ),
            _ => None,
        },
    }
}

/// `row` is the token row of usage line `u` at rates `r`.
pub open spec fn token_line(u: TokenUsageSpec, r: Option<(Seq<char>, Seq<char>)>, row: CostRow) -> bool {
    usage_monthly(u, r) matches Some(m) && token_row_matches(u, m, r, row)
}

/// What a failure of usage line `u` at rates `r` says: an unreadable input
/// rate, an unreadable output rate (the input one read), or an overflow
/// with both rates readable.
pub open spec fn token_line_fails(r: Option<(Seq<char>, Seq<char>)>, e: TokenCostError) -> bool {
    match e {
        TokenCostError::InputRate => r matches Some((i, _)) && decimal_parse(i) is None,
        TokenCostError::OutputRate => r matches Some((i, o)) && decimal_parse(i) is Some
            && decimal_parse(o) is None,
        TokenCostError::Overflow => r matches Some((i, o)) ==> decimal_parse(i) is Some
            && decimal_parse(o) is Some,
    }
}

/// The token rows of the usage lines billed on `provider`, in order, each at
/// the cached rates found for it (`rates[i]` for line `i`; zero cost without
/// rates). Fails on the first line whose rates do not read as decimals or
/// whose cost does not fit.
pub fn provider_token_rows(
    usage: &Vec<TokenUsageSpec>,
    provider: CloudProvider,
    rates: &Vec<Option<(String, String)>>,
) -> (res: Result<Vec<CostRow>, TokenCostError>)
    requires
        rates.len() == usage.len(),
    ensures
        match res {
            Ok(rows) => {
                &&& rows.len() == usage_positions(usage@, provider).len()
                &&& forall|k: int|
                    0 <= k < rows.len() ==> token_line(
                        usage[usage_positions(usage@, provider)[k]],
                        rate_pair_view(rates[usage_positions(usage@, provider)[k]]),
                        #[trigger] rows[k],
                    )
            },
            Err(e) => exists|i: int|
                0 <= i < usage.len() && (#[trigger] usage[i]).cloud_spec() == Some(provider)
                    && token_line_fails(rate_pair_view(rates[i]), e),
        },
{
    let mut rows: Vec<CostRow> = Vec::new();
    let mut i: usize = 0;
    while i < usage.len()
        invariant
            i <= usage.len(),
            rates.len() == usage.len(),
            rows.len() == usage_positions(usage@.take(i as int), provider).len(),
            forall|k: int|
                0 <= k < rows.len() ==> token_line(
                    usage[usage_positions(usage@.take(i as int), provider)[k]],
                    rate_pair_view(rates[usage_positions(usage@.take(i as int), provider)[k]]),
                    #[trigger] rows[k],
                ),
            forall|k: int|
                0 <= k < usage_positions(usage@.take(i as int), provider).len() ==> 0
                    <= #[trigger] usage_positions(usage@.take(i as int), provider)[k] < i,
        decreases usage.len() - i,
    {
        proof {
            assert(usage@.take(i + 1).drop_last() =~= usage@.take(i as int));
            assert(usage@.take(i + 1).last() == usage@[i as int]);
        }
        let ghost prev = usage_positions(usage@.take(i as int), provider);
        let u = &usage[i];
        if u.cloud() == Some(provider) {
            let pair: Option<(&str, &str)> = match &rates[i] {
                Some((a, b)) => Some((a.as_str(), b.as_str())),
                None => None,
            };
            assert(rate_views(pair) == rate_pair_view(rates[i as int]));
            let monthly = match token_cost(u, pair) {
                Ok(c) => c,
                Err(e) => {
                    assert(token_line_fails(rate_pair_view(rates[i as int]), e));
                    return Err(e);
                },
            };
            assert(usage_monthly(*u, rate_pair_view(rates[i as int])) == Some(monthly));
            if u.input_tokens_per_month.checked_add(u.output_tokens_per_month).is_none() {
                assert(token_line_fails(rate_pair_view(rates[i as int]), TokenCostError::Overflow));
                return Err(TokenCostError::Overflow);
            }
            if !PeriodBreakdown::monthly_fits(monthly) {
                assert(token_line_fails(rate_pair_view(rates[i as int]), TokenCostError::Overflow));
                return Err(TokenCostError::Overflow);
            }
            let row = match token_row(u, monthly, pair) {
                Ok(r) => r,
                Err(e) => {
                    assert(token_line_fails(rate_pair_view(rates[i as int]), e));
                    return Err(e);
                },
            };
            let ghost before = rows@;
            rows.push(row);
            proof {
                let pos = usage_positions(usage@.take(i + 1), provider);
                assert(pos == prev.push(i as int));
                assert forall|k: int| 0 <= k < rows.len() implies token_line(
                    usage[pos[k]],
                    rate_pair_view(rates[pos[k]]),
                    #[trigger] rows[k],
                ) by {
                    if k < before.len() {
                        assert(rows[k] == before[k]);
                        assert(pos[k] == prev[k]);
                    }
                }
            }
        }
        i = i + 1;
    }
    assert(usage@.take(usage.len() as int) =~= usage@);
    Ok(rows)
}

/// The resources selected for `p` are as many as the request's selections
/// for `p`, and the usage lines billed on `p` as many as the request's lines
/// for `p`.
pub proof fn lemma_position_counts(
    inputs: Seq<UiResourceInput>,
    usage: Seq<TokenUsageSpec>,
    p: CloudProvider,
)
    ensures
        selection_indices(inputs, p).len() == inputs.filter(|x: UiResourceInput| x.provider == p).len(),
        usage_positions(usage, p).len() == usage.filter(|u: TokenUsageSpec| u.cloud_spec() == Some(p)).len(),
    decreases inputs.len() + usage.len(),
{
    reveal(Seq::filter);
    if inputs.len() > 0 {
        lemma_position_counts(inputs.drop_last(), usage, p);
    } else if usage.len() > 0 {
        lemma_position_counts(inputs, usage.drop_last(), p);
    }
}

/// End to end: a provider's estimate assembled from a request — the
/// resources built for `p`, one line item each, and the token rows of its
/// usage — has one infrastructure row per selection made for `p` and one
/// token row per usage line billed on `p`; each table's totals are the sum of
/// its rows, and the combined figure is the two totals added.
pub proof fn lemma_estimate_matches_request(
    request: EstimateRequest,
    p: CloudProvider,
    specs: Seq<ResourceSpec>,
    items: Seq<LineItem>,
    token_rows: Seq<CostRow>,
    e: ProviderUiEstimate,
)
    requires
        specs.len() == selection_indices(request.resources@, p).len(),
        items.len() == specs.len(),
        token_rows.len() == usage_positions(request.token_usage@, p).len(),
        e.infrastructure.rows.len() == min_len(items.len() as int, specs.len() as int),
        e.infrastructure.totals == sum_breakdowns(row_costs(e.infrastructure.rows@)),
        e.tokens.rows@ == token_rows,
        e.tokens.totals == sum_breakdowns(row_costs(token_rows)),
        e.combined == e.infrastructure.totals.add_spec(e.tokens.totals),
    ensures
        e.infrastructure.rows.len() == request.resources@.filter(
            |x: UiResourceInput| x.provider == p,
        ).len(),
        e.tokens.rows.len() == request.token_usage@.filter(
            |u: TokenUsageSpec| u.cloud_spec() == Some(p),
        ).len(),
        e.infrastructure.totals == sum_breakdowns(row_costs(e.infrastructure.rows@)),
        e.tokens.totals == sum_breakdowns(row_costs(e.tokens.rows@)),
        e.combined == e.infrastructure.totals.add_spec(e.tokens.totals),
{
    lemma_position_counts(request.resources@, request.token_usage@, p);
}

/// The amount of a breakdown for one billing period.
pub open spec fn period_amount(b: PeriodBreakdown, p: BillingPeriod) -> Dec {
    match p {
        BillingPeriod::Daily => b.daily,
        BillingPeriod::Monthly => b.monthly,
        BillingPeriod::Quarterly => b.quarterly,
        BillingPeriod::HalfYearly => b.half_yearly,
        BillingPeriod::Yearly => b.yearly,
    }
}

/// The line item listed for an infrastructure row.
pub open spec fn legacy_line_item(provider: CloudProvider, r: CostRow, li: LineItem) -> bool {
    &&& li.provider == provider
    &&& li.category@ == r.category@
    &&& li.description@ == r.description@
    &&& li.unit_price == r.unit_price
    &&& li.quantity == r.quantity
    &&& li.unit@ == r.unit@
    &&& li.monthly_cost == r.costs.monthly
}

/// The totals of one billing period of a provider's estimate.
pub open spec fn legacy_period(p: ProviderUiEstimate, period: BillingPeriod, pc: PeriodCost) -> bool {
    &&& pc.period == period
    &&& pc.infrastructure == period_amount(p.infrastructure.totals, period)
    &&& pc.tokens == period_amount(p.tokens.totals, period)
    &&& pc.total == period_amount(p.combined, period)
}

/// A provider's estimate in the per-period summary shape.
pub open spec fn legacy_estimate(p: ProviderUiEstimate, e: ProviderEstimate) -> bool {
    &&& e.provider == p.provider
    &&& e.line_items.len() == p.infrastructure.rows.len()
    &&& forall|k: int|
        0 <= k < e.line_items.len() ==> legacy_line_item(
            p.provider,
            p.infrastructure.rows[k],
            #[trigger] e.line_items[k],
        )
    &&& e.periods.len() == BillingPeriod::all_spec().len()
    &&& forall|j: int|
        0 <= j < e.periods.len() ==> legacy_period(
            p,
            BillingPeriod::all_spec()[j],
            #[trigger] e.periods[j],
        )
}

fn amount_for(b: &PeriodBreakdown, p: BillingPeriod) -> (res: Dec)
    ensures
        res == period_amount(*b, p),
{
    match p {
        BillingPeriod::Daily => b.daily,
        BillingPeriod::Monthly => b.monthly,
        BillingPeriod::Quarterly => b.quarterly,
        BillingPeriod::HalfYearly => b.half_yearly,
        BillingPeriod::Yearly => b.yearly,
    }
}

fn legacy_provider(p: &ProviderUiEstimate) -> (res: ProviderEstimate)
    ensures
        legacy_estimate(*p, res),
{
    let rows = &p.infrastructure.rows;
    let mut line_items: Vec<LineItem> = Vec::new();
    let mut k: usize = 0;
    while k < rows.len()
        invariant
            k <= rows.len(),
            rows == p.infrastructure.rows,
            line_items.len() == k,
            forall|q: int|
                0 <= q < k ==> legacy_line_item(p.provider, rows[q], #[trigger] line_items[q]),
        decreases rows.len() - k,
    {
        let r = &rows[k];
        line_items.push(
            LineItem {
                provider: p.provider,
                category: r.category.clone(),
                description: r.description.clone(),
                unit_price: r.unit_price,
                quantity: r.quantity,
                unit: r.unit.clone(),
                monthly_cost: r.costs.monthly,
            },
        );
        k = k + 1;
    }
    let all = BillingPeriod::all();
    let mut periods: Vec<PeriodCost> = Vec::new();
    let mut j: usize = 0;
    while j < all.len()
        invariant
            j <= all.len(),
            all@ == BillingPeriod::all_spec(),
            periods.len() == j,
            forall|q: int| 0 <= q < j ==> legacy_period(*p, all@[q], #[trigger] periods[q]),
        decreases all.len() - j,
    {
        let period = all[j];
        periods.push(
            PeriodCost {
                period,
                infrastructure: amount_for(&p.infrastructure.totals, period),
                tokens: amount_for(&p.tokens.totals, period),
                total: amount_for(&p.combined, period),
            },
        );
        j = j + 1;
    }
    ProviderEstimate { provider: p.provider, line_items, periods }
}

/// The per-period summary of an estimate: for each provider, a line item per
/// infrastructure row and the infrastructure, token and combined totals of
/// each billing period.
pub fn legacy_from_ui(ui: &UiEstimateResponse, requirement: RequirementSet) -> (res: EstimateResult)
    ensures
        res.id == ui.id,
        res.requirement == requirement,
        res.created_at == ui.created_at,
        res.estimates.len() == ui.providers.len(),
        forall|i: int|
            0 <= i < res.estimates.len() ==> legacy_estimate(
                ui.providers[i],
                #[trigger] res.estimates[i],
            ),
{
    let mut estimates: Vec<ProviderEstimate> = Vec::new();
    let mut i: usize = 0;
    while i < ui.providers.len()
        invariant
            i <= ui.providers.len(),
            estimates.len() == i,
            forall|q: int|
                0 <= q < i ==> legacy_estimate(ui.providers[q], #[trigger] estimates[q]),
        decreases ui.providers.len() - i,
    {
        estimates.push(legacy_provider(&ui.providers[i]));
        i = i + 1;
    }
    EstimateResult { id: ui.id, requirement, estimates, created_at: ui.created_at }
}

/// The selection a workload resource becomes in an estimate request: its
/// catalog id (or, without one, its service), on AWS, with its region,
/// sub-region, quantity, SKU, instance count and hours.
pub open spec fn input_from_resource(r: ResourceSpec, i: UiResourceInput) -> bool {
    &&& i.catalog_id@ == (match opt_view(r.catalog_id) {
        Some(c) => c,
        None => r.service@,
    })
    &&& i.provider == CloudProvider::Aws
    &&& i.region@ == r.region@
    &&& opt_view(i.sub_region) == opt_view(r.sub_region)
    &&& i.quantity == r.quantity
    &&& opt_view(i.sku) == opt_view(r.sku)
    &&& i.instance_count == r.instance_count
    &&& i.hours == r.hours
}

/// A copy of a token usage line.
pub fn copy_usage(u: &TokenUsageSpec) -> (res: TokenUsageSpec)
    ensures
        res == *u,
{
    TokenUsageSpec {
        model: u.model.clone(),
        provider: u.provider.clone(),
        input_tokens_per_month: u.input_tokens_per_month,
        output_tokens_per_month: u.output_tokens_per_month,
        cloud_provider: u.cloud_provider,
        display_name: copy_opt_string(&u.display_name),
    }
}

/// The estimate request for a workload: its name, every provider, cached
/// prices, one selection per resource and the same token usage.
pub fn request_from_requirement(requirement: &RequirementSet) -> (res: EstimateRequest)
    ensures
        res.name@ == requirement.name@,
        res.providers@ == CloudProvider::all_spec(),
        !res.live_pricing,
        res.resources.len() == requirement.resources.len(),
        forall|k: int|
            0 <= k < res.resources.len() ==> input_from_resource(
                requirement.resources[k],
                #[trigger] res.resources[k],
            ),
        res.token_usage@ == requirement.token_usage@,
{
    let mut inputs: Vec<UiResourceInput> = Vec::new();
    let mut k: usize = 0;
    while k < requirement.resources.len()
        invariant
            k <= requirement.resources.len(),
            inputs.len() == k,
            forall|q: int|
                0 <= q < k ==> input_from_resource(
                    requirement.resources[q],
                    #[trigger] inputs[q],
                ),
        decreases requirement.resources.len() - k,
    {
        let r = &requirement.resources[k];
        let catalog_id = match &r.catalog_id {
            Some(c) => c.clone(),
            None => r.service.clone(),
        };
        inputs.push(
            UiResourceInput {
                catalog_id,
                provider: CloudProvider::Aws,
                region: r.region.clone(),
                sub_region: copy_opt_string(&r.sub_region),
                quantity: r.quantity,
                sku: copy_opt_string(&r.sku),
                instance_count: r.instance_count,
                hours: r.hours,
            },
        );
        k = k + 1;
    }
    let mut usage: Vec<TokenUsageSpec> = Vec::new();
    let mut j: usize = 0;
    while j < requirement.token_usage.len()
        invariant
            j <= requirement.token_usage.len(),
            usage@ == requirement.token_usage@.take(j as int),
        decreases requirement.token_usage.len() - j,
    {
        let u = copy_usage(&requirement.token_usage[j]);
        usage.push(u);
        assert(usage@ =~= requirement.token_usage@.take(j + 1));
        j = j + 1;
    }
    assert(requirement.token_usage@.take(requirement.token_usage.len() as int)
        =~= requirement.token_usage@);
    EstimateRequest {
        name: requirement.name.clone(),
        providers: CloudProvider::all(),
        live_pricing: false,
        resources: inputs,
        token_usage: usage,
    }
}

} // verus!
