//! Importing a workload or an estimate request into the UI's resource list:
//! which provider and catalog entry each resource is, its SKU, unit and whole
//! counts, and the list of providers and warnings shown.
use vstd::prelude::*;
use crate::catalog::{CatalogCategory, CatalogResponse, CatalogService, ServiceCategory};
use crate::estimate::{opt_view, Resolved};
use crate::models::{
    CloudProvider, EstimateRequest, RequirementSet, ResourceSpec, TokenUsageSpec, UiImportResource,
    UiImportResponse, UiResourceInput,
};
use crate::money::Dec;
use crate::order::{insert_sorted, strictly_sorted};
use crate::store::CatalogSearchHit;
use crate::text::{
    chars_of, push_str, seq_has, split, split_on, str_eq, string_list, strs, views,
};

verus! {

/// The provider a catalog id names before its `:` (`aws`, `azure` or `gcp`).
pub open spec fn provider_of_id(id: Seq<char>) -> Option<Seq<char>> {
    let p = split_on(id, ':')[0];
    if p == "aws"@ || p == "azure"@ || p == "gcp"@ {
        Some(p)
    } else {
        None
    }
}

pub fn infer_provider_from_catalog_id(catalog_id: Option<&str>) -> (res: Option<String>)
    ensures
        opt_view(res) == match catalog_id {
            Some(id) => provider_of_id(id@),
            None => None,
        },
{
    let id = match catalog_id {
        Some(id) => id,
        None => return None,
    };
    let v = chars_of(id);
    let parts = split(&v, ':');
    assert(parts.len() >= 1) by {
        crate::text::lemma_split_nonempty(v@, ':');
    }
    let p = crate::text::string_of(&parts[0]);
    if str_eq(p.as_str(), "aws") || str_eq(p.as_str(), "azure") || str_eq(p.as_str(), "gcp") {
        Some(p)
    } else {
        None
    }
}

/// The provider a workload resource is imported for: its own, else the one
/// its catalog id names, else `aws`.
pub open spec fn spec_provider_spec(spec: ResourceSpec) -> Seq<char> {
    match opt_view(spec.provider) {
        Some(p) => p,
        None => match opt_view(spec.catalog_id) {
            Some(id) => match provider_of_id(id) {
                Some(p) => p,
                None => "aws"@,
            },
            None => "aws"@,
        },
    }
}

pub fn spec_provider(spec: &ResourceSpec) -> (res: String)
    ensures
        res@ == spec_provider_spec(*spec),
{
    match &spec.provider {
        Some(p) => p.clone(),
        None => {
            let inferred = match &spec.catalog_id {
                Some(id) => infer_provider_from_catalog_id(Some(id.as_str())),
                None => None,
            };
            match inferred {
                Some(p) => p,
                None => "aws".to_owned(),
            }
        },
    }
}

/// The first category/service pair whose service has id `id`, in catalog
/// order.
pub open spec fn meta_in(cats: Seq<CatalogCategory>, id: Seq<char>) -> Option<(Seq<char>, Seq<char>, Seq<char>)>
    decreases cats.len(),
{
    if cats.len() == 0 {
        None
    } else {
        let prev = meta_in(cats.drop_last(), id);
        if prev is Some {
            prev
        } else {
            let c = cats.last();
            match crate::estimate::first_service(c.services@, id) {
                Some(s) => Some((s.name@, c.label@, c.id@)),
                None => None,
            }
        }
    }
}

/// Name, category label and category id shown for a catalog entry: from the
/// catalog, or the service key under `General`/`compute` when it is not
/// listed.
pub open spec fn catalog_meta_spec(cat: CatalogResponse, id: Seq<char>, service_key: Seq<char>) -> (Seq<char>, Seq<char>, Seq<char>) {
    match meta_in(cat.categories@, id) {
        Some(m) => m,
        None => (service_key, "General"@, "compute"@),
    }
}

fn find_in_services(svcs: &Vec<CatalogService>, id: &str) -> (res: Option<String>)
    ensures
        match (res, crate::estimate::first_service(svcs@, id@)) {
            (Some(n), Some(s)) => n@ == s.name@,
            (None, None) => true,
            _ => false,
        },
{
    let mut j: usize = 0;
    while j < svcs.len()
        invariant
            j <= svcs.len(),
            crate::estimate::first_service(svcs@.take(j as int), id@) is None,
        decreases svcs.len() - j,
    {
        let ghost t = svcs@.take(j + 1);
        assert(t.drop_last() =~= svcs@.take(j as int));
        if str_eq(svcs[j].id.as_str(), id) {
            proof {
                lemma_first_service_prefix(svcs@, j + 1, id@);
            }
            return Some(svcs[j].name.clone());
        }
        j = j + 1;
    }
    assert(svcs@.take(svcs.len() as int) =~= svcs@);
    None
}

proof fn lemma_first_service_prefix(s: Seq<CatalogService>, n: int, id: Seq<char>)
    requires
        0 <= n <= s.len(),
        crate::estimate::first_service(s.take(n), id) is Some,
    ensures
        crate::estimate::first_service(s, id) == crate::estimate::first_service(s.take(n), id),
    decreases s.len() - n,
{
    if n < s.len() {
        assert(s.take(n + 1).drop_last() =~= s.take(n));
        lemma_first_service_prefix(s, n + 1, id);
    } else {
        assert(s.take(n) =~= s);
    }
}

/// Name, category label and category id shown for a catalog entry.
pub fn catalog_meta(cat: &CatalogResponse, catalog_id: &str, service_key: &str) -> (res: (
    String,
    String,
    String,
))
    ensures
        (res.0@, res.1@, res.2@) == catalog_meta_spec(*cat, catalog_id@, service_key@),
{
    let cats = &cat.categories;
    let mut i: usize = 0;
    while i < cats.len()
        invariant
            i <= cats.len(),
            cats@ == cat.categories@,
            meta_in(cats@.take(i as int), catalog_id@) is None,
        decreases cats.len() - i,
    {
        assert(cats@.take(i + 1).drop_last() =~= cats@.take(i as int));
        assert(cats@.take(i + 1).last() == cats@[i as int]);
        match find_in_services(&cats[i].services, catalog_id) {
            Some(name) => {
                proof {
                    let c = cats@[i as int];
                    let fs = crate::estimate::first_service(c.services@, catalog_id@);
                    assert(fs is Some);
                    assert(meta_in(cats@.take(i + 1), catalog_id@) == Some((fs->Some_0.name@, c.label@, c.id@)));
                    lemma_meta_prefix(cats@, i + 1, catalog_id@);
                }
                return (name, cats[i].label.clone(), cats[i].id.clone());
            },
            None => {},
        }
        i = i + 1;
    }
    assert(cats@.take(cats.len() as int) =~= cats@);
    (service_key.to_owned(), "General".to_owned(), ServiceCategory::Compute.id().to_owned())
}

proof fn lemma_meta_prefix(s: Seq<CatalogCategory>, n: int, id: Seq<char>)
    requires
        0 <= n <= s.len(),
        meta_in(s.take(n), id) is Some,
    ensures
        meta_in(s, id) == meta_in(s.take(n), id),
    decreases s.len() - n,
{
    if n < s.len() {
        assert(s.take(n + 1).drop_last() =~= s.take(n));
        lemma_meta_prefix(s, n + 1, id);
    } else {
        assert(s.take(n) =~= s);
    }
}

/// A decimal as a whole count: its integer part, or 0 when negative or too
/// large.
pub open spec fn whole(d: Dec) -> u64 {
    match Dec::to_u64_spec(d) {
        Some(n) => n,
        None => 0,
    }
}

pub fn decimal_to_u64(d: Dec) -> (res: u64)
    ensures
        res == whole(d),
{
    match d.to_u64() {
        Some(n) => n,
        None => 0,
    }
}

/// The whole-unit quantity imported: for an hourly unit, instances times
/// hours (the quantity standing in for missing hours); otherwise the
/// quantity.
pub open spec fn import_quantity(
    unit: Seq<char>,
    instance_count: Option<Dec>,
    hours: Option<Dec>,
    quantity: Dec,
) -> int {
    if unit == "hours"@ {
        whole(crate::estimate::or_one(instance_count)) * (match hours {
            Some(h) => whole(h),
            None => whole(quantity),
        })
    } else {
        whole(quantity) as int
    }
}

/// The import line for a catalog entry: key `ID-PROVIDER-REGION-SKU`, the SKU
/// asked for (else the default), the catalog's name and category, whole
/// counts.
pub open spec fn import_matches(
    catalog_id: Seq<char>,
    provider: Seq<char>,
    region: Seq<char>,
    sub_region: Option<Seq<char>>,
    sku: Seq<char>,
    unit: Seq<char>,
    instance_count: Option<Dec>,
    hours: Option<Dec>,
    quantity: Dec,
    meta: (Seq<char>, Seq<char>, Seq<char>),
    r: UiImportResource,
) -> bool {
    &&& r.key@ == catalog_id + "-"@ + provider + "-"@ + region + "-"@ + sku
    &&& r.catalog_id@ == catalog_id
    &&& r.provider@ == provider
    &&& r.region@ == region
    &&& opt_view(r.sub_region) == sub_region
    &&& r.sku@ == sku
    &&& r.instance_count == whole(crate::estimate::or_one(instance_count))
    &&& r.hours == (match hours {
        Some(h) => Some(whole(h)),
        None => None,
    })
    &&& r.quantity == import_quantity(unit, instance_count, hours, quantity)
    &&& (r.name@, r.category@, r.category_id@) == meta
    &&& r.unit@ == unit
}

/// The chosen SKU unless it is missing or empty, else the default.
pub open spec fn chosen_sku(sku: Option<Seq<char>>, default_sku: Seq<char>) -> Seq<char> {
    match sku {
        Some(s) => if s.len() > 0 {
            s
        } else {
            default_sku
        },
        None => default_sku,
    }
}

/// The counts of an import line fit in 64 bits.
pub open spec fn counts_fit(unit: Seq<char>, instance_count: Option<Dec>, hours: Option<Dec>, quantity: Dec) -> bool {
    import_quantity(unit, instance_count, hours, quantity) <= u64::MAX
}

/// Whether the counts of an import line fit in 64 bits (the whole-unit
/// quantity of an hourly line is a product that may not).
pub fn import_counts_fit(unit: &str, instance_count: Option<Dec>, hours: Option<Dec>, quantity: Dec) -> (res: bool)
    ensures
        res == counts_fit(unit@, instance_count, hours, quantity),
{
    proof {
        reveal_strlit("hours");
    }
    if str_eq(unit, "hours") {
        let n = match instance_count {
            Some(c) => decimal_to_u64(c),
            None => decimal_to_u64(Dec::one()),
        };
        let h = match hours {
            Some(x) => decimal_to_u64(x),
            None => decimal_to_u64(quantity),
        };
        n.checked_mul(h).is_some()
    } else {
        true
    }
}

fn build_import(
    catalog_id: String,
    provider: &str,
    region: &String,
    sub_region: &Option<String>,
    sku: String,
    unit: String,
    instance_count: Option<Dec>,
    hours: Option<Dec>,
    quantity: Dec,
    meta: (String, String, String),
) -> (res: UiImportResource)
    requires
        counts_fit(unit@, instance_count, hours, quantity),
    ensures
        import_matches(
            catalog_id@,
            provider@,
            region@,
            opt_view(*sub_region),
            sku@,
            unit@,
            instance_count,
            hours,
            quantity,
            (meta.0@, meta.1@, meta.2@),
            res,
        ),
{
    let ic = decimal_to_u64(
        match instance_count {
            Some(n) => n,
            None => Dec::one(),
        },
    );
    let h = match hours {
        Some(h) => Some(decimal_to_u64(h)),
        None => None,
    };
    let q = if str_eq(unit.as_str(), "hours") {
        let hv = match h {
            Some(v) => v,
            None => decimal_to_u64(quantity),
        };
        ic * hv
    } else {
        decimal_to_u64(quantity)
    };
    let mut key = catalog_id.clone();
    push_str(&mut key, "-");
    push_str(&mut key, provider);
    push_str(&mut key, "-");
    push_str(&mut key, region.as_str());
    push_str(&mut key, "-");
    push_str(&mut key, sku.as_str());
    let sub = match sub_region {
        Some(s) => Some(s.clone()),
        None => None,
    };
    UiImportResource {
        key,
        catalog_id,
        provider: provider.to_owned(),
        region: region.clone(),
        sub_region: sub,
        sku,
        instance_count: ic,
        hours: h,
        quantity: q,
        name: meta.0,
        category: meta.1,
        category_id: meta.2,
        unit,
    }
}

fn pick_sku(sku: &Option<String>, default_sku: &String) -> (res: String)
    ensures
        res@ == chosen_sku(opt_view(*sku), default_sku@),
{
    match sku {
        Some(s) => if !s.as_str().is_empty() {
            s.clone()
        } else {
            default_sku.clone()
        },
        None => default_sku.clone(),
    }
}

/// The import line of an estimate request's selection, given what the
/// catalog resolved it to; `unknown catalog entry ID` when it did not.
pub fn ui_input_import(
    cat: &CatalogResponse,
    input: &UiResourceInput,
    resolved: Option<Resolved>,
) -> (res: Result<UiImportResource, String>)
    requires
        resolved matches Some(r) ==> counts_fit(
            r.2@,
            input.instance_count,
            input.hours,
            input.quantity,
        ),
    ensures
        match resolved {
            None => res matches Err(m) && m@ == "unknown catalog entry "@ + input.catalog_id@,
            Some(r) => res matches Ok(u) && import_matches(
                input.catalog_id@,
                input.provider.key(),
                input.region@,
                opt_view(input.sub_region),
                chosen_sku(opt_view(input.sku), r.1@),
                r.2@,
                input.instance_count,
                input.hours,
                input.quantity,
                catalog_meta_spec(*cat, input.catalog_id@, r.0@),
                u,
            ),
        },
{
    let (service_key, default_sku, unit) = match resolved {
        Some(r) => r,
        None => {
            let mut m = "unknown catalog entry ".to_owned();
            push_str(&mut m, input.catalog_id.as_str());
            return Err(m);
        },
    };
    let sku = pick_sku(&input.sku, &default_sku);
    let meta = catalog_meta(cat, input.catalog_id.as_str(), service_key.as_str());
    Ok(
        build_import(
            input.catalog_id.clone(),
            input.provider.as_str(),
            &input.region,
            &input.sub_region,
            sku,
            unit,
            input.instance_count,
            input.hours,
            input.quantity,
            meta,
        ),
    )
}

/// The unit a workload resource is imported in: its own, unless empty or the
/// generic `units`, in which case the catalog's.
pub open spec fn import_unit(own: Seq<char>, resolved: Seq<char>) -> Seq<char> {
    if own.len() == 0 || own == "units"@ {
        resolved
    } else {
        own
    }
}

/// The import line of a workload resource for `provider` and catalog entry
/// `catalog_id`, given what the catalog resolved that entry to; `unknown
/// catalog entry ID` when it did not.
pub fn spec_import(
    cat: &CatalogResponse,
    spec: &ResourceSpec,
    provider: &str,
    catalog_id: String,
    resolved: Option<Resolved>,
) -> (res: Result<UiImportResource, String>)
    requires
        resolved matches Some(r) ==> counts_fit(
            import_unit(spec.unit@, r.2@),
            spec.instance_count,
            spec.hours,
            spec.quantity,
        ),
    ensures
        match resolved {
            None => res matches Err(m) && m@ == "unknown catalog entry "@ + catalog_id@,
            Some(r) => res matches Ok(u) && import_matches(
                catalog_id@,
                provider@,
                spec.region@,
                opt_view(spec.sub_region),
                chosen_sku(opt_view(spec.sku), r.1@),
                import_unit(spec.unit@, r.2@),
                spec.instance_count,
                spec.hours,
                spec.quantity,
                catalog_meta_spec(*cat, catalog_id@, r.0@),
                u,
            ),
        },
{
    let (service_key, default_sku, resolved_unit) = match resolved {
        Some(r) => r,
        None => {
            let mut m = "unknown catalog entry ".to_owned();
            push_str(&mut m, catalog_id.as_str());
            return Err(m);
        },
    };
    let sku = pick_sku(&spec.sku, &default_sku);
    let meta = catalog_meta(cat, catalog_id.as_str(), service_key.as_str());
    let unit = if spec.unit.as_str().is_empty() || str_eq(spec.unit.as_str(), "units") {
        resolved_unit
    } else {
        spec.unit.clone()
    };
    Ok(
        build_import(
            catalog_id,
            provider,
            &spec.region,
            &spec.sub_region,
            sku,
            unit,
            spec.instance_count,
            spec.hours,
            spec.quantity,
            meta,
        ),
    )
}

/// The catalog id a workload resource gives itself: its non-empty catalog id,
/// prefixed `PROVIDER:` when it has no `:`. `None` means it must be searched
/// for.
pub open spec fn explicit_catalog_id_spec(provider: Seq<char>, spec: ResourceSpec) -> Option<Seq<char>> {
    match opt_view(spec.catalog_id) {
        Some(id) => if id.len() == 0 {
            None
        } else if seq_has(id, ":"@) {
            Some(id)
        } else {
            Some(provider + ":"@ + id)
        },
        None => None,
    }
}

pub fn explicit_catalog_id(provider: &str, spec: &ResourceSpec) -> (res: Option<String>)
    ensures
        opt_view(res) == explicit_catalog_id_spec(provider@, *spec),
{
    match &spec.catalog_id {
        Some(id) => {
            if id.as_str().is_empty() {
                return None;
            }
            if crate::text::has_lit(&chars_of(id.as_str()), ":") {
                Some(id.clone())
            } else {
                let mut out = provider.to_owned();
                push_str(&mut out, ":");
                push_str(&mut out, id.as_str());
                Some(out)
            }
        },
        None => None,
    }
}

/// The catalog id found by searching for a workload resource's service: the
/// first hit for `provider`; when there is none, `could not resolve service
/// 'SERVICE' for PROVIDER — set catalog_id`.
pub fn pick_search_hit(hits: &Vec<CatalogSearchHit>, provider: &str, service: &str) -> (res: Result<
    String,
    String,
>)
    ensures
        match res {
            Ok(id) => exists|i: int|
                0 <= i < hits.len() && hits@[i].provider@ == provider@ && #[trigger] hits@[i].catalog_id@
                    == id@ && forall|j: int| 0 <= j < i ==> (#[trigger] hits@[j]).provider@ != provider@,
            Err(m) => (forall|j: int| 0 <= j < hits.len() ==> (#[trigger] hits@[j]).provider@ != provider@)
                && m@ == "could not resolve service '"@ + service@ + "' for "@ + provider@
                + " — set catalog_id"@,
        },
{
    let mut i: usize = 0;
    while i < hits.len()
        invariant
            i <= hits.len(),
            forall|j: int| 0 <= j < i ==> (#[trigger] hits@[j]).provider@ != provider@,
        decreases hits.len() - i,
    {
        if str_eq(hits[i].provider.as_str(), provider) {
            let id = hits[i].catalog_id.clone();
            assert(hits@[i as int].catalog_id@ == id@);
            return Ok(id);
        }
        i = i + 1;
    }
    let mut m = "could not resolve service '".to_owned();
    push_str(&mut m, service);
    push_str(&mut m, "' for ");
    push_str(&mut m, provider);
    push_str(&mut m, " — set catalog_id");
    Err(m)
}

/// The lines that imported.
pub open spec fn imported(outcomes: Seq<Result<UiImportResource, String>>) -> Seq<UiImportResource>
    decreases outcomes.len(),
{
    if outcomes.len() == 0 {
        seq![]
    } else {
        let prev = imported(outcomes.drop_last());
        match outcomes.last() {
            Ok(r) => prev.push(r),
            Err(_) => prev,
        }
    }
}

/// A warning `LABEL: ERROR` per line that did not import.
pub open spec fn warnings_of(labels: Seq<Seq<char>>, outcomes: Seq<Result<UiImportResource, String>>) -> Seq<Seq<char>>
    decreases outcomes.len(),
{
    if outcomes.len() == 0 {
        seq![]
    } else {
        let prev = warnings_of(labels, outcomes.drop_last());
        match outcomes.last() {
            Ok(_) => prev,
            Err(e) => prev.push(labels[outcomes.len() - 1] + ": "@ + e@),
        }
    }
}

fn split_outcomes(labels: &Vec<String>, outcomes: Vec<Result<UiImportResource, String>>) -> (res: (
    Vec<UiImportResource>,
    Vec<String>,
))
    requires
        labels.len() == outcomes.len(),
    ensures
        res.0@ == imported(outcomes@),
        strs(res.1@) == warnings_of(strs(labels@), outcomes@),
{
    let ghost all = outcomes@;
    let mut rest = outcomes;
    let mut resources: Vec<UiImportResource> = Vec::new();
    let mut warnings: Vec<String> = Vec::new();
    let mut i: usize = 0;
    while rest.len() > 0
        invariant
            i <= all.len(),
            all.len() == labels.len(),
            rest@ == all.skip(i as int),
            resources@ == imported(all.take(i as int)),
            strs(warnings@) == warnings_of(strs(labels@), all.take(i as int)),
        decreases rest.len(),
    {
        assert(all.len() - i > 0);
        let o = rest.remove(0);
        assert(o == all[i as int]);
        assert(all.take(i + 1).drop_last() =~= all.take(i as int));
        assert(all.take(i + 1).last() == all[i as int]);
        match o {
            Ok(r) => {
                resources.push(r);
            },
            Err(e) => {
                let mut w = labels[i].clone();
                push_str(&mut w, ": ");
                push_str(&mut w, e.as_str());
                assert(strs(labels@)[i as int] == labels@[i as int]@);
                let ghost before = warnings@;
                warnings.push(w);
                assert(strs(warnings@) =~= strs(before).push(w@));
            },
        }
        assert(rest@ =~= all.skip(i + 1));
        i = i + 1;
    }
    assert(all.take(i as int) =~= all);
    (resources, warnings)
}

/// The import of an estimate request: its name, providers (by key) and live
/// flag, the selections that imported (`outcomes[i]` is selection `i`'s), a
/// warning `CATALOG_ID: ERROR` for each that did not, and its token usage.
pub fn estimate_import(req: EstimateRequest, outcomes: Vec<Result<UiImportResource, String>>) -> (res: UiImportResponse)
    requires
        outcomes.len() == req.resources.len(),
    ensures
        res.name@ == req.name@,
        strs(res.providers@) == req.providers@.map_values(|p: CloudProvider| p.key()),
        res.live_pricing == req.live_pricing,
        res.resources@ == imported(outcomes@),
        strs(res.warnings@) == warnings_of(
            req.resources@.map_values(|r: UiResourceInput| r.catalog_id@),
            outcomes@,
        ),
        res.token_usage@ == req.token_usage@,
{
    let mut labels: Vec<String> = Vec::new();
    let mut k: usize = 0;
    while k < req.resources.len()
        invariant
            k <= req.resources.len(),
            strs(labels@) == req.resources@.take(k as int).map_values(|r: UiResourceInput| r.catalog_id@),
        decreases req.resources.len() - k,
    {
        let l = req.resources[k].catalog_id.clone();
        let ghost before = labels@;
        labels.push(l);
        assert(strs(labels@) =~= strs(before).push(l@));
        assert(req.resources@.take(k + 1).map_values(|r: UiResourceInput| r.catalog_id@)
            =~= req.resources@.take(k as int).map_values(|r: UiResourceInput| r.catalog_id@).push(l@));
        k = k + 1;
    }
    assert(req.resources@.take(req.resources.len() as int) =~= req.resources@);
    let mut providers: Vec<String> = Vec::new();
    let mut j: usize = 0;
    while j < req.providers.len()
        invariant
            j <= req.providers.len(),
            strs(providers@) == req.providers@.take(j as int).map_values(|p: CloudProvider| p.key()),
        decreases req.providers.len() - j,
    {
        let p = req.providers[j].as_str().to_owned();
        let ghost before = providers@;
        providers.push(p);
        assert(strs(providers@) =~= strs(before).push(p@));
        assert(req.providers@.take(j + 1).map_values(|p: CloudProvider| p.key())
            =~= req.providers@.take(j as int).map_values(|p: CloudProvider| p.key()).push(p@));
        j = j + 1;
    }
    assert(req.providers@.take(req.providers.len() as int) =~= req.providers@);
    let (resources, warnings) = split_outcomes(&labels, outcomes);
    UiImportResponse {
        name: req.name,
        providers,
        live_pricing: req.live_pricing,
        resources,
        token_usage: req.token_usage,
        warnings,
    }
}

/// The cloud key a token usage line adds to the providers shown, if any.
pub open spec fn usage_cloud_key(t: TokenUsageSpec) -> Option<Seq<char>> {
    match t.cloud_spec() {
        Some(p) => Some(p.key()),
        None => None,
    }
}

/// The label of a workload resource in warnings: its catalog id, else its
/// service.
pub open spec fn resource_label(r: ResourceSpec) -> Seq<char> {
    match opt_view(r.catalog_id) {
        Some(c) => c,
        None => r.service@,
    }
}

/// The import of a workload: its name, the providers of its resources
/// (`providers[i]` is resource `i`'s) and of its token usage, sorted and
/// without duplicates, cached prices, the resources that imported
/// (`outcomes[i]` is resource `i`'s), a warning `LABEL: ERROR` for each that
/// did not, and its token usage.
pub fn requirement_import(
    set: RequirementSet,
    providers: &Vec<String>,
    outcomes: Vec<Result<UiImportResource, String>>,
) -> (res: UiImportResponse)
    requires
        outcomes.len() == set.resources.len(),
        providers.len() == set.resources.len(),
    ensures
        res.name@ == set.name@,
        strictly_sorted(strs(res.providers@)),
        forall|y: Seq<char>|
            strs(res.providers@).contains(y) <==> (strs(providers@).contains(y) || exists|i: int|
                0 <= i < set.token_usage.len() && usage_cloud_key(#[trigger] set.token_usage@[i])
                    == Some(y)),
        !res.live_pricing,
        res.resources@ == imported(outcomes@),
        strs(res.warnings@) == warnings_of(
            set.resources@.map_values(|r: ResourceSpec| resource_label(r)),
            outcomes@,
        ),
        res.token_usage@ == set.token_usage@,
{
    let mut sorted: Vec<Vec<char>> = Vec::new();
    let mut k: usize = 0;
    while k < providers.len()
        invariant
            k <= providers.len(),
            strictly_sorted(views(sorted@)),
            forall|y: Seq<char>| views(sorted@).contains(y) <==> strs(providers@).take(k as int).contains(y),
        decreases providers.len() - k,
    {
        let ghost pv = strs(providers@);
        insert_sorted(&mut sorted, chars_of(providers[k].as_str()));
        proof {
            assert forall|y: Seq<char>| views(sorted@).contains(y) <==> pv.take(k + 1).contains(y) by {
                let t = pv.take(k + 1);
                if t.contains(y) {
                    let q = choose|q: int| 0 <= q < t.len() && t[q] == y;
                    if q < k {
                        assert(pv.take(k as int)[q] == y);
                    }
                }
                if pv.take(k as int).contains(y) {
                    let q = choose|q: int| 0 <= q < k && pv.take(k as int)[q] == y;
                    assert(t[q] == y);
                }
                if y == providers@[k as int]@ {
                    assert(t[k as int] == y);
                }
            }
        }
        k = k + 1;
    }
    assert(strs(providers@).take(providers.len() as int) =~= strs(providers@));
    let mut j: usize = 0;
    while j < set.token_usage.len()
        invariant
            j <= set.token_usage.len(),
            strictly_sorted(views(sorted@)),
            forall|y: Seq<char>|
                views(sorted@).contains(y) <==> (strs(providers@).contains(y) || exists|i: int|
                    0 <= i < j && usage_cloud_key(#[trigger] set.token_usage@[i]) == Some(y)),
        decreases set.token_usage.len() - j,
    {
        match set.token_usage[j].cloud() {
            Some(p) => {
                let key = chars_of(p.as_str());
                insert_sorted(&mut sorted, key);
                proof {
                    assert(usage_cloud_key(set.token_usage@[j as int]) == Some(key@));
                    assert forall|y: Seq<char>| views(sorted@).contains(y) <==> (strs(providers@).contains(y) || exists|i: int|
                        0 <= i < j + 1 && usage_cloud_key(#[trigger] set.token_usage@[i]) == Some(y)) by {
                        if y == key@ {
                            assert(usage_cloud_key(set.token_usage@[j as int]) == Some(y));
                        }
                    }
                }
            },
            None => {
                proof {
                    assert forall|y: Seq<char>| views(sorted@).contains(y) <==> (strs(providers@).contains(y) || exists|i: int|
                        0 <= i < j + 1 && usage_cloud_key(#[trigger] set.token_usage@[i]) == Some(y)) by {
                        if exists|i: int| 0 <= i < j + 1 && usage_cloud_key(#[trigger] set.token_usage@[i]) == Some(y) {
                            let i = choose|i: int| 0 <= i < j + 1 && usage_cloud_key(#[trigger] set.token_usage@[i]) == Some(y);
                            assert(i != j);
                        }
                    }
                }
            },
        }
        j = j + 1;
    }
    let provider_list = string_list(&sorted);
    let mut labels: Vec<String> = Vec::new();
    let mut m: usize = 0;
    while m < set.resources.len()
        invariant
            m <= set.resources.len(),
            strs(labels@) == set.resources@.take(m as int).map_values(|r: ResourceSpec| resource_label(r)),
        decreases set.resources.len() - m,
    {
        let r = &set.resources[m];
        let l = match &r.catalog_id {
            Some(c) => c.clone(),
            None => r.service.clone(),
        };
        let ghost before = labels@;
        labels.push(l);
        assert(strs(labels@) =~= strs(before).push(l@));
        assert(set.resources@.take(m + 1).map_values(|r: ResourceSpec| resource_label(r))
            =~= set.resources@.take(m as int).map_values(|r: ResourceSpec| resource_label(r)).push(l@));
        m = m + 1;
    }
    assert(set.resources@.take(set.resources.len() as int) =~= set.resources@);
    let (resources, warnings) = split_outcomes(&labels, outcomes);
    UiImportResponse {
        name: set.name,
        providers: provider_list,
        live_pricing: false,
        resources,
        token_usage: set.token_usage,
        warnings,
    }
}

} // verus!
