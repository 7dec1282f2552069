//! The decisions of a sync cycle: when the service and LLM catalogs are
//! stale, what a catalog or LLM refresh is recorded as, how many workers run,
//! and which price target a live quote is fetched for.
use vstd::prelude::*;
use crate::estimate::opt_view;
use crate::service_rules::{aws_attr_key, has_instance_type_attr, is_llm_token_service, is_llm_token_service_spec};
use crate::store::{PriceTarget, ProviderServiceMeta};
use crate::text::{i64_text, int_text, join, join_with, nat_text, push_str, str_eq, u64_text, views};

verus! {

/// A catalog older than this many seconds is scanned again.
pub const CATALOG_STALE_SECS: u64 = 21600;

/// Whether a catalog needs a refresh: it is empty, it was never refreshed,
/// or its last refresh is at least `CATALOG_STALE_SECS` old.
pub open spec fn needs_refresh_spec(count: i64, age_secs: Option<i64>) -> bool {
    count == 0 || match age_secs {
        None => true,
        Some(age) => age >= CATALOG_STALE_SECS,
    }
}

/// A catalog is refreshed when it is empty or of unknown age, and a
/// non-empty one is kept for six hours and refreshed from then on; a newer
/// catalog is never staler than an older one.
pub proof fn lemma_refresh_after_six_hours(count: i64, age: i64, older: i64)
    ensures
        needs_refresh_spec(0, Some(age)),
        needs_refresh_spec(count, None),
        count != 0 && age < 6 * 3600 ==> !needs_refresh_spec(count, Some(age)),
        age >= 6 * 3600 ==> needs_refresh_spec(count, Some(age)),
        age <= older && needs_refresh_spec(count, Some(age)) ==> needs_refresh_spec(count, Some(older)),
{
}

pub fn needs_refresh(count: i64, age_secs: Option<i64>) -> (res: bool)
    ensures
        res == needs_refresh_spec(count, age_secs),
{
    if count == 0 {
        return true;
    }
    match age_secs {
        None => true,
        Some(age) => age >= CATALOG_STALE_SECS as i64,
    }
}

/// A sync log entry: status and detail.
#[derive(Debug, Clone)]
pub struct SyncRecord {
    pub status: String,
    pub detail: String,
}

/// Service, region and service/region pair counts of one provider's catalog.
pub type Coverage = (i64, i64, i64);

/// `LABEL=Nsvc/Nreg/Npairs`.
pub open spec fn coverage_text(label: Seq<char>, c: Coverage) -> Seq<char> {
    label + "="@ + int_text(c.0 as int) + "svc/"@ + int_text(c.1 as int) + "reg/"@ + int_text(
        c.2 as int,
    ) + "pairs"@
}

/// The coverage parts of the providers whose coverage could be read.
pub open spec fn coverage_parts(cov: Seq<(Seq<char>, Option<Coverage>)>) -> Seq<Seq<char>>
    decreases cov.len(),
{
    if cov.len() == 0 {
        seq![]
    } else {
        let prev = coverage_parts(cov.drop_last());
        match cov.last().1 {
            Some(c) => prev.push(coverage_text(cov.last().0, c)),
            None => prev,
        }
    }
}

/// The outcome recorded for a finished catalog refresh.
pub open spec fn catalog_record_spec(
    counts: (u64, u64, u64),
    cached: i64,
    cov: Seq<(Seq<char>, Option<Coverage>)>,
    now: Seq<char>,
) -> (Seq<char>, Seq<char>) {
    let total = counts.0 + counts.1 + counts.2;
    if total > 0 {
        (
            "ok"@,
            "aws="@ + nat_text(counts.0 as nat) + " azure="@ + nat_text(counts.1 as nat) + " gcp="@
                + nat_text(counts.2 as nat) + " entries · "@ + join_with(coverage_parts(cov), " "@)
                + " · last_updated="@ + now,
        )
    } else if cached > 0 {
        (
            "ok"@,
            "refresh failed (network/proxy); using cached catalog ("@ + int_text(cached as int)
                + " services)"@,
        )
    } else {
        ("error"@, "no catalog data and cloud APIs unreachable"@)
    }
}

fn coverage_part(label: &str, c: Coverage) -> (res: Vec<char>)
    ensures
        res@ == coverage_text(label@, c),
{
    let mut s = label.to_owned();
    push_str(&mut s, "=");
    push_str(&mut s, i64_text(c.0).as_str());
    push_str(&mut s, "svc/");
    push_str(&mut s, i64_text(c.1).as_str());
    push_str(&mut s, "reg/");
    push_str(&mut s, i64_text(c.2).as_str());
    push_str(&mut s, "pairs");
    crate::text::chars_of(s.as_str())
}

/// What a catalog refresh that ended with per-provider entry counts is
/// recorded as: `ok` with the counts, the coverage of each provider (as
/// given, labelled) and the refresh time when anything was written; `ok`
/// with a note when nothing was written but a catalog is cached; `error`
/// otherwise. The catalog's last-updated time is set exactly when anything
/// was written (`counts` sum above zero).
pub fn catalog_record(
    counts: (u64, u64, u64),
    cached: i64,
    coverage: &Vec<(String, Option<Coverage>)>,
    now: &str,
) -> (res: SyncRecord)
    requires
        counts.0 + counts.1 + counts.2 <= u64::MAX,
    ensures
        (res.status@, res.detail@) == catalog_record_spec(
            counts,
            cached,
            coverage@.map_values(|c: (String, Option<Coverage>)| (c.0@, c.1)),
            now@,
        ),
{
    let total = counts.0 + counts.1 + counts.2;
    if total > 0 {
        let ghost cv = coverage@.map_values(|c: (String, Option<Coverage>)| (c.0@, c.1));
        let mut parts: Vec<Vec<char>> = Vec::new();
        let mut i: usize = 0;
        while i < coverage.len()
            invariant
                i <= coverage.len(),
                cv == coverage@.map_values(|c: (String, Option<Coverage>)| (c.0@, c.1)),
                views(parts@) == coverage_parts(cv.take(i as int)),
            decreases coverage.len() - i,
        {
            proof {
                assert(cv.take(i + 1).drop_last() =~= cv.take(i as int));
                assert(cv.take(i + 1).last() == (coverage@[i as int].0@, coverage@[i as int].1));
            }
            match coverage[i].1 {
                Some(c) => {
                    let part = coverage_part(coverage[i].0.as_str(), c);
                    let ghost before = parts@;
                    parts.push(part);
                    assert(views(parts@) =~= views(before).push(part@));
                },
                None => {},
            }
            i = i + 1;
        }
        assert(cv.take(coverage.len() as int) =~= cv);
        let mut detail = "aws=".to_owned();
        push_str(&mut detail, u64_text(counts.0).as_str());
        push_str(&mut detail, " azure=");
        push_str(&mut detail, u64_text(counts.1).as_str());
        push_str(&mut detail, " gcp=");
        push_str(&mut detail, u64_text(counts.2).as_str());
        push_str(&mut detail, " entries · ");
        let joined = join(&parts, " ");
        push_str(&mut detail, crate::text::string_of(&joined).as_str());
        push_str(&mut detail, " · last_updated=");
        push_str(&mut detail, now);
        SyncRecord { status: "ok".to_owned(), detail }
    } else if cached > 0 {
        let mut detail = "refresh failed (network/proxy); using cached catalog (".to_owned();
        push_str(&mut detail, i64_text(cached).as_str());
        push_str(&mut detail, " services)");
        SyncRecord { status: "ok".to_owned(), detail }
    } else {
        SyncRecord {
            status: "error".to_owned(),
            detail: "no catalog data and cloud APIs unreachable".to_owned(),
        }
    }
}

/// The outcome of scanning every provider's catalog: the entry counts,
/// except that a scan that wrote nothing is an error unless a catalog is
/// already cached (then nothing is counted).
pub fn catalog_totals(counts: (u64, u64, u64), cached: i64) -> (res: Result<(u64, u64, u64), String>)
    ensures
        match res {
            Ok(c) => if counts.0 == 0 && counts.1 == 0 && counts.2 == 0 {
                cached > 0 && c == (0u64, 0u64, 0u64)
            } else {
                c == counts
            },
            Err(m) => counts.0 == 0 && counts.1 == 0 && counts.2 == 0 && cached <= 0 && m@
                == "catalog sync produced no entries for any provider"@,
        },
{
    if counts.0 == 0 && counts.1 == 0 && counts.2 == 0 {
        if cached > 0 {
            Ok((0, 0, 0))
        } else {
            Err("catalog sync produced no entries for any provider".to_owned())
        }
    } else {
        Ok(counts)
    }
}

/// What an LLM catalog refresh is recorded as: `ok` with the model count, or
/// `error` with the failure.
pub fn llm_record(outcome: Result<u64, String>) -> (res: SyncRecord)
    ensures
        match outcome {
            Ok(n) => res.status@ == "ok"@ && res.detail@ == nat_text(n as nat)
                + " LLM models (catalog)"@,
            Err(e) => res.status@ == "error"@ && res.detail@ == e@,
        },
{
    match outcome {
        Ok(n) => {
            let mut detail = u64_text(n);
            push_str(&mut detail, " LLM models (catalog)");
            SyncRecord { status: "ok".to_owned(), detail }
        },
        Err(e) => SyncRecord { status: "error".to_owned(), detail: e },
    }
}

/// The note recorded for each provider: prices are fetched on demand.
pub fn provider_sync_note() -> (res: &'static str)
    ensures
        res@ == "metadata only — prices fetched per service/region on calculate"@,
{
    "metadata only — prices fetched per service/region on calculate"
}

pub open spec fn clamp_spec(v: int, lo: int, hi: int) -> int {
    if v < lo {
        lo
    } else if v > hi {
        hi
    } else {
        v
    }
}

/// Workers when nothing is configured: the machine's parallelism clamped to
/// 4..=32, or 16 when it is unknown.
pub open spec fn default_workers_spec(parallelism: Option<usize>) -> int {
    match parallelism {
        Some(n) => clamp_spec(n as int, 4, 32),
        None => 16,
    }
}

/// The worker limit: the configured count, else the environment's, else the
/// default; always clamped to 1..=64.
pub open spec fn worker_limit_spec(
    configured: usize,
    env_value: Option<usize>,
    parallelism: Option<usize>,
) -> int {
    if configured > 0 {
        clamp_spec(configured as int, 1, 64)
    } else {
        match env_value {
            Some(v) => clamp_spec(v as int, 1, 64),
            None => clamp_spec(default_workers_spec(parallelism), 1, 64),
        }
    }
}

fn clamp_usize(v: usize, lo: usize, hi: usize) -> (res: usize)
    requires
        lo <= hi,
    ensures
        res == clamp_spec(v as int, lo as int, hi as int),
{
    if v < lo {
        lo
    } else if v > hi {
        hi
    } else {
        v
    }
}

/// How many sync workers run, given the configured count (0 = automatic),
/// the parsed environment override and the machine's parallelism.
pub fn worker_limit(configured: usize, env_value: Option<usize>, parallelism: Option<usize>) -> (res: usize)
    ensures
        res == worker_limit_spec(configured, env_value, parallelism),
        1 <= res <= 64,
{
    if configured > 0 {
        return clamp_usize(configured, 1, 64);
    }
    let v = match env_value {
        Some(v) => v,
        None => match parallelism {
            Some(n) => clamp_usize(n, 4, 32),
            None => 16,
        },
    };
    clamp_usize(v, 1, 64)
}

/// The attribute an AWS offer's SKU is chosen by, if any.
pub open spec fn attr_key_spec(offer: Seq<char>) -> Option<Seq<char>> {
    if has_instance_type_attr(offer) {
        Some("instanceType"@)
    } else {
        None
    }
}

fn attr_key_of(offer: &str) -> (res: Option<String>)
    ensures
        opt_view(res) == attr_key_spec(offer@),
{
    match aws_attr_key(offer) {
        Some(k) => Some(k.to_owned()),
        None => None,
    }
}

/// The SKU a live AWS quote is for: the one asked for, unless it is empty,
/// the `default` placeholder or the service key itself, in which case the
/// service's default SKU (the service key when the service is unknown).
pub open spec fn aws_live_sku(service: Seq<char>, sku: Seq<char>, default_sku: Seq<char>) -> Seq<char> {
    if sku.len() == 0 || sku == "default"@ || sku == service {
        default_sku
    } else {
        sku
    }
}

/// The target of a live AWS quote for a service/SKU/region, given what the
/// catalog knows of the service.
pub open spec fn aws_live_target_ok(
    service: Seq<char>,
    sku: Seq<char>,
    region: Seq<char>,
    meta: Option<ProviderServiceMeta>,
    t: PriceTarget,
) -> bool {
    let default_sku = match meta {
        Some(m) => m.default_sku@,
        None => service,
    };
    let effective = aws_live_sku(service, sku, default_sku);
    let offer = match meta {
        Some(m) => match opt_view(m.offer_code) {
            Some(o) => o,
            None => service,
        },
        None => service,
    };
    &&& t.service_key@ == service
    &&& t.sku@ == effective
    &&& t.region@ == region
    &&& t.unit@ == (match meta {
        Some(m) => m.unit@,
        None => "unit"@,
    })
    &&& opt_view(t.offer_code) == Some(offer)
    &&& opt_view(t.attr_key) == (match meta {
        Some(m) => match opt_view(m.attr_key) {
            Some(k) => Some(k),
            None => attr_key_spec(offer),
        },
        None => attr_key_spec(offer),
    })
    &&& opt_view(t.attr_value) == (match meta {
        Some(m) => if m.attr_key is Some {
            Some(effective)
        } else {
            None
        },
        None => None,
    })
    &&& t.billing_service_id is None
    &&& t.sku_description_hint is None
}

/// The price target of a live AWS quote.
pub fn aws_live_target(
    service: &str,
    sku: &str,
    region: &str,
    meta: Option<&ProviderServiceMeta>,
) -> (res: PriceTarget)
    ensures
        aws_live_target_ok(
            service@,
            sku@,
            region@,
            match meta {
                Some(m) => Some(*m),
                None => None,
            },
            res,
        ),
{
    let default_sku: &str = match meta {
        Some(m) => m.default_sku.as_str(),
        None => service,
    };
    let effective = if sku.is_empty() || str_eq(sku, "default") || str_eq(sku, service) {
        default_sku.to_owned()
    } else {
        sku.to_owned()
    };
    let offer: &str = match meta {
        Some(m) => match &m.offer_code {
            Some(o) => o.as_str(),
            None => service,
        },
        None => service,
    };
    let unit = match meta {
        Some(m) => m.unit.clone(),
        None => "unit".to_owned(),
    };
    let attr_key = match meta {
        Some(m) => match &m.attr_key {
            Some(k) => Some(k.clone()),
            None => attr_key_of(offer),
        },
        None => attr_key_of(offer),
    };
    let attr_value = match meta {
        Some(m) => match &m.attr_key {
            Some(_) => Some(effective.clone()),
            None => None,
        },
        None => None,
    };
    PriceTarget {
        service_key: service.to_owned(),
        sku: effective,
        region: region.to_owned(),
        unit,
        offer_code: Some(offer.to_owned()),
        attr_key,
        attr_value,
        billing_service_id: None,
        sku_description_hint: None,
    }
}

/// The price target of a live Azure quote: priced by service name (the one
/// stored for the service, else its key).
pub fn azure_live_target(service: &str, sku: &str, region: &str, service_name: Option<String>) -> (res: PriceTarget)
    ensures
        res.service_key@ == service@,
        res.sku@ == sku@,
        res.region@ == region@,
        res.unit@ == "unit"@,
        res.offer_code is None,
        opt_view(res.attr_key) == Some("serviceName"@),
        opt_view(res.attr_value) == Some(
            match opt_view(service_name) {
                Some(n) => n,
                None => service@,
            },
        ),
        res.billing_service_id is None,
        opt_view(res.sku_description_hint) == Some(sku@),
{
    let name = match service_name {
        Some(n) => n,
        None => service.to_owned(),
    };
    PriceTarget {
        service_key: service.to_owned(),
        sku: sku.to_owned(),
        region: region.to_owned(),
        unit: "unit".to_owned(),
        offer_code: None,
        attr_key: Some("serviceName".to_owned()),
        attr_value: Some(name),
        billing_service_id: None,
        sku_description_hint: Some(sku.to_owned()),
    }
}

/// The price target of a live GCP quote: priced through the service's
/// billing id, matching SKUs by the SKU asked for.
pub fn gcp_live_target(service: &str, sku: &str, region: &str, billing_id: String) -> (res: PriceTarget)
    ensures
        res.service_key@ == service@,
        res.sku@ == sku@,
        res.region@ == region@,
        res.unit@ == "unit"@,
        res.offer_code is None,
        res.attr_key is None,
        res.attr_value is None,
        opt_view(res.billing_service_id) == Some(billing_id@),
        opt_view(res.sku_description_hint) == Some(sku@),
{
    PriceTarget {
        service_key: service.to_owned(),
        sku: sku.to_owned(),
        region: region.to_owned(),
        unit: "unit".to_owned(),
        offer_code: None,
        attr_key: None,
        attr_value: None,
        billing_service_id: Some(billing_id),
        sku_description_hint: Some(sku.to_owned()),
    }
}

/// How an AWS target is priced: the offer whose regional index is read and
/// the attribute its SKU is matched by, if any.
#[derive(Debug, Clone)]
pub struct AwsPricePlan {
    pub offer: String,
    pub attr_key: Option<String>,
}

/// The offer of a target: its offer code, else its service key.
pub open spec fn target_offer(t: PriceTarget) -> Seq<char> {
    match opt_view(t.offer_code) {
        Some(o) => o,
        None => t.service_key@,
    }
}

/// The plan for pricing an AWS target. A token-priced LLM offer is refused
/// with `OFFER is token-priced — add models under LLM / Token Usage, not
/// Infrastructure Services`.
pub fn aws_price_plan(target: &PriceTarget) -> (res: Result<AwsPricePlan, String>)
    ensures
        match res {
            Ok(p) => !is_llm_token_service_spec(target_offer(*target)) && p.offer@ == target_offer(
                *target,
            ) && opt_view(p.attr_key) == (match opt_view(target.attr_key) {
                Some(k) => Some(k),
                None => attr_key_spec(target_offer(*target)),
            }),
            Err(msg) => is_llm_token_service_spec(target_offer(*target)) && msg@ == target_offer(
                *target,
            ) + " is token-priced — add models under LLM / Token Usage, not Infrastructure Services"@,
        },
{
    let offer: &str = match &target.offer_code {
        Some(o) => o.as_str(),
        None => target.service_key.as_str(),
    };
    if is_llm_token_service(offer) {
        let mut msg = offer.to_owned();
        push_str(
            &mut msg,
            " is token-priced — add models under LLM / Token Usage, not Infrastructure Services",
        );
        return Err(msg);
    }
    let attr_key = match &target.attr_key {
        Some(k) => Some(k.clone()),
        None => attr_key_of(offer),
    };
    Ok(AwsPricePlan { offer: offer.to_owned(), attr_key })
}

} // verus!
