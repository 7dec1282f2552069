//! Rules of the web API: the SKU list offered for a catalog entry, where live
//! SKUs come from, which custom LLM models are accepted, and when the catalog
//! counts as fresh.
use vstd::prelude::*;
use crate::catalog::AddLlmModelRequest;
use crate::estimate::opt_view;
use crate::store::ProviderServiceMeta;
use crate::sync_plan::{CATALOG_STALE_SECS, attr_key_spec};
use crate::text::{chars_of, str_eq, string_of, strs, trim, trimmed};

verus! {

/// The directory static web assets are served from by default.
pub fn default_static_dir() -> (res: String)
    ensures
        res@ == "static"@,
{
    "static".to_owned()
}

/// The SKUs offered for a catalog entry: those found, with the default SKU
/// put first when it is not among them.
pub open spec fn offered_skus(skus: Seq<Seq<char>>, default_sku: Seq<char>) -> Seq<Seq<char>> {
    if default_sku.len() > 0 && !skus.contains(default_sku) {
        seq![default_sku] + skus
    } else {
        skus
    }
}

pub fn finalize_sku_list(skus: Vec<String>, default_sku: &String) -> (res: Vec<String>)
    ensures
        strs(res@) == offered_skus(strs(skus@), default_sku@),
{
    let mut found = false;
    let mut i: usize = 0;
    while i < skus.len()
        invariant
            i <= skus.len(),
            found <==> exists|k: int| 0 <= k < i && strs(skus@)[k] == default_sku@,
        decreases skus.len() - i,
    {
        if skus[i] == *default_sku {
            assert(strs(skus@)[i as int] == default_sku@);
            found = true;
        }
        i = i + 1;
    }
    proof {
        if strs(skus@).contains(default_sku@) {
            let k = choose|k: int| 0 <= k < strs(skus@).len() && strs(skus@)[k] == default_sku@;
            assert(k < i);
        }
    }
    if !default_sku.as_str().is_empty() && !found {
        let mut out = skus;
        let ghost before = strs(out@);
        out.insert(0, default_sku.clone());
        assert(strs(out@) =~= seq![default_sku@] + before);
        out
    } else {
        skus
    }
}

/// Where live SKUs of a catalog entry are listed.
#[derive(Debug, Clone)]
pub enum SkuSource {
    /// An AWS offer's regional index, by attribute.
    AwsOffer { offer: String, attr_key: String },
    /// Azure retail prices of a service name.
    AzureService { service_name: String },
    /// GCP SKUs of a billing service.
    GcpBilling { billing_id: String },
    /// No live listing.
    Unavailable,
}

/// The live SKU source of an entry of `provider`: AWS offers listed by their
/// SKU attribute (the stored one, else the offer's), Azure services by their
/// service name, GCP services by billing id; none when that is unknown.
pub fn live_sku_source(provider: &str, meta: &ProviderServiceMeta) -> (res: SkuSource)
    ensures
        ({
            let offer = match opt_view(meta.offer_code) {
                Some(o) => o,
                None => meta.service_key@,
            };
            let key = match opt_view(meta.attr_key) {
                Some(k) => Some(k),
                None => attr_key_spec(offer),
            };
            match res {
                SkuSource::AwsOffer { offer: o, attr_key: k } => provider@ == "aws"@ && o@ == offer
                    && key == Some(k@),
                SkuSource::AzureService { service_name } => provider@ == "azure"@ && opt_view(
                    meta.attr_value,
                ) == Some(service_name@),
                SkuSource::GcpBilling { billing_id } => provider@ == "gcp"@ && opt_view(
                    meta.billing_service_id,
                ) == Some(billing_id@),
                SkuSource::Unavailable => (provider@ == "aws"@ ==> key is None) && (provider@
                    == "azure"@ ==> meta.attr_value is None) && (provider@ == "gcp"@
                    ==> meta.billing_service_id is None),
            }
        }),
{
    proof {
        crate::models::lemma_keys_distinct();
    }
    if str_eq(provider, "aws") {
        let offer = match &meta.offer_code {
            Some(o) => o.clone(),
            None => meta.service_key.clone(),
        };
        let key = match &meta.attr_key {
            Some(k) => Some(k.clone()),
            None => match crate::service_rules::aws_attr_key(offer.as_str()) {
                Some(k) => Some(k.to_owned()),
                None => None,
            },
        };
        match key {
            Some(k) => SkuSource::AwsOffer { offer, attr_key: k },
            None => SkuSource::Unavailable,
        }
    } else if str_eq(provider, "azure") {
        match &meta.attr_value {
            Some(n) => SkuSource::AzureService { service_name: n.clone() },
            None => SkuSource::Unavailable,
        }
    } else if str_eq(provider, "gcp") {
        match &meta.billing_service_id {
            Some(b) => SkuSource::GcpBilling { billing_id: b.clone() },
            None => SkuSource::Unavailable,
        }
    } else {
        SkuSource::Unavailable
    }
}

/// A custom LLM model with its fields trimmed, accepted when its id and
/// label are not blank and its provider is `aws`, `azure` or `gcp`.
pub open spec fn llm_model_accepted(req: AddLlmModelRequest) -> bool {
    let p = trimmed(req.provider@);
    trimmed(req.id@).len() > 0 && trimmed(req.label@).len() > 0 && (p == "aws"@ || p == "azure"@
        || p == "gcp"@)
}

fn trimmed_string(s: &String) -> (res: String)
    ensures
        res@ == trimmed(s@),
{
    string_of(&trim(&chars_of(s.as_str())))
}

/// The trimmed fields of an accepted custom model (id, label, provider,
/// input and output rate); `None` for a request to refuse.
pub fn validate_llm_model(req: &AddLlmModelRequest) -> (res: Option<(String, String, String, String, String)>)
    ensures
        match res {
            Some(v) => llm_model_accepted(*req) && v.0@ == trimmed(req.id@) && v.1@ == trimmed(
                req.label@,
            ) && v.2@ == trimmed(req.provider@) && v.3@ == trimmed(req.input_per_mtok@) && v.4@
                == trimmed(req.output_per_mtok@),
            None => !llm_model_accepted(*req),
        },
{
    let id = trimmed_string(&req.id);
    let label = trimmed_string(&req.label);
    let provider = trimmed_string(&req.provider);
    if id.as_str().is_empty() || label.as_str().is_empty() {
        return None;
    }
    if !(str_eq(provider.as_str(), "aws") || str_eq(provider.as_str(), "azure") || str_eq(
        provider.as_str(),
        "gcp",
    )) {
        return None;
    }
    Some((id, label, provider, trimmed_string(&req.input_per_mtok), trimmed_string(&req.output_per_mtok)))
}

/// The catalog is fresh when it was refreshed less than `CATALOG_STALE_SECS`
/// ago.
pub fn catalog_fresh(age_secs: Option<i64>) -> (res: bool)
    ensures
        res == (match age_secs {
            Some(a) => a < CATALOG_STALE_SECS,
            None => false,
        }),
{
    match age_secs {
        Some(a) => a < CATALOG_STALE_SECS as i64,
        None => false,
    }
}

} // verus!
