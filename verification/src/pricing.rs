//! Pricing a resource from a unit price, and LLM token usage from per-million
//! token rates: the line item, its description, and the token cost row.
use vstd::prelude::*;
use crate::estimate::opt_view;
use crate::money::{
    Dec, MAX_SCALE, pow10, dec_checked_add, dec_checked_div, dec_checked_mul, dec_div, dec_gt, dec_eq, dec_mul,
    dec_parse, dec_text, decimal_parse, lemma_div_by_int_ok,
};
use crate::models::{CloudProvider, CostRow, LineItem, PeriodBreakdown, ResourceSpec, TokenUsageSpec};
use crate::text::{nat_text, owned, push_str, str_eq, u64_text};

verus! {

/// The sizing note of a line item: ` × N resources` when more than one
/// instance is counted, extended by ` × H h/mo` for an hourly unit with hours
/// given; an hourly resource with one instance shows the note too when its
/// hours differ from its quantity.
pub open spec fn quantity_note_spec(spec: ResourceSpec) -> Seq<char> {
    let hourly = spec.unit@ == "hours"@;
    match spec.instance_count {
        Some(n) => if Dec::gt(n, Dec::one_spec()) {
            match spec.hours {
                Some(h) => if hourly {
                    " × "@ + Dec::text(n) + " resources × "@ + Dec::text(h) + " h/mo"@
                } else {
                    " × "@ + Dec::text(n) + " resources"@
                },
                None => " × "@ + Dec::text(n) + " resources"@,
            }
        } else {
            match spec.hours {
                Some(h) => if hourly && !Dec::same_value(h, spec.quantity) {
                    " × "@ + Dec::text(n) + " resources × "@ + Dec::text(h) + " h/mo"@
                } else {
                    seq![]
                },
                None => seq![],
            }
        },
        None => seq![],
    }
}

fn resources_note(n: Dec, h: Option<Dec>) -> (res: String)
    requires
        n.wf(),
        h matches Some(x) ==> x.wf(),
    ensures
        res@ == match h {
            Some(x) => " × "@ + Dec::text(n) + " resources × "@ + Dec::text(x) + " h/mo"@,
            None => " × "@ + Dec::text(n) + " resources"@,
        },
{
    let mut out = " × ".to_owned();
    push_str(&mut out, dec_text(n).as_str());
    match h {
        Some(x) => {
            push_str(&mut out, " resources × ");
            push_str(&mut out, dec_text(x).as_str());
            push_str(&mut out, " h/mo");
        },
        None => {
            push_str(&mut out, " resources");
        },
    }
    out
}

pub fn quantity_note(spec: &ResourceSpec) -> (res: String)
    requires
        spec.wf(),
    ensures
        res@ == quantity_note_spec(*spec),
{
    let hourly = str_eq(spec.unit.as_str(), "hours");
    if let Some(n) = spec.instance_count {
        if dec_gt(n, Dec::one()) {
            if hourly {
                if let Some(h) = spec.hours {
                    return resources_note(n, Some(h));
                }
            }
            return resources_note(n, None);
        }
    }
    if hourly {
        if let (Some(n), Some(h)) = (spec.instance_count, spec.hours) {
            if dec_gt(n, Dec::one()) || !dec_eq(h, spec.quantity) {
                return resources_note(n, Some(h));
            }
        }
    }
    String::new()
}

/// The SKU a resource is priced under: its own, or its service.
pub open spec fn priced_sku(spec: ResourceSpec) -> Seq<char> {
    match opt_view(spec.sku) {
        Some(s) => s,
        None => spec.service@,
    }
}

/// The description of a line item: `DISPLAY — SKU NOTE in REGION`, with the
/// display name defaulting to the SKU, the region label to the region, and
/// ` (live)` appended for a live price.
pub open spec fn line_description(spec: ResourceSpec, sku: Seq<char>, live: bool) -> Seq<char> {
    let display = match opt_view(spec.display_name) {
        Some(d) => d,
        None => sku,
    };
    let region = match opt_view(spec.region_label) {
        Some(r) => r,
        None => spec.region@,
    };
    display + " — "@ + sku + quantity_note_spec(spec) + " in "@ + region + (if live {
        " (live)"@
    } else {
        seq![]
    })
}

/// `li` is the line item for `spec` priced at `unit_price` under `sku`.
pub open spec fn line_item_matches(
    provider: CloudProvider,
    spec: ResourceSpec,
    sku: Seq<char>,
    unit_price: Dec,
    live: bool,
    li: LineItem,
) -> bool {
    &&& li.provider == provider
    &&& li.category@ == (match opt_view(spec.category) {
        Some(c) => c,
        None => spec.service@,
    })
    &&& li.description@ == line_description(spec, sku, live)
    &&& li.unit_price == unit_price
    &&& li.quantity == spec.quantity
    &&& li.unit@ == spec.unit@
    &&& li.monthly_cost == Dec::mul(unit_price, spec.quantity)
    &&& li.monthly_cost.wf()
}

fn build_line_item(
    provider: CloudProvider,
    spec: &ResourceSpec,
    sku: &str,
    unit_price: Dec,
    monthly: Dec,
    live: bool,
) -> (res: LineItem)
    requires
        spec.wf(),
        unit_price.wf(),
        monthly == Dec::mul(unit_price, spec.quantity),
        monthly.wf(),
    ensures
        line_item_matches(provider, *spec, sku@, unit_price, live, res),
{
    let category = match &spec.category {
        Some(c) => c.clone(),
        None => spec.service.clone(),
    };
    let mut description = match &spec.display_name {
        Some(d) => d.clone(),
        None => sku.to_owned(),
    };
    push_str(&mut description, " — ");
    push_str(&mut description, sku);
    push_str(&mut description, quantity_note(spec).as_str());
    push_str(&mut description, " in ");
    match &spec.region_label {
        Some(r) => push_str(&mut description, r.as_str()),
        None => push_str(&mut description, spec.region.as_str()),
    }
    if live {
        push_str(&mut description, " (live)");
    }
    proof {
        if !live {
            assert(description@ =~= line_description(*spec, sku@, live));
        }
    }
    LineItem {
        provider,
        category,
        description,
        unit_price,
        quantity: spec.quantity,
        unit: spec.unit.clone(),
        monthly_cost: monthly,
    }
}

/// The line item for a resource at a known unit price.
pub fn priced_line_item(
    provider: CloudProvider,
    spec: &ResourceSpec,
    sku: &str,
    unit_price: Dec,
    live: bool,
) -> (res: LineItem)
    requires
        spec.wf(),
        unit_price.wf(),
        Dec::mul_ok(unit_price, spec.quantity),
    ensures
        line_item_matches(provider, *spec, sku@, unit_price, live, res),
{
    let monthly = dec_mul(unit_price, spec.quantity);
    build_line_item(provider, spec, sku, unit_price, monthly, live)
}

/// Why pricing a line failed.
#[derive(Debug, Clone, Copy, PartialEq, Eq, Structural)]
pub enum PriceError {
    /// The price text is not a decimal number.
    Unparsable,
    /// The monthly cost does not fit a decimal.
    Overflow,
}

/// The line item for a resource priced from the text of a unit price (a
/// live or cached quote): the text must be a decimal number.
pub fn line_item(
    provider: CloudProvider,
    spec: &ResourceSpec,
    sku: &str,
    price: &str,
    live: bool,
) -> (res: Result<LineItem, PriceError>)
    requires
        spec.wf(),
    ensures
        match res {
            Ok(li) => exists|p: Dec|
                Dec::parsed(price@) == Some(p) && #[trigger] line_item_matches(
                    provider,
                    *spec,
                    sku@,
                    p,
                    live,
                    li,
                ),
            Err(PriceError::Unparsable) => decimal_parse(price@) is None,
            Err(PriceError::Overflow) => match Dec::parsed(price@) {
                Some(p) => !Dec::mul_ok(p, spec.quantity),
                None => false,
            },
        },
{
    match dec_parse(price) {
        None => Err(PriceError::Unparsable),
        Some(p) => {
            match dec_checked_mul(p, spec.quantity) {
                None => Err(PriceError::Overflow),
                Some(monthly) => {
                    let li = build_line_item(provider, spec, sku, p, monthly, live);
                    assert(line_item_matches(provider, *spec, sku@, p, live, li));
                    Ok(li)
                },
            }
        },
    }
}

/// The line item for a resource priced from the cache: the cached unit price
/// when there is one, zero otherwise.
pub fn cached_line_item(
    provider: CloudProvider,
    spec: &ResourceSpec,
    cached_price: Option<&str>,
) -> (res: Result<LineItem, PriceError>)
    requires
        spec.wf(),
    ensures
        match cached_price {
            None => res matches Ok(li) && line_item_matches(
                provider,
                *spec,
                priced_sku(*spec),
                Dec::zero_spec(),
                false,
                li,
            ),
            Some(p) => match res {
                Ok(li) => exists|d: Dec|
                    Dec::parsed(p@) == Some(d) && #[trigger] line_item_matches(
                        provider,
                        *spec,
                        priced_sku(*spec),
                        d,
                        false,
                        li,
                    ),
                Err(PriceError::Unparsable) => decimal_parse(p@) is None,
                Err(PriceError::Overflow) => match Dec::parsed(p@) {
                    Some(d) => !Dec::mul_ok(d, spec.quantity),
                    None => false,
                },
            },
        },
        cached_price is None ==> (res matches Ok(li) && li.unit_price == Dec::zero_spec()
            && li.monthly_cost == Dec::zero_spec()),
        res matches Ok(li) ==> {
            &&& li.provider == provider
            &&& li.quantity == spec.quantity
            &&& li.unit@ == spec.unit@
            &&& li.monthly_cost == Dec::mul(li.unit_price, spec.quantity)
            &&& (cached_price matches Some(p) ==> Dec::parsed(p@) == Some(li.unit_price))
        },
{
    let sku = match &spec.sku {
        Some(s) => s.as_str(),
        None => spec.service.as_str(),
    };
    assert(sku@ == priced_sku(*spec));
    match cached_price {
        None => {
            let zero = Dec::zero();
            assert(Dec::mul_ok(zero, spec.quantity)) by {
                let q = spec.quantity.m();
                assert(zero.m() * q == 0) by (nonlinear_arith)
                    requires
                        zero.m() == 0,
                ;
                crate::money::lemma_pow10_pos((zero.s() + spec.quantity.s()) as nat);
            }
            Ok(priced_line_item(provider, spec, sku, zero, false))
        },
        Some(p) => line_item(provider, spec, sku, p, false),
    }
}

/// The price-cache key a resource is looked up under: the provider's key, the
/// service, the SKU it is priced under and the region.
pub fn cache_key(provider: CloudProvider, spec: &ResourceSpec) -> (res: (String, String, String, String))
    ensures
        res.0@ == provider.key(),
        res.1@ == spec.service@,
        res.2@ == priced_sku(*spec),
        res.3@ == spec.region@,
{
    let sku = match &spec.sku {
        Some(s) => owned(s.as_str()),
        None => owned(spec.service.as_str()),
    };
    (owned(provider.as_str()), owned(spec.service.as_str()), sku, owned(spec.region.as_str()))
}

/// One million, the token count the rates are quoted for.
pub open spec fn million() -> Dec {
    Dec::int_spec(1_000_000)
}

/// The monthly cost of token usage at the given per-million rates:
/// input millions times the input rate plus output millions times the output
/// rate.
pub open spec fn token_cost_spec(input_tokens: u64, output_tokens: u64, rin: Dec, rout: Dec) -> Dec {
    let input_m = Dec::div(Dec::int_spec(input_tokens as int), million());
    let output_m = Dec::div(Dec::int_spec(output_tokens as int), million());
    Dec::add(Dec::mul(input_m, rin), Dec::mul(output_m, rout))
}

/// A usage line with no input tokens costs the same whatever the input rate,
/// and one with no output tokens the same whatever the output rate.
pub proof fn lemma_token_cost_rates_independent(
    input_tokens: u64,
    output_tokens: u64,
    rin: Dec,
    rin2: Dec,
    rout: Dec,
    rout2: Dec,
)
    ensures
        token_cost_spec(0, output_tokens, rin, rout) == token_cost_spec(0, output_tokens, rin2, rout),
        token_cost_spec(input_tokens, 0, rin, rout) == token_cost_spec(input_tokens, 0, rin, rout2),
{
    assert(Dec::int_spec(0).m() == 0);
}

/// The cost of a usage line is the cost of its input tokens alone plus the
/// cost of its output tokens alone.
pub proof fn lemma_token_cost_splits(input_tokens: u64, output_tokens: u64, rin: Dec, rout: Dec)
    ensures
        token_cost_spec(input_tokens, output_tokens, rin, rout) == Dec::add(
            token_cost_spec(input_tokens, 0, rin, rout),
            token_cost_spec(0, output_tokens, rin, rout),
        ),
{
    assert(Dec::int_spec(0).m() == 0);
}

/// The value of `k` millions of tokens at rate `r`, where the product needs
/// no rounding, is `k` times the rate.
proof fn lemma_millions_times_rate(tokens: u64, r: Dec)
    requires
        r.wf(),
        tokens % 1_000_000 == 0,
        Dec::mul_exact(Dec::int_spec((tokens / 1_000_000) as int), r),
    ensures
        Dec::div(Dec::int_spec(tokens as int), million()) == Dec::int_spec((tokens / 1_000_000) as int),
        Dec::mul(Dec::int_spec((tokens / 1_000_000) as int), r).units() == (tokens / 1_000_000) * r.units(),
        Dec::mul(Dec::int_spec((tokens / 1_000_000) as int), r).wf(),
{
    let k = (tokens / 1_000_000) as int;
    let kd = Dec::int_spec(k);
    assert(kd.m() == k && kd.s() == 0);
    assert(kd.wf());
    let t = Dec::int_spec(tokens as int);
    assert(t.m() == tokens);
    if tokens != 0 {
        assert(t.m() / million().m() == k);
    }
    crate::money::lemma_units_mul(kd, r);
    crate::money::lemma_pow10_pos(MAX_SCALE as nat);
    let p28 = pow10(MAX_SCALE as nat);
    assert(kd.units() == k * p28) by {
        assert(kd.units() == k * pow10((MAX_SCALE - 0) as nat));
    }
    let u = Dec::mul(kd, r).units();
    assert(u * p28 == (k * p28) * r.units());
    assert(u == k * r.units()) by (nonlinear_arith)
        requires
            u * p28 == (k * p28) * r.units(),
            p28 >= 1,
    ;
}

/// For whole millions of tokens, where no product or sum rounds, the cost of
/// a usage line is the input millions times the input rate plus the output
/// millions times the output rate.
pub proof fn lemma_token_cost_value(input_tokens: u64, output_tokens: u64, rin: Dec, rout: Dec)
    requires
        rin.wf(),
        rout.wf(),
        input_tokens % 1_000_000 == 0,
        output_tokens % 1_000_000 == 0,
        Dec::mul_exact(Dec::int_spec((input_tokens / 1_000_000) as int), rin),
        Dec::mul_exact(Dec::int_spec((output_tokens / 1_000_000) as int), rout),
        Dec::add_exact(
            Dec::mul(Dec::int_spec((input_tokens / 1_000_000) as int), rin),
            Dec::mul(Dec::int_spec((output_tokens / 1_000_000) as int), rout),
        ),
    ensures
        token_cost_spec(input_tokens, output_tokens, rin, rout).units() == (input_tokens / 1_000_000)
            * rin.units() + (output_tokens / 1_000_000) * rout.units(),
{
    lemma_millions_times_rate(input_tokens, rin);
    lemma_millions_times_rate(output_tokens, rout);
    crate::money::lemma_units_add(
        Dec::mul(Dec::int_spec((input_tokens / 1_000_000) as int), rin),
        Dec::mul(Dec::int_spec((output_tokens / 1_000_000) as int), rout),
    );
}

/// Why a token cost could not be computed.
#[derive(Debug, Clone, Copy, PartialEq, Eq, Structural)]
pub enum TokenCostError {
    /// The cached input rate is not a decimal number.
    InputRate,
    /// The cached output rate is not a decimal number.
    OutputRate,
    /// The cost does not fit a decimal.
    Overflow,
}

/// Token count divided by one million.
fn per_million(n: u64) -> (res: Dec)
    ensures
        res == Dec::div(Dec::int_spec(n as int), million()),
        res.wf(),
{
    let a = Dec::from_u64(n);
    let m = Dec::from_u64(1_000_000);
    proof {
        lemma_div_by_int_ok(a, 1_000_000);
    }
    dec_div(a, m)
}

/// The monthly cost of a token usage line given its cached rates (input and
/// output price per million tokens, as text): zero without cached rates.
pub fn token_cost(usage: &TokenUsageSpec, rates: Option<(&str, &str)>) -> (res: Result<
    Dec,
    TokenCostError,
>)
    ensures
        match rates {
            None => res == Ok::<Dec, TokenCostError>(Dec::zero_spec()),
            Some((i, o)) => match res {
                Ok(c) => exists|rin: Dec, rout: Dec|
                    Dec::parsed(i@) == Some(rin) && Dec::parsed(o@) == Some(rout) && c
                        == #[trigger] token_cost_spec(
                        usage.input_tokens_per_month,
                        usage.output_tokens_per_month,
                        rin,
                        rout,
                    ) && c.wf(),
                Err(TokenCostError::InputRate) => decimal_parse(i@) is None,
                Err(TokenCostError::OutputRate) => decimal_parse(i@) is Some && decimal_parse(
                    o@,
                ) is None,
                Err(TokenCostError::Overflow) => decimal_parse(i@) is Some && decimal_parse(
                    o@,
                ) is Some,
            },
        },
{
    match rates {
        None => Ok(Dec::zero()),
        Some((i, o)) => {
            let rin = match dec_parse(i) {
                Some(r) => r,
                None => return Err(TokenCostError::InputRate),
            };
            let rout = match dec_parse(o) {
                Some(r) => r,
                None => return Err(TokenCostError::OutputRate),
            };
            let input_m = per_million(usage.input_tokens_per_month);
            let output_m = per_million(usage.output_tokens_per_month);
            let a = match dec_checked_mul(input_m, rin) {
                Some(a) => a,
                None => return Err(TokenCostError::Overflow),
            };
            let b = match dec_checked_mul(output_m, rout) {
                Some(b) => b,
                None => return Err(TokenCostError::Overflow),
            };
            match dec_checked_add(a, b) {
                Some(c) => {
                    assert(c == token_cost_spec(
                        usage.input_tokens_per_month,
                        usage.output_tokens_per_month,
                        rin,
                        rout,
                    ));
                    Ok(c)
                },
                None => Err(TokenCostError::Overflow),
            }
        },
    }
}

/// The rate note of a token row: `$IN/M in · $OUT/M out` from the cached rate
/// texts, when there are cached rates.
pub open spec fn rate_note_spec(rates: Option<(Seq<char>, Seq<char>)>) -> Seq<char> {
    match rates {
        Some((i, o)) => "$"@ + i + "/M in · $"@ + o + "/M out"@,
        None => seq![],
    }
}

/// `IN in / OUT out tokens per month`, followed by ` (NOTE)` when there are
/// cached rates.
pub open spec fn token_description(u: TokenUsageSpec, rates: Option<(Seq<char>, Seq<char>)>) -> Seq<
    char,
> {
    let base = nat_text(u.input_tokens_per_month as nat) + " in / "@ + nat_text(
        u.output_tokens_per_month as nat,
    ) + " out tokens per month"@;
    match rates {
        Some(_) => base + " ("@ + rate_note_spec(rates) + ")"@,
        None => base,
    }
}

pub open spec fn rate_views(rates: Option<(&str, &str)>) -> Option<(Seq<char>, Seq<char>)> {
    match rates {
        Some((i, o)) => Some((i@, o@)),
        None => None,
    }
}

/// The total token count of a usage line.
pub open spec fn total_tokens(u: TokenUsageSpec) -> int {
    u.input_tokens_per_month + u.output_tokens_per_month
}

/// The price per million tokens a usage line works out at.
pub open spec fn token_unit_price(u: TokenUsageSpec, monthly: Dec) -> Dec {
    if total_tokens(u) > 0 {
        Dec::div(monthly, Dec::div(Dec::int_spec(total_tokens(u)), million()))
    } else {
        Dec::zero_spec()
    }
}

/// A usage line with no tokens has a zero price per million tokens.
pub proof fn lemma_token_row_zero_usage(u: TokenUsageSpec, monthly: Dec)
    ensures
        u.input_tokens_per_month == 0 && u.output_tokens_per_month == 0 ==> token_unit_price(u, monthly)
            == Dec::zero_spec(),
{
}

/// `r` is the LLM row for usage `u` costing `monthly`.
pub open spec fn token_row_matches(
    u: TokenUsageSpec,
    monthly: Dec,
    rates: Option<(Seq<char>, Seq<char>)>,
    r: CostRow,
) -> bool {
    &&& r.category@ == "LLM"@
    &&& r.service@ == (match opt_view(u.display_name) {
        Some(d) => d,
        None => u.model@,
    })
    &&& r.description@ == token_description(u, rates)
    &&& r.unit_price == token_unit_price(u, monthly)
    &&& r.quantity == Dec::int_spec(total_tokens(u))
    &&& r.unit@ == "tokens/month"@
    &&& r.usage_display@ == nat_text(u.input_tokens_per_month as nat) + " in · "@ + nat_text(
        u.output_tokens_per_month as nat,
    ) + " out"@
    &&& r.costs == PeriodBreakdown::from_monthly_spec(monthly)
    &&& r.costs.wf()
}

/// The cost-table row of one token usage line costing `monthly`, with the
/// rates it was priced at (for the note). Fails only when the per-million
/// price cannot be formed.
pub fn token_row(u: &TokenUsageSpec, monthly: Dec, rates: Option<(&str, &str)>) -> (res: Result<
    CostRow,
    TokenCostError,
>)
    requires
        PeriodBreakdown::monthly_ok(monthly),
        total_tokens(*u) <= u64::MAX,
    ensures
        match res {
            Ok(r) => token_row_matches(*u, monthly, rate_views(rates), r),
            Err(e) => e == TokenCostError::Overflow && total_tokens(*u) > 0 && !Dec::div_ok(
                monthly,
                Dec::div(Dec::int_spec(total_tokens(*u)), million()),
            ),
        },
{
    let total = u.input_tokens_per_month + u.output_tokens_per_month;
    let unit_price = if total > 0 {
        match dec_checked_div(monthly, per_million(total)) {
            Some(p) => p,
            None => return Err(TokenCostError::Overflow),
        }
    } else {
        Dec::zero()
    };
    let label = match &u.display_name {
        Some(d) => d.clone(),
        None => u.model.clone(),
    };
    let mut description = u64_text(u.input_tokens_per_month);
    push_str(&mut description, " in / ");
    push_str(&mut description, u64_text(u.output_tokens_per_month).as_str());
    push_str(&mut description, " out tokens per month");
    match rates {
        Some((i, o)) => {
            push_str(&mut description, " ($");
            push_str(&mut description, i);
            push_str(&mut description, "/M in · $");
            push_str(&mut description, o);
            push_str(&mut description, "/M out)");
            proof {
                reveal_strlit(" ($");
                reveal_strlit(" (");
                reveal_strlit("$");
                reveal_strlit("/M out)");
                reveal_strlit("/M out");
                reveal_strlit(")");
                assert(description@ =~= token_description(*u, rate_views(rates)));
            }
        },
        None => {},
    }
    let mut usage_display = u64_text(u.input_tokens_per_month);
    push_str(&mut usage_display, " in · ");
    push_str(&mut usage_display, u64_text(u.output_tokens_per_month).as_str());
    push_str(&mut usage_display, " out");
    Ok(
        CostRow {
            category: "LLM".to_owned(),
            service: label,
            description,
            unit_price,
            quantity: Dec::from_u64(total),
            unit: "tokens/month".to_owned(),
            usage_display,
            costs: PeriodBreakdown::from_monthly(monthly),
        },
    )
}

} // verus!
