//! Domain types: providers, billing periods, workload inputs and cost tables.
use vstd::prelude::*;
use crate::money::{
    Dec, MANTISSA_BOUND, MAX_SCALE, abs, pow10, dec_add, dec_checked_add, lemma_units_add, lemma_units_div_int, lemma_units_mul_int, dec_div, dec_mul, lemma_div_by_int_ok, lemma_mul_by_int_ok, lemma_mul_ok_smaller,
};
use crate::text::{owned, str_eq};

verus! {

#[derive(Debug, Clone, Copy, PartialEq, Eq, Hash, Structural)]
pub enum CloudProvider {
    Aws,
    Azure,
    Gcp,
}

impl CloudProvider {
    /// The lower-case key (`aws`, `azure`, `gcp`).
    pub open spec fn key(self) -> Seq<char> {
        match self {
            CloudProvider::Aws => "aws"@,
            CloudProvider::Azure => "azure"@,
            CloudProvider::Gcp => "gcp"@,
        }
    }

    /// The display label (`AWS`, `Azure`, `GCP`).
    pub open spec fn label_spec(self) -> Seq<char> {
        match self {
            CloudProvider::Aws => "AWS"@,
            CloudProvider::Azure => "Azure"@,
            CloudProvider::Gcp => "GCP"@,
        }
    }

    /// The provider whose key is `s`, if any.
    pub open spec fn from_key(s: Seq<char>) -> Option<CloudProvider> {
        if s == "aws"@ {
            Some(CloudProvider::Aws)
        } else if s == "azure"@ {
            Some(CloudProvider::Azure)
        } else if s == "gcp"@ {
            Some(CloudProvider::Gcp)
        } else {
            None
        }
    }

    pub open spec fn all_spec() -> Seq<CloudProvider> {
        seq![CloudProvider::Aws, CloudProvider::Azure, CloudProvider::Gcp]
    }

    /// Every provider, in the order AWS, Azure, GCP.
    pub fn all() -> (res: Vec<CloudProvider>)
        ensures
            res@ == Self::all_spec(),
    {
        let mut v = Vec::new();
        v.push(CloudProvider::Aws);
        v.push(CloudProvider::Azure);
        v.push(CloudProvider::Gcp);
        assert(v@ =~= Self::all_spec());
        v
    }

    pub fn as_str(self) -> (res: &'static str)
        ensures
            res@ == self.key(),
    {
        match self {
            CloudProvider::Aws => "aws",
            CloudProvider::Azure => "azure",
            CloudProvider::Gcp => "gcp",
        }
    }

    pub fn label(self) -> (res: &'static str)
        ensures
            res@ == self.label_spec(),
    {
        match self {
            CloudProvider::Aws => "AWS",
            CloudProvider::Azure => "Azure",
            CloudProvider::Gcp => "GCP",
        }
    }

    /// The provider named by its key; any other text gives `None`.
    pub fn parse(s: &str) -> (res: Option<CloudProvider>)
        ensures
            res == Self::from_key(s@),
    {
        if str_eq(s, "aws") {
            Some(CloudProvider::Aws)
        } else if str_eq(s, "azure") {
            Some(CloudProvider::Azure)
        } else if str_eq(s, "gcp") {
            Some(CloudProvider::Gcp)
        } else {
            None
        }
    }
}

pub proof fn lemma_keys_distinct()
    ensures
        "aws"@ != "azure"@,
        "aws"@ != "gcp"@,
        "azure"@ != "gcp"@,
{
    reveal_strlit("aws");
    reveal_strlit("azure");
    reveal_strlit("gcp");
    assert("aws"@.len() != "azure"@.len());
    assert("azure"@.len() != "gcp"@.len());
    assert("aws"@[0] != "gcp"@[0]);
}

#[derive(Debug, Clone, Copy, PartialEq, Eq, Structural)]
pub enum BillingPeriod {
    Daily,
    Monthly,
    Quarterly,
    HalfYearly,
    Yearly,
}

impl BillingPeriod {
    /// Length of the period in months. The day is 0.01 / 30 of a month here,
    /// which differs from the thirtieth of a month that
    /// `PeriodBreakdown::from_monthly` uses for a day's cost.
    pub open spec fn months_spec(self) -> Dec {
        match self {
            BillingPeriod::Daily => Dec::div(Dec::spec_new(1, 2), Dec::int_spec(30)),
            BillingPeriod::Monthly => Dec::one_spec(),
            BillingPeriod::Quarterly => Dec::int_spec(3),
            BillingPeriod::HalfYearly => Dec::int_spec(6),
            BillingPeriod::Yearly => Dec::int_spec(12),
        }
    }

    pub open spec fn label_spec(self) -> Seq<char> {
        match self {
            BillingPeriod::Daily => "Daily"@,
            BillingPeriod::Monthly => "Monthly"@,
            BillingPeriod::Quarterly => "Quarterly"@,
            BillingPeriod::HalfYearly => "Half-Yearly"@,
            BillingPeriod::Yearly => "Yearly"@,
        }
    }

    pub open spec fn all_spec() -> Seq<BillingPeriod> {
        seq![
            BillingPeriod::Daily,
            BillingPeriod::Monthly,
            BillingPeriod::Quarterly,
            BillingPeriod::HalfYearly,
            BillingPeriod::Yearly,
        ]
    }

    /// Months in the period. A day counts as 0.01 / 30 of a month, unlike the
    /// thirtieth of a month that `PeriodBreakdown::from_monthly` gives a day.
    pub fn months(self) -> (res: Dec)
        ensures
            res == self.months_spec(),
            res.wf(),
    {
        match self {
            BillingPeriod::Daily => {
                let a = Dec::new(1, 2);
                let b = Dec::from_u64(30);
                proof {
                    lemma_div_by_int_ok(a, 30);
                }
                dec_div(a, b)
            },
            BillingPeriod::Monthly => Dec::one(),
            BillingPeriod::Quarterly => Dec::from_u64(3),
            BillingPeriod::HalfYearly => Dec::from_u64(6),
            BillingPeriod::Yearly => Dec::from_u64(12),
        }
    }

    /// Every period, shortest first.
    pub fn all() -> (res: Vec<BillingPeriod>)
        ensures
            res@ == Self::all_spec(),
    {
        let mut v = Vec::new();
        v.push(BillingPeriod::Daily);
        v.push(BillingPeriod::Monthly);
        v.push(BillingPeriod::Quarterly);
        v.push(BillingPeriod::HalfYearly);
        v.push(BillingPeriod::Yearly);
        assert(v@ =~= Self::all_spec());
        v
    }

    pub fn column_label(self) -> (res: &'static str)
        ensures
            res@ == self.label_spec(),
    {
        match self {
            BillingPeriod::Daily => "Daily",
            BillingPeriod::Monthly => "Monthly",
            BillingPeriod::Quarterly => "Quarterly",
            BillingPeriod::HalfYearly => "Half-Yearly",
            BillingPeriod::Yearly => "Yearly",
        }
    }
}

} // verus!

verus! {

/// One LLM usage line: monthly input and output tokens of a model.
#[derive(Debug, Clone)]
pub struct TokenUsageSpec {
    pub model: String,
    /// Pricing lookup key in the token price cache (the cloud for managed LLMs).
    pub provider: String,
    pub input_tokens_per_month: u64,
    pub output_tokens_per_month: u64,
    pub cloud_provider: Option<CloudProvider>,
    pub display_name: Option<String>,
}

impl TokenUsageSpec {
    /// The cloud this usage is billed on: the explicit one, else the provider key.
    pub open spec fn cloud_spec(&self) -> Option<CloudProvider> {
        match self.cloud_provider {
            Some(p) => Some(p),
            None => CloudProvider::from_key(self.provider@),
        }
    }

    pub fn cloud(&self) -> (res: Option<CloudProvider>)
        ensures
            res == self.cloud_spec(),
    {
        match self.cloud_provider {
            Some(p) => Some(p),
            None => CloudProvider::parse(self.provider.as_str()),
        }
    }
}

/// Costs of one line or table over every billing period.
#[derive(Debug, Clone, Copy)]
pub struct PeriodBreakdown {
    pub daily: Dec,
    pub monthly: Dec,
    pub quarterly: Dec,
    pub half_yearly: Dec,
    pub yearly: Dec,
}

impl PeriodBreakdown {
    pub open spec fn wf(self) -> bool {
        self.daily.wf() && self.monthly.wf() && self.quarterly.wf() && self.half_yearly.wf()
            && self.yearly.wf()
    }

    /// The breakdown of a monthly cost: a day is a thirtieth of the month,
    /// a quarter three months, a half-year six, a year twelve.
    pub open spec fn from_monthly_spec(monthly: Dec) -> PeriodBreakdown {
        PeriodBreakdown {
            daily: Dec::div(monthly, Dec::int_spec(30)),
            monthly,
            quarterly: Dec::mul(monthly, Dec::int_spec(3)),
            half_yearly: Dec::mul(monthly, Dec::int_spec(6)),
            yearly: Dec::mul(monthly, Dec::int_spec(12)),
        }
    }

    /// The yearly figure of `monthly` does not overflow.
    pub open spec fn monthly_ok(monthly: Dec) -> bool {
        monthly.wf() && Dec::mul_ok(monthly, Dec::int_spec(12))
    }

    pub open spec fn zero_spec() -> PeriodBreakdown {
        PeriodBreakdown::from_monthly_spec(Dec::zero_spec())
    }

    /// Field-wise sum.
    pub open spec fn add_spec(self, other: PeriodBreakdown) -> PeriodBreakdown {
        PeriodBreakdown {
            daily: Dec::add(self.daily, other.daily),
            monthly: Dec::add(self.monthly, other.monthly),
            quarterly: Dec::add(self.quarterly, other.quarterly),
            half_yearly: Dec::add(self.half_yearly, other.half_yearly),
            yearly: Dec::add(self.yearly, other.yearly),
        }
    }

    /// No field of the sum overflows.
    pub open spec fn add_ok(self, other: PeriodBreakdown) -> bool {
        Dec::add_ok(self.daily, other.daily) && Dec::add_ok(self.monthly, other.monthly)
            && Dec::add_ok(self.quarterly, other.quarterly) && Dec::add_ok(
            self.half_yearly,
            other.half_yearly,
        ) && Dec::add_ok(self.yearly, other.yearly)
    }

    pub fn from_monthly(monthly: Dec) -> (res: Self)
        requires
            PeriodBreakdown::monthly_ok(monthly),
        ensures
            res == PeriodBreakdown::from_monthly_spec(monthly),
            res.wf(),
    {
        let thirty = Dec::from_u64(30);
        let three = Dec::from_u64(3);
        let six = Dec::from_u64(6);
        let twelve = Dec::from_u64(12);
        proof {
            lemma_div_by_int_ok(monthly, 30);
            lemma_mul_ok_smaller(monthly, 12, 3);
            lemma_mul_ok_smaller(monthly, 12, 6);
        }
        PeriodBreakdown {
            daily: dec_div(monthly, thirty),
            monthly,
            quarterly: dec_mul(monthly, three),
            half_yearly: dec_mul(monthly, six),
            yearly: dec_mul(monthly, twelve),
        }
    }

    /// Whether a monthly cost can be broken down (the year does not
    /// overflow).
    pub fn monthly_fits(monthly: Dec) -> (res: bool)
        requires
            monthly.wf(),
        ensures
            res == PeriodBreakdown::monthly_ok(monthly),
    {
        let m = monthly.mantissa;
        let s = monthly.scale;
        let a: i128 = if m < 0 {
            -m
        } else {
            m
        };
        let ghost twelve = Dec::int_spec(12);
        assert(pow10(0) == 1);
        assert(pow10(1) == 10 * pow10(0));
        assert(twelve.m() == 12 && twelve.s() == 0);
        assert(monthly.m() * twelve.m() == 12 * m);
        if s >= 2 {
            proof {
                lemma_pow10_at_least_100(s as nat);
                let b = MANTISSA_BOUND - 1;
                assert(b * pow10(s as nat) >= b * 100) by (nonlinear_arith)
                    requires
                        pow10(s as nat) >= 100,
                        b > 0,
                ;
            }
            true
        } else if s == 1 {
            12 * a <= 10 * (MANTISSA_BOUND - 1)
        } else {
            12 * a <= MANTISSA_BOUND - 1
        }
    }

    /// Field-wise sum, or `None` when a field's sum does not fit a decimal.
    pub fn checked_add(&self, other: &Self) -> (res: Option<Self>)
        requires
            self.wf(),
            other.wf(),
        ensures
            self.add_ok(*other) ==> res is Some,
            res matches Some(r) ==> r == self.add_spec(*other) && r.wf(),
    {
        let daily = match dec_checked_add(self.daily, other.daily) {
            Some(d) => d,
            None => return None,
        };
        let monthly = match dec_checked_add(self.monthly, other.monthly) {
            Some(d) => d,
            None => return None,
        };
        let quarterly = match dec_checked_add(self.quarterly, other.quarterly) {
            Some(d) => d,
            None => return None,
        };
        let half_yearly = match dec_checked_add(self.half_yearly, other.half_yearly) {
            Some(d) => d,
            None => return None,
        };
        let yearly = match dec_checked_add(self.yearly, other.yearly) {
            Some(d) => d,
            None => return None,
        };
        Some(PeriodBreakdown { daily, monthly, quarterly, half_yearly, yearly })
    }

    pub fn zero() -> (res: Self)
        ensures
            res == PeriodBreakdown::zero_spec(),
            res.wf(),
    {
        let z = Dec::zero();
        proof {
            lemma_mul_by_int_ok(z, 12);
        }
        Self::from_monthly(z)
    }

    pub fn add(&self, other: &Self) -> (res: Self)
        requires
            self.wf(),
            other.wf(),
            self.add_ok(*other),
        ensures
            res == self.add_spec(*other),
            res.wf(),
    {
        PeriodBreakdown {
            daily: dec_add(self.daily, other.daily),
            monthly: dec_add(self.monthly, other.monthly),
            quarterly: dec_add(self.quarterly, other.quarterly),
            half_yearly: dec_add(self.half_yearly, other.half_yearly),
            yearly: dec_add(self.yearly, other.yearly),
        }
    }
}

proof fn lemma_pow10_at_least_100(n: nat)
    requires
        n >= 2,
    ensures
        pow10(n) >= 100,
    decreases n,
{
    if n == 2 {
        assert(pow10(0) == 1);
        assert(pow10(1) == 10);
    } else {
        lemma_pow10_at_least_100((n - 1) as nat);
    }
}

/// Breaking down a monthly cost needs no rounding: the day is an exact
/// thirtieth and the longer periods exact multiples.
pub open spec fn breakdown_exact(m: Dec) -> bool {
    &&& Dec::div_exact(m, Dec::int_spec(30))
    &&& Dec::mul_exact(m, Dec::int_spec(3))
    &&& Dec::mul_exact(m, Dec::int_spec(6))
    &&& Dec::mul_exact(m, Dec::int_spec(12))
}

/// Adding two breakdowns needs no rounding in any period.
pub open spec fn fields_add_exact(x: PeriodBreakdown, y: PeriodBreakdown) -> bool {
    &&& Dec::add_exact(x.daily, y.daily)
    &&& Dec::add_exact(x.monthly, y.monthly)
    &&& Dec::add_exact(x.quarterly, y.quarterly)
    &&& Dec::add_exact(x.half_yearly, y.half_yearly)
    &&& Dec::add_exact(x.yearly, y.yearly)
}

/// The breakdown of a sum of monthly costs is, period by period and in value,
/// the sum of their breakdowns, wherever no step rounds.
pub proof fn lemma_breakdown_additive(a: Dec, b: Dec)
    requires
        a.wf(),
        b.wf(),
        Dec::add_exact(a, b),
        breakdown_exact(a),
        breakdown_exact(b),
        breakdown_exact(Dec::add(a, b)),
        fields_add_exact(PeriodBreakdown::from_monthly_spec(a), PeriodBreakdown::from_monthly_spec(b)),
    ensures
        ({
            let s = PeriodBreakdown::from_monthly_spec(Dec::add(a, b));
            let t = PeriodBreakdown::from_monthly_spec(a).add_spec(PeriodBreakdown::from_monthly_spec(b));
            &&& s.daily.units() == t.daily.units()
            &&& s.monthly.units() == t.monthly.units()
            &&& s.quarterly.units() == t.quarterly.units()
            &&& s.half_yearly.units() == t.half_yearly.units()
            &&& s.yearly.units() == t.yearly.units()
        }),
{
    let c = Dec::add(a, b);
    lemma_units_add(a, b);
    let fa = PeriodBreakdown::from_monthly_spec(a);
    let fb = PeriodBreakdown::from_monthly_spec(b);
    lemma_units_div_int(a, 30);
    lemma_units_div_int(b, 30);
    lemma_units_div_int(c, 30);
    lemma_units_add(fa.daily, fb.daily);
    lemma_units_add(fa.monthly, fb.monthly);
    lemma_units_mul_int(a, 3);
    lemma_units_mul_int(b, 3);
    lemma_units_mul_int(c, 3);
    lemma_units_add(fa.quarterly, fb.quarterly);
    lemma_units_mul_int(a, 6);
    lemma_units_mul_int(b, 6);
    lemma_units_mul_int(c, 6);
    lemma_units_add(fa.half_yearly, fb.half_yearly);
    lemma_units_mul_int(a, 12);
    lemma_units_mul_int(b, 12);
    lemma_units_mul_int(c, 12);
    lemma_units_add(fa.yearly, fb.yearly);
}

/// The breakdown of a sum of two monthly costs at the same scale is, in
/// value, the sum of their breakdowns for the month, quarter, half-year and
/// year, whenever twelve times the two magnitudes added stays below 2^96 (no
/// product or sum then rounds). The monthly figure is the same decimal
/// whatever the inputs. The day is left out: a thirtieth may round.
pub proof fn lemma_breakdown_additive_same_scale(a: Dec, b: Dec)
    requires
        a.wf(),
        b.wf(),
        a.s() == b.s(),
        12 * (abs(a.m()) + abs(b.m())) < MANTISSA_BOUND,
    ensures
        ({
            let s = PeriodBreakdown::from_monthly_spec(Dec::add(a, b));
            let t = PeriodBreakdown::from_monthly_spec(a).add_spec(PeriodBreakdown::from_monthly_spec(b));
            &&& s.monthly == t.monthly
            &&& s.quarterly.units() == t.quarterly.units()
            &&& s.half_yearly.units() == t.half_yearly.units()
            &&& s.yearly.units() == t.yearly.units()
            &&& s.quarterly.units() == 3 * s.monthly.units()
            &&& s.half_yearly.units() == 6 * s.monthly.units()
            &&& s.yearly.units() == 12 * s.monthly.units()
        }),
{
    assert(pow10(0) == 1);
    let c = Dec::add(a, b);
    if a.m() != 0 && b.m() != 0 {
        assert(Dec::max_scale(a, b) == a.s());
        assert(Dec::aligned_sum(a, b) == a.m() * 1 + b.m() * 1);
    }
    assert(Dec::add_exact(a, b));
    lemma_units_add(a, b);
    assert(c.wf());
    assert(abs(c.m()) <= abs(a.m()) + abs(b.m()));
    assert(c.s() == a.s() || c.m() == 0);
    let fa = PeriodBreakdown::from_monthly_spec(a);
    let fb = PeriodBreakdown::from_monthly_spec(b);
    let fc = PeriodBreakdown::from_monthly_spec(c);
    let k3 = Dec::int_spec(3);
    let k6 = Dec::int_spec(6);
    let k12 = Dec::int_spec(12);
    assert(k3.m() == 3 && k3.s() == 0 && k6.m() == 6 && k6.s() == 0 && k12.m() == 12 && k12.s() == 0);
    let am = a.m();
    let bm = b.m();
    let cm = c.m();
    assert(abs(am * 3) < MANTISSA_BOUND && abs(am * 6) < MANTISSA_BOUND && abs(am * 12) < MANTISSA_BOUND)
        by (nonlinear_arith)
        requires
            12 * (abs(am) + abs(bm)) < MANTISSA_BOUND,
            abs(bm) >= 0,
            abs(am) == (if am < 0 { -am } else { am }),
            abs(am * 3) == (if am * 3 < 0 { -(am * 3) } else { am * 3 }),
            abs(am * 6) == (if am * 6 < 0 { -(am * 6) } else { am * 6 }),
            abs(am * 12) == (if am * 12 < 0 { -(am * 12) } else { am * 12 }),
    ;
    assert(abs(bm * 3) < MANTISSA_BOUND && abs(bm * 6) < MANTISSA_BOUND && abs(bm * 12) < MANTISSA_BOUND)
        by (nonlinear_arith)
        requires
            12 * (abs(am) + abs(bm)) < MANTISSA_BOUND,
            abs(am) >= 0,
            abs(bm) == (if bm < 0 { -bm } else { bm }),
            abs(bm * 3) == (if bm * 3 < 0 { -(bm * 3) } else { bm * 3 }),
            abs(bm * 6) == (if bm * 6 < 0 { -(bm * 6) } else { bm * 6 }),
            abs(bm * 12) == (if bm * 12 < 0 { -(bm * 12) } else { bm * 12 }),
    ;
    assert(abs(cm * 3) < MANTISSA_BOUND && abs(cm * 6) < MANTISSA_BOUND && abs(cm * 12) < MANTISSA_BOUND)
        by (nonlinear_arith)
        requires
            12 * abs(cm) < MANTISSA_BOUND,
            abs(cm) == (if cm < 0 { -cm } else { cm }),
            abs(cm * 3) == (if cm * 3 < 0 { -(cm * 3) } else { cm * 3 }),
            abs(cm * 6) == (if cm * 6 < 0 { -(cm * 6) } else { cm * 6 }),
            abs(cm * 12) == (if cm * 12 < 0 { -(cm * 12) } else { cm * 12 }),
    ;
    lemma_units_mul_int(a, 3);
    lemma_units_mul_int(a, 6);
    lemma_units_mul_int(a, 12);
    lemma_units_mul_int(b, 3);
    lemma_units_mul_int(b, 6);
    lemma_units_mul_int(b, 12);
    lemma_units_mul_int(c, 3);
    lemma_units_mul_int(c, 6);
    lemma_units_mul_int(c, 12);
    assert forall|k: int| k == 3 || k == 6 || k == 12 implies Dec::add_exact(
        #[trigger] Dec::mul(a, Dec::int_spec(k)),
        Dec::mul(b, Dec::int_spec(k)),
    ) by {
        let x = Dec::mul(a, Dec::int_spec(k));
        let y = Dec::mul(b, Dec::int_spec(k));
        if x.m() != 0 && y.m() != 0 {
            assert(x.m() == am * k && x.s() == a.s());
            assert(y.m() == bm * k && y.s() == a.s());
            assert(Dec::max_scale(x, y) == a.s());
            assert(Dec::aligned_sum(x, y) == am * k + bm * k);
            assert(abs(am * k + bm * k) < MANTISSA_BOUND) by (nonlinear_arith)
                requires
                    12 * (abs(am) + abs(bm)) < MANTISSA_BOUND,
                    k == 3 || k == 6 || k == 12,
                    abs(am) == (if am < 0 { -am } else { am }),
                    abs(bm) == (if bm < 0 { -bm } else { bm }),
                    abs(am * k + bm * k) == (if am * k + bm * k < 0 { -(am * k + bm * k) } else { am * k + bm * k }),
            ;
        }
    }
    assert(Dec::add_exact(fa.quarterly, fb.quarterly));
    assert(Dec::add_exact(fa.half_yearly, fb.half_yearly));
    assert(Dec::add_exact(fa.yearly, fb.yearly));
    lemma_units_add(fa.quarterly, fb.quarterly);
    lemma_units_add(fa.half_yearly, fb.half_yearly);
    lemma_units_add(fa.yearly, fb.yearly);
}

/// The breakdown of a zero monthly cost is zero in every period.
pub proof fn lemma_zero_breakdown()
    ensures
        ({
            let z = PeriodBreakdown::zero_spec();
            &&& z.daily.m() == 0
            &&& z.monthly.m() == 0
            &&& z.quarterly.m() == 0
            &&& z.half_yearly.m() == 0
            &&& z.yearly.m() == 0
        }),
{
}

/// The longer periods of a monthly cost are whole multiples of the quarter:
/// a half-year is two quarters and a year four, when the yearly product
/// needs no rounding (its mantissa fits without rescaling).
pub proof fn lemma_period_multiples(monthly: Dec)
    requires
        monthly.wf(),
        -MANTISSA_BOUND < monthly.m() * 12 < MANTISSA_BOUND,
    ensures
        ({
            let b = PeriodBreakdown::from_monthly_spec(monthly);
            &&& b.half_yearly.units() == 2 * b.quarterly.units()
            &&& b.yearly.units() == 4 * b.quarterly.units()
            &&& b.quarterly.units() == 3 * b.monthly.units()
        }),
{
    let m = monthly.m();
    assert(-MANTISSA_BOUND < m * 3 < MANTISSA_BOUND) by (nonlinear_arith)
        requires
            -MANTISSA_BOUND < m * 12 < MANTISSA_BOUND,
    ;
    assert(-MANTISSA_BOUND < m * 6 < MANTISSA_BOUND) by (nonlinear_arith)
        requires
            -MANTISSA_BOUND < m * 12 < MANTISSA_BOUND,
    ;
    assert(Dec::int_spec(3).m() == 3 && Dec::int_spec(6).m() == 6 && Dec::int_spec(12).m() == 12);
    lemma_units_mul_int(monthly, 3);
    lemma_units_mul_int(monthly, 6);
    lemma_units_mul_int(monthly, 12);
}

/// Background sync settings.
#[derive(Debug, Clone)]
pub struct SyncConfig {
    pub interval_secs: u64,
    pub providers: Vec<CloudProvider>,
    /// Parallel HTTP workers; 0 = automatic.
    pub concurrency: usize,
}

impl Default for SyncConfig {
    /// Daily interval, every provider, automatic concurrency.
    fn default() -> (res: Self)
        ensures
            res.interval_secs == 86_400,
            res.providers@ == CloudProvider::all_spec(),
            res.concurrency == 0,
    {
        SyncConfig { interval_secs: 86_400, providers: CloudProvider::all(), concurrency: 0 }
    }
}

/// Name given to an estimate request that carries none.
pub fn default_name() -> (res: String)
    ensures
        res@ == "estimate"@,
{
    owned("estimate")
}

/// A resource line of a workload.
#[derive(Debug, Clone)]
pub struct ResourceSpec {
    pub service: String,
    pub sku: Option<String>,
    pub region: String,
    pub quantity: Dec,
    pub unit: String,
    pub provider: Option<String>,
    pub tags: Vec<(String, String)>,
    pub catalog_id: Option<String>,
    pub display_name: Option<String>,
    pub category: Option<String>,
    pub sub_region: Option<String>,
    pub region_label: Option<String>,
    pub instance_count: Option<Dec>,
    pub hours: Option<Dec>,
}

impl ResourceSpec {
    pub open spec fn wf(&self) -> bool {
        &&& self.quantity.wf()
        &&& (self.instance_count matches Some(n) ==> n.wf())
        &&& (self.hours matches Some(h) ==> h.wf())
    }
}

/// A named workload: resources and token usage.
#[derive(Debug, Clone)]
pub struct RequirementSet {
    pub name: String,
    pub description: Option<String>,
    pub resources: Vec<ResourceSpec>,
    pub token_usage: Vec<TokenUsageSpec>,
}

/// A resource as the UI's import step shows it.
#[derive(Debug, Clone)]
pub struct UiImportResource {
    pub key: String,
    pub catalog_id: String,
    pub provider: String,
    pub region: String,
    pub sub_region: Option<String>,
    pub sku: String,
    pub instance_count: u64,
    pub hours: Option<u64>,
    pub quantity: u64,
    pub name: String,
    pub category: String,
    pub category_id: String,
    pub unit: String,
}

/// What an import hands back to the UI.
#[derive(Debug, Clone)]
pub struct UiImportResponse {
    pub name: String,
    pub providers: Vec<String>,
    pub live_pricing: bool,
    pub resources: Vec<UiImportResource>,
    pub token_usage: Vec<TokenUsageSpec>,
    pub warnings: Vec<String>,
}

/// A resource selected in the UI.
#[derive(Debug, Clone)]
pub struct UiResourceInput {
    pub catalog_id: String,
    pub provider: CloudProvider,
    pub region: String,
    pub sub_region: Option<String>,
    pub quantity: Dec,
    pub sku: Option<String>,
    pub instance_count: Option<Dec>,
    pub hours: Option<Dec>,
}

impl UiResourceInput {
    pub open spec fn wf(&self) -> bool {
        &&& self.quantity.wf()
        &&& (self.instance_count matches Some(n) ==> n.wf())
        &&& (self.hours matches Some(h) ==> h.wf())
    }
}

/// An estimate request from the UI or the CLI.
#[derive(Debug, Clone)]
pub struct EstimateRequest {
    pub name: String,
    pub providers: Vec<CloudProvider>,
    pub live_pricing: bool,
    pub resources: Vec<UiResourceInput>,
    pub token_usage: Vec<TokenUsageSpec>,
}

/// One row of a cost table.
#[derive(Debug, Clone)]
pub struct CostRow {
    pub category: String,
    pub service: String,
    pub description: String,
    pub unit_price: Dec,
    pub quantity: Dec,
    pub unit: String,
    /// Human-readable usage (e.g. "1 × 730 h" rather than raw billable hours).
    pub usage_display: String,
    pub costs: PeriodBreakdown,
}

/// Rows with their totals.
#[derive(Debug, Clone)]
pub struct CostTable {
    pub rows: Vec<CostRow>,
    pub totals: PeriodBreakdown,
}

/// The estimate of one provider: infrastructure, tokens and both together.
#[derive(Debug, Clone)]
pub struct ProviderUiEstimate {
    pub provider: CloudProvider,
    pub infrastructure: CostTable,
    pub tokens: CostTable,
    pub combined: PeriodBreakdown,
}

/// Creation time as seconds and nanoseconds since the Unix epoch (UTC).
#[derive(Debug, Clone, Copy, PartialEq, Eq, Structural)]
pub struct Timestamp {
    pub secs: i64,
    pub nanos: u32,
}

/// A finished estimate as the UI receives it.
#[derive(Debug, Clone)]
pub struct UiEstimateResponse {
    /// The estimate's UUID as a 128-bit number.
    pub id: u128,
    pub name: String,
    pub live_pricing: bool,
    pub providers: Vec<ProviderUiEstimate>,
    pub created_at: Timestamp,
}

/// A priced resource.
#[derive(Debug, Clone)]
pub struct LineItem {
    pub provider: CloudProvider,
    pub category: String,
    pub description: String,
    pub unit_price: Dec,
    pub quantity: Dec,
    pub unit: String,
    pub monthly_cost: Dec,
}

/// Totals of one billing period.
#[derive(Debug, Clone)]
pub struct PeriodCost {
    pub period: BillingPeriod,
    pub infrastructure: Dec,
    pub tokens: Dec,
    pub total: Dec,
}

/// A provider's line items and period totals (the CLI's estimate shape).
#[derive(Debug, Clone)]
pub struct ProviderEstimate {
    pub provider: CloudProvider,
    pub line_items: Vec<LineItem>,
    pub periods: Vec<PeriodCost>,
}

/// A workload with its estimates per provider.
#[derive(Debug, Clone)]
pub struct EstimateResult {
    pub id: u128,
    pub requirement: RequirementSet,
    pub estimates: Vec<ProviderEstimate>,
    pub created_at: Timestamp,
}

} // verus!
