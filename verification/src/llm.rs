//! LLM token-rate discovery: how Bedrock usage types, Azure Foundry meters and
//! GCP SKUs are read as input/output per-million-token rates of a model, and
//! how the best rate per model and direction is kept.
use vstd::prelude::*;
use crate::models::TokenUsageSpec;
use crate::text::{
    owned,
    is_ascii_char, lemma_filter_all, lemma_join_shape, lemma_join_split, lemma_split_part_chars,
    lemma_split_parts_nonempty, lower_char, no_sep_runs,
    strs, all_ascii, ascii_lower, before_first, chars_of, eq_ignore_case, eq_ignore_case_lit, first_piece,
    has_lit, is, is_ascii_alnum, join, join_with, lowercase, push_str, seq_ends, seq_has, seq_starts,
    split, split_on, split_words, string_of, to_ascii_lower, trim, trimmed, unicode_lowercase,
    views, words,
};

verus! {

/// Whether a rate is for input or output tokens.
#[derive(Debug, Clone, Copy, PartialEq, Eq, Structural)]
pub enum TokenDirection {
    Input,
    Output,
}

/// The direction an on-demand Bedrock usage type prices; batch, cached,
/// reserved, throughput and provisioned usage is not on-demand.
pub open spec fn bedrock_direction_spec(u: Seq<char>) -> Option<TokenDirection> {
    if seq_has(u, "Batch"@) || seq_has(u, "Cache"@) || seq_has(u, "Reserved"@) || seq_has(u, "TPM"@)
        || seq_has(u, "Provisioned"@) {
        None
    } else if seq_has(u, "InputTokenCount"@) {
        Some(TokenDirection::Input)
    } else if seq_has(u, "OutputTokenCount"@) {
        Some(TokenDirection::Output)
    } else {
        None
    }
}

pub fn bedrock_direction(usage: &str) -> (res: Option<TokenDirection>)
    ensures
        res == bedrock_direction_spec(usage@),
{
    let u = chars_of(usage);
    if has_lit(&u, "Batch") || has_lit(&u, "Cache") || has_lit(&u, "Reserved") || has_lit(&u, "TPM") || has_lit(
        &u,
        "Provisioned",
    ) {
        return None;
    }
    if has_lit(&u, "InputTokenCount") {
        Some(TokenDirection::Input)
    } else if has_lit(&u, "OutputTokenCount") {
        Some(TokenDirection::Output)
    } else {
        None
    }
}

/// Bedrock usage that is batch, cached, reserved, throughput-based or
/// provisioned is not an on-demand token rate.
pub proof fn lemma_bedrock_not_on_demand(u: Seq<char>)
    requires
        seq_has(u, "Batch"@) || seq_has(u, "Cache"@) || seq_has(u, "Reserved"@) || seq_has(u, "TPM"@)
            || seq_has(u, "Provisioned"@),
    ensures
        bedrock_direction_spec(u) is None,
{
}

/// On-demand Bedrock usage counting input tokens prices input; usage counting
/// only output tokens prices output; usage counting neither prices nothing.
pub proof fn lemma_bedrock_on_demand_direction(u: Seq<char>)
    requires
        !seq_has(u, "Batch"@),
        !seq_has(u, "Cache"@),
        !seq_has(u, "Reserved"@),
        !seq_has(u, "TPM"@),
        !seq_has(u, "Provisioned"@),
    ensures
        seq_has(u, "InputTokenCount"@) ==> bedrock_direction_spec(u) == Some(TokenDirection::Input),
        !seq_has(u, "InputTokenCount"@) && seq_has(u, "OutputTokenCount"@) ==> bedrock_direction_spec(u)
            == Some(TokenDirection::Output),
        !seq_has(u, "InputTokenCount"@) && !seq_has(u, "OutputTokenCount"@) ==> bedrock_direction_spec(u)
            is None,
{
}

/// How much a Bedrock usage type is preferred: per-unit token counts score
/// 10, global cross-region usage loses 3.
pub open spec fn bedrock_usage_score_spec(u: Seq<char>) -> int {
    (if seq_has(u, "InputTokenCount-Units"@) || seq_has(u, "OutputTokenCount-Units"@) {
        10int
    } else {
        0int
    }) - (if seq_has(u, "_Global-"@) {
        3int
    } else {
        0int
    })
}

/// Per-unit token counts are preferred, and global cross-region usage gives
/// way to regional usage: regional per-unit usage outranks anything that is
/// global or not per-unit, global per-unit usage outranks any usage that is
/// not per-unit, and of two usages alike but for the global marker the
/// regional one ranks higher.
pub proof fn lemma_bedrock_usage_ranking(u: Seq<char>, v: Seq<char>)
    ensures
        ({
            let units_u = seq_has(u, "InputTokenCount-Units"@) || seq_has(u, "OutputTokenCount-Units"@);
            let units_v = seq_has(v, "InputTokenCount-Units"@) || seq_has(v, "OutputTokenCount-Units"@);
            let glob_u = seq_has(u, "_Global-"@);
            let glob_v = seq_has(v, "_Global-"@);
            &&& units_u && !glob_u && (!units_v || glob_v) ==> bedrock_usage_score_spec(u)
                > bedrock_usage_score_spec(v)
            &&& units_u && !units_v ==> bedrock_usage_score_spec(u) > bedrock_usage_score_spec(v)
            &&& units_u == units_v && glob_u && !glob_v ==> bedrock_usage_score_spec(u)
                < bedrock_usage_score_spec(v)
        }),
{
}

pub fn bedrock_usage_score(usage: &str) -> (res: i32)
    ensures
        res == bedrock_usage_score_spec(usage@),
{
    let u = chars_of(usage);
    let mut score: i32 = 0;
    if has_lit(&u, "InputTokenCount-Units") || has_lit(&u, "OutputTokenCount-Units") {
        score = score + 10;
    }
    if has_lit(&u, "_Global-") {
        score = score - 3;
    }
    score
}

/// `c` kept when ASCII alphanumeric, otherwise a dash.
pub open spec fn slug_char(c: char) -> char {
    if is_ascii_alnum(c) {
        c
    } else {
        '-'
    }
}

/// The slug of already lower-cased text: every non-alphanumeric run turned
/// into a single dash, with no leading or trailing dash.
pub open spec fn slug_of_lower(l: Seq<char>) -> Seq<char> {
    let dashed = Seq::new(l.len(), |i: int| slug_char(l[i]));
    join_with(split_on(dashed, '-').filter(|p: Seq<char>| p.len() > 0), "-"@)
}

/// A URL-safe id: lower-cased, every non-alphanumeric run turned into a
/// single dash, with no leading or trailing dash.
pub open spec fn slug(name: Seq<char>) -> Seq<char> {
    slug_of_lower(unicode_lowercase(name))
}

/// Runs of ASCII letters and digits joined by single dashes.
pub open spec fn slug_shaped(s: Seq<char>) -> bool {
    &&& no_sep_runs(s, '-')
    &&& forall|i: int| 0 <= i < s.len() ==> #[trigger] s[i] == '-' || is_ascii_alnum(s[i])
}

pub open spec fn is_upper(c: char) -> bool {
    'A' <= c && c <= 'Z'
}

/// A slug without upper-case letters: runs of `a`-`z` and `0`-`9` joined by
/// single dashes.
pub open spec fn lower_slug(s: Seq<char>) -> bool {
    &&& slug_shaped(s)
    &&& forall|i: int| 0 <= i < s.len() ==> !is_upper(#[trigger] s[i])
}

pub open spec fn lower_alnum(c: char) -> bool {
    is_ascii_alnum(c) && !is_upper(c)
}

/// Every slug is shaped; the slug of text without upper-case ASCII letters
/// has none either.
pub proof fn lemma_slug_shape(l: Seq<char>)
    ensures
        slug_shaped(slug_of_lower(l)),
        (forall|i: int| 0 <= i < l.len() ==> !is_upper(#[trigger] l[i])) ==> lower_slug(slug_of_lower(l)),
{
    reveal_strlit("-");
    assert("-"@ =~= seq!['-']);
    let dashed = Seq::new(l.len(), |i: int| slug_char(l[i]));
    let nonempty = |p: Seq<char>| p.len() > 0;
    let parts = split_on(dashed, '-');
    let kept = parts.filter(nonempty);
    let alnum = |c: char| is_ascii_alnum(c);
    let lower = |c: char| lower_alnum(c);
    lemma_split_part_chars(dashed, '-', alnum);
    assert forall|k: int| 0 <= k < kept.len() implies (#[trigger] kept[k]).len() > 0 && forall|j: int|
        0 <= j < kept[k].len() ==> alnum(#[trigger] kept[k][j]) && kept[k][j] != '-' by {
        parts.lemma_filter_pred(nonempty, k);
        assert(kept.contains(kept[k]));
        parts.lemma_filter_contains_rev(nonempty, kept[k]);
        let m = choose|m: int| 0 <= m < parts.len() && parts[m] == kept[k];
        assert forall|j: int| 0 <= j < kept[k].len() implies alnum(#[trigger] kept[k][j]) && kept[k][j] != '-' by {
            assert(kept[k][j] == parts[m][j]);
        }
    }
    lemma_join_shape(kept, '-', alnum);
    if forall|i: int| 0 <= i < l.len() ==> !is_upper(#[trigger] l[i]) {
        assert forall|i: int| 0 <= i < dashed.len() implies #[trigger] dashed[i] == '-' || lower(dashed[i]) by {
            assert(!is_upper(l[i]));
        }
        lemma_split_part_chars(dashed, '-', lower);
        assert forall|k: int, j: int|
            0 <= k < kept.len() && 0 <= j < kept[k].len() implies lower(#[trigger] kept[k][j])
                && kept[k][j] != '-' by {
            assert(kept.contains(kept[k]));
            parts.lemma_filter_contains_rev(nonempty, kept[k]);
            let m = choose|m: int| 0 <= m < parts.len() && parts[m] == kept[k];
            assert(kept[k][j] == parts[m][j]);
        }
        lemma_join_shape(kept, '-', lower);
    }
}

/// Slugging a slug without upper-case letters gives it back: it is ASCII, so
/// lower-casing it is the ASCII lower-casing, which leaves it alone.
pub proof fn lemma_slug_idempotent(s: Seq<char>)
    requires
        lower_slug(s),
    ensures
        all_ascii(s),
        ascii_lower(s) == s,
        slug_of_lower(ascii_lower(s)) == s,
{
    reveal_strlit("-");
    assert("-"@ =~= seq!['-']);
    assert forall|i: int| 0 <= i < s.len() implies is_ascii_char(#[trigger] s[i]) by {
        assert(s[i] == '-' || is_ascii_alnum(s[i]));
    }
    assert forall|i: int| 0 <= i < s.len() implies #[trigger] lower_char(s[i]) == s[i] by {
        assert(!is_upper(s[i]));
    }
    assert(ascii_lower(s) =~= s);
    let dashed = Seq::new(s.len(), |i: int| slug_char(s[i]));
    assert forall|i: int| 0 <= i < s.len() implies #[trigger] slug_char(s[i]) == s[i] by {
        assert(s[i] == '-' || is_ascii_alnum(s[i]));
    }
    assert(dashed =~= s);
    let nonempty = |p: Seq<char>| p.len() > 0;
    let parts = split_on(s, '-');
    lemma_join_split(s, '-');
    if s.len() == 0 {
        reveal(Seq::filter);
        assert(parts == seq![Seq::<char>::empty()]);
        assert(parts.drop_last() =~= Seq::<Seq<char>>::empty());
        assert(parts.drop_last().filter(nonempty) == parts.drop_last());
        assert(!nonempty(parts.last()));
        assert(parts.filter(nonempty) == parts.drop_last().filter(nonempty));
        assert(parts.filter(nonempty) =~= Seq::<Seq<char>>::empty());
    } else {
        lemma_split_parts_nonempty(s, '-');
        assert(s[s.len() - 1] == s.last());
        assert forall|k: int| 0 <= k < parts.len() implies nonempty(#[trigger] parts[k]) by {
            if k == parts.len() - 1 {
                assert(parts[k] == parts.last());
            }
        }
        lemma_filter_all(parts, nonempty);
    }
}

/// For an ASCII name, slugifying twice is slugifying once.
pub proof fn lemma_slugify_twice(name: Seq<char>)
    requires
        all_ascii(name),
    ensures
        all_ascii(slug_of_lower(ascii_lower(name))),
        slug_of_lower(ascii_lower(slug_of_lower(ascii_lower(name)))) == slug_of_lower(ascii_lower(name)),
{
    lemma_slug_shape(ascii_lower(name));
    assert forall|i: int| 0 <= i < ascii_lower(name).len() implies !is_upper(#[trigger] ascii_lower(name)[i]) by {
        let c = name[i];
        if 'A' <= c && c <= 'Z' {
            assert(((c as u32) + 32) as char as u32 == c as u32 + 32);
        }
    }
    lemma_slug_idempotent(slug_of_lower(ascii_lower(name)));
}

pub fn slugify(name: &str) -> (res: String)
    ensures
        res@ == slug(name@),
        slug_shaped(res@),
        all_ascii(name@) ==> res@ == slug_of_lower(ascii_lower(name@)) && lower_slug(res@),
{
    proof {
        lemma_slug_shape(unicode_lowercase(name@));
        lemma_slug_shape(ascii_lower(name@));
        assert forall|i: int| 0 <= i < ascii_lower(name@).len() implies !is_upper(#[trigger] ascii_lower(name@)[i]) by {
            let c = name@[i];
            if 'A' <= c && c <= 'Z' {
                assert(((c as u32) + 32) as char as u32 == c as u32 + 32);
            }
        }
    }
    let lower = lowercase(name);
    let l = chars_of(lower.as_str());
    let mut dashed: Vec<char> = Vec::new();
    let mut i: usize = 0;
    while i < l.len()
        invariant
            i <= l.len(),
            dashed@ == Seq::new(i as nat, |k: int| slug_char(l@[k])),
        decreases l.len() - i,
    {
        let c = l[i];
        let d = if ('a' <= c && c <= 'z') || ('A' <= c && c <= 'Z') || ('0' <= c && c <= '9') {
            c
        } else {
            '-'
        };
        dashed.push(d);
        assert(dashed@ =~= Seq::new((i + 1) as nat, |k: int| slug_char(l@[k])));
        i = i + 1;
    }
    let ghost dv = Seq::new(l@.len(), |k: int| slug_char(l@[k]));
    assert(dashed@ =~= dv);
    let parts = split(&dashed, '-');
    let mut kept: Vec<Vec<char>> = Vec::new();
    let mut j: usize = 0;
    while j < parts.len()
        invariant
            j <= parts.len(),
            parts.len() == split_on(dv, '-').len(),
            forall|k: int| 0 <= k < parts.len() ==> (#[trigger] parts[k])@ == split_on(dv, '-')[k],
            views(kept@) == split_on(dv, '-').take(j as int).filter(|p: Seq<char>| p.len() > 0),
        decreases parts.len() - j,
    {
        proof {
            crate::text::lemma_take_filter(split_on(dv, '-'), j as int, |p: Seq<char>| p.len() > 0);
            assert(parts[j as int]@ == split_on(dv, '-')[j as int]);
        }
        if parts[j].len() > 0 {
            let p = parts[j].clone();
            assert(p@ =~= parts[j as int]@);
            let ghost before = kept@;
            kept.push(p);
            assert(views(kept@) =~= views(before).push(p@));
        }
        j = j + 1;
    }
    assert(split_on(dv, '-').take(parts.len() as int) =~= split_on(dv, '-'));
    let joined = join(&kept, "-");
    string_of(&joined)
}

/// `s` with every trailing occurrence of `p` removed
/// (`str::trim_end_matches`).
pub open spec fn strip_suffix_all(s: Seq<char>, p: Seq<char>) -> Seq<char>
    decreases s.len(),
{
    if p.len() > 0 && seq_ends(s, p) {
        strip_suffix_all(s.take(s.len() - p.len()), p)
    } else {
        s
    }
}

fn trim_end_matches_lit(s: &Vec<char>, lit: &str) -> (res: Vec<char>)
    ensures
        res@ == strip_suffix_all(s@, lit@),
{
    let p = chars_of(lit);
    let mut cur: Vec<char> = s.clone();
    assert(cur@ =~= s@);
    while p.len() > 0 && p.len() <= cur.len() && crate::text::matches_at(
        &cur,
        &p,
        cur.len() - p.len(),
    )
        invariant
            p@ == lit@,
            strip_suffix_all(cur@, p@) == strip_suffix_all(s@, p@),
        decreases cur.len(),
    {
        let n = cur.len() - p.len();
        let mut next: Vec<char> = Vec::new();
        let mut k: usize = 0;
        while k < n
            invariant
                k <= n,
                n <= cur.len(),
                next@ == cur@.take(k as int),
            decreases n - k,
        {
            next.push(cur[k]);
            assert(cur@.take(k + 1) =~= cur@.take(k as int).push(cur@[k as int]));
            k = k + 1;
        }
        assert(seq_ends(cur@, p@));
        cur = next;
    }
    proof {
        if p@.len() > 0 && seq_ends(cur@, p@) {
            assert(crate::text::occurs_at(cur@, p@, cur@.len() - p@.len()));
        }
    }
    cur
}

/// The id of a Bedrock model: `bedrock-` and the slug of its service name
/// without the ` (Amazon Bedrock Edition)` suffix.
pub open spec fn bedrock_model_id_spec(service_name: Seq<char>) -> Seq<char> {
    "bedrock-"@ + slug(trimmed(strip_suffix_all(service_name, " (Amazon Bedrock Edition)"@)))
}

pub fn bedrock_model_id(service_name: &str) -> (res: String)
    ensures
        res@ == bedrock_model_id_spec(service_name@),
{
    let s = chars_of(service_name);
    let core = trim(&trim_end_matches_lit(&s, " (Amazon Bedrock Edition)"));
    let mut out = "bedrock-".to_owned();
    push_str(&mut out, slugify(string_of(&core).as_str()).as_str());
    out
}

/// The region a Bedrock usage-type prefix (such as `SAE1`) stands for.
pub open spec fn bedrock_region_code(p: Seq<char>) -> Option<Seq<char>> {
    if p == "USE1"@ { Some("us-east-1"@) }
    else if p == "USE2"@ { Some("us-east-2"@) }
    else if p == "USW1"@ { Some("us-west-1"@) }
    else if p == "USW2"@ { Some("us-west-2"@) }
    else if p == "EUW1"@ { Some("eu-west-1"@) }
    else if p == "EUW2"@ { Some("eu-west-2"@) }
    else if p == "EUW3"@ { Some("eu-west-3"@) }
    else if p == "EUC1"@ { Some("eu-central-1"@) }
    else if p == "EUN1"@ { Some("eu-north-1"@) }
    else if p == "APS1"@ { Some("ap-southeast-1"@) }
    else if p == "APS2"@ { Some("ap-southeast-2"@) }
    else if p == "APN1"@ { Some("ap-northeast-1"@) }
    else if p == "APN2"@ { Some("ap-northeast-2"@) }
    else if p == "SAE1"@ { Some("sa-east-1"@) }
    else if p == "CAN1"@ { Some("ca-central-1"@) }
    else if p == "MES1"@ { Some("me-south-1"@) }
    else if p == "MEC1"@ { Some("me-central-1"@) }
    else if p == "AFS1"@ { Some("af-south-1"@) }
    else if p == "ILC1"@ { Some("il-central-1"@) }
    else { None }
}

/// The region of a regional Bedrock usage type, read from its prefix.
pub open spec fn bedrock_usage_region_spec(u: Seq<char>) -> Option<Seq<char>> {
    if seq_has(u, "_Global"@) {
        None
    } else {
        bedrock_region_code(split_on(u, '-')[0])
    }
}

/// Global cross-region Bedrock usage belongs to no single region.
pub proof fn lemma_bedrock_global_usage_no_region(u: Seq<char>)
    requires
        seq_has(u, "_Global"@),
    ensures
        bedrock_usage_region_spec(u) is None,
{
}

fn region_for_code(p: &Vec<char>) -> (res: Option<&'static str>)
    ensures
        match res {
            Some(r) => bedrock_region_code(p@) == Some(r@),
            None => bedrock_region_code(p@) is None,
        },
{
    if is(p, "USE1") { Some("us-east-1") }
    else if is(p, "USE2") { Some("us-east-2") }
    else if is(p, "USW1") { Some("us-west-1") }
    else if is(p, "USW2") { Some("us-west-2") }
    else if is(p, "EUW1") { Some("eu-west-1") }
    else if is(p, "EUW2") { Some("eu-west-2") }
    else if is(p, "EUW3") { Some("eu-west-3") }
    else if is(p, "EUC1") { Some("eu-central-1") }
    else if is(p, "EUN1") { Some("eu-north-1") }
    else if is(p, "APS1") { Some("ap-southeast-1") }
    else if is(p, "APS2") { Some("ap-southeast-2") }
    else if is(p, "APN1") { Some("ap-northeast-1") }
    else if is(p, "APN2") { Some("ap-northeast-2") }
    else if is(p, "SAE1") { Some("sa-east-1") }
    else if is(p, "CAN1") { Some("ca-central-1") }
    else if is(p, "MES1") { Some("me-south-1") }
    else if is(p, "MEC1") { Some("me-central-1") }
    else if is(p, "AFS1") { Some("af-south-1") }
    else if is(p, "ILC1") { Some("il-central-1") }
    else { None }
}

pub fn bedrock_usage_region(usage: &str) -> (res: Option<String>)
    ensures
        match res {
            Some(r) => bedrock_usage_region_spec(usage@) == Some(r@),
            None => bedrock_usage_region_spec(usage@) is None,
        },
{
    let u = chars_of(usage);
    if has_lit(&u, "_Global") {
        return None;
    }
    let parts = split(&u, '-');
    assert(parts.len() >= 1) by {
        crate::text::lemma_split_nonempty(u@, '-');
    }
    match region_for_code(&parts[0]) {
        Some(r) => Some(r.to_owned()),
        None => None,
    }
}

/// The lower-cased `SKU METER` text Azure meters are classified by.
pub open spec fn azure_meter_text(sku: Seq<char>, meter: Seq<char>) -> Seq<char> {
    ascii_lower(sku + " "@ + meter)
}

fn meter_text(sku: &str, meter: &str) -> (res: Vec<char>)
    ensures
        res@ == azure_meter_text(sku@, meter@),
{
    let mut s = sku.to_owned();
    push_str(&mut s, " ");
    push_str(&mut s, meter);
    to_ascii_lower(&chars_of(s.as_str()))
}

/// The direction an Azure Foundry meter prices; batch and fine-tuning
/// training meters are not token rates.
pub open spec fn azure_direction_spec(sku: Seq<char>, meter: Seq<char>) -> Option<TokenDirection> {
    let s = azure_meter_text(sku, meter);
    if seq_has(s, "batch"@) || seq_has(s, "ft-trng"@) || seq_has(s, "training"@) {
        None
    } else if seq_has(s, " inp"@) || seq_has(s, "-inp"@) || seq_has(s, "input"@) {
        Some(TokenDirection::Input)
    } else if seq_has(s, " outp"@) || seq_has(s, "-outp"@) || seq_has(s, "output"@) {
        Some(TokenDirection::Output)
    } else {
        None
    }
}

pub fn azure_direction(sku: &str, meter: &str) -> (res: Option<TokenDirection>)
    ensures
        res == azure_direction_spec(sku@, meter@),
{
    let s = meter_text(sku, meter);
    if has_lit(&s, "batch") || has_lit(&s, "ft-trng") || has_lit(&s, "training") {
        return None;
    }
    if has_lit(&s, " inp") || has_lit(&s, "-inp") || has_lit(&s, "input") {
        Some(TokenDirection::Input)
    } else if has_lit(&s, " outp") || has_lit(&s, "-outp") || has_lit(&s, "output") {
        Some(TokenDirection::Output)
    } else {
        None
    }
}

/// Azure meters for batch use or fine-tuning training carry no token rate.
pub proof fn lemma_azure_batch_training_no_rate(sku: Seq<char>, meter: Seq<char>)
    requires
        ({
            let s = ascii_lower(sku + " "@ + meter);
            seq_has(s, "batch"@) || seq_has(s, "ft-trng"@) || seq_has(s, "training"@)
        }),
    ensures
        azure_direction_spec(sku, meter) is None,
{
}

/// Any other Azure meter whose lower-cased SKU and meter text marks input
/// (` inp`, `-inp` or `input`) prices input tokens.
pub proof fn lemma_azure_input_meters(sku: Seq<char>, meter: Seq<char>)
    requires
        ({
            let s = ascii_lower(sku + " "@ + meter);
            &&& !seq_has(s, "batch"@) && !seq_has(s, "ft-trng"@) && !seq_has(s, "training"@)
            &&& seq_has(s, " inp"@) || seq_has(s, "-inp"@) || seq_has(s, "input"@)
        }),
    ensures
        azure_direction_spec(sku, meter) == Some(TokenDirection::Input),
{
}

/// An Azure meter that is neither batch nor training, has no input marker,
/// and whose lower-cased text marks output (` outp`, `-outp` or `output`)
/// prices output tokens.
pub proof fn lemma_azure_output_meters(sku: Seq<char>, meter: Seq<char>)
    requires
        ({
            let s = ascii_lower(sku + " "@ + meter);
            &&& !seq_has(s, "batch"@) && !seq_has(s, "ft-trng"@) && !seq_has(s, "training"@)
            &&& !seq_has(s, " inp"@) && !seq_has(s, "-inp"@) && !seq_has(s, "input"@)
            &&& seq_has(s, " outp"@) || seq_has(s, "-outp"@) || seq_has(s, "output"@)
        }),
    ensures
        azure_direction_spec(sku, meter) == Some(TokenDirection::Output),
{
}

/// An Azure meter with neither an input nor an output marker prices no
/// tokens.
pub proof fn lemma_azure_unmarked_no_rate(sku: Seq<char>, meter: Seq<char>)
    requires
        ({
            let s = ascii_lower(sku + " "@ + meter);
            &&& !seq_has(s, " inp"@) && !seq_has(s, "-inp"@) && !seq_has(s, "input"@)
            &&& !seq_has(s, " outp"@) && !seq_has(s, "-outp"@) && !seq_has(s, "output"@)
        }),
    ensures
        azure_direction_spec(sku, meter) is None,
{
}

/// Azure token meters are quoted per million (`1M`) or per thousand (`1K`).
pub fn azure_token_unit(unit: &str) -> (res: bool)
    ensures
        res == (unit@ == "1M"@ || unit@ == "1K"@),
{
    str_eq_lit(unit, "1M") || str_eq_lit(unit, "1K")
}

fn str_eq_lit(a: &str, b: &str) -> (res: bool)
    ensures
        res == (a@ == b@),
{
    crate::text::str_eq(a, b)
}

/// How much an Azure meter is preferred: global deployments +20, regional or
/// data-zone ones -4, cached-input meters -15, real-time (`rt-`) ones -8.
pub open spec fn azure_rate_score_spec(sku: Seq<char>, meter: Seq<char>) -> int {
    let s = azure_meter_text(sku, meter);
    (if seq_has(s, "glbl"@) || seq_has(s, "global"@) { 20int } else { 0int })
        - (if seq_has(s, "regnl"@) || seq_has(s, "dzone"@) || seq_has(s, "dzn"@) { 4int } else { 0int })
        - (if seq_has(s, "cchd"@) || seq_has(s, "cache"@) { 15int } else { 0int })
        - (if seq_has(s, "rt-"@) { 8int } else { 0int })
}

/// Global meters are preferred and cached, regional, data-zone and
/// real-time meters are marked down: a global meter with none of those marks
/// outranks every meter that is not global, and every cached meter.
pub proof fn lemma_azure_rate_ranking(sku: Seq<char>, meter: Seq<char>, sku2: Seq<char>, meter2: Seq<char>)
    ensures
        ({
            let s = ascii_lower(sku + " "@ + meter);
            let t = ascii_lower(sku2 + " "@ + meter2);
            let clean_global = (seq_has(s, "glbl"@) || seq_has(s, "global"@)) && !seq_has(s, "regnl"@)
                && !seq_has(s, "dzone"@) && !seq_has(s, "dzn"@) && !seq_has(s, "cchd"@) && !seq_has(
                s,
                "cache"@,
            ) && !seq_has(s, "rt-"@);
            &&& clean_global && !seq_has(t, "glbl"@) && !seq_has(t, "global"@) ==> azure_rate_score_spec(
                sku,
                meter,
            ) > azure_rate_score_spec(sku2, meter2)
            &&& clean_global && (seq_has(t, "cchd"@) || seq_has(t, "cache"@)) ==> azure_rate_score_spec(
                sku,
                meter,
            ) > azure_rate_score_spec(sku2, meter2)
        }),
{
}

pub fn azure_rate_score(sku: &str, meter: &str) -> (res: i32)
    ensures
        res == azure_rate_score_spec(sku@, meter@),
{
    let s = meter_text(sku, meter);
    let mut score: i32 = 0;
    if has_lit(&s, "glbl") || has_lit(&s, "global") {
        score = score + 20;
    }
    if has_lit(&s, "regnl") || has_lit(&s, "dzone") || has_lit(&s, "dzn") {
        score = score - 4;
    }
    if has_lit(&s, "cchd") || has_lit(&s, "cache") {
        score = score - 15;
    }
    if has_lit(&s, "rt-") {
        score = score - 8;
    }
    score
}

/// A SKU part that names the token direction (`inp`, `outp`, `input`,
/// `output`, in any ASCII case).
pub open spec fn is_direction_part(p: Seq<char>) -> bool {
    eq_ignore_case(p, "inp"@) || eq_ignore_case(p, "outp"@) || eq_ignore_case(p, "input"@)
        || eq_ignore_case(p, "output"@)
}

/// Index of the first direction part at or after `i`, or the length.
pub open spec fn first_direction_part(parts: Seq<Seq<char>>, i: int) -> int
    decreases parts.len() - i,
{
    if i < 0 || i >= parts.len() {
        parts.len() as int
    } else if is_direction_part(parts[i]) {
        i
    } else {
        first_direction_part(parts, i + 1)
    }
}

/// The model family of an Azure SKU: the dash-separated parts of its first
/// word up to the first direction part, trailing dashes removed; the whole
/// SKU when that leaves nothing.
pub open spec fn azure_family(sku: Seq<char>) -> Seq<char> {
    let w = words(sku);
    let first = if w.len() > 0 {
        w[0]
    } else {
        sku
    };
    let parts = split_on(first, '-');
    let fam = strip_suffix_all(
        join_with(parts.take(first_direction_part(parts, 0)), "-"@),
        "-"@,
    );
    if fam.len() == 0 {
        sku
    } else {
        fam
    }
}

/// The product name without a leading `Azure `, trimmed.
pub open spec fn azure_product_short(product: Seq<char>) -> Seq<char> {
    trimmed(
        if seq_starts(product, "Azure "@) {
            product.skip(6)
        } else {
            product
        },
    )
}

/// Model id (`azure-` and the family's slug) and label (`FAMILY (PRODUCT)`,
/// or the family alone) of an Azure Foundry meter.
pub open spec fn azure_model_key_spec(product: Seq<char>, sku: Seq<char>) -> (Seq<char>, Seq<char>) {
    let family = azure_family(sku);
    let short = azure_product_short(product);
    (
        "azure-"@ + slug(family),
        if short.len() == 0 {
            family
        } else {
            family + " ("@ + short + ")"@
        },
    )
}

fn family_of(sku: &str) -> (res: String)
    ensures
        res@ == azure_family(sku@),
{
    let s = chars_of(sku);
    let w = split_words(&s);
    let first = if w.len() > 0 {
        let f = w[0].clone();
        assert(f@ =~= w[0]@);
        f
    } else {
        s.clone()
    };
    assert(first@ =~= (if words(sku@).len() > 0 { words(sku@)[0] } else { sku@ }));
    let parts = split(&first, '-');
    let ghost ps = split_on(first@, '-');
    let mut kept: Vec<Vec<char>> = Vec::new();
    let mut i: usize = 0;
    while i < parts.len() && !eq_ignore_case_lit(&parts[i], "inp") && !eq_ignore_case_lit(
        &parts[i],
        "outp",
    ) && !eq_ignore_case_lit(&parts[i], "input") && !eq_ignore_case_lit(&parts[i], "output")
        invariant
            i <= parts.len(),
            parts.len() == ps.len(),
            forall|k: int| 0 <= k < parts.len() ==> (#[trigger] parts[k])@ == ps[k],
            first_direction_part(ps, 0) == first_direction_part(ps, i as int),
            views(kept@) == ps.take(i as int),
        decreases parts.len() - i,
    {
        assert(parts[i as int]@ == ps[i as int]);
        let p = parts[i].clone();
        assert(p@ =~= ps[i as int]);
        let ghost before = kept@;
        kept.push(p);
        assert(views(kept@) =~= views(before).push(p@));
        assert(ps.take(i + 1) =~= ps.take(i as int).push(ps[i as int]));
        assert(views(kept@) =~= ps.take(i + 1));
        i = i + 1;
    }
    proof {
        if i < parts.len() {
            assert(parts[i as int]@ == ps[i as int]);
        }
    }
    let joined = join(&kept, "-");
    let fam = trim_end_matches_lit(&joined, "-");
    if fam.len() == 0 {
        sku.to_owned()
    } else {
        string_of(&fam)
    }
}

fn product_short(product: &str) -> (res: Vec<char>)
    ensures
        res@ == azure_product_short(product@),
{
    let p = chars_of(product);
    if crate::text::begins(&p, "Azure ") {
        proof {
            reveal_strlit("Azure ");
        }
        let mut rest: Vec<char> = Vec::new();
        let mut k: usize = 6;
        while k < p.len()
            invariant
                6 <= k <= p.len(),
                rest@ == p@.subrange(6, k as int),
            decreases p.len() - k,
        {
            rest.push(p[k]);
            assert(p@.subrange(6, k + 1) =~= p@.subrange(6, k as int).push(p@[k as int]));
            k = k + 1;
        }
        assert(rest@ =~= p@.skip(6));
        trim(&rest)
    } else {
        trim(&p)
    }
}

/// Model id and label for an Azure Foundry meter.
pub fn azure_model_key(product: &str, sku: &str) -> (res: (String, String))
    ensures
        (res.0@, res.1@) == azure_model_key_spec(product@, sku@),
{
    let family = family_of(sku);
    let mut id = "azure-".to_owned();
    push_str(&mut id, slugify(family.as_str()).as_str());
    let short = product_short(product);
    let label = if short.len() == 0 {
        family
    } else {
        let mut l = family.clone();
        push_str(&mut l, " (");
        push_str(&mut l, string_of(&short).as_str());
        push_str(&mut l, ")");
        l
    };
    (id, label)
}

/// A best rate so far: its preference score and price.
pub open spec fn bumped<P>(slot: Option<(i32, P)>, score: i32, price: P) -> Option<(i32, P)> {
    match slot {
        Some((best, _)) => if best >= score {
            slot
        } else {
            Some((score, price))
        },
        None => Some((score, price)),
    }
}

/// Keeps the rate with the higher preference score; on a tie the rate seen
/// first stays.
pub fn bump_rate<P>(slot: &mut Option<(i32, P)>, score: i32, price: P)
    ensures
        *final(slot) == bumped(*old(slot), score, price),
{
    let keep = match slot {
        Some((best, _)) => *best >= score,
        None => false,
    };
    if !keep {
        *slot = Some((score, price));
    }
}

/// A rate kept by `bump_rate` never has a lower score than the one offered,
/// nor than the one it held.
pub proof fn lemma_bump_keeps_best<P>(slot: Option<(i32, P)>, score: i32, price: P)
    ensures
        bumped(slot, score, price) matches Some((s, _)) && s >= score && (slot matches Some((
            b,
            _,
        )) ==> s >= b),
{
}

/// The Azure retail filter for Foundry model meters.
pub open spec fn foundry_filter() -> Seq<char> {
    "serviceName eq 'Foundry Models'"@
}

/// `s` with each single quote doubled (`str::replace('\'', "''")`).
pub open spec fn quote_escaped(s: Seq<char>) -> Seq<char>
    decreases s.len(),
{
    if s.len() == 0 {
        seq![]
    } else {
        quote_escaped(s.drop_last()) + (if s.last() == '\'' {
            seq!['\'', '\'']
        } else {
            seq![s.last()]
        })
    }
}

pub fn escape_quotes(s: &str) -> (res: String)
    ensures
        res@ == quote_escaped(s@),
{
    let v = chars_of(s);
    let mut out: Vec<char> = Vec::new();
    let mut i: usize = 0;
    while i < v.len()
        invariant
            i <= v.len(),
            out@ == quote_escaped(v@.take(i as int)),
        decreases v.len() - i,
    {
        assert(v@.take(i + 1).drop_last() =~= v@.take(i as int));
        let ghost before = out@;
        if v[i] == '\'' {
            out.push('\'');
            out.push('\'');
            assert(out@ =~= before + seq!['\'', '\'']);
        } else {
            out.push(v[i]);
            assert(out@ =~= before + seq![v@[i as int]]);
        }
        i = i + 1;
    }
    assert(v@.take(v.len() as int) =~= v@);
    string_of(&out)
}

/// The retail filter for the meters of one Foundry model: the Foundry filter
/// narrowed to SKU names containing the model's slug (its id without the
/// `azure-` prefix), quotes escaped.
pub open spec fn selective_filter_spec(model_id: Seq<char>) -> Seq<char> {
    let slug = if seq_starts(model_id, "azure-"@) {
        model_id.skip(6)
    } else {
        model_id
    };
    foundry_filter() + " and contains(skuName,'"@ + quote_escaped(slug) + "')"@
}

pub fn foundry_model_filter(model_id: &str) -> (res: String)
    ensures
        res@ == selective_filter_spec(model_id@),
{
    let m = chars_of(model_id);
    let slug = if crate::text::begins(&m, "azure-") {
        proof {
            reveal_strlit("azure-");
        }
        let mut rest: Vec<char> = Vec::new();
        let mut k: usize = 6;
        while k < m.len()
            invariant
                6 <= k <= m.len(),
                rest@ == m@.subrange(6, k as int),
            decreases m.len() - k,
        {
            rest.push(m[k]);
            assert(m@.subrange(6, k + 1) =~= m@.subrange(6, k as int).push(m@[k as int]));
            k = k + 1;
        }
        assert(rest@ =~= m@.skip(6));
        string_of(&rest)
    } else {
        model_id.to_owned()
    };
    let mut f = "serviceName eq 'Foundry Models'".to_owned();
    push_str(&mut f, " and contains(skuName,'");
    push_str(&mut f, escape_quotes(slug.as_str()).as_str());
    push_str(&mut f, "')");
    f
}

/// The best input and output rates found for one model, its label and the
/// regions it is offered in (none listed once it is offered globally).
pub struct RateAgg<P> {
    pub label: String,
    pub input: Option<(i32, P)>,
    pub output: Option<(i32, P)>,
    pub regions: Vec<String>,
    pub global: bool,
}

/// Label, input rate, output rate, regions and the global flag.
pub type AggView<P> = (Seq<char>, Option<(i32, P)>, Option<(i32, P)>, Set<Seq<char>>, bool);

impl<P> RateAgg<P> {
    pub open spec fn view(&self) -> AggView<P> {
        (self.label@, self.input, self.output, strs(self.regions@).to_set(), self.global)
    }

    /// The region list holds no region twice.
    pub open spec fn regions_distinct(&self) -> bool {
        strs(self.regions@).no_duplicates()
    }

    pub fn empty() -> (res: RateAgg<P>)
        ensures
            res.view() == empty_agg::<P>(),
            res.regions_distinct(),
    {
        let res = RateAgg {
            label: String::new(),
            input: None,
            output: None,
            regions: Vec::new(),
            global: false,
        };
        assert(strs(res.regions@).to_set() =~= Set::<Seq<char>>::empty());
        res
    }
}

/// The ids of the entries kept are the ids kept.
proof fn lemma_keys_filter<P>(e: Seq<(String, RateAgg<P>)>, w: Option<Seq<Seq<char>>>)
    ensures
        e.filter(|x: (String, RateAgg<P>)| wanted(w, x.0@)).map_values(|x: (String, RateAgg<P>)| x.0@)
            == e.map_values(|x: (String, RateAgg<P>)| x.0@).filter(|k: Seq<char>| wanted(w, k)),
    decreases e.len(),
{
    reveal(Seq::filter);
    let pe = |x: (String, RateAgg<P>)| wanted(w, x.0@);
    let pk = |k: Seq<char>| wanted(w, k);
    let key = |x: (String, RateAgg<P>)| x.0@;
    if e.len() > 0 {
        lemma_keys_filter(e.drop_last(), w);
        assert(e.map_values(key).drop_last() =~= e.drop_last().map_values(key));
        assert(e.map_values(key).last() == key(e.last()));
        if pe(e.last()) {
            assert(e.drop_last().filter(pe).push(e.last()).map_values(key) =~= e.drop_last().filter(pe).map_values(
                key,
            ).push(key(e.last())));
        }
    }
}

/// Keeping some elements of a list without repeats gives a list without
/// repeats.
proof fn lemma_filter_no_duplicates<A>(s: Seq<A>, p: spec_fn(A) -> bool)
    requires
        s.no_duplicates(),
    ensures
        s.filter(p).no_duplicates(),
    decreases s.len(),
{
    reveal(Seq::filter);
    if s.len() > 0 {
        let t = s.drop_last();
        assert(t.no_duplicates()) by {
            assert forall|i: int, j: int| 0 <= i < t.len() && 0 <= j < t.len() && i != j implies t[i] != t[j] by {
                assert(t[i] == s[i] && t[j] == s[j]);
            }
        }
        lemma_filter_no_duplicates(t, p);
        if p(s.last()) {
            let f = t.filter(p);
            if f.contains(s.last()) {
                t.lemma_filter_contains_rev(p, s.last());
                let k = choose|k: int| 0 <= k < t.len() && t[k] == s.last();
                assert(s[k] == s[s.len() - 1]);
            }
            let g = f.push(s.last());
            assert forall|i: int, j: int| 0 <= i < g.len() && 0 <= j < g.len() && i != j implies g[i] != g[j] by {
                if i == g.len() - 1 {
                    if j < f.len() {
                        assert(f.contains(f[j]));
                    }
                } else if j == g.len() - 1 {
                    assert(f.contains(f[i]));
                }
            }
        }
    }
}

pub open spec fn empty_agg<P>() -> AggView<P> {
    (seq![], None, None, Set::empty(), false)
}

/// Rates gathered per model id; each id appears once.
pub struct RateBook<P> {
    pub entries: Vec<(String, RateAgg<P>)>,
}

impl<P> RateBook<P> {
    pub open spec fn keys(&self) -> Seq<Seq<char>> {
        self.entries@.map_values(|e: (String, RateAgg<P>)| e.0@)
    }

    pub open spec fn wf(&self) -> bool {
        &&& self.keys().no_duplicates()
        &&& forall|i: int| 0 <= i < self.entries@.len() ==> (#[trigger] self.entries@[i]).1.regions_distinct()
    }

    /// The rates gathered for model `k` (empty when it has none).
    pub open spec fn agg(&self, k: Seq<char>) -> AggView<P> {
        if self.keys().contains(k) {
            let i = choose|i: int| 0 <= i < self.keys().len() && self.keys()[i] == k;
            self.entries@[i].1.view()
        } else {
            empty_agg::<P>()
        }
    }

    /// The ids after recording something for `k`.
    pub open spec fn keys_with(&self, k: Seq<char>) -> Seq<Seq<char>> {
        if self.keys().contains(k) {
            self.keys()
        } else {
            self.keys().push(k)
        }
    }

    pub fn new() -> (res: RateBook<P>)
        ensures
            res.wf(),
            res.keys().len() == 0,
    {
        let res = RateBook { entries: Vec::new() };
        assert(res.keys() =~= Seq::<Seq<char>>::empty());
        res
    }

    proof fn lemma_agg_at(&self, i: int)
        requires
            self.wf(),
            0 <= i < self.entries@.len(),
        ensures
            self.agg(self.keys()[i]) == self.entries@[i].1.view(),
    {
        let k = self.keys()[i];
        assert(self.keys().contains(k));
        let j = choose|j: int| 0 <= j < self.keys().len() && self.keys()[j] == k;
        assert(j == i);
    }

    /// Keeps only the models asked for (every model when none are named), in
    /// order, with their rates.
    pub fn retain_wanted(&mut self, want: Option<&Vec<String>>)
        requires
            old(self).wf(),
        ensures
            final(self).wf(),
            final(self).keys() == old(self).keys().filter(|k: Seq<char>| wanted(want_view(want), k)),
            forall|k: Seq<char>|
                wanted(want_view(want), k) ==> #[trigger] final(self).agg(k) == old(self).agg(k),
            forall|k: Seq<char>|
                !wanted(want_view(want), k) ==> #[trigger] final(self).agg(k) == empty_agg::<P>(),
    {
        let ghost orig = *self;
        let ghost e = orig.entries@;
        let ghost pe = |x: (String, RateAgg<P>)| wanted(want_view(want), x.0@);
        let ghost pk = |k: Seq<char>| wanted(want_view(want), k);
        let mut rest: Vec<(String, RateAgg<P>)> = Vec::new();
        std::mem::swap(&mut rest, &mut self.entries);
        let mut i: usize = 0;
        let n = rest.len();
        assert(rest@.len() == e.len());
        while rest.len() > 0
            invariant
                n == e.len(),
                i <= n,
                pe == (|x: (String, RateAgg<P>)| wanted(want_view(want), x.0@)),
                rest@ == e.subrange(i as int, n as int),
                self.entries@ == e.take(i as int).filter(pe),
            decreases rest.len(),
        {
            let x = rest.remove(0);
            let ghost gx = x;
            proof {
                assert(e.take(i + 1).drop_last() =~= e.take(i as int));
                assert(e.take(i + 1).last() == x);
                reveal(Seq::filter);
                assert(e.take(i + 1).filter(pe) == (if pe(gx) {
                    e.take(i as int).filter(pe).push(gx)
                } else {
                    e.take(i as int).filter(pe)
                }));
            }
            if is_wanted(want, &x.0) {
                self.entries.push(x);
            }
            i = i + 1;
            assert(rest@ =~= e.subrange(i as int, n as int));
        }
        proof {
            assert(e.take(n as int) =~= e);
            assert forall|i: int| 0 <= i < self.entries@.len() implies (#[trigger] self.entries@[i]).1.regions_distinct() by {
                assert(self.entries@.contains(self.entries@[i]));
                e.lemma_filter_contains_rev(pe, self.entries@[i]);
                let m = choose|m: int| 0 <= m < e.len() && e[m] == self.entries@[i];
                assert(orig.entries@[m].1.regions_distinct());
            }
            lemma_keys_filter(e, want_view(want));
            let fk = orig.keys().filter(pk);
            assert(self.keys() == fk);
            lemma_filter_no_duplicates(orig.keys(), pk);
            assert forall|k: Seq<char>| pk(k) implies #[trigger] self.agg(k) == orig.agg(k) by {
                if orig.keys().contains(k) {
                    let m = choose|m: int| 0 <= m < orig.keys().len() && orig.keys()[m] == k;
                    orig.lemma_agg_at(m);
                    orig.keys().lemma_filter_contains(pk, m);
                    let j = choose|j: int| 0 <= j < fk.len() && fk[j] == k;
                    self.lemma_agg_at(j);
                    e.lemma_filter_contains(pe, m);
                    assert(self.entries@.contains(e[m]));
                    let jj = choose|jj: int| 0 <= jj < self.entries@.len() && self.entries@[jj] == e[m];
                    assert(self.keys()[jj] == k);
                    assert(jj == j);
                } else {
                    if self.keys().contains(k) {
                        orig.keys().lemma_filter_contains_rev(pk, k);
                    }
                }
            }
            assert forall|k: Seq<char>| !pk(k) implies #[trigger] self.agg(k) == empty_agg::<P>() by {
                if self.keys().contains(k) {
                    let j = choose|j: int| 0 <= j < fk.len() && fk[j] == k;
                    orig.keys().lemma_filter_pred(pk, j);
                }
            }
        }
    }

    /// Replaces the rates of model `id` by `f` of its current rates.
    fn record(&mut self, id: String, new_agg: RateAgg<P>)
        requires
            old(self).wf(),
            new_agg.regions_distinct(),
        ensures
            final(self).wf(),
            final(self).keys() == old(self).keys_with(id@),
            final(self).agg(id@) == new_agg.view(),
            forall|k: Seq<char>| k != id@ ==> #[trigger] final(self).agg(k) == old(self).agg(k),
    {
        let ghost old_self = *self;
        let mut i: usize = 0;
        while i < self.entries.len() && !(self.entries[i].0 == id)
            invariant
                *self == old_self,
                i <= self.entries.len(),
                forall|j: int| 0 <= j < i ==> self.keys()[j] != id@,
            decreases self.entries.len() - i,
        {
            i = i + 1;
        }
        let ghost ok = old_self.keys();
        if i < self.entries.len() {
            assert(self.keys()[i as int] == id@);
            let ghost key_id = id@;
            let _removed = self.entries.remove(i);
            self.entries.insert(i, (id, new_agg));
            proof {
                assert(self.entries@ =~= old_self.entries@.update(i as int, (self.entries@[i as int].0, new_agg)));
                assert(self.keys() =~= ok);
                self.lemma_agg_at(i as int);
                assert forall|k: Seq<char>| k != key_id implies #[trigger] self.agg(k) == old_self.agg(k) by {
                    if ok.contains(k) {
                        let j = choose|j: int| 0 <= j < ok.len() && ok[j] == k;
                        old_self.lemma_agg_at(j);
                        self.lemma_agg_at(j);
                    }
                }
            }
        } else {
            let ghost key_id = id@;
            self.entries.push((id, new_agg));
            proof {
                assert(!ok.contains(key_id));
                assert(self.keys() =~= ok.push(key_id));
                assert(self.keys().no_duplicates());
                self.lemma_agg_at(ok.len() as int);
                assert forall|k: Seq<char>| k != key_id implies #[trigger] self.agg(k) == old_self.agg(k) by {
                    if ok.contains(k) {
                        let j = choose|j: int| 0 <= j < ok.len() && ok[j] == k;
                        old_self.lemma_agg_at(j);
                        self.lemma_agg_at(j);
                    } else {
                        assert(!self.keys().contains(k));
                    }
                }
            }
        }
    }

    /// Takes out the rates of model `id` (empty when it has none), leaving an
    /// empty record in their place.
    fn take(&mut self, id: &String) -> (res: RateAgg<P>)
        requires
            old(self).wf(),
        ensures
            res.view() == old(self).agg(id@),
            res.regions_distinct(),
            final(self).wf(),
            final(self).keys() == old(self).keys(),
            forall|k: Seq<char>| k != id@ ==> #[trigger] final(self).agg(k) == old(self).agg(k),
    {
        let ghost old_self = *self;
        let mut i: usize = 0;
        while i < self.entries.len()
            invariant
                *self == old_self,
                old_self == *old(self),
                old_self.wf(),
                i <= self.entries.len(),
                forall|j: int| 0 <= j < i ==> self.keys()[j] != id@,
            decreases self.entries.len() - i,
        {
            if self.entries[i].0 == *id {
                proof {
                    old_self.lemma_agg_at(i as int);
                    assert(old_self.keys()[i as int] == id@);
                }
                let ghost old_entry = self.entries@[i as int];
                let pair = self.entries.remove(i);
                assert(pair == old_entry);
                let (k, agg) = pair;
                self.entries.insert(i, (k, RateAgg::empty()));
                assert(self.entries@ =~= old_self.entries@.update(i as int, (k, self.entries@[i as int].1)));
                assert(self.keys() =~= old_self.keys());
                assert(agg.view() == old_self.agg(id@));
                proof {
                    let ok = old_self.keys();
                    assert forall|k2: Seq<char>| k2 != id@ implies #[trigger] self.agg(k2) == old_self.agg(k2) by {
                        if ok.contains(k2) {
                            let j = choose|j: int| 0 <= j < ok.len() && ok[j] == k2;
                            old_self.lemma_agg_at(j);
                            self.lemma_agg_at(j);
                        }
                    }
                }
                return agg;
            }
            i = i + 1;
        }
        assert(!old_self.keys().contains(id@));
        RateAgg::empty()
    }
}

fn bump<P>(slot: Option<(i32, P)>, score: i32, price: P) -> (res: Option<(i32, P)>)
    ensures
        res == bumped(slot, score, price),
{
    match slot {
        Some((best, p)) => {
            if best >= score {
                Some((best, p))
            } else {
                Some((score, price))
            }
        },
        None => Some((score, price)),
    }
}

/// The rates of a model after offering a rate in direction `dir`.
pub open spec fn with_rate<P>(a: AggView<P>, dir: TokenDirection, score: i32, price: P) -> AggView<P> {
    match dir {
        TokenDirection::Input => (a.0, bumped(a.1, score, price), a.2, a.3, a.4),
        TokenDirection::Output => (a.0, a.1, bumped(a.2, score, price), a.3, a.4),
    }
}

fn offer_rate<P>(agg: RateAgg<P>, dir: TokenDirection, score: i32, price: P) -> (res: RateAgg<P>)
    ensures
        res.view() == with_rate(agg.view(), dir, score, price),
        res.regions == agg.regions,
{
    let RateAgg { label, input, output, regions, global } = agg;
    match dir {
        TokenDirection::Input => RateAgg {
            label,
            input: bump(input, score, price),
            output,
            regions,
            global,
        },
        TokenDirection::Output => RateAgg {
            label,
            input,
            output: bump(output, score, price),
            regions,
            global,
        },
    }
}

pub(crate) fn insert_region(regions: Vec<String>, r: String) -> (res: Vec<String>)
    ensures
        strs(res@).to_set() == strs(regions@).to_set().insert(r@),
        strs(regions@).no_duplicates() ==> strs(res@).no_duplicates(),
{
    let mut out = regions;
    let mut i: usize = 0;
    while i < out.len()
        invariant
            i <= out.len(),
            out@ == regions@,
            forall|j: int| 0 <= j < i ==> out@[j]@ != r@,
        decreases out.len() - i,
    {
        if out[i] == r {
            assert(strs(out@)[i as int] == r@);
            assert(strs(out@).contains(r@));
            assert(strs(out@).to_set() =~= strs(out@).to_set().insert(r@));
            return out;
        }
        i = i + 1;
    }
    let ghost before = out@;
    out.push(r);
    assert(strs(out@) =~= strs(before).push(r@));
    assert(!strs(before).contains(r@));
    assert forall|x: Seq<char>| strs(out@).contains(x) <==> (strs(before).contains(x) || x == r@) by {
        if strs(out@).contains(x) {
            let j = choose|j: int| 0 <= j < strs(out@).len() && strs(out@)[j] == x;
            if j < before.len() {
                assert(strs(before)[j] == x);
            }
        }
        if strs(before).contains(x) {
            let j = choose|j: int| 0 <= j < strs(before).len() && strs(before)[j] == x;
            assert(strs(out@)[j] == x);
        }
        if x == r@ {
            assert(strs(out@)[before.len() as int] == x);
        }
    }
    assert forall|x: Seq<char>| #[trigger] strs(out@).to_set().contains(x) == strs(before).to_set().insert(r@).contains(x) by {
        assert(strs(out@).to_set().contains(x) == strs(out@).contains(x));
        assert(strs(before).to_set().contains(x) == strs(before).contains(x));
    }
    assert(strs(out@).to_set() =~= strs(before).to_set().insert(r@));
    out
}

/// Whether model `id` is wanted: always without a selection, otherwise when
/// the selection lists it.
pub open spec fn wanted(want: Option<Seq<Seq<char>>>, id: Seq<char>) -> bool {
    match want {
        Some(ids) => ids.contains(id),
        None => true,
    }
}

pub open spec fn want_view(want: Option<&Vec<String>>) -> Option<Seq<Seq<char>>> {
    match want {
        Some(v) => Some(strs(v@)),
        None => None,
    }
}

/// Whether model `id` is among those asked for (any model when none are named).
pub fn is_wanted(want: Option<&Vec<String>>, id: &String) -> (res: bool)
    ensures
        res == wanted(want_view(want), id@),
{
    match want {
        None => true,
        Some(ids) => {
            let mut i: usize = 0;
            while i < ids.len()
                invariant
                    i <= ids.len(),
                    want == Some(ids),
                    forall|j: int| 0 <= j < i ==> strs(ids@)[j] != id@,
                decreases ids.len() - i,
            {
                if ids[i] == *id {
                    assert(strs(ids@)[i as int] == id@);
                    assert(strs(ids@).contains(id@));
                    return true;
                }
                i = i + 1;
            }
            false
        },
    }
}

/// The rates of a Bedrock model after one on-demand product: the product's
/// service name becomes the label; global usage marks the model global and
/// drops its regions, otherwise the usage's region is added unless the model
/// is already global; the rate is offered in the usage's direction.
pub open spec fn bedrock_applied<P>(a: AggView<P>, service_name: Seq<char>, usage: Seq<char>, price: P) -> AggView<P> {
    let (regions, global) = if seq_has(usage, "_Global"@) {
        (Set::<Seq<char>>::empty(), true)
    } else if !a.4 {
        match bedrock_usage_region_spec(usage) {
            Some(r) => (a.3.insert(r), a.4),
            None => (a.3, a.4),
        }
    } else {
        (a.3, a.4)
    };
    with_rate(
        (service_name, a.1, a.2, regions, global),
        bedrock_direction_spec(usage)->Some_0,
        bedrock_usage_score_spec(usage) as i32,
        price,
    )
}

/// Records one Bedrock product (service name, usage type and its on-demand
/// per-million price) in the book. Products whose usage type is not an
/// on-demand token rate, and models not wanted, are left out.
pub fn bedrock_apply<P>(
    book: &mut RateBook<P>,
    service_name: &str,
    usage: &str,
    price: P,
    want: Option<&Vec<String>>,
) -> (applied: bool)
    requires
        old(book).wf(),
    ensures
        final(book).wf(),
        applied == (bedrock_direction_spec(usage@) is Some && wanted(
            want_view(want),
            bedrock_model_id_spec(service_name@),
        )),
        !applied ==> *final(book) == *old(book),
        applied ==> {
            let id = bedrock_model_id_spec(service_name@);
            &&& final(book).keys() == old(book).keys_with(id)
            &&& final(book).agg(id) == bedrock_applied(old(book).agg(id), service_name@, usage@, price)
            &&& forall|k: Seq<char>| k != id ==> #[trigger] final(book).agg(k) == old(book).agg(k)
        },
{
    let dir = match bedrock_direction(usage) {
        Some(d) => d,
        None => return false,
    };
    let score = bedrock_usage_score(usage);
    let id = bedrock_model_id(service_name);
    if !is_wanted(want, &id) {
        return false;
    }
    let ghost b0 = *book;
    let agg = book.take(&id);
    let RateAgg { label: _, input, output, regions, global } = agg;
    let u = chars_of(usage);
    let (regions, global) = if has_lit(&u, "_Global") {
        let empty: Vec<String> = Vec::new();
        assert(strs(empty@).to_set() =~= Set::<Seq<char>>::empty());
        (empty, true)
    } else if !global {
        match bedrock_usage_region(usage) {
            Some(r) => (insert_region(regions, r), global),
            None => (regions, global),
        }
    } else {
        (regions, global)
    };
    let relabeled = RateAgg { label: service_name.to_owned(), input, output, regions, global };
    let updated = offer_rate(relabeled, dir, score, price);
    book.record(id, updated);
    true
}

/// An Azure retail price item as the rate scan reads it.
#[derive(Debug)]
pub struct AzureMeter {
    /// The item's `type` (`Consumption` for pay-as-you-go meters).
    pub item_type: Option<String>,
    pub product: String,
    /// `skuName`, or `armSkuName` when there is none.
    pub sku: String,
    pub meter: String,
    pub unit: String,
}

/// Whether an Azure item is a pay-as-you-go token meter: a `Consumption`
/// item with a direction and a per-million or per-thousand unit.
pub open spec fn azure_meter_counts(m: AzureMeter) -> bool {
    &&& (match m.item_type {
        Some(t) => t@ == "Consumption"@,
        None => false,
    })
    &&& azure_direction_spec(m.sku@, m.meter@) is Some
    &&& (m.unit@ == "1M"@ || m.unit@ == "1K"@)
}

/// The rates of an Azure model after one meter: the meter's label, and the
/// rate offered in its direction with its preference score.
pub open spec fn azure_applied<P>(a: AggView<P>, m: AzureMeter, price: P) -> AggView<P> {
    with_rate(
        (azure_model_key_spec(m.product@, m.sku@).1, a.1, a.2, a.3, a.4),
        azure_direction_spec(m.sku@, m.meter@)->Some_0,
        azure_rate_score_spec(m.sku@, m.meter@) as i32,
        price,
    )
}

/// Records one Azure meter, priced per million tokens, in the book; items
/// that are not pay-as-you-go token meters are left out.
pub fn azure_apply<P>(book: &mut RateBook<P>, m: &AzureMeter, price: P) -> (applied: bool)
    requires
        old(book).wf(),
    ensures
        final(book).wf(),
        applied == azure_meter_counts(*m),
        !applied ==> *final(book) == *old(book),
        applied ==> {
            let id = azure_model_key_spec(m.product@, m.sku@).0;
            &&& final(book).keys() == old(book).keys_with(id)
            &&& final(book).agg(id) == azure_applied(old(book).agg(id), *m, price)
            &&& forall|k: Seq<char>| k != id ==> #[trigger] final(book).agg(k) == old(book).agg(k)
        },
{
    let consumption = match &m.item_type {
        Some(t) => str_eq_lit(t.as_str(), "Consumption"),
        None => false,
    };
    if !consumption {
        return false;
    }
    let dir = match azure_direction(m.sku.as_str(), m.meter.as_str()) {
        Some(d) => d,
        None => return false,
    };
    if !azure_token_unit(m.unit.as_str()) {
        return false;
    }
    let score = azure_rate_score(m.sku.as_str(), m.meter.as_str());
    let (id, label) = azure_model_key(m.product.as_str(), m.sku.as_str());
    let agg = book.take(&id);
    let RateAgg { label: _, input, output, regions, global } = agg;
    let relabeled = RateAgg { label, input, output, regions, global };
    let updated = offer_rate(relabeled, dir, score, price);
    book.record(id, updated);
    true
}

/// The direction a GCP token SKU description prices, if it is one.
pub open spec fn gcp_direction_spec(desc: Seq<char>) -> Option<TokenDirection> {
    let l = ascii_lower(desc);
    if !seq_has(l, "token"@) {
        None
    } else if seq_has(l, "input"@) {
        Some(TokenDirection::Input)
    } else if seq_has(l, "output"@) {
        Some(TokenDirection::Output)
    } else {
        None
    }
}

/// The model family a GCP SKU description names: its text before the first
/// dash, trimmed.
pub open spec fn gcp_family(desc: Seq<char>) -> Seq<char> {
    trimmed(split_on(desc, '-')[0])
}

pub open spec fn gcp_model_id_spec(desc: Seq<char>) -> Seq<char> {
    "gcp-"@ + slug(gcp_family(desc))
}

/// The rates of a GCP model after one token SKU: the label
/// `FAMILY (SERVICE)` is set if the model has none yet, and the rate is
/// offered with score 0.
pub open spec fn gcp_applied<P>(a: AggView<P>, desc: Seq<char>, service_name: Seq<char>, price: P) -> AggView<P> {
    let label = if a.0.len() == 0 {
        gcp_family(desc) + " ("@ + service_name + ")"@
    } else {
        a.0
    };
    with_rate((label, a.1, a.2, a.3, a.4), gcp_direction_spec(desc)->Some_0, 0, price)
}

/// Records one GCP SKU (description and per-million price) of a Vertex or
/// Gemini service in the book; SKUs that are not token rates, and models not
/// wanted, are left out.
pub fn gcp_apply<P>(
    book: &mut RateBook<P>,
    description: &str,
    service_name: &str,
    price: P,
    want: Option<&Vec<String>>,
) -> (applied: bool)
    requires
        old(book).wf(),
    ensures
        final(book).wf(),
        applied == (gcp_direction_spec(description@) is Some && wanted(
            want_view(want),
            gcp_model_id_spec(description@),
        )),
        !applied ==> *final(book) == *old(book),
        applied ==> {
            let id = gcp_model_id_spec(description@);
            &&& final(book).keys() == old(book).keys_with(id)
            &&& final(book).agg(id) == gcp_applied(old(book).agg(id), description@, service_name@, price)
            &&& forall|k: Seq<char>| k != id ==> #[trigger] final(book).agg(k) == old(book).agg(k)
        },
{
    let d = chars_of(description);
    let lower = to_ascii_lower(&d);
    if !has_lit(&lower, "token") {
        return false;
    }
    let dir = if has_lit(&lower, "input") {
        TokenDirection::Input
    } else if has_lit(&lower, "output") {
        TokenDirection::Output
    } else {
        return false;
    };
    let parts = split(&d, '-');
    assert(parts.len() >= 1) by {
        crate::text::lemma_split_nonempty(d@, '-');
    }
    let family = trim(&parts[0]);
    let fam = string_of(&family);
    let mut id = "gcp-".to_owned();
    push_str(&mut id, slugify(fam.as_str()).as_str());
    if !is_wanted(want, &id) {
        return false;
    }
    let agg = book.take(&id);
    let RateAgg { label, input, output, regions, global } = agg;
    let label = if label.as_str().is_empty() {
        let mut l = fam.clone();
        push_str(&mut l, " (");
        push_str(&mut l, service_name);
        push_str(&mut l, ")");
        l
    } else {
        label
    };
    let relabeled = RateAgg { label, input, output, regions, global };
    let updated = offer_rate(relabeled, dir, 0, price);
    book.record(id, updated);
    true
}

/// The pricing key of a usage line: its cloud's key, or its provider text.
pub open spec fn usage_key(u: TokenUsageSpec) -> Seq<char> {
    match u.cloud_spec() {
        Some(p) => p.key(),
        None => u.provider@,
    }
}

/// The models the usage names under pricing key `key`.
pub open spec fn cloud_models(usage: Seq<TokenUsageSpec>, key: Seq<char>) -> Set<Seq<char>>
    decreases usage.len(),
{
    if usage.len() == 0 {
        Set::empty()
    } else {
        let prev = cloud_models(usage.drop_last(), key);
        if usage_key(usage.last()) == key {
            prev.insert(usage.last().model@)
        } else {
            prev
        }
    }
}

/// The distinct models to refresh under pricing key `key`, in order of first
/// mention.
pub fn models_for_cloud(usage: &Vec<TokenUsageSpec>, key: &str) -> (res: Vec<String>)
    ensures
        strs(res@).to_set() == cloud_models(usage@, key@),
        strs(res@).no_duplicates(),
{
    let mut out: Vec<String> = Vec::new();
    let mut i: usize = 0;
    assert(strs(out@).to_set() =~= Set::<Seq<char>>::empty());
    while i < usage.len()
        invariant
            i <= usage.len(),
            strs(out@).to_set() == cloud_models(usage@.take(i as int), key@),
            strs(out@).no_duplicates(),
        decreases usage.len() - i,
    {
        proof {
            assert(usage@.take(i + 1).drop_last() =~= usage@.take(i as int));
            assert(usage@.take(i + 1).last() == usage@[i as int]);
        }
        let u = &usage[i];
        let k: &str = match u.cloud() {
            Some(p) => p.as_str(),
            None => u.provider.as_str(),
        };
        if str_eq_lit(k, key) {
            out = insert_region(out, u.model.clone());
        }
        i = i + 1;
    }
    assert(usage@.take(usage.len() as int) =~= usage@);
    out
}


/// A baseline rate row: provider, model id, label, input and output USD per
/// million tokens.
pub type RateRow = (String, String, String, String, String);

pub open spec fn rate_row_view(r: RateRow) -> (Seq<char>, Seq<char>, Seq<char>, Seq<char>, Seq<char>) {
    (r.0@, r.1@, r.2@, r.3@, r.4@)
}

/// The token rates used until a live sync succeeds.
pub open spec fn baseline_rates() -> Seq<(Seq<char>, Seq<char>, Seq<char>, Seq<char>, Seq<char>)> {
    seq![
        ("aws"@, "bedrock-llama3-70b"@, "Llama 3 70B (Bedrock)"@, "2.65"@, "3.50"@),
        ("azure"@, "gpt-4o"@, "GPT-4o (Azure OpenAI)"@, "2.50"@, "10.00"@),
        ("azure"@, "gpt-4o-mini"@, "GPT-4o Mini (Azure OpenAI)"@, "0.15"@, "0.60"@),
        ("gcp"@, "gemini-1.5-pro"@, "Gemini 1.5 Pro (Vertex)"@, "1.25"@, "5.00"@),
        ("gcp"@, "gemini-1.5-flash"@, "Gemini 1.5 Flash (Vertex)"@, "0.075"@, "0.30"@),
    ]
}

fn rate_row(p: &str, id: &str, label: &str, input: &str, output: &str) -> (res: RateRow)
    ensures
        rate_row_view(res) == (p@, id@, label@, input@, output@),
{
    (owned(p), owned(id), owned(label), owned(input), owned(output))
}

/// The baseline token rates, in order.
pub fn baseline_token_rates() -> (res: Vec<RateRow>)
    ensures
        res@.map_values(|r: RateRow| rate_row_view(r)) == baseline_rates(),
{
    let mut out: Vec<RateRow> = Vec::new();
    out.push(rate_row("aws", "bedrock-llama3-70b", "Llama 3 70B (Bedrock)", "2.65", "3.50"));
    out.push(rate_row("azure", "gpt-4o", "GPT-4o (Azure OpenAI)", "2.50", "10.00"));
    out.push(rate_row("azure", "gpt-4o-mini", "GPT-4o Mini (Azure OpenAI)", "0.15", "0.60"));
    out.push(rate_row("gcp", "gemini-1.5-pro", "Gemini 1.5 Pro (Vertex)", "1.25", "5.00"));
    out.push(rate_row("gcp", "gemini-1.5-flash", "Gemini 1.5 Flash (Vertex)", "0.075", "0.30"));
    assert(out@.map_values(|r: RateRow| rate_row_view(r)) =~= baseline_rates());
    out
}

} // verus!
