//! Which region codes count as standard commercial regions of each cloud,
//! and the region lists stored for a service.
use vstd::prelude::*;
use crate::order::{insert_sorted, strictly_sorted};
use crate::text::{
    lemma_global_ascii, lemma_take_filter, lemma_filter_idempotent,
    all_ascii, ascii_lower, begins, chars_list, chars_of, count_char, count_of, eq_ignore_case,
    eq_ignore_case_lit, has_lit, is, is_ascii_alnum, lowercase, owned, seq_has, seq_starts, split,
    split_on, string_list, strs, unicode_lowercase, views,
};

verus! {

pub open spec fn all_alnum(s: Seq<char>) -> bool {
    forall|i: int| 0 <= i < s.len() ==> is_ascii_alnum(#[trigger] s[i])
}

fn alnum_only(s: &Vec<char>) -> (res: bool)
    ensures
        res == all_alnum(s@),
{
    let mut i: usize = 0;
    while i < s.len()
        invariant
            i <= s.len(),
            forall|k: int| 0 <= k < i ==> is_ascii_alnum(#[trigger] s@[k]),
        decreases s.len() - i,
    {
        let c = s[i];
        if !(('a' <= c && c <= 'z') || ('A' <= c && c <= 'Z') || ('0' <= c && c <= '9')) {
            return false;
        }
        i = i + 1;
    }
    true
}

/// Standard commercial AWS region codes: not GovCloud, not China, and exactly
/// two dashes (Local Zones and Wavelength codes have more).
pub open spec fn aws_region_ok(r: Seq<char>) -> bool {
    !seq_starts(r, "us-gov"@) && !seq_starts(r, "cn-"@) && count_char(r, '-') == 2
}

pub fn is_standard_aws_region(region: &str) -> (res: bool)
    ensures
        res == aws_region_ok(region@),
{
    let r = chars_of(region);
    if begins(&r, "us-gov") || begins(&r, "cn-") {
        return false;
    }
    count_of(&r, '-') == 2
}

/// The test a region code must pass to stay in an AWS region list.
pub open spec fn aws_kept_pred() -> spec_fn(Seq<char>) -> bool {
    |r: Seq<char>| aws_region_ok(r)
}

pub fn filter_standard_aws_regions(regions: Vec<String>) -> (res: Vec<String>)
    ensures
        strs(res@) == strs(regions@).filter(aws_kept_pred()),
{
    let mut out: Vec<String> = Vec::new();
    let mut i: usize = 0;
    while i < regions.len()
        invariant
            i <= regions.len(),
            strs(out@) == strs(regions@).take(i as int).filter(|r: Seq<char>| aws_region_ok(r)),
        decreases regions.len() - i,
    {
        proof {
            lemma_take_filter(strs(regions@), i as int, |r: Seq<char>| aws_region_ok(r));
        }
        if is_standard_aws_region(regions[i].as_str()) {
            let c = owned(regions[i].as_str());
            let ghost before = out@;
            out.push(c);
            assert(strs(out@) =~= strs(before).push(c@));
        }
        i = i + 1;
    }
    assert(strs(regions@).take(regions.len() as int) =~= strs(regions@));
    assert(strs(regions@).filter(|r: Seq<char>| aws_region_ok(r)) == strs(regions@).filter(aws_kept_pred()));
    out
}

/// Filtering an AWS region list a second time changes nothing: the filter's
/// output is already standard.
pub proof fn lemma_aws_filter_idempotent(regions: Seq<Seq<char>>)
    ensures
        regions.filter(aws_kept_pred()).filter(aws_kept_pred()) == regions.filter(aws_kept_pred()),
{
    lemma_filter_idempotent(regions, aws_kept_pred());
}

/// Standard Azure regions: `global`, or 4 to 20 ASCII letters and digits that
/// are not an AT&T or Verizon edge site, an edge zone or an intercontinental
/// site (compared in lower case).
pub open spec fn azure_region_ok(r: Seq<char>) -> bool {
    let l = unicode_lowercase(r);
    l == "global"@ || (!seq_starts(l, "att"@) && !seq_starts(l, "verizon"@) && !seq_has(
        l,
        "edge"@,
    ) && !seq_starts(l, "intercontinental"@) && 4 <= l.len() <= 20 && all_alnum(l))
}

pub fn is_standard_azure_region(region: &str) -> (res: bool)
    ensures
        res == azure_region_ok(region@),
        eq_ignore_case(region@, "global"@) ==> res,
{
    let lower = lowercase(region);
    let r = chars_of(lower.as_str());
    proof {
        if eq_ignore_case(region@, "global"@) {
            lemma_global_ascii(region@);
        }
    }
    if is(&r, "global") {
        return true;
    }
    if begins(&r, "att") || begins(&r, "verizon") || has_lit(&r, "edge") || begins(
        &r,
        "intercontinental",
    ) {
        return false;
    }
    4 <= r.len() && r.len() <= 20 && alnum_only(&r)
}

/// Standard GCP regions: `global`, or two or three dash-separated non-empty
/// ASCII alphanumeric parts where a third part is longer than two characters
/// (so zones such as `us-central1-a` are left out); compared in lower case.
pub open spec fn gcp_region_ok(r: Seq<char>) -> bool {
    let l = unicode_lowercase(r);
    let parts = split_on(l, '-');
    l == "global"@ || (2 <= parts.len() <= 3 && !(parts.len() == 3 && parts[2].len() <= 2)
        && forall|i: int| 0 <= i < parts.len() ==> (#[trigger] parts[i]).len() > 0 && all_alnum(
        parts[i],
    ))
}

pub fn is_standard_gcp_region(region: &str) -> (res: bool)
    ensures
        res == gcp_region_ok(region@),
        eq_ignore_case(region@, "global"@) ==> res,
{
    let lower = lowercase(region);
    let r = chars_of(lower.as_str());
    proof {
        if eq_ignore_case(region@, "global"@) {
            lemma_global_ascii(region@);
        }
    }
    if is(&r, "global") {
        return true;
    }
    let parts = split(&r, '-');
    if parts.len() < 2 || parts.len() > 3 {
        return false;
    }
    if parts.len() == 3 && parts[2].len() <= 2 {
        assert(parts[2]@ == split_on(r@, '-')[2]);
        return false;
    }
    assert(parts.len() == 3 ==> parts[2]@ == split_on(r@, '-')[2]);
    let mut i: usize = 0;
    while i < parts.len()
        invariant
            i <= parts.len(),
            r@ == unicode_lowercase(region@),
            r@ != "global"@,
            !eq_ignore_case(region@, "global"@),
            2 <= parts.len() <= 3,
            !(parts.len() == 3 && split_on(r@, '-')[2].len() <= 2),
            parts.len() == split_on(r@, '-').len(),
            forall|k: int| 0 <= k < parts.len() ==> (#[trigger] parts[k])@ == split_on(r@, '-')[k],
            forall|k: int| 0 <= k < i ==> (#[trigger] split_on(r@, '-')[k]).len() > 0 && all_alnum(split_on(r@, '-')[k]),
        decreases parts.len() - i,
    {
        assert(parts[i as int]@ == split_on(r@, '-')[i as int]);
        if parts[i].len() == 0 || !alnum_only(&parts[i]) {
            return false;
        }
        i = i + 1;
    }
    true
}

/// Some entry equals `global` up to ASCII case.
pub open spec fn mentions_global(s: Seq<Seq<char>>) -> bool {
    exists|i: int| 0 <= i < s.len() && eq_ignore_case(#[trigger] s[i], "global"@)
}

/// The Azure regions kept for a service, before ordering: the standard ones,
/// plus `global` when the input named it but no kept entry is `global`.
pub open spec fn azure_kept(raw: Seq<Seq<char>>) -> Seq<Seq<char>> {
    let kept = raw.filter(|r: Seq<char>| azure_region_ok(r));
    if mentions_global(raw) && !mentions_global(kept) {
        kept.push("global"@)
    } else {
        kept
    }
}

/// The GCP regions kept for a service, before ordering (as for Azure).
pub open spec fn gcp_kept(raw: Seq<Seq<char>>) -> Seq<Seq<char>> {
    let kept = raw.filter(|r: Seq<char>| gcp_region_ok(r));
    if mentions_global(raw) && !mentions_global(kept) {
        kept.push("global"@)
    } else {
        kept
    }
}

fn any_global(v: &Vec<Vec<char>>) -> (res: bool)
    ensures
        res == mentions_global(views(v@)),
{
    let mut i: usize = 0;
    while i < v.len()
        invariant
            i <= v.len(),
            forall|k: int| 0 <= k < i ==> !eq_ignore_case(#[trigger] views(v@)[k], "global"@),
        decreases v.len() - i,
    {
        if eq_ignore_case_lit(&v[i], "global") {
            assert(eq_ignore_case(views(v@)[i as int], "global"@));
            return true;
        }
        i = i + 1;
    }
    false
}

/// `items` sorted and with duplicates removed.
pub(crate) fn sorted_unique(items: &Vec<Vec<char>>) -> (res: Vec<String>)
    ensures
        strictly_sorted(strs(res@)),
        forall|y: Seq<char>| strs(res@).contains(y) <==> views(items@).contains(y),
{
    let mut out: Vec<Vec<char>> = Vec::new();
    let mut i: usize = 0;
    while i < items.len()
        invariant
            i <= items.len(),
            strictly_sorted(views(out@)),
            forall|y: Seq<char>| views(out@).contains(y) <==> views(items@).take(i as int).contains(y),
        decreases items.len() - i,
    {
        let x = items[i].clone();
        let ghost xv = items@[i as int]@;
        insert_sorted(&mut out, x);
        proof {
            let t = views(items@).take(i + 1);
            assert(t =~= views(items@).take(i as int).push(xv));
            assert forall|y: Seq<char>| t.contains(y) <==> (views(items@).take(i as int).contains(y) || y == xv) by {
                if t.contains(y) {
                    let k = choose|k: int| 0 <= k < t.len() && t[k] == y;
                    if k < i {
                        assert(views(items@).take(i as int)[k] == y);
                    }
                }
                if views(items@).take(i as int).contains(y) {
                    let k = choose|k: int| 0 <= k < i && views(items@).take(i as int)[k] == y;
                    assert(t[k] == y);
                }
                if y == xv {
                    assert(t[i as int] == y);
                }
            }
        }
        i = i + 1;
    }
    assert(views(items@).take(items.len() as int) =~= views(items@));
    string_list(&out)
}

/// Azure regions to store for a service: standard regions (and `global` when
/// the input had it), sorted, without duplicates.
/// The test a region must pass to stay in a Azure service's region list.
pub open spec fn azure_kept_pred() -> spec_fn(Seq<char>) -> bool {
    |r: Seq<char>| azure_region_ok(r)
}

pub fn filter_azure_service_regions(raw: Vec<String>) -> (res: Vec<String>)
    ensures
        strictly_sorted(strs(res@)),
        forall|y: Seq<char>| strs(res@).contains(y) <==> azure_kept(strs(raw@)).contains(y),
        forall|y: Seq<char>|
            #![trigger strs(res@).contains(y)]
            strs(res@).contains(y) <==> strs(raw@).filter(azure_kept_pred()).contains(y),
        forall|y: Seq<char>| strs(res@).contains(y) ==> strs(raw@).contains(y),
        forall|k: int|
            0 <= k < raw.len() && eq_ignore_case(#[trigger] strs(raw@)[k], "global"@)
                ==> strs(res@).contains(strs(raw@)[k]),
{
    let rv = chars_list(&raw);
    let had_global = any_global(&rv);
    let mut kept: Vec<Vec<char>> = Vec::new();
    let mut i: usize = 0;
    while i < raw.len()
        invariant
            i <= raw.len(),
            views(rv@) == strs(raw@),
            views(kept@) == strs(raw@).take(i as int).filter(|r: Seq<char>| azure_region_ok(r)),
            forall|k: int|
                0 <= k < i && eq_ignore_case(#[trigger] strs(raw@)[k], "global"@) ==> azure_region_ok(
                    strs(raw@)[k],
                ),
        decreases raw.len() - i,
    {
        proof {
            lemma_take_filter(strs(raw@), i as int, |r: Seq<char>| azure_region_ok(r));
        }
        if is_standard_azure_region(raw[i].as_str()) {
            let c = chars_of(raw[i].as_str());
            let ghost before = kept@;
            kept.push(c);
            assert(views(kept@) =~= views(before).push(c@));
        }
        i = i + 1;
    }
    assert(strs(raw@).take(raw.len() as int) =~= strs(raw@));
    proof {
        let f = strs(raw@).filter(azure_kept_pred());
        assert(strs(raw@).filter(|r: Seq<char>| azure_region_ok(r)) == f);
        assert forall|k: int|
            0 <= k < raw.len() && eq_ignore_case(#[trigger] strs(raw@)[k], "global"@) implies f.contains(
            strs(raw@)[k],
        ) && mentions_global(f) by {
            strs(raw@).lemma_filter_contains(azure_kept_pred(), k);
            let j = choose|j: int| 0 <= j < f.len() && f[j] == strs(raw@)[k];
            assert(eq_ignore_case(f[j], "global"@));
        }
        assert forall|y: Seq<char>| f.contains(y) implies strs(raw@).contains(y) by {
            strs(raw@).lemma_filter_contains_rev(azure_kept_pred(), y);
        }
    }
    if had_global && !any_global(&kept) {
        proof {
            let k = choose|k: int| 0 <= k < strs(raw@).len() && eq_ignore_case(#[trigger] strs(raw@)[k], "global"@);
            assert(false);
        }
        let ghost before = kept@;
        kept.push(chars_of("global"));
        assert(views(kept@) =~= views(before).push("global"@));
    }
    sorted_unique(&kept)
}

/// GCP regions to store for a service: standard regions (and `global` when the
/// input had it), sorted, without duplicates.
/// The test a region must pass to stay in a GCP service's region list.
pub open spec fn gcp_kept_pred() -> spec_fn(Seq<char>) -> bool {
    |r: Seq<char>| gcp_region_ok(r)
}

pub fn filter_gcp_service_regions(raw: Vec<String>) -> (res: Vec<String>)
    ensures
        strictly_sorted(strs(res@)),
        forall|y: Seq<char>| strs(res@).contains(y) <==> gcp_kept(strs(raw@)).contains(y),
        forall|y: Seq<char>|
            #![trigger strs(res@).contains(y)]
            strs(res@).contains(y) <==> strs(raw@).filter(gcp_kept_pred()).contains(y),
        forall|y: Seq<char>| strs(res@).contains(y) ==> strs(raw@).contains(y),
        forall|k: int|
            0 <= k < raw.len() && eq_ignore_case(#[trigger] strs(raw@)[k], "global"@)
                ==> strs(res@).contains(strs(raw@)[k]),
{
    let rv = chars_list(&raw);
    let had_global = any_global(&rv);
    let mut kept: Vec<Vec<char>> = Vec::new();
    let mut i: usize = 0;
    while i < raw.len()
        invariant
            i <= raw.len(),
            views(rv@) == strs(raw@),
            views(kept@) == strs(raw@).take(i as int).filter(|r: Seq<char>| gcp_region_ok(r)),
            forall|k: int|
                0 <= k < i && eq_ignore_case(#[trigger] strs(raw@)[k], "global"@) ==> gcp_region_ok(
                    strs(raw@)[k],
                ),
        decreases raw.len() - i,
    {
        proof {
            lemma_take_filter(strs(raw@), i as int, |r: Seq<char>| gcp_region_ok(r));
        }
        if is_standard_gcp_region(raw[i].as_str()) {
            let c = chars_of(raw[i].as_str());
            let ghost before = kept@;
            kept.push(c);
            assert(views(kept@) =~= views(before).push(c@));
        }
        i = i + 1;
    }
    assert(strs(raw@).take(raw.len() as int) =~= strs(raw@));
    proof {
        let f = strs(raw@).filter(gcp_kept_pred());
        assert(strs(raw@).filter(|r: Seq<char>| gcp_region_ok(r)) == f);
        assert forall|k: int|
            0 <= k < raw.len() && eq_ignore_case(#[trigger] strs(raw@)[k], "global"@) implies f.contains(
            strs(raw@)[k],
        ) && mentions_global(f) by {
            strs(raw@).lemma_filter_contains(gcp_kept_pred(), k);
            let j = choose|j: int| 0 <= j < f.len() && f[j] == strs(raw@)[k];
            assert(eq_ignore_case(f[j], "global"@));
        }
        assert forall|y: Seq<char>| f.contains(y) implies strs(raw@).contains(y) by {
            strs(raw@).lemma_filter_contains_rev(gcp_kept_pred(), y);
        }
    }
    if had_global && !any_global(&kept) {
        proof {
            let k = choose|k: int| 0 <= k < strs(raw@).len() && eq_ignore_case(#[trigger] strs(raw@)[k], "global"@);
            assert(false);
        }
        let ghost before = kept@;
        kept.insert(0, chars_of("global"));
        assert(views(kept@) =~= views(before).insert(0, "global"@));
        proof {
            assert forall|y: Seq<char>| views(kept@).contains(y) <==> views(before).push("global"@).contains(y) by {
                let a = views(kept@);
                let b = views(before).push("global"@);
                if a.contains(y) {
                    let k = choose|k: int| 0 <= k < a.len() && a[k] == y;
                    if k == 0 { assert(b[b.len() - 1] == y); } else { assert(b[k - 1] == y); }
                }
                if b.contains(y) {
                    let k = choose|k: int| 0 <= k < b.len() && b[k] == y;
                    if k == b.len() - 1 { assert(a[0] == y); } else { assert(a[k + 1] == y); }
                }
            }
        }
        let out = sorted_unique(&kept);
        return out;
    }
    sorted_unique(&kept)
}

} // verus!
