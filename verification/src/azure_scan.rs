//! The Azure service catalog scan: pages of the Retail Prices API are read
//! one after the other, each item adding its service, SKU and region; the
//! scan stops at a page limit or at the API's pagination cap, and ends in one
//! catalog row per service.
use vstd::prelude::*;
use crate::estimate::opt_view;
use crate::llm::{slug, slugify};
use crate::regions::{azure_kept, filter_azure_service_regions};
use crate::service_rules::{category_rule, infer_category, infer_unit, unit_rule};
use crate::store::ProviderServiceIngest;
use crate::text::{
    begins, chars_of, push_str, seq_starts, split, split_on, string_of, strs, unicode_lowercase,
};

verus! {

/// The value of a run of decimal digits.
pub open spec fn digits_value(s: Seq<char>) -> int
    decreases s.len(),
{
    if s.len() == 0 {
        0
    } else {
        digits_value(s.drop_last()) * 10 + (s.last() as int - '0' as int)
    }
}

pub open spec fn all_digits(s: Seq<char>) -> bool {
    forall|i: int| 0 <= i < s.len() ==> '0' <= #[trigger] s[i] && s[i] <= '9'
}

/// What `str::parse::<u64>` reads: an optional `+`, then one or more decimal
/// digits whose value fits in 64 bits.
pub open spec fn parse_u64_spec(s: Seq<char>) -> Option<int> {
    let d = if s.len() > 0 && s[0] == '+' {
        s.skip(1)
    } else {
        s
    };
    if d.len() > 0 && all_digits(d) && digits_value(d) <= u64::MAX {
        Some(digits_value(d))
    } else {
        None
    }
}

proof fn lemma_digits_nonneg(s: Seq<char>)
    requires
        all_digits(s),
    ensures
        digits_value(s) >= 0,
    decreases s.len(),
{
    if s.len() > 0 {
        lemma_digits_nonneg(s.drop_last());
    }
}

proof fn lemma_digits_grow(s: Seq<char>, k: int)
    requires
        all_digits(s),
        0 <= k <= s.len(),
    ensures
        digits_value(s.take(k)) <= digits_value(s),
    decreases s.len() - k,
{
    if k < s.len() {
        lemma_digits_grow(s, k + 1);
        let t = s.take(k + 1);
        assert(t.drop_last() =~= s.take(k));
        lemma_digits_nonneg(s.take(k));
        assert(all_digits(s.take(k)));
    } else {
        assert(s.take(k) =~= s);
    }
}

/// Parses a decimal `u64` as `str::parse::<u64>` does.
pub fn parse_u64(s: &Vec<char>) -> (res: Option<u64>)
    ensures
        match res {
            Some(v) => parse_u64_spec(s@) == Some(v as int),
            None => parse_u64_spec(s@) is None,
        },
{
    let start: usize = if s.len() > 0 && s[0] == '+' {
        1
    } else {
        0
    };
    let ghost d = if s@.len() > 0 && s@[0] == '+' {
        s@.skip(1)
    } else {
        s@
    };
    assert(d =~= s@.skip(start as int));
    if start >= s.len() {
        return None;
    }
    let mut v: u64 = 0;
    let mut i: usize = start;
    while i < s.len()
        invariant
            start <= i <= s.len(),
            d =~= s@.skip(start as int),
            d == (if s@.len() > 0 && s@[0] == '+' {
                s@.skip(1)
            } else {
                s@
            }),
            all_digits(d.take(i - start)),
            v == digits_value(d.take(i - start)),
        decreases s.len() - i,
    {
        let c = s[i];
        assert(d[i - start] == c);
        if c < '0' || c > '9' {
            assert(!all_digits(d));
            return None;
        }
        let digit: u64 = (c as u64) - ('0' as u64);
        assert(d.take(i - start + 1).drop_last() =~= d.take(i - start));
        assert(all_digits(d.take(i - start + 1)));
        if v > (u64::MAX - digit) / 10 {
            proof {
                assert(digits_value(d.take(i - start + 1)) == v * 10 + digit);
                assert(v * 10 + digit > u64::MAX) by (nonlinear_arith)
                    requires
                        v > (u64::MAX - digit) / 10,
                        digit <= 9,
                ;
                if all_digits(d) {
                    lemma_digits_grow(d, i - start + 1);
                }
            }
            return None;
        }
        assert(v * 10 + digit <= u64::MAX) by (nonlinear_arith)
            requires
                v <= (u64::MAX - digit) / 10,
                digit <= 9,
        ;
        v = v * 10 + digit;
        i = i + 1;
    }
    assert(d.take(i - start) =~= d);
    Some(v)
}

/// A page URL part `skip=N...` whose `N` (up to the next `&`) is at least one
/// million.
pub open spec fn skip_part_at_limit(part: Seq<char>) -> bool {
    seq_starts(part, "skip="@) && match parse_u64_spec(split_on(part.skip(5), '&')[0]) {
        Some(v) => v >= 1_000_000,
        None => false,
    }
}

/// The Retail Prices API stops accepting `$skip` at one million: a URL whose
/// `$skip` has reached it cannot be fetched.
pub open spec fn at_skip_limit(url: Seq<char>) -> bool {
    exists|i: int|
        0 <= i < split_on(url, '$').len() && skip_part_at_limit(#[trigger] split_on(url, '$')[i])
}

fn part_at_limit(part: &Vec<char>) -> (res: bool)
    ensures
        res == skip_part_at_limit(part@),
{
    if !begins(part, "skip=") {
        return false;
    }
    proof {
        reveal_strlit("skip=");
    }
    let mut rest: Vec<char> = Vec::new();
    let mut k: usize = 5;
    while k < part.len()
        invariant
            5 <= k <= part.len(),
            rest@ == part@.subrange(5, k as int),
        decreases part.len() - k,
    {
        rest.push(part[k]);
        assert(part@.subrange(5, k + 1) =~= part@.subrange(5, k as int).push(part@[k as int]));
        k = k + 1;
    }
    assert(rest@ =~= part@.skip(5));
    let pieces = split(&rest, '&');
    assert(pieces.len() >= 1) by {
        crate::text::lemma_split_nonempty(rest@, '&');
    }
    match parse_u64(&pieces[0]) {
        Some(v) => v >= 1_000_000,
        None => false,
    }
}

/// Whether a Retail Prices page URL has reached the API's `$skip` cap.
pub fn azure_retail_skip_at_limit(url: &str) -> (res: bool)
    ensures
        res == at_skip_limit(url@),
{
    let u = chars_of(url);
    let parts = split(&u, '$');
    let mut i: usize = 0;
    while i < parts.len()
        invariant
            i <= parts.len(),
            u@ == url@,
            parts.len() == split_on(u@, '$').len(),
            forall|k: int| 0 <= k < parts.len() ==> (#[trigger] parts[k])@ == split_on(u@, '$')[k],
            forall|k: int| 0 <= k < i ==> !skip_part_at_limit(#[trigger] split_on(u@, '$')[k]),
        decreases parts.len() - i,
    {
        assert(parts[i as int]@ == split_on(u@, '$')[i as int]);
        if part_at_limit(&parts[i]) {
            return true;
        }
        i = i + 1;
    }
    false
}

/// An item of a Retail Prices page as the catalog scan reads it.
#[derive(Debug)]
pub struct RetailItem {
    pub service_name: Option<String>,
    pub arm_sku_name: Option<String>,
    pub arm_region_name: Option<String>,
}

/// The SKU an item names (`Standard` when it names none).
pub open spec fn item_sku(it: RetailItem) -> Seq<char> {
    match opt_view(it.arm_sku_name) {
        Some(s) => if s.len() > 0 {
            s
        } else {
            "Standard"@
        },
        None => "Standard"@,
    }
}

/// The region an item names (`eastus` when it names none).
pub open spec fn item_region(it: RetailItem) -> Seq<char> {
    match opt_view(it.arm_region_name) {
        Some(r) => r,
        None => "eastus"@,
    }
}

/// The services seen, in order of first appearance.
pub open spec fn scan_names(items: Seq<RetailItem>) -> Seq<Seq<char>>
    decreases items.len(),
{
    if items.len() == 0 {
        seq![]
    } else {
        let prev = scan_names(items.drop_last());
        match opt_view(items.last().service_name) {
            Some(n) => if prev.contains(n) {
                prev
            } else {
                prev.push(n)
            },
            None => prev,
        }
    }
}

/// The SKU of the first item of service `name`.
pub open spec fn first_sku(items: Seq<RetailItem>, name: Seq<char>) -> Seq<char>
    decreases items.len(),
{
    if items.len() == 0 {
        seq![]
    } else if scan_names(items.drop_last()).contains(name) {
        first_sku(items.drop_last(), name)
    } else if opt_view(items.last().service_name) == Some(name) {
        item_sku(items.last())
    } else {
        seq![]
    }
}

/// The regions of the items of service `name`.
pub open spec fn scan_regions(items: Seq<RetailItem>, name: Seq<char>) -> Set<Seq<char>>
    decreases items.len(),
{
    if items.len() == 0 {
        Set::empty()
    } else {
        let prev = scan_regions(items.drop_last(), name);
        if opt_view(items.last().service_name) == Some(name) {
            prev.insert(item_region(items.last()))
        } else {
            prev
        }
    }
}

/// What to do after a page could not be fetched.
#[derive(Debug, Clone, Copy, PartialEq, Eq, Structural)]
pub enum PageFailure {
    /// Keep what was gathered and finish the scan.
    Finish,
    /// Give up: nothing was gathered.
    Fail,
}

/// A scan in progress: the pages begun, the page limit (0 for none) and, per
/// service seen, its first SKU and its regions.
pub struct AzureCatalogScan {
    pages: u64,
    max_pages: u64,
    names: Vec<String>,
    skus: Vec<String>,
    regions: Vec<Vec<String>>,
    seen: Ghost<Seq<RetailItem>>,
}

impl AzureCatalogScan {
    /// The items read so far.
    pub closed spec fn history(&self) -> Seq<RetailItem> {
        self.seen@
    }

    pub closed spec fn pages_begun(&self) -> int {
        self.pages as int
    }

    pub closed spec fn page_limit(&self) -> int {
        self.max_pages as int
    }

    /// The services gathered, with their SKUs and regions, are those of the
    /// items read.
    pub closed spec fn wf(&self) -> bool {
        &&& self.names.len() == self.skus.len()
        &&& self.names.len() == self.regions.len()
        &&& strs(self.names@) == scan_names(self.seen@)
        &&& forall|i: int|
            0 <= i < self.names.len() ==> (#[trigger] self.skus@[i])@ == first_sku(
                self.seen@,
                self.names@[i]@,
            )
        &&& forall|i: int|
            0 <= i < self.names.len() ==> strs((#[trigger] self.regions@[i])@).to_set()
                == scan_regions(self.seen@, self.names@[i]@)
    }

    /// A new scan; `max_pages` 0 scans every page.
    pub fn new(max_pages: u64) -> (res: AzureCatalogScan)
        ensures
            res.wf(),
            res.history().len() == 0,
            res.pages_begun() == 0,
            res.page_limit() == max_pages,
    {
        let res = AzureCatalogScan {
            pages: 0,
            max_pages,
            names: Vec::new(),
            skus: Vec::new(),
            regions: Vec::new(),
            seen: Ghost(Seq::empty()),
        };
        assert(strs(res.names@) =~= Seq::<Seq<char>>::empty());
        res
    }

    /// The number of services gathered.
    pub fn service_count(&self) -> (res: usize)
        requires
            self.wf(),
        ensures
            res == scan_names(self.history()).len(),
    {
        self.names.len()
    }

    /// The number of pages begun.
    pub fn pages(&self) -> (res: u64)
        ensures
            res == self.pages_begun(),
    {
        self.pages
    }

    /// Begins the next page: counts it, and says whether to fetch it — not
    /// past the page limit, and not once the URL has reached the `$skip` cap.
    pub fn begin_page(&mut self, url: &str) -> (fetch: bool)
        requires
            old(self).pages_begun() < u64::MAX,
        ensures
            final(self).pages_begun() == old(self).pages_begun() + 1,
            final(self).page_limit() == old(self).page_limit(),
            final(self).history() == old(self).history(),
            old(self).wf() ==> final(self).wf(),
            fetch == !((old(self).page_limit() > 0 && final(self).pages_begun() > old(self).page_limit())
                || at_skip_limit(url@)),
    {
        self.pages = self.pages + 1;
        if self.max_pages > 0 && self.pages > self.max_pages {
            return false;
        }
        !azure_retail_skip_at_limit(url)
    }

    /// What a failed page fetch means: at the `$skip` cap, or with services
    /// already gathered, the scan finishes with what it has; otherwise it
    /// fails.
    pub fn on_fetch_failure(&self, url: &str) -> (res: PageFailure)
        requires
            self.wf(),
        ensures
            res == (if at_skip_limit(url@) || scan_names(self.history()).len() > 0 {
                PageFailure::Finish
            } else {
                PageFailure::Fail
            }),
    {
        if azure_retail_skip_at_limit(url) || self.names.len() > 0 {
            PageFailure::Finish
        } else {
            PageFailure::Fail
        }
    }

    fn add_item(&mut self, it: RetailItem)
        requires
            old(self).wf(),
        ensures
            final(self).wf(),
            final(self).history() == old(self).history().push(it),
            final(self).pages_begun() == old(self).pages_begun(),
            final(self).page_limit() == old(self).page_limit(),
    {
        let ghost h = self.seen@;
        let ghost h2 = h.push(it);
        assert(h2.drop_last() =~= h);
        let ghost old_names = self.names@;
        match &it.service_name {
            None => {
                proof {
                    assert(scan_names(h2) == scan_names(h));
                    assert forall|n: Seq<char>| #[trigger] first_sku(h2, n) == first_sku(h, n)
                        || !scan_names(h).contains(n) by {}
                }
                self.seen = Ghost(h2);
                proof {
                    assert forall|i: int| 0 <= i < self.names.len() implies (#[trigger] self.skus@[i])@
                        == first_sku(self.seen@, self.names@[i]@) by {
                        assert(strs(self.names@)[i] == self.names@[i]@);
                        assert(scan_names(h).contains(self.names@[i]@));
                    }
                    assert forall|i: int| 0 <= i < self.names.len() implies strs(
                        (#[trigger] self.regions@[i])@,
                    ).to_set() == scan_regions(self.seen@, self.names@[i]@) by {}
                }
            },
            Some(name) => {
                let sku = match &it.arm_sku_name {
                    Some(s) => if !s.as_str().is_empty() {
                        s.clone()
                    } else {
                        "Standard".to_owned()
                    },
                    None => "Standard".to_owned(),
                };
                let region = match &it.arm_region_name {
                    Some(r) => r.clone(),
                    None => "eastus".to_owned(),
                };
                let mut i: usize = 0;
                while i < self.names.len() && !(self.names[i] == *name)
                    invariant
                        i <= self.names.len(),
                        self.names@ == old_names,
                        forall|j: int| 0 <= j < i ==> old_names[j]@ != name@,
                    decreases self.names.len() - i,
                {
                    i = i + 1;
                }
                if i < self.names.len() {
                    let ghost old_regions = self.regions@;
                    let r = self.regions.remove(i);
                    let r2 = crate::llm::insert_region(r, region);
                    self.regions.insert(i, r2);
                    proof {
                        assert(strs(old_names)[i as int] == name@);
                        assert(scan_names(h).contains(name@));
                        assert(scan_names(h2) == scan_names(h));
                        assert(self.regions@ =~= old_regions.update(i as int, r2));
                    }
                    self.seen = Ghost(h2);
                    proof {
                        assert forall|k: int| 0 <= k < self.names.len() implies (#[trigger] self.skus@[k])@
                            == first_sku(self.seen@, self.names@[k]@) by {
                            assert(strs(self.names@)[k] == self.names@[k]@);
                            assert(scan_names(h).contains(self.names@[k]@));
                        }
                        assert forall|k: int| 0 <= k < self.names.len() implies strs(
                            (#[trigger] self.regions@[k])@,
                        ).to_set() == scan_regions(self.seen@, self.names@[k]@) by {
                            if k != i {
                                assert(strs(self.names@)[k] == self.names@[k]@);
                                assert(strs(self.names@)[i as int] == name@);
                                assert(self.names@[k]@ != name@) by {
                                    assert(strs(self.names@).no_duplicates()) by {
                                        lemma_scan_names_distinct(h);
                                    }
                                }
                            }
                        }
                    }
                } else {
                    let ghost n = name@;
                    proof {
                        assert(!scan_names(h).contains(n)) by {
                            if scan_names(h).contains(n) {
                                let j = choose|j: int| 0 <= j < scan_names(h).len() && scan_names(h)[j] == n;
                                assert(strs(old_names)[j] == old_names[j]@);
                            }
                        }
                    }
                    let nm = name.clone();
                    self.names.push(nm);
                    self.skus.push(sku);
                    let mut rs: Vec<String> = Vec::new();
                    rs.push(region);
                    self.regions.push(rs);
                    self.seen = Ghost(h2);
                    proof {
                        assert(strs(self.names@) =~= strs(old_names).push(n));
                        assert(scan_names(h2) == scan_names(h).push(n));
                        assert forall|k: int| 0 <= k < self.names.len() implies (#[trigger] self.skus@[k])@
                            == first_sku(self.seen@, self.names@[k]@) by {
                            assert(strs(self.names@)[k] == self.names@[k]@);
                            if k < old_names.len() {
                                assert(scan_names(h).contains(self.names@[k]@));
                            }
                        }
                        assert forall|k: int| 0 <= k < self.names.len() implies strs(
                            (#[trigger] self.regions@[k])@,
                        ).to_set() == scan_regions(self.seen@, self.names@[k]@) by {
                            assert(strs(self.names@)[k] == self.names@[k]@);
                            if k < old_names.len() {
                                assert(self.names@[k]@ != n) by {
                                    assert(scan_names(h).contains(self.names@[k]@));
                                }
                            } else {
                                assert(scan_regions(h, n) =~= Set::<Seq<char>>::empty()) by {
                                    lemma_regions_of_unseen(h, n);
                                }
                                assert(strs(rs@) =~= seq![item_region(it)]);
                                assert forall|x: Seq<char>| #[trigger] strs(rs@).to_set().contains(x) == Set::<Seq<char>>::empty().insert(item_region(it)).contains(x) by {
                                    if x == item_region(it) {
                                        assert(strs(rs@)[0] == x);
                                    }
                                }
                                assert(strs(rs@).to_set() =~= Set::<Seq<char>>::empty().insert(item_region(it)));
                            }
                        }
                    }
                }
            },
        }
    }

    /// Reads the items of one page.
    pub fn on_page(&mut self, items: Vec<RetailItem>)
        requires
            old(self).wf(),
        ensures
            final(self).wf(),
            final(self).history() == old(self).history() + items@,
            final(self).pages_begun() == old(self).pages_begun(),
            final(self).page_limit() == old(self).page_limit(),
    {
        let ghost h0 = self.history();
        let ghost all = items@;
        assert(all.len() == items.len());
        let mut rest = items;
        let mut taken: usize = 0;
        let ghost n = all.len();
        while rest.len() > 0
            invariant
                self.wf(),
                rest@ == all.skip(taken as int),
                taken <= n,
                n == all.len(),
                n <= usize::MAX,
                self.history() == h0 + all.take(taken as int),
                self.pages_begun() == old(self).pages_begun(),
                self.page_limit() == old(self).page_limit(),
            decreases rest.len(),
        {
            assert(all.len() - taken > 0);
            let it = rest.remove(0);
            assert(it == all[taken as int]);
            self.add_item(it);
            assert(all.take(taken + 1) =~= all.take(taken as int).push(all[taken as int]));
            assert(rest@ =~= all.skip(taken + 1));
            taken = taken + 1;
        }
        assert(taken == n);
        assert(all.take(taken as int) =~= all);
    }

    /// One catalog row per service gathered.
    pub fn rows(&self) -> (res: Vec<ProviderServiceIngest>)
        requires
            self.wf(),
        ensures
            res.len() == scan_names(self.history()).len(),
            forall|i: int|
                0 <= i < res.len() ==> azure_row_for(
                    scan_names(self.history())[i],
                    first_sku(self.history(), scan_names(self.history())[i]),
                    scan_regions(self.history(), scan_names(self.history())[i]),
                    #[trigger] res[i],
                ),
    {
        let mut out: Vec<ProviderServiceIngest> = Vec::new();
        let mut i: usize = 0;
        while i < self.names.len()
            invariant
                self.wf(),
                i <= self.names.len(),
                out.len() == i,
                forall|k: int|
                    0 <= k < i ==> azure_row_for(
                        scan_names(self.history())[k],
                        first_sku(self.history(), scan_names(self.history())[k]),
                        scan_regions(self.history(), scan_names(self.history())[k]),
                        #[trigger] out[k],
                    ),
            decreases self.names.len() - i,
        {
            assert(strs(self.names@)[i as int] == self.names@[i as int]@);
            let row = azure_row(&self.names[i], &self.skus[i], self.regions[i].clone());
            proof {
                let rv = self.regions@[i as int];
                assert(strs(rv@).to_set() == scan_regions(self.history(), self.names@[i as int]@));
            }
            out.push(row);
            i = i + 1;
        }
        out
    }
}

/// Distinct services are gathered once each.
pub proof fn lemma_scan_names_distinct(items: Seq<RetailItem>)
    ensures
        scan_names(items).no_duplicates(),
    decreases items.len(),
{
    if items.len() > 0 {
        lemma_scan_names_distinct(items.drop_last());
    }
}

proof fn lemma_regions_of_unseen(items: Seq<RetailItem>, n: Seq<char>)
    requires
        !scan_names(items).contains(n),
    ensures
        scan_regions(items, n) == Set::<Seq<char>>::empty(),
    decreases items.len(),
{
    if items.len() > 0 {
        let prev = scan_names(items.drop_last());
        if prev.contains(n) {
            let j = choose|j: int| 0 <= j < prev.len() && prev[j] == n;
            assert(scan_names(items).contains(n)) by {
                match opt_view(items.last().service_name) {
                    Some(m) => {
                        if !prev.contains(m) {
                            assert(prev.push(m)[j] == n);
                        }
                    },
                    None => {},
                }
            }
        }
        lemma_regions_of_unseen(items.drop_last(), n);
        if opt_view(items.last().service_name) == Some(n) {
            assert(scan_names(items).contains(n)) by {
                assert(prev.push(n)[prev.len() as int] == n);
            }
        }
    }
}

/// `row` is the catalog row of Azure service `name` with its first SKU and
/// regions: id `azure:SLUG`, the service's inferred category and unit, the
/// service name as display name and `serviceName` attribute, the SKU as
/// default and as description hint, and the standard regions among those
/// seen (sorted, without duplicates).
pub open spec fn azure_row_for(
    name: Seq<char>,
    sku: Seq<char>,
    regions: Set<Seq<char>>,
    row: ProviderServiceIngest,
) -> bool {
    &&& row.catalog_id@ == "azure:"@ + slug(name)
    &&& row.provider@ == "azure"@
    &&& row.service_key@ == slug(name)
    &&& row.display_name@ == name
    &&& row.category_id@ == category_rule(unicode_lowercase(name))
    &&& row.unit@ == unit_rule(unicode_lowercase(name))
    &&& row.default_sku@ == sku
    &&& row.offer_code is None
    &&& opt_view(row.attr_key) == Some("serviceName"@)
    &&& opt_view(row.attr_value) == Some(name)
    &&& row.billing_service_id is None
    &&& opt_view(row.sku_description_hint) == Some(sku)
    &&& crate::order::strictly_sorted(strs(row.regions@))
    &&& forall|y: Seq<char>|
        strs(row.regions@).contains(y) <==> azure_kept_set(regions).contains(y)
}

/// The regions kept from a set of raw Azure regions.
pub open spec fn azure_kept_set(raw: Set<Seq<char>>) -> Set<Seq<char>> {
    Set::new(
        |y: Seq<char>|
            (raw.contains(y) && crate::regions::azure_region_ok(y)) || (y == "global"@ && (exists|
                x: Seq<char>,
            | raw.contains(x) && crate::text::eq_ignore_case(x, "global"@)) && !(exists|
                x: Seq<char>,
            |
                raw.contains(x) && crate::regions::azure_region_ok(x) && crate::text::eq_ignore_case(
                    x,
                    "global"@,
                ))),
    )
}

fn azure_row(name: &String, sku: &String, regions: Vec<String>) -> (res: ProviderServiceIngest)
    ensures
        azure_row_for(name@, sku@, strs(regions@).to_set(), res),
{
    let ghost raw = strs(regions@);
    let kept = filter_azure_service_regions(regions);
    proof {
        lemma_azure_kept_set(raw);
        assert forall|y: Seq<char>| strs(kept@).contains(y) <==> azure_kept_set(raw.to_set()).contains(y) by {
            assert(azure_kept(raw).contains(y) == azure_kept_set(raw.to_set()).contains(y));
        }
    }
    let key = slugify(name.as_str());
    let mut catalog_id = "azure:".to_owned();
    push_str(&mut catalog_id, key.as_str());
    ProviderServiceIngest {
        catalog_id,
        provider: "azure".to_owned(),
        service_key: key,
        display_name: name.clone(),
        category_id: infer_category(name.as_str()).to_owned(),
        unit: infer_unit(name.as_str()).to_owned(),
        default_sku: sku.clone(),
        offer_code: None,
        attr_key: Some("serviceName".to_owned()),
        attr_value: Some(name.clone()),
        billing_service_id: None,
        sku_description_hint: Some(sku.clone()),
        regions: kept,
    }
}

proof fn lemma_azure_kept_set(raw: Seq<Seq<char>>)
    ensures
        forall|y: Seq<char>| #[trigger] azure_kept(raw).contains(y) == azure_kept_set(raw.to_set()).contains(y),
{
    let p = |r: Seq<char>| crate::regions::azure_region_ok(r);
    let kept = raw.filter(p);
    assert forall|x: Seq<char>| #[trigger] kept.contains(x) <==> (raw.contains(x) && crate::regions::azure_region_ok(x)) by {
        if kept.contains(x) {
            raw.lemma_filter_contains_rev(p, x);
            let i = choose|i: int| 0 <= i < kept.len() && kept[i] == x;
            raw.lemma_filter_pred(p, i);
        }
        if raw.contains(x) && crate::regions::azure_region_ok(x) {
            let i = choose|i: int| 0 <= i < raw.len() && raw[i] == x;
            raw.lemma_filter_contains(p, i);
        }
    }
    let g = "global"@;
    assert(crate::regions::mentions_global(raw) == (exists|x: Seq<char>| raw.to_set().contains(x) && crate::text::eq_ignore_case(x, g))) by {
        if crate::regions::mentions_global(raw) {
            let i = choose|i: int| 0 <= i < raw.len() && crate::text::eq_ignore_case(#[trigger] raw[i], g);
            assert(raw.to_set().contains(raw[i]));
        }
        if exists|x: Seq<char>| raw.to_set().contains(x) && crate::text::eq_ignore_case(x, g) {
            let x = choose|x: Seq<char>| raw.to_set().contains(x) && crate::text::eq_ignore_case(x, g);
            let i = choose|i: int| 0 <= i < raw.len() && raw[i] == x;
            assert(crate::text::eq_ignore_case(raw[i], g));
        }
    }
    assert(crate::regions::mentions_global(kept) == (exists|x: Seq<char>| raw.to_set().contains(x) && crate::regions::azure_region_ok(x) && crate::text::eq_ignore_case(x, g))) by {
        if crate::regions::mentions_global(kept) {
            let i = choose|i: int| 0 <= i < kept.len() && crate::text::eq_ignore_case(#[trigger] kept[i], g);
            assert(kept.contains(kept[i]));
            assert(raw.to_set().contains(kept[i]));
        }
        if exists|x: Seq<char>| raw.to_set().contains(x) && crate::regions::azure_region_ok(x) && crate::text::eq_ignore_case(x, g) {
            let x = choose|x: Seq<char>| raw.to_set().contains(x) && crate::regions::azure_region_ok(x) && crate::text::eq_ignore_case(x, g);
            assert(kept.contains(x));
            let i = choose|i: int| 0 <= i < kept.len() && kept[i] == x;
            assert(crate::text::eq_ignore_case(kept[i], g));
        }
    }
    assert forall|y: Seq<char>| #[trigger] azure_kept(raw).contains(y) == azure_kept_set(raw.to_set()).contains(y) by {
        if crate::regions::mentions_global(raw) && !crate::regions::mentions_global(kept) {
            let k2 = kept.push(g);
            assert(k2.contains(y) == (kept.contains(y) || y == g)) by {
                if k2.contains(y) {
                    let i = choose|i: int| 0 <= i < k2.len() && k2[i] == y;
                    if i < kept.len() {
                        assert(kept[i] == y);
                    }
                }
                if kept.contains(y) {
                    let i = choose|i: int| 0 <= i < kept.len() && kept[i] == y;
                    assert(k2[i] == y);
                }
                if y == g {
                    assert(k2[kept.len() as int] == y);
                }
            }
        }
    }
}

} // verus!
