//! The service catalog shown to users: categories, services with their
//! per-provider entries and regions, and the LLM model list.
use vstd::prelude::*;
use crate::models::CloudProvider;
use crate::service_rules::{is_llm_token_service, is_llm_token_service_spec};
use crate::text::{str_eq, strs};

verus! {

#[derive(Debug, Clone, Copy, PartialEq, Eq, Hash, Structural)]
pub enum ServiceCategory {
    Compute,
    Storage,
    Database,
    Messaging,
    Networking,
    Security,
    AiMl,
}

impl ServiceCategory {
    pub open spec fn all_spec() -> Seq<ServiceCategory> {
        seq![
            ServiceCategory::Compute,
            ServiceCategory::Storage,
            ServiceCategory::Database,
            ServiceCategory::Messaging,
            ServiceCategory::Networking,
            ServiceCategory::Security,
            ServiceCategory::AiMl,
        ]
    }

    pub open spec fn label_spec(self) -> Seq<char> {
        match self {
            ServiceCategory::Compute => "Compute"@,
            ServiceCategory::Storage => "Storage"@,
            ServiceCategory::Database => "Database"@,
            ServiceCategory::Messaging => "Messaging"@,
            ServiceCategory::Networking => "Networking"@,
            ServiceCategory::Security => "Security"@,
            ServiceCategory::AiMl => "AI / ML"@,
        }
    }

    pub open spec fn id_spec(self) -> Seq<char> {
        match self {
            ServiceCategory::Compute => "compute"@,
            ServiceCategory::Storage => "storage"@,
            ServiceCategory::Database => "database"@,
            ServiceCategory::Messaging => "messaging"@,
            ServiceCategory::Networking => "networking"@,
            ServiceCategory::Security => "security"@,
            ServiceCategory::AiMl => "ai_ml"@,
        }
    }

    /// The category with id `id`; an unknown id is Compute.
    pub open spec fn from_id_spec(id: Seq<char>) -> ServiceCategory {
        if id == "storage"@ {
            ServiceCategory::Storage
        } else if id == "database"@ {
            ServiceCategory::Database
        } else if id == "messaging"@ {
            ServiceCategory::Messaging
        } else if id == "networking"@ {
            ServiceCategory::Networking
        } else if id == "security"@ {
            ServiceCategory::Security
        } else if id == "ai_ml"@ {
            ServiceCategory::AiMl
        } else {
            ServiceCategory::Compute
        }
    }

    /// Every category, in display order.
    pub fn all() -> (res: Vec<ServiceCategory>)
        ensures
            res@ == Self::all_spec(),
    {
        let v = vec![
            ServiceCategory::Compute,
            ServiceCategory::Storage,
            ServiceCategory::Database,
            ServiceCategory::Messaging,
            ServiceCategory::Networking,
            ServiceCategory::Security,
            ServiceCategory::AiMl,
        ];
        assert(v@ =~= Self::all_spec());
        v
    }

    pub fn label(self) -> (res: &'static str)
        ensures
            res@ == self.label_spec(),
    {
        match self {
            ServiceCategory::Compute => "Compute",
            ServiceCategory::Storage => "Storage",
            ServiceCategory::Database => "Database",
            ServiceCategory::Messaging => "Messaging",
            ServiceCategory::Networking => "Networking",
            ServiceCategory::Security => "Security",
            ServiceCategory::AiMl => "AI / ML",
        }
    }

    pub fn id(self) -> (res: &'static str)
        ensures
            res@ == self.id_spec(),
    {
        match self {
            ServiceCategory::Compute => "compute",
            ServiceCategory::Storage => "storage",
            ServiceCategory::Database => "database",
            ServiceCategory::Messaging => "messaging",
            ServiceCategory::Networking => "networking",
            ServiceCategory::Security => "security",
            ServiceCategory::AiMl => "ai_ml",
        }
    }

    pub fn from_id(id: &str) -> (res: ServiceCategory)
        ensures
            res == Self::from_id_spec(id@),
    {
        if str_eq(id, "storage") {
            ServiceCategory::Storage
        } else if str_eq(id, "database") {
            ServiceCategory::Database
        } else if str_eq(id, "messaging") {
            ServiceCategory::Messaging
        } else if str_eq(id, "networking") {
            ServiceCategory::Networking
        } else if str_eq(id, "security") {
            ServiceCategory::Security
        } else if str_eq(id, "ai_ml") {
            ServiceCategory::AiMl
        } else {
            ServiceCategory::Compute
        }
    }
}

/// Reading back a category's id gives the category.
pub proof fn lemma_category_id_roundtrip(c: ServiceCategory)
    ensures
        ServiceCategory::from_id_spec(c.id_spec()) == c,
{
    reveal_strlit("compute");
    reveal_strlit("storage");
    reveal_strlit("database");
    reveal_strlit("messaging");
    reveal_strlit("networking");
    reveal_strlit("security");
    reveal_strlit("ai_ml");
    assert("compute"@[0] != "storage"@[0]);
    assert("compute"@[0] != "database"@[0]);
    assert("compute"@[0] != "messaging"@[0]);
    assert("compute"@[0] != "networking"@[0]);
    assert("compute"@[0] != "security"@[0]);
    assert("compute"@[0] != "ai_ml"@[0]);
    assert("database"@[0] != "storage"@[0]);
    assert("messaging"@[0] != "storage"@[0]);
    assert("messaging"@[0] != "database"@[0]);
    assert("networking"@[0] != "storage"@[0]);
    assert("networking"@[0] != "database"@[0]);
    assert("networking"@[0] != "messaging"@[0]);
    assert("security"@.len() != "storage"@.len());
    assert("security"@[0] != "database"@[0]);
    assert("security"@[0] != "messaging"@[0]);
    assert("security"@[0] != "networking"@[0]);
    assert("ai_ml"@[0] != "storage"@[0]);
    assert("ai_ml"@[0] != "database"@[0]);
    assert("ai_ml"@[0] != "messaging"@[0]);
    assert("ai_ml"@[0] != "networking"@[0]);
    assert("ai_ml"@[0] != "security"@[0]);
}

/// Distinct categories have distinct ids.
pub proof fn lemma_category_ids_distinct(a: ServiceCategory, b: ServiceCategory)
    requires
        a != b,
    ensures
        a.id_spec() != b.id_spec(),
{
    lemma_category_id_roundtrip(a);
    lemma_category_id_roundtrip(b);
}

/// One cloud's offering of a catalog service.
#[derive(Debug, Clone)]
pub struct CatalogProviderEntry {
    pub provider: CloudProvider,
    pub service_key: String,
    pub default_sku: String,
    pub regions: Vec<String>,
}

/// A catalog service with its provider entries.
#[derive(Debug, Clone)]
pub struct CatalogService {
    pub id: String,
    pub name: String,
    pub category: ServiceCategory,
    pub unit: String,
    pub providers: Vec<CatalogProviderEntry>,
}

/// The whole catalog.
#[derive(Debug, Clone)]
pub struct CatalogResponse {
    pub categories: Vec<CatalogCategory>,
    pub llm_models: Vec<LlmCatalogEntry>,
}

/// A category with its services.
#[derive(Debug, Clone)]
pub struct CatalogCategory {
    pub id: String,
    pub label: String,
    pub services: Vec<CatalogService>,
}

/// An LLM model with its token rates (per million tokens).
#[derive(Debug, Clone)]
pub struct LlmCatalogEntry {
    pub id: String,
    pub label: String,
    /// Cloud provider key (`aws`, `azure`, `gcp`).
    pub provider: String,
    pub input_per_mtok: Option<String>,
    pub output_per_mtok: Option<String>,
    /// Regions where the model is offered (empty = every region).
    pub regions: Vec<String>,
}

/// A user-supplied LLM model with its token rates.
#[derive(Debug, Clone)]
pub struct AddLlmModelRequest {
    pub id: String,
    pub label: String,
    pub provider: String,
    pub input_per_mtok: String,
    pub output_per_mtok: String,
}

/// Provider, service key, default SKU and regions of an entry.
pub type EntryView = (CloudProvider, Seq<char>, Seq<char>, Seq<Seq<char>>);

/// Id, name, category, unit and entries of a service.
pub type ServiceView = (Seq<char>, Seq<char>, ServiceCategory, Seq<char>, Seq<EntryView>);

/// Id, label and services of a category.
pub type CategoryView = (Seq<char>, Seq<char>, Seq<ServiceView>);

impl CatalogProviderEntry {
    pub open spec fn view(&self) -> EntryView {
        (self.provider, self.service_key@, self.default_sku@, strs(self.regions@))
    }
}

pub open spec fn entry_views(v: Seq<CatalogProviderEntry>) -> Seq<EntryView> {
    v.map_values(|e: CatalogProviderEntry| e.view())
}

impl CatalogService {
    pub open spec fn view(&self) -> ServiceView {
        (self.id@, self.name@, self.category, self.unit@, entry_views(self.providers@))
    }
}

pub open spec fn service_views(v: Seq<CatalogService>) -> Seq<ServiceView> {
    v.map_values(|s: CatalogService| s.view())
}

impl CatalogCategory {
    pub open spec fn view(&self) -> CategoryView {
        (self.id@, self.label@, service_views(self.services@))
    }
}

pub open spec fn category_views(v: Seq<CatalogCategory>) -> Seq<CategoryView> {
    v.map_values(|c: CatalogCategory| c.view())
}

/// A row of the provider-services table as the catalog query reads it.
#[derive(Debug, Clone)]
pub struct ProviderServiceRow {
    pub catalog_id: String,
    pub category_id: String,
    pub display_name: String,
    pub unit: String,
    pub provider: String,
    pub service_key: String,
    pub default_sku: String,
}

pub open spec fn pair_views(v: Seq<(String, String)>) -> Seq<(Seq<char>, Seq<char>)> {
    v.map_values(|p: (String, String)| (p.0@, p.1@))
}

/// The regions paired with `id`, in order.
pub open spec fn regions_for(pairs: Seq<(Seq<char>, Seq<char>)>, id: Seq<char>) -> Seq<Seq<char>>
    decreases pairs.len(),
{
    if pairs.len() == 0 {
        seq![]
    } else {
        let prev = regions_for(pairs.drop_last(), id);
        if pairs.last().0 == id {
            prev.push(pairs.last().1)
        } else {
            prev
        }
    }
}

/// A provider-services row is listed under category `cat_id` when it belongs
/// to it, is not a token-priced LLM API and names a known provider.
pub open spec fn row_listed(r: ProviderServiceRow, cat_id: Seq<char>) -> bool {
    &&& r.category_id@ == cat_id
    &&& !is_llm_token_service_spec(r.service_key@)
    &&& CloudProvider::from_key(r.provider@) is Some
}

/// The service a listed row shows: one provider entry with the row's regions.
pub open spec fn row_service(
    r: ProviderServiceRow,
    cat_id: Seq<char>,
    regions: Seq<(Seq<char>, Seq<char>)>,
) -> ServiceView {
    (
        r.catalog_id@,
        r.display_name@,
        ServiceCategory::from_id_spec(cat_id),
        r.unit@,
        seq![
            (
                CloudProvider::from_key(r.provider@).unwrap(),
                r.service_key@,
                r.default_sku@,
                regions_for(regions, r.catalog_id@),
            ),
        ],
    )
}

/// The services of category `cat_id`, in row order.
pub open spec fn services_in(
    rows: Seq<ProviderServiceRow>,
    cat_id: Seq<char>,
    regions: Seq<(Seq<char>, Seq<char>)>,
) -> Seq<ServiceView>
    decreases rows.len(),
{
    if rows.len() == 0 {
        seq![]
    } else {
        let prev = services_in(rows.drop_last(), cat_id, regions);
        if row_listed(rows.last(), cat_id) {
            prev.push(row_service(rows.last(), cat_id, regions))
        } else {
            prev
        }
    }
}

/// The categories in the given order, each with its services; a category
/// without services is left out.
pub open spec fn categories_of(
    cats: Seq<(Seq<char>, Seq<char>)>,
    rows: Seq<ProviderServiceRow>,
    regions: Seq<(Seq<char>, Seq<char>)>,
) -> Seq<CategoryView>
    decreases cats.len(),
{
    if cats.len() == 0 {
        seq![]
    } else {
        let prev = categories_of(cats.drop_last(), rows, regions);
        let c = cats.last();
        let s = services_in(rows, c.0, regions);
        if s.len() > 0 {
            prev.push((c.0, c.1, s))
        } else {
            prev
        }
    }
}

fn regions_list(regions: &Vec<(String, String)>, id: &String) -> (res: Vec<String>)
    ensures
        strs(res@) == regions_for(pair_views(regions@), id@),
{
    let mut out: Vec<String> = Vec::new();
    let mut i: usize = 0;
    while i < regions.len()
        invariant
            i <= regions.len(),
            strs(out@) == regions_for(pair_views(regions@).take(i as int), id@),
        decreases regions.len() - i,
    {
        proof {
            let pv = pair_views(regions@);
            assert(pv.take(i + 1).drop_last() =~= pv.take(i as int));
            assert(pv.take(i + 1).last() == (regions@[i as int].0@, regions@[i as int].1@));
        }
        if regions[i].0 == *id {
            let r = regions[i].1.clone();
            let ghost before = out@;
            out.push(r);
            assert(strs(out@) =~= strs(before).push(r@));
        }
        i = i + 1;
    }
    assert(pair_views(regions@).take(regions.len() as int) =~= pair_views(regions@));
    out
}

fn services_for_category(
    cat_id: &String,
    rows: &Vec<ProviderServiceRow>,
    regions: &Vec<(String, String)>,
) -> (res: Vec<CatalogService>)
    ensures
        service_views(res@) == services_in(rows@, cat_id@, pair_views(regions@)),
{
    let mut out: Vec<CatalogService> = Vec::new();
    let mut i: usize = 0;
    while i < rows.len()
        invariant
            i <= rows.len(),
            service_views(out@) == services_in(rows@.take(i as int), cat_id@, pair_views(regions@)),
        decreases rows.len() - i,
    {
        proof {
            assert(rows@.take(i + 1).drop_last() =~= rows@.take(i as int));
            assert(rows@.take(i + 1).last() == rows@[i as int]);
        }
        let row = &rows[i];
        if row.category_id == *cat_id && !is_llm_token_service(row.service_key.as_str()) {
            match CloudProvider::parse(row.provider.as_str()) {
                Some(cloud) => {
                    let entry_regions = regions_list(regions, &row.catalog_id);
                    let entry = CatalogProviderEntry {
                        provider: cloud,
                        service_key: row.service_key.clone(),
                        default_sku: row.default_sku.clone(),
                        regions: entry_regions,
                    };
                    let providers = vec![entry];
                    assert(entry_views(providers@) =~= seq![entry.view()]);
                    let svc = CatalogService {
                        id: row.catalog_id.clone(),
                        name: row.display_name.clone(),
                        category: ServiceCategory::from_id(cat_id.as_str()),
                        unit: row.unit.clone(),
                        providers,
                    };
                    let ghost before = out@;
                    out.push(svc);
                    assert(service_views(out@) =~= service_views(before).push(svc.view()));
                },
                None => {},
            }
        }
        i = i + 1;
    }
    assert(rows@.take(rows.len() as int) =~= rows@);
    out
}

/// Every category listed has at least one service, and every service carries
/// the category it is listed under.
pub open spec fn catalog_grouped(cats: Seq<CategoryView>) -> bool {
    forall|i: int|
        0 <= i < cats.len() ==> (#[trigger] cats[i]).2.len() > 0 && forall|j: int|
            0 <= j < cats[i].2.len() ==> (#[trigger] cats[i].2[j]).2 == ServiceCategory::from_id_spec(
                cats[i].0,
            )
}

proof fn lemma_services_in_category(
    rows: Seq<ProviderServiceRow>,
    cat_id: Seq<char>,
    regions: Seq<(Seq<char>, Seq<char>)>,
)
    ensures
        forall|j: int|
            0 <= j < services_in(rows, cat_id, regions).len() ==> (#[trigger] services_in(
                rows,
                cat_id,
                regions,
            )[j]).2 == ServiceCategory::from_id_spec(cat_id),
    decreases rows.len(),
{
    if rows.len() > 0 {
        lemma_services_in_category(rows.drop_last(), cat_id, regions);
    }
}

/// The catalog built from the provider-services tables leaves out empty
/// categories and lists each service under its own category.
pub proof fn lemma_catalog_grouped(
    cats: Seq<(Seq<char>, Seq<char>)>,
    rows: Seq<ProviderServiceRow>,
    regions: Seq<(Seq<char>, Seq<char>)>,
)
    ensures
        catalog_grouped(categories_of(cats, rows, regions)),
    decreases cats.len(),
{
    if cats.len() > 0 {
        lemma_catalog_grouped(cats.drop_last(), rows, regions);
        lemma_services_in_category(rows, cats.last().0, regions);
        let prev = categories_of(cats.drop_last(), rows, regions);
        let all = categories_of(cats, rows, regions);
        assert forall|i: int| 0 <= i < all.len() implies (#[trigger] all[i]).2.len() > 0 && forall|j: int|
            0 <= j < all[i].2.len() ==> (#[trigger] all[i].2[j]).2 == ServiceCategory::from_id_spec(
                all[i].0,
            ) by {
            if i < prev.len() {
                assert(all[i] == prev[i]);
            }
        }
    }
}

/// The catalog built from the provider-services tables: categories in the
/// given order, each with its listed services (a service per row, with the
/// regions recorded for its catalog id); empty categories are left out. The
/// LLM model list is carried over as given.
pub fn catalog_from_provider_services(
    categories: &Vec<(String, String)>,
    services: &Vec<ProviderServiceRow>,
    regions: &Vec<(String, String)>,
    llm_models: Vec<LlmCatalogEntry>,
) -> (res: CatalogResponse)
    ensures
        category_views(res.categories@) == categories_of(
            pair_views(categories@),
            services@,
            pair_views(regions@),
        ),
        catalog_grouped(category_views(res.categories@)),
        res.llm_models == llm_models,
{
    proof {
        lemma_catalog_grouped(pair_views(categories@), services@, pair_views(regions@));
    }
    let mut out: Vec<CatalogCategory> = Vec::new();
    let mut i: usize = 0;
    while i < categories.len()
        invariant
            i <= categories.len(),
            category_views(out@) == categories_of(
                pair_views(categories@).take(i as int),
                services@,
                pair_views(regions@),
            ),
        decreases categories.len() - i,
    {
        proof {
            let cv = pair_views(categories@);
            assert(cv.take(i + 1).drop_last() =~= cv.take(i as int));
            assert(cv.take(i + 1).last() == (categories@[i as int].0@, categories@[i as int].1@));
        }
        let svcs = services_for_category(&categories[i].0, services, regions);
        if svcs.len() > 0 {
            let cat = CatalogCategory {
                id: categories[i].0.clone(),
                label: categories[i].1.clone(),
                services: svcs,
            };
            let ghost before = out@;
            out.push(cat);
            assert(category_views(out@) =~= category_views(before).push(cat.view()));
        }
        i = i + 1;
    }
    assert(pair_views(categories@).take(categories.len() as int) =~= pair_views(categories@));
    CatalogResponse { categories: out, llm_models }
}

/// A row of the older catalog tables: a service (id, category id, name, unit).
pub type LegacyServiceRow = (String, String, String, String);

/// A provider entry of the older tables: (entry id, service id, provider,
/// service key, default SKU).
pub type LegacyEntryRow = (i64, String, String, String, String);

/// The regions of entry `eid`, in order.
pub open spec fn legacy_regions_for(regions: Seq<(i64, String)>, eid: i64) -> Seq<Seq<char>>
    decreases regions.len(),
{
    if regions.len() == 0 {
        seq![]
    } else {
        let prev = legacy_regions_for(regions.drop_last(), eid);
        if regions.last().0 == eid {
            prev.push(regions.last().1@)
        } else {
            prev
        }
    }
}

/// The provider entries of service `sid`: its rows that name a known
/// provider, each with its regions.
pub open spec fn legacy_entries_for(
    entries: Seq<LegacyEntryRow>,
    sid: Seq<char>,
    regions: Seq<(i64, String)>,
) -> Seq<EntryView>
    decreases entries.len(),
{
    if entries.len() == 0 {
        seq![]
    } else {
        let prev = legacy_entries_for(entries.drop_last(), sid, regions);
        let e = entries.last();
        if e.1@ == sid && CloudProvider::from_key(e.2@) is Some {
            prev.push(
                (
                    CloudProvider::from_key(e.2@).unwrap(),
                    e.3@,
                    e.4@,
                    legacy_regions_for(regions, e.0),
                ),
            )
        } else {
            prev
        }
    }
}

/// The services of category `cat_id`, in row order, each with its entries.
pub open spec fn legacy_services_in(
    services: Seq<LegacyServiceRow>,
    cat_id: Seq<char>,
    entries: Seq<LegacyEntryRow>,
    regions: Seq<(i64, String)>,
) -> Seq<ServiceView>
    decreases services.len(),
{
    if services.len() == 0 {
        seq![]
    } else {
        let prev = legacy_services_in(services.drop_last(), cat_id, entries, regions);
        let r = services.last();
        if r.1@ == cat_id {
            prev.push(
                (
                    r.0@,
                    r.2@,
                    ServiceCategory::from_id_spec(cat_id),
                    r.3@,
                    legacy_entries_for(entries, r.0@, regions),
                ),
            )
        } else {
            prev
        }
    }
}

/// The categories in the given order with their services; empty ones are
/// left out.
pub open spec fn legacy_categories_of(
    cats: Seq<(Seq<char>, Seq<char>)>,
    services: Seq<LegacyServiceRow>,
    entries: Seq<LegacyEntryRow>,
    regions: Seq<(i64, String)>,
) -> Seq<CategoryView>
    decreases cats.len(),
{
    if cats.len() == 0 {
        seq![]
    } else {
        let prev = legacy_categories_of(cats.drop_last(), services, entries, regions);
        let c = cats.last();
        let s = legacy_services_in(services, c.0, entries, regions);
        if s.len() > 0 {
            prev.push((c.0, c.1, s))
        } else {
            prev
        }
    }
}

proof fn lemma_legacy_services_in_category(
    services: Seq<LegacyServiceRow>,
    cat_id: Seq<char>,
    entries: Seq<LegacyEntryRow>,
    regions: Seq<(i64, String)>,
)
    ensures
        forall|j: int|
            0 <= j < legacy_services_in(services, cat_id, entries, regions).len() ==> (
            #[trigger] legacy_services_in(services, cat_id, entries, regions)[j]).2
                == ServiceCategory::from_id_spec(cat_id),
    decreases services.len(),
{
    if services.len() > 0 {
        lemma_legacy_services_in_category(services.drop_last(), cat_id, entries, regions);
    }
}

/// The catalog built from the older tables leaves out empty categories and
/// lists each service under its own category.
pub proof fn lemma_legacy_catalog_grouped(
    cats: Seq<(Seq<char>, Seq<char>)>,
    services: Seq<LegacyServiceRow>,
    entries: Seq<LegacyEntryRow>,
    regions: Seq<(i64, String)>,
)
    ensures
        catalog_grouped(legacy_categories_of(cats, services, entries, regions)),
    decreases cats.len(),
{
    if cats.len() > 0 {
        lemma_legacy_catalog_grouped(cats.drop_last(), services, entries, regions);
        lemma_legacy_services_in_category(services, cats.last().0, entries, regions);
        let prev = legacy_categories_of(cats.drop_last(), services, entries, regions);
        let all = legacy_categories_of(cats, services, entries, regions);
        assert forall|i: int| 0 <= i < all.len() implies (#[trigger] all[i]).2.len() > 0 && forall|j: int|
            0 <= j < all[i].2.len() ==> (#[trigger] all[i].2[j]).2 == ServiceCategory::from_id_spec(
                all[i].0,
            ) by {
            if i < prev.len() {
                assert(all[i] == prev[i]);
            }
        }
    }
}

fn legacy_regions_list(regions: &Vec<(i64, String)>, eid: i64) -> (res: Vec<String>)
    ensures
        strs(res@) == legacy_regions_for(regions@, eid),
{
    let mut out: Vec<String> = Vec::new();
    let mut i: usize = 0;
    while i < regions.len()
        invariant
            i <= regions.len(),
            strs(out@) == legacy_regions_for(regions@.take(i as int), eid),
        decreases regions.len() - i,
    {
        proof {
            assert(regions@.take(i + 1).drop_last() =~= regions@.take(i as int));
            assert(regions@.take(i + 1).last() == regions@[i as int]);
        }
        if regions[i].0 == eid {
            let r = regions[i].1.clone();
            let ghost before = out@;
            out.push(r);
            assert(strs(out@) =~= strs(before).push(r@));
        }
        i = i + 1;
    }
    assert(regions@.take(regions.len() as int) =~= regions@);
    out
}

fn legacy_entries_list(
    entries: &Vec<LegacyEntryRow>,
    sid: &String,
    regions: &Vec<(i64, String)>,
) -> (res: Vec<CatalogProviderEntry>)
    ensures
        entry_views(res@) == legacy_entries_for(entries@, sid@, regions@),
{
    let mut out: Vec<CatalogProviderEntry> = Vec::new();
    let mut i: usize = 0;
    while i < entries.len()
        invariant
            i <= entries.len(),
            entry_views(out@) == legacy_entries_for(entries@.take(i as int), sid@, regions@),
        decreases entries.len() - i,
    {
        proof {
            assert(entries@.take(i + 1).drop_last() =~= entries@.take(i as int));
            assert(entries@.take(i + 1).last() == entries@[i as int]);
        }
        let e = &entries[i];
        if e.1 == *sid {
            match CloudProvider::parse(e.2.as_str()) {
                Some(provider) => {
                    let entry = CatalogProviderEntry {
                        provider,
                        service_key: e.3.clone(),
                        default_sku: e.4.clone(),
                        regions: legacy_regions_list(regions, e.0),
                    };
                    let ghost before = out@;
                    out.push(entry);
                    assert(entry_views(out@) =~= entry_views(before).push(entry.view()));
                },
                None => {},
            }
        }
        i = i + 1;
    }
    assert(entries@.take(entries.len() as int) =~= entries@);
    out
}

fn legacy_services_for_category(
    cat_id: &String,
    services: &Vec<LegacyServiceRow>,
    entries: &Vec<LegacyEntryRow>,
    regions: &Vec<(i64, String)>,
) -> (res: Vec<CatalogService>)
    ensures
        service_views(res@) == legacy_services_in(services@, cat_id@, entries@, regions@),
{
    let mut out: Vec<CatalogService> = Vec::new();
    let mut i: usize = 0;
    while i < services.len()
        invariant
            i <= services.len(),
            service_views(out@) == legacy_services_in(
                services@.take(i as int),
                cat_id@,
                entries@,
                regions@,
            ),
        decreases services.len() - i,
    {
        proof {
            assert(services@.take(i + 1).drop_last() =~= services@.take(i as int));
            assert(services@.take(i + 1).last() == services@[i as int]);
        }
        let r = &services[i];
        if r.1 == *cat_id {
            let svc = CatalogService {
                id: r.0.clone(),
                name: r.2.clone(),
                category: ServiceCategory::from_id(cat_id.as_str()),
                unit: r.3.clone(),
                providers: legacy_entries_list(entries, &r.0, regions),
            };
            let ghost before = out@;
            out.push(svc);
            assert(service_views(out@) =~= service_views(before).push(svc.view()));
        }
        i = i + 1;
    }
    assert(services@.take(services.len() as int) =~= services@);
    out
}

/// The catalog built from the older catalog tables: categories in the given
/// order with their services, each service with its provider entries (rows
/// naming an unknown provider are skipped) and each entry with its regions;
/// empty categories are left out. The LLM model list is carried over.
pub fn catalog_from_legacy_tables(
    categories: &Vec<(String, String)>,
    services: &Vec<LegacyServiceRow>,
    entries: &Vec<LegacyEntryRow>,
    regions: &Vec<(i64, String)>,
    llm_models: Vec<LlmCatalogEntry>,
) -> (res: CatalogResponse)
    ensures
        category_views(res.categories@) == legacy_categories_of(
            pair_views(categories@),
            services@,
            entries@,
            regions@,
        ),
        catalog_grouped(category_views(res.categories@)),
        res.llm_models == llm_models,
{
    proof {
        lemma_legacy_catalog_grouped(pair_views(categories@), services@, entries@, regions@);
    }
    let mut out: Vec<CatalogCategory> = Vec::new();
    let mut i: usize = 0;
    while i < categories.len()
        invariant
            i <= categories.len(),
            category_views(out@) == legacy_categories_of(
                pair_views(categories@).take(i as int),
                services@,
                entries@,
                regions@,
            ),
        decreases categories.len() - i,
    {
        proof {
            let cv = pair_views(categories@);
            assert(cv.take(i + 1).drop_last() =~= cv.take(i as int));
            assert(cv.take(i + 1).last() == (categories@[i as int].0@, categories@[i as int].1@));
        }
        let svcs = legacy_services_for_category(&categories[i].0, services, entries, regions);
        if svcs.len() > 0 {
            let cat = CatalogCategory {
                id: categories[i].0.clone(),
                label: categories[i].1.clone(),
                services: svcs,
            };
            let ghost before = out@;
            out.push(cat);
            assert(category_views(out@) =~= category_views(before).push(cat.view()));
        }
        i = i + 1;
    }
    assert(pair_views(categories@).take(categories.len() as int) =~= pair_views(categories@));
    CatalogResponse { categories: out, llm_models }
}

} // verus!
