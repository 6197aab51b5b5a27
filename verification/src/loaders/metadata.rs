use vstd::prelude::*;
use vstd::string::*;

use crate::cache::{cached_id, Cache};
use crate::loaders::categories::{parse_categories, parse_categories_spec, CategoryError, CategoryErrorView};
use crate::text::{decimal, push_decimal};

verus! {

/// One template's entry in the index file, as written there.
pub struct TemplateConfig {
    pub title: String,
    pub category: String,
    pub nation: String,
    pub id: Option<u64>,
    pub regenerate_after: Option<u64>,
}

/// `TemplateConfig` as plain values.
pub struct TemplateConfigView {
    pub title: Seq<char>,
    pub category: Seq<char>,
    pub nation: Seq<char>,
    pub id: Option<u64>,
    pub regenerate_after: Option<u64>,
}

impl View for TemplateConfig {
    type V = TemplateConfigView;

    open spec fn view(&self) -> TemplateConfigView {
        TemplateConfigView {
            title: self.title@,
            category: self.category@,
            nation: self.nation@,
            id: self.id,
            regenerate_after: self.regenerate_after,
        }
    }
}

/// What is known of one template: its name, the dispatch it becomes, and
/// how often that dispatch is published afresh (in days).
pub struct TemplateMetadata {
    pub id: String,
    pub title: String,
    pub category: u64,
    pub subcategory: u64,
    pub nation: String,
    pub dispatchid: Option<u64>,
    pub regen: Option<u64>,
}

/// `TemplateMetadata` as plain values.
pub struct TemplateMetadataView {
    pub id: Seq<char>,
    pub title: Seq<char>,
    pub category: u64,
    pub subcategory: u64,
    pub nation: Seq<char>,
    pub dispatchid: Option<u64>,
    pub regen: Option<u64>,
}

impl View for TemplateMetadata {
    type V = TemplateMetadataView;

    open spec fn view(&self) -> TemplateMetadataView {
        TemplateMetadataView {
            id: self.id@,
            title: self.title@,
            category: self.category,
            subcategory: self.subcategory,
            nation: self.nation@,
            dispatchid: self.dispatchid,
            regen: self.regen,
        }
    }
}

/// The title and address of a template's dispatch, as templates see them.
pub struct TemplateLink {
    pub title: String,
    pub url: String,
}

/// The address of a dispatch: the site itself while the dispatch has no id.
pub open spec fn dispatch_url(id: Option<u64>) -> Seq<char> {
    match id {
        None => "https://www.nationstates.net"@,
        Some(n) => "https://www.nationstates.net/page=dispatch/id="@ + decimal(n as nat),
    }
}

/// The dispatch id a template is known by: the one its entry fixes, else the
/// one the cache remembers for it.
pub open spec fn known_dispatch_id(t: TemplateMetadataView, cache: Map<Seq<char>, crate::cache::CacheDataView>) -> Option<u64> {
    match t.dispatchid {
        Some(d) => Some(d),
        None => cached_id(cache, t.id),
    }
}

/// What `collect_template_metadata` makes of one index entry.
pub open spec fn metadata_of(id: Seq<char>, c: TemplateConfigView) -> Result<TemplateMetadataView, CategoryErrorView> {
    match parse_categories_spec(c.category) {
        Ok((category, subcategory)) => Ok(
            TemplateMetadataView {
                id,
                title: c.title,
                category,
                subcategory,
                nation: c.nation,
                dispatchid: c.id,
                regen: c.regenerate_after,
            },
        ),
        Err(e) => Err(e),
    }
}

/// The templates of the entries whose category is valid, in order.
pub open spec fn valid_templates(s: Seq<(Seq<char>, TemplateConfigView)>) -> Seq<TemplateMetadataView>
    decreases s.len(),
{
    if s.len() == 0 {
        Seq::empty()
    } else {
        let rest = valid_templates(s.drop_last());
        match metadata_of(s.last().0, s.last().1) {
            Ok(m) => rest.push(m),
            Err(_) => rest,
        }
    }
}

/// The category errors of the other entries, in order.
pub open spec fn category_errors(s: Seq<(Seq<char>, TemplateConfigView)>) -> Seq<CategoryErrorView>
    decreases s.len(),
{
    if s.len() == 0 {
        Seq::empty()
    } else {
        let rest = category_errors(s.drop_last());
        match metadata_of(s.last().0, s.last().1) {
            Ok(_) => rest,
            Err(e) => rest.push(e),
        }
    }
}

/// Each index entry becomes a template exactly when its category string is
/// valid; the template keeps the entry's name, title, nation, dispatch id and
/// period, and takes its numbers from the category string; an entry with an
/// invalid category gives that category's error.
pub proof fn law_template_keeps_entry(id: Seq<char>, c: TemplateConfigView)
    ensures
        metadata_of(id, c) is Ok <==> parse_categories_spec(c.category) is Ok,
        metadata_of(id, c) is Ok ==> {
            let m = metadata_of(id, c)->Ok_0;
            &&& m.id == id
            &&& m.title == c.title
            &&& m.nation == c.nation
            &&& m.dispatchid == c.id
            &&& m.regen == c.regenerate_after
            &&& (m.category, m.subcategory) == parse_categories_spec(c.category)->Ok_0
        },
        metadata_of(id, c) is Err ==> metadata_of(id, c)->Err_0 == parse_categories_spec(c.category)->Err_0,
{
}

/// Every index entry is accounted for once: as a template or as an error.
pub proof fn law_every_entry_accounted(s: Seq<(Seq<char>, TemplateConfigView)>)
    ensures
        valid_templates(s).len() + category_errors(s).len() == s.len(),
    decreases s.len(),
{
    if s.len() > 0 {
        law_every_entry_accounted(s.drop_last());
    }
}

pub open spec fn entries_view(s: Seq<(String, TemplateConfig)>) -> Seq<(Seq<char>, TemplateConfigView)> {
    s.map_values(|e: (String, TemplateConfig)| (e.0@, e.1@))
}

impl TemplateMetadata {
    /// The title and address under which other templates refer to this one.
    pub fn to_obj(&self, cache: &Cache) -> (r: TemplateLink)
        requires
            cache.wf(),
        ensures
            r.title@ == self.title@,
            r.url@ == dispatch_url(known_dispatch_id(self@, cache@)),
    {
        let dispatchid = match self.dispatchid {
            Some(d) => Some(d),
            None => cache.id(self.id.as_str()),
        };
        let url = match dispatchid {
            None => String::from_str("https://www.nationstates.net"),
            Some(id) => {
                let mut url = String::from_str("https://www.nationstates.net/page=dispatch/id=");
                push_decimal(&mut url, id);
                url
            },
        };
        TemplateLink { title: self.title.clone(), url }
    }

    /// The links of all templates, each under its template's name.
    pub fn make_context(metadata: &Vec<TemplateMetadata>, cache: &Cache) -> (r: Vec<(String, TemplateLink)>)
        requires
            cache.wf(),
        ensures
            r@.len() == metadata@.len(),
            forall|i: int| 0 <= i < r@.len() ==> {
                &&& (#[trigger] r@[i]).0@ == metadata@[i].id@
                &&& r@[i].1.title@ == metadata@[i].title@
                &&& r@[i].1.url@ == dispatch_url(known_dispatch_id(metadata@[i]@, cache@))
            },
    {
        let mut r: Vec<(String, TemplateLink)> = Vec::new();
        for k in 0..metadata.len()
            invariant
                cache.wf(),
                r@.len() == k,
                forall|i: int| 0 <= i < k ==> {
                    &&& (#[trigger] r@[i]).0@ == metadata@[i].id@
                    &&& r@[i].1.title@ == metadata@[i].title@
                    &&& r@[i].1.url@ == dispatch_url(known_dispatch_id(metadata@[i]@, cache@))
                },
        {
            let template = &metadata[k];
            r.push((template.id.clone(), template.to_obj(cache)));
        }
        r
    }
}

/// Turns the index entries into templates; entries with an invalid category
/// are left out, and their errors are handed back in order.
pub fn collect_template_metadata(entries: Vec<(String, TemplateConfig)>) -> (r: (Vec<TemplateMetadata>, Vec<CategoryError>))
    ensures
        r.0@.map_values(|m: TemplateMetadata| m@) == valid_templates(entries_view(entries@)),
        r.1@.map_values(|e: CategoryError| e@) == category_errors(entries_view(entries@)),
{
    let ghost ev = entries_view(entries@);
    let mut templates: Vec<TemplateMetadata> = Vec::new();
    let mut errors: Vec<CategoryError> = Vec::new();
    for k in 0..entries.len()
        invariant
            ev == entries_view(entries@),
            templates@.map_values(|m: TemplateMetadata| m@) == valid_templates(ev.take(k as int)),
            errors@.map_values(|e: CategoryError| e@) == category_errors(ev.take(k as int)),
    {
        let (id, config) = (&entries[k].0, &entries[k].1);
        assert(ev.take(k + 1).drop_last() =~= ev.take(k as int));
        assert(ev.take(k + 1).last() == (id@, config@));
        match parse_categories(&config.category) {
            Ok((category, subcategory)) => {
                let m = TemplateMetadata {
                    id: id.clone(),
                    title: config.title.clone(),
                    category,
                    subcategory,
                    nation: config.nation.clone(),
                    dispatchid: config.id,
                    regen: config.regenerate_after,
                };
                let ghost before = templates@;
                templates.push(m);
                assert(templates@.map_values(|m: TemplateMetadata| m@) =~= before.map_values(
                    |m: TemplateMetadata| m@,
                ).push(m@));
            },
            Err(e) => {
                let ghost before = errors@;
                let ghost ev_e = e@;
                errors.push(e);
                assert(errors@.map_values(|e: CategoryError| e@) =~= before.map_values(
                    |e: CategoryError| e@,
                ).push(ev_e));
            },
        }
    }
    assert(ev.take(entries@.len() as int) =~= ev);
    (templates, errors)
}

} // verus!
