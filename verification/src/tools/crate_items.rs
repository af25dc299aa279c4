//! Enumerates the categorized public items a package exposes.
//!
//! The package's all-items page lists its items under one heading per
//! category.  For each of the fixed category keys the anchors under
//! the heading become [`Item`] records; a category with no surviving
//! records is omitted from the result.

use vstd::prelude::*;
use crate::errors::HarvestError;
use crate::fetch::HtmlFetcher;
use crate::html::Anchor;
use crate::html::anchors_in;
use crate::html::parse_document;
use crate::html::parse_selector;
use crate::text::chars_eq;
use crate::text::chars_to_string;
use crate::text::lemma_trim_idempotent;
use crate::text::spec_trim;
use crate::text::str_to_chars;
use crate::text::trim_chars;
use crate::urls::all_items_url;
use crate::urls::base_url;
use crate::urls::doc_link;
use crate::urls::spec_all_items_url;
use crate::urls::spec_base_url;
use crate::urls::spec_doc_link;

verus! {

/// One public item of a package: its display name, the href as
/// published, and the absolute documentation link built from it.
#[derive(Debug, PartialEq)]
pub struct Item {
    pub name: String,
    pub path: String,
    pub doc_link: String,
}

/// The mathematical model of an [`Item`].
pub ghost struct ItemModel {
    pub name: Seq<char>,
    pub path: Seq<char>,
    pub doc_link: Seq<char>,
}

impl View for Item {
    type V = ItemModel;

    open spec fn view(&self) -> ItemModel {
        ItemModel { name: self.name@, path: self.path@, doc_link: self.doc_link@ }
    }
}

/// The models of a sequence of items.
pub open spec fn items_model(s: Seq<Item>) -> Seq<ItemModel> {
    s.map_values(|it: Item| it@)
}

/// The records a category's anchors produce: each anchor's text and
/// href are trimmed; anchors whose trimmed text or href is empty are
/// skipped; the rest carry the absolute documentation link.
pub open spec fn spec_catalog_items(anchors: Seq<Anchor>, base: Seq<char>) -> Seq<ItemModel>
    decreases anchors.len(),
{
    if anchors.len() == 0 {
        Seq::empty()
    } else {
        let init = spec_catalog_items(anchors.drop_last(), base);
        let a = anchors.last();
        let name = spec_trim(a.text@);
        let path = spec_trim(a.href@);
        if name.len() > 0 && path.len() > 0 {
            init.push(ItemModel { name, path, doc_link: spec_doc_link(base, path) })
        } else {
            init
        }
    }
}

/// Builds the item records for one category's anchors.
pub fn catalog_items(anchors: &Vec<Anchor>, base: &Vec<char>) -> (r: Vec<Item>)
    ensures
        items_model(r@) == spec_catalog_items(anchors@, base@),
{
    let mut r: Vec<Item> = Vec::new();
    proof {
        assert(anchors@.subrange(0, 0) =~= Seq::<Anchor>::empty());
        assert(items_model(r@) =~= spec_catalog_items(anchors@.subrange(0, 0), base@));
    }
    let mut i: usize = 0;
    while i < anchors.len()
        invariant
            i <= anchors@.len(),
            items_model(r@) == spec_catalog_items(anchors@.subrange(0, i as int), base@),
        decreases anchors@.len() - i,
    {
        let ghost pre = anchors@.subrange(0, i + 1);
        proof {
            assert(pre.drop_last() =~= anchors@.subrange(0, i as int));
            assert(pre.last() == anchors@[i as int]);
        }
        let text = str_to_chars(anchors[i].text.as_str());
        let name_c = trim_chars(&text);
        let href = str_to_chars(anchors[i].href.as_str());
        let path_c = trim_chars(&href);
        if name_c.len() > 0 && path_c.len() > 0 {
            let link_c = doc_link(base, &path_c);
            let item = Item {
                name: chars_to_string(&name_c),
                path: chars_to_string(&path_c),
                doc_link: chars_to_string(&link_c),
            };
            let ghost old_items = r@;
            r.push(item);
            proof {
                assert(items_model(r@) =~= items_model(old_items).push(item@));
            }
        }
        i += 1;
    }
    proof {
        assert(anchors@.subrange(0, anchors@.len() as int) =~= anchors@);
    }
    r
}

/// What holds of every record the catalog extractor emits: the name
/// and href survive trimming non-empty, are themselves trimmed, and
/// the documentation link is built from the href.
pub open spec fn item_well_formed(m: ItemModel, base: Seq<char>) -> bool {
    &&& m.name.len() > 0
    &&& spec_trim(m.name) == m.name
    &&& m.path.len() > 0
    &&& spec_trim(m.path) == m.path
    &&& m.doc_link == spec_doc_link(base, m.path)
}

/// Every record in a category's list is well formed.
pub open spec fn category_items_well_formed(items: Seq<Item>, base: Seq<char>) -> bool {
    forall|i: int| 0 <= i < items.len() ==> item_well_formed((#[trigger] items[i])@, base)
}

/// Every record in every category is well formed.
pub open spec fn entries_well_formed(
    entries: Seq<(String, Vec<Item>)>,
    base: Seq<char>,
) -> bool {
    forall|k: int|
        0 <= k < entries.len() ==> category_items_well_formed((#[trigger] entries[k]).1@, base)
}

/// Every record `spec_catalog_items` produces is well formed.
pub proof fn lemma_catalog_items_well_formed(anchors: Seq<Anchor>, base: Seq<char>, i: int)
    requires
        0 <= i < spec_catalog_items(anchors, base).len(),
    ensures
        item_well_formed(spec_catalog_items(anchors, base)[i], base),
    decreases anchors.len(),
{
    let items = spec_catalog_items(anchors, base);
    let init = spec_catalog_items(anchors.drop_last(), base);
    if i < init.len() {
        lemma_catalog_items_well_formed(anchors.drop_last(), base, i);
        assert(items[i] == init[i]);
    } else {
        let a = anchors.last();
        lemma_trim_idempotent(a.text@);
        lemma_trim_idempotent(a.href@);
    }
}

/// The categorized public items of a package at a version.
#[derive(Debug, PartialEq)]
pub struct CrateItems {
    pub crate_name: String,
    pub version: String,
    pub items: Vec<(String, Vec<Item>)>,
}

/// The position a category label takes in the fixed category order,
/// or -1 for any other string.
pub open spec fn label_index(l: Seq<char>) -> int {
    if l == "Macros"@ {
        0
    } else if l == "Structs"@ {
        1
    } else if l == "Enums"@ {
        2
    } else if l == "Traits"@ {
        3
    } else if l == "Functions"@ {
        4
    } else if l == "Type Aliases"@ {
        5
    } else if l == "Attributes"@ {
        6
    } else {
        -1
    }
}

impl CrateItems {
    /// Category labels are pairwise distinct: the mapping has no
    /// duplicate keys.
    pub open spec fn wf(&self) -> bool {
        forall|i: int, j: int|
            0 <= i < j < self.items@.len() ==> (#[trigger] self.items@[i]).0@ != (
            #[trigger] self.items@[j]).0@
    }

    /// The items recorded under a category label, if the category is
    /// present.
    pub fn get_category(&self, label: &str) -> (r: Option<&Vec<Item>>)
        ensures
            match r {
                Some(v) => exists|i: int|
                    0 <= i < self.items@.len() && (#[trigger] self.items@[i]).0@ == label@
                        && self.items@[i].1 == v,
                None => forall|i: int|
                    0 <= i < self.items@.len() ==> (#[trigger] self.items@[i]).0@ != label@,
            },
    {
        let target = str_to_chars(label);
        let mut i: usize = 0;
        while i < self.items.len()
            invariant
                i <= self.items@.len(),
                target@ == label@,
                forall|k: int| 0 <= k < i ==> (#[trigger] self.items@[k]).0@ != label@,
            decreases self.items@.len() - i,
        {
            let key = str_to_chars(self.items[i].0.as_str());
            if chars_eq(&key, &target) {
                return Some(&self.items[i].1);
            }
            i += 1;
        }
        None
    }
}

/// Extracts one category: `None` when no record survives, otherwise
/// the label paired with a non-empty record list.
fn section_entry(doc: &scraper::Html, selector: &str, label: &str, base: &Vec<char>) -> (r: Result<
    Option<(String, Vec<Item>)>,
    HarvestError,
>)
    ensures
        match r {
            Ok(opt) => match opt {
                Some(entry) => entry.0@ == label@ && entry.1@.len() > 0
                    && category_items_well_formed(entry.1@, base@),
                None => true,
            },
            Err(e) => e is Selector,
        },
{
    let sel = match parse_selector(selector) {
        Some(s) => s,
        None => {
            return Err(HarvestError::Selector { selector: selector.to_owned() });
        },
    };
    let anchors = anchors_in(doc, &sel);
    let items = catalog_items(&anchors, base);
    if items.len() > 0 {
        proof {
            assert(items_model(items@).len() == items@.len());
            assert forall|i: int| 0 <= i < items@.len() implies item_well_formed(
                (#[trigger] items@[i])@,
                base@,
            ) by {
                lemma_catalog_items_well_formed(anchors@, base@, i);
                assert(items_model(items@)[i] == items@[i]@);
            }
        }
        Ok(Some((label.to_owned(), items)))
    } else {
        Ok(None)
    }
}

/// The building invariant of the category list: every label is a
/// category label at position at most `bound`, labels appear in
/// strictly increasing category order, and no category is empty.
pub open spec fn labels_sorted(items: Seq<(String, Vec<Item>)>, bound: int) -> bool {
    &&& forall|i: int|
        0 <= i < items.len() ==> 0 <= label_index((#[trigger] items[i]).0@) <= bound
    &&& forall|i: int, j: int|
        0 <= i < j < items.len() ==> label_index((#[trigger] items[i]).0@) < label_index(
            (#[trigger] items[j]).0@,
        )
    &&& forall|i: int| 0 <= i < items.len() ==> (#[trigger] items[i]).1@.len() > 0
}

/// The fixed category labels, in order, with their positions.
proof fn lemma_label_indexes()
    ensures
        label_index("Macros"@) == 0,
        label_index("Structs"@) == 1,
        label_index("Enums"@) == 2,
        label_index("Traits"@) == 3,
        label_index("Functions"@) == 4,
        label_index("Type Aliases"@) == 5,
        label_index("Attributes"@) == 6,
{
    reveal_strlit("Macros");
    reveal_strlit("Structs");
    reveal_strlit("Enums");
    reveal_strlit("Traits");
    reveal_strlit("Functions");
    reveal_strlit("Type Aliases");
    reveal_strlit("Attributes");
    assert("Macros"@.len() == 6);
    assert("Structs"@.len() == 7);
    assert("Enums"@.len() == 5);
    assert("Traits"@.len() == 6);
    assert("Functions"@.len() == 9);
    assert("Type Aliases"@.len() == 12);
    assert("Attributes"@.len() == 10);
    assert("Macros"@[0] == 'M');
    assert("Traits"@[0] == 'T');
}

/// Appends a category entry, keeping labels strictly ordered by their
/// fixed category position.
fn push_entry(
    items: &mut Vec<(String, Vec<Item>)>,
    entry: Option<(String, Vec<Item>)>,
    Ghost(k): Ghost<int>,
    Ghost(base): Ghost<Seq<char>>,
)
    requires
        0 <= k,
        labels_sorted(old(items)@, k - 1),
        entries_well_formed(old(items)@, base),
        match entry {
            Some(e) => label_index(e.0@) == k && e.1@.len() > 0 && category_items_well_formed(
                e.1@,
                base,
            ),
            None => true,
        },
    ensures
        labels_sorted(final(items)@, k),
        entries_well_formed(final(items)@, base),
{
    match entry {
        Some(e) => {
            let ghost olds = items@;
            items.push(e);
            proof {
                assert(items@.len() == olds.len() + 1);
                assert(items@[olds.len() as int] == e);
                assert(forall|i: int| 0 <= i < olds.len() ==> items@[i] == olds[i]);
            }
        },
        None => {},
    }
}

/// The version a request resolves to: the given one, or `latest`.
pub open spec fn spec_version_of(version: Option<&str>) -> Seq<char> {
    match version {
        Some(v) => v@,
        None => "latest"@,
    }
}

/// Lists the categorized public items of a package by scraping its
/// all-items documentation page.
pub struct CrateItemsTool<F> {
    pub fetcher: F,
}

impl<F: HtmlFetcher> CrateItemsTool<F> {
    /// A tool that retrieves pages through the given fetcher.
    pub fn new(fetcher: F) -> (r: Self)
        ensures
            r.fetcher == fetcher,
    {
        CrateItemsTool { fetcher }
    }

    /// Fetches the package's all-items page and extracts the
    /// categorized items.  Categories with no items are omitted; the
    /// result echoes the package name and the resolved version.
    pub fn scrape_items(&self, crate_name: &str, version: Option<&str>) -> (r: Result<
        CrateItems,
        HarvestError,
    >)
        ensures
            match r {
                Ok(c) => {
                    &&& crate_name@.len() > 0
                    &&& c.crate_name@ == crate_name@
                    &&& c.version@ == spec_version_of(version)
                    &&& c.wf()
                    &&& labels_sorted(c.items@, 6)
                    &&& entries_well_formed(
                        c.items@,
                        spec_base_url(crate_name@, spec_version_of(version)),
                    )
                    &&& forall|i: int|
                        0 <= i < c.items@.len() ==> (#[trigger] c.items@[i]).1@.len() > 0
                },
                Err(e) => {
                    &&& (e is MalformedInput <==> crate_name@.len() == 0)
                    &&& !(e is NotFound)
                    &&& (e matches HarvestError::Fetch { url, .. } ==> url@ == spec_all_items_url(
                        crate_name@,
                        spec_version_of(version),
                    ))
                },
            },
    {
        if crate_name.is_empty() {
            return Err(
                HarvestError::MalformedInput {
                    message: "crate_name must not be empty".to_owned(),
                },
            );
        }
        let version_str: &str = match version {
            Some(v) => v,
            None => "latest",
        };
        let pkg = str_to_chars(crate_name);
        let ver = str_to_chars(version_str);
        let url_c = all_items_url(&pkg, &ver);
        let url = chars_to_string(&url_c);
        let html = match self.fetcher.fetch_html(url.as_str()) {
            Ok(h) => h,
            Err(fe) => {
                return Err(HarvestError::Fetch { url, cause: fe.cause });
            },
        };
        let doc = parse_document(html.as_str());
        let base = base_url(&pkg, &ver);
        let mut items: Vec<(String, Vec<Item>)> = Vec::new();
        proof {
            lemma_label_indexes();
        }
        let e0 = match section_entry(&doc, "h3#macros + ul.all-items > li > a", "Macros", &base) {
            Ok(e) => e,
            Err(err) => {
                return Err(err);
            },
        };
        push_entry(&mut items, e0, Ghost(0), Ghost(base@));
        let e1 = match section_entry(&doc, "h3#structs + ul.all-items > li > a", "Structs", &base) {
            Ok(e) => e,
            Err(err) => {
                return Err(err);
            },
        };
        push_entry(&mut items, e1, Ghost(1), Ghost(base@));
        let e2 = match section_entry(&doc, "h3#enums + ul.all-items > li > a", "Enums", &base) {
            Ok(e) => e,
            Err(err) => {
                return Err(err);
            },
        };
        push_entry(&mut items, e2, Ghost(2), Ghost(base@));
        let e3 = match section_entry(&doc, "h3#traits + ul.all-items > li > a", "Traits", &base) {
            Ok(e) => e,
            Err(err) => {
                return Err(err);
            },
        };
        push_entry(&mut items, e3, Ghost(3), Ghost(base@));
        let e4 = match section_entry(
            &doc,
            "h3#functions + ul.all-items > li > a",
            "Functions",
            &base,
        ) {
            Ok(e) => e,
            Err(err) => {
                return Err(err);
            },
        };
        push_entry(&mut items, e4, Ghost(4), Ghost(base@));
        let e5 = match section_entry(
            &doc,
            "h3#types + ul.all-items > li > a",
            "Type Aliases",
            &base,
        ) {
            Ok(e) => e,
            Err(err) => {
                return Err(err);
            },
        };
        push_entry(&mut items, e5, Ghost(5), Ghost(base@));
        let e6 = match section_entry(
            &doc,
            "h3#attributes + ul.all-items > li > a",
            "Attributes",
            &base,
        ) {
            Ok(e) => e,
            Err(err) => {
                return Err(err);
            },
        };
        push_entry(&mut items, e6, Ghost(6), Ghost(base@));
        let result = CrateItems {
            crate_name: crate_name.to_owned(),
            version: version_str.to_owned(),
            items,
        };
        proof {
            assert forall|i: int, j: int| 0 <= i < j < result.items@.len() implies (
            #[trigger] result.items@[i]).0@ != (#[trigger] result.items@[j]).0@ by {
                assert(label_index(result.items@[i].0@) < label_index(result.items@[j].0@));
            }
        }
        Ok(result)
    }
}

} // verus!
