//! Resolves the documentation page of a named type and extracts a
//! structured record from it.
//!
//! The requested name may be bare (`Foo`) or module-qualified
//! (`module::Foo`).  Resolution matches the name against the anchors
//! of the package's all-items page under two generations of page
//! markup, tried in fixed order; extraction then reads the resolved
//! page with a layered set of selectors, defaulting every absent
//! sub-element to an empty value.

use vstd::prelude::*;
use crate::errors::HarvestError;
pub use crate::fetch::HtmlFetcher;
pub use crate::fetch::TestHtmlFetcher;
use crate::html::Anchor;
use crate::html::anchors_in;
use crate::html::parse_document;
use crate::html::parse_selector;
use crate::text::append_chars;
use crate::text::chars_eq;
use crate::text::chars_to_string;
use crate::text::contains_sub;
use crate::text::spec_bare_name;
use crate::text::spec_contains;
use crate::text::spec_module_path;
use crate::text::lemma_trim_idempotent;
use crate::text::spec_trim;
use crate::text::split_qualified;
use crate::text::str_to_chars;
use crate::text::sub_vec;
use crate::text::trim_chars;
use crate::urls::all_items_url;
use crate::urls::base_url;
use crate::urls::resolved_url;
use crate::urls::spec_all_items_url;
use crate::urls::spec_base_url;
use crate::urls::spec_resolved_url;
use crate::tools::crate_items::spec_version_of;

pub use crate::fetch::FetchError;

verus! {

/// The structured documentation record of one type.
#[derive(Debug, PartialEq)]
pub struct StructDocs {
    pub name: String,
    pub crate_name: String,
    pub description: String,
    pub methods: Vec<MethodDoc>,
    pub traits: Vec<String>,
    pub fields: Vec<FieldDoc>,
}

/// One documented method: name, rendered signature, description.
#[derive(Debug, PartialEq)]
pub struct MethodDoc {
    pub name: String,
    pub signature: String,
    pub description: String,
}

/// One documented field: name, type text, description.
#[derive(Debug, PartialEq)]
pub struct FieldDoc {
    pub name: String,
    pub type_text: String,
    pub description: String,
}

// ---------------------------------------------------------------------------
// Assembling the record from raw extracted texts
// ---------------------------------------------------------------------------

/// The mathematical model of a [`MethodDoc`].
pub ghost struct MethodModel {
    pub name: Seq<char>,
    pub signature: Seq<char>,
    pub description: Seq<char>,
}

impl View for MethodDoc {
    type V = MethodModel;

    open spec fn view(&self) -> MethodModel {
        MethodModel {
            name: self.name@,
            signature: self.signature@,
            description: self.description@,
        }
    }
}

/// The mathematical model of a [`FieldDoc`].
pub ghost struct FieldModel {
    pub name: Seq<char>,
    pub type_text: Seq<char>,
    pub description: Seq<char>,
}

impl View for FieldDoc {
    type V = FieldModel;

    open spec fn view(&self) -> FieldModel {
        FieldModel {
            name: self.name@,
            type_text: self.type_text@,
            description: self.description@,
        }
    }
}

/// The models of a sequence of method records.
pub open spec fn methods_model(s: Seq<MethodDoc>) -> Seq<MethodModel> {
    s.map_values(|m: MethodDoc| m@)
}

/// The models of a sequence of field records.
pub open spec fn fields_model(s: Seq<FieldDoc>) -> Seq<FieldModel> {
    s.map_values(|f: FieldDoc| f@)
}

/// The views of a sequence of strings.
pub open spec fn strings_model(s: Seq<String>) -> Seq<Seq<char>> {
    s.map_values(|x: String| x@)
}

/// The method records the raw `(name, signature, description)` texts
/// produce: every triple yields a record with each part trimmed.
pub open spec fn spec_methods(raw: Seq<(String, String, String)>) -> Seq<MethodModel>
    decreases raw.len(),
{
    if raw.len() == 0 {
        Seq::empty()
    } else {
        spec_methods(raw.drop_last()).push(
            MethodModel {
                name: spec_trim(raw.last().0@),
                signature: spec_trim(raw.last().1@),
                description: spec_trim(raw.last().2@),
            },
        )
    }
}

/// The field records the raw `(name, type, description)` texts
/// produce: every triple yields a record, kept as published.
pub open spec fn spec_fields(raw: Seq<(String, String, String)>) -> Seq<FieldModel>
    decreases raw.len(),
{
    if raw.len() == 0 {
        Seq::empty()
    } else {
        spec_fields(raw.drop_last()).push(
            FieldModel {
                name: raw.last().0@,
                type_text: raw.last().1@,
                description: raw.last().2@,
            },
        )
    }
}

/// The non-empty texts of a tier, in document order.
pub open spec fn spec_keep_nonempty(raw: Seq<String>) -> Seq<Seq<char>>
    decreases raw.len(),
{
    if raw.len() == 0 {
        Seq::empty()
    } else {
        let init = spec_keep_nonempty(raw.drop_last());
        if raw.last()@.len() > 0 {
            init.push(raw.last()@)
        } else {
            init
        }
    }
}

/// The trait list: the first non-empty tier wins, and tiers never mix.
pub open spec fn spec_select_tier(
    t1: Seq<Seq<char>>,
    t2: Seq<Seq<char>>,
    t3: Seq<Seq<char>>,
) -> Seq<Seq<char>> {
    if t1.len() > 0 {
        t1
    } else if t2.len() > 0 {
        t2
    } else {
        t3
    }
}

/// Builds the method records from the raw extracted texts.
pub fn build_methods(raw: &Vec<(String, String, String)>) -> (r: Vec<MethodDoc>)
    ensures
        methods_model(r@) == spec_methods(raw@),
{
    let mut r: Vec<MethodDoc> = Vec::new();
    proof {
        assert(raw@.subrange(0, 0) =~= Seq::<(String, String, String)>::empty());
        assert(methods_model(r@) =~= spec_methods(raw@.subrange(0, 0)));
    }
    let mut i: usize = 0;
    while i < raw.len()
        invariant
            i <= raw@.len(),
            methods_model(r@) == spec_methods(raw@.subrange(0, i as int)),
        decreases raw@.len() - i,
    {
        let ghost pre = raw@.subrange(0, i + 1);
        proof {
            assert(pre.drop_last() =~= raw@.subrange(0, i as int));
            assert(pre.last() == raw@[i as int]);
        }
        let name_c = trim_chars(&str_to_chars(raw[i].0.as_str()));
        let sig_c = trim_chars(&str_to_chars(raw[i].1.as_str()));
        let desc_c = trim_chars(&str_to_chars(raw[i].2.as_str()));
        let m = MethodDoc {
            name: chars_to_string(&name_c),
            signature: chars_to_string(&sig_c),
            description: chars_to_string(&desc_c),
        };
        let ghost olds = r@;
        r.push(m);
        proof {
            assert(methods_model(r@) =~= methods_model(olds).push(m@));
        }
        i += 1;
    }
    proof {
        assert(raw@.subrange(0, raw@.len() as int) =~= raw@);
    }
    r
}

/// Builds the field records from the raw extracted texts.
pub fn build_fields(raw: &Vec<(String, String, String)>) -> (r: Vec<FieldDoc>)
    ensures
        fields_model(r@) == spec_fields(raw@),
{
    let mut r: Vec<FieldDoc> = Vec::new();
    proof {
        assert(raw@.subrange(0, 0) =~= Seq::<(String, String, String)>::empty());
        assert(fields_model(r@) =~= spec_fields(raw@.subrange(0, 0)));
    }
    let mut i: usize = 0;
    while i < raw.len()
        invariant
            i <= raw@.len(),
            fields_model(r@) == spec_fields(raw@.subrange(0, i as int)),
        decreases raw@.len() - i,
    {
        let ghost pre = raw@.subrange(0, i + 1);
        proof {
            assert(pre.drop_last() =~= raw@.subrange(0, i as int));
            assert(pre.last() == raw@[i as int]);
        }
        let f = FieldDoc {
            name: raw[i].0.clone(),
            type_text: raw[i].1.clone(),
            description: raw[i].2.clone(),
        };
        let ghost olds = r@;
        r.push(f);
        proof {
            assert(fields_model(r@) =~= fields_model(olds).push(f@));
        }
        i += 1;
    }
    proof {
        assert(raw@.subrange(0, raw@.len() as int) =~= raw@);
    }
    r
}

/// Keeps the non-empty texts of a tier, in document order.
pub fn keep_nonempty(raw: &Vec<String>) -> (r: Vec<String>)
    ensures
        strings_model(r@) == spec_keep_nonempty(raw@),
{
    let mut r: Vec<String> = Vec::new();
    proof {
        assert(raw@.subrange(0, 0) =~= Seq::<String>::empty());
        assert(strings_model(r@) =~= spec_keep_nonempty(raw@.subrange(0, 0)));
    }
    let mut i: usize = 0;
    while i < raw.len()
        invariant
            i <= raw@.len(),
            strings_model(r@) == spec_keep_nonempty(raw@.subrange(0, i as int)),
        decreases raw@.len() - i,
    {
        let ghost pre = raw@.subrange(0, i + 1);
        proof {
            assert(pre.drop_last() =~= raw@.subrange(0, i as int));
            assert(pre.last() == raw@[i as int]);
        }
        if !raw[i].as_str().is_empty() {
            let t = raw[i].clone();
            let ghost olds = r@;
            r.push(t);
            proof {
                assert(strings_model(r@) =~= strings_model(olds).push(t@));
            }
        }
        i += 1;
    }
    proof {
        assert(raw@.subrange(0, raw@.len() as int) =~= raw@);
    }
    r
}

/// Chooses the trait list: the first non-empty tier wins.
pub fn select_tier(t1: Vec<String>, t2: Vec<String>, t3: Vec<String>) -> (r: Vec<String>)
    ensures
        strings_model(r@) == spec_select_tier(
            strings_model(t1@),
            strings_model(t2@),
            strings_model(t3@),
        ),
{
    if t1.len() > 0 {
        t1
    } else if t2.len() > 0 {
        t2
    } else {
        t3
    }
}

/// Every method record `spec_methods` produces has trimmed parts.
proof fn lemma_methods_trimmed(raw: Seq<(String, String, String)>, i: int)
    requires
        0 <= i < spec_methods(raw).len(),
    ensures
        ({
            let m = spec_methods(raw)[i];
            &&& m.name == spec_trim(m.name)
            &&& m.signature == spec_trim(m.signature)
            &&& m.description == spec_trim(m.description)
        }),
    decreases raw.len(),
{
    let init = spec_methods(raw.drop_last());
    if i < init.len() {
        lemma_methods_trimmed(raw.drop_last(), i);
        assert(spec_methods(raw)[i] == init[i]);
    } else {
        lemma_trim_idempotent(raw.last().0@);
        lemma_trim_idempotent(raw.last().1@);
        lemma_trim_idempotent(raw.last().2@);
    }
}

/// Every text `spec_keep_nonempty` keeps is non-empty.
proof fn lemma_tier_nonempty(raw: Seq<String>, i: int)
    requires
        0 <= i < spec_keep_nonempty(raw).len(),
    ensures
        spec_keep_nonempty(raw)[i].len() > 0,
    decreases raw.len(),
{
    let init = spec_keep_nonempty(raw.drop_last());
    if i < init.len() {
        lemma_tier_nonempty(raw.drop_last(), i);
        assert(spec_keep_nonempty(raw)[i] == init[i]);
    }
}

/// Assembles the structured record from the raw extracted texts.
///
/// The returned `name` echoes the caller's requested name exactly,
/// whatever qualification it carried; the description and each method
/// part are trimmed; fields are kept as published; the trait list is
/// the first non-empty tier and holds no empty name.
pub fn assemble_struct_docs(
    struct_name: &str,
    crate_name: &str,
    description_raw: &str,
    methods_raw: &Vec<(String, String, String)>,
    tier1: Vec<String>,
    tier2: Vec<String>,
    tier3: Vec<String>,
    fields_raw: &Vec<(String, String, String)>,
) -> (r: StructDocs)
    ensures
        r.name@ == struct_name@,
        r.crate_name@ == crate_name@,
        r.description@ == spec_trim(description_raw@),
        methods_model(r.methods@) == spec_methods(methods_raw@),
        strings_model(r.traits@) == spec_select_tier(
            spec_keep_nonempty(tier1@),
            spec_keep_nonempty(tier2@),
            spec_keep_nonempty(tier3@),
        ),
        fields_model(r.fields@) == spec_fields(fields_raw@),
        spec_trim(r.description@) == r.description@,
        forall|i: int|
            0 <= i < r.methods@.len() ==> ({
                let m = (#[trigger] r.methods@[i])@;
                &&& m.name == spec_trim(m.name)
                &&& m.signature == spec_trim(m.signature)
                &&& m.description == spec_trim(m.description)
            }),
        forall|i: int| 0 <= i < r.traits@.len() ==> (#[trigger] r.traits@[i])@.len() > 0,
{
    let desc_c = trim_chars(&str_to_chars(description_raw));
    let r = StructDocs {
        name: struct_name.to_owned(),
        crate_name: crate_name.to_owned(),
        description: chars_to_string(&desc_c),
        methods: build_methods(methods_raw),
        traits: select_tier(keep_nonempty(&tier1), keep_nonempty(&tier2), keep_nonempty(&tier3)),
        fields: build_fields(fields_raw),
    };
    proof {
        lemma_trim_idempotent(description_raw@);
        assert forall|i: int| 0 <= i < r.methods@.len() implies ({
            let m = (#[trigger] r.methods@[i])@;
            &&& m.name == spec_trim(m.name)
            &&& m.signature == spec_trim(m.signature)
            &&& m.description == spec_trim(m.description)
        }) by {
            lemma_methods_trimmed(methods_raw@, i);
            assert(methods_model(r.methods@)[i] == r.methods@[i]@);
        }
        assert forall|i: int| 0 <= i < r.traits@.len() implies (#[trigger] r.traits@[i])@.len()
            > 0 by {
            let k1 = spec_keep_nonempty(tier1@);
            let k2 = spec_keep_nonempty(tier2@);
            let k3 = spec_keep_nonempty(tier3@);
            if k1.len() > 0 {
                lemma_tier_nonempty(tier1@, i);
            } else if k2.len() > 0 {
                lemma_tier_nonempty(tier2@, i);
            } else {
                lemma_tier_nonempty(tier3@, i);
            }
            assert(strings_model(r.traits@)[i] == r.traits@[i]@);
        }
    }
    r
}

// ---------------------------------------------------------------------------
// Matching a requested name against catalog anchors
// ---------------------------------------------------------------------------

/// Whether an anchor resolves the request: an unqualified request
/// matches an anchor whose text equals the bare name; a qualified one
/// matches the full name or the module path rejoined with the bare
/// name; either way the href must carry the struct marker.
pub open spec fn spec_anchor_matches(
    a: Anchor,
    name: Seq<char>,
    module: Seq<char>,
    bare: Seq<char>,
) -> bool {
    &&& if module.len() == 0 {
        a.text@ == bare
    } else {
        a.text@ == name || a.text@ == module + "::"@ + bare
    }
    &&& spec_contains(a.href@, "struct"@)
}

/// Whether `a` resolves the request.
pub fn anchor_matches(a: &Anchor, name: &Vec<char>, module: &Vec<char>, bare: &Vec<char>) -> (r:
    bool)
    ensures
        r == spec_anchor_matches(*a, name@, module@, bare@),
{
    let t = str_to_chars(a.text.as_str());
    let h = str_to_chars(a.href.as_str());
    let name_ok: bool = if module.len() == 0 {
        chars_eq(&t, bare)
    } else if chars_eq(&t, name) {
        true
    } else {
        let mut qualified = sub_vec(module, 0, module.len());
        let sep = str_to_chars("::");
        append_chars(&mut qualified, &sep);
        append_chars(&mut qualified, bare);
        proof {
            assert(module@.subrange(0, module@.len() as int) =~= module@);
        }
        chars_eq(&t, &qualified)
    };
    if !name_ok {
        return false;
    }
    let marker = str_to_chars("struct");
    contains_sub(&h, &marker)
}

/// The first anchor that resolves the request, in document order.
pub fn find_first_anchor(
    anchors: &Vec<Anchor>,
    name: &Vec<char>,
    module: &Vec<char>,
    bare: &Vec<char>,
) -> (r: Option<usize>)
    ensures
        match r {
            Some(i) => i < anchors@.len() && spec_anchor_matches(
                anchors@[i as int],
                name@,
                module@,
                bare@,
            ) && forall|k: int|
                0 <= k < i ==> !spec_anchor_matches(#[trigger] anchors@[k], name@, module@, bare@),
            None => forall|k: int|
                0 <= k < anchors@.len() ==> !spec_anchor_matches(
                    #[trigger] anchors@[k],
                    name@,
                    module@,
                    bare@,
                ),
        },
{
    let mut i: usize = 0;
    while i < anchors.len()
        invariant
            i <= anchors@.len(),
            forall|k: int|
                0 <= k < i ==> !spec_anchor_matches(#[trigger] anchors@[k], name@, module@, bare@),
        decreases anchors@.len() - i,
    {
        if anchor_matches(&anchors[i], name, module, bare) {
            return Some(i);
        }
        i += 1;
    }
    None
}

/// The resolved URL when the request is served from this anchor list:
/// the first matching anchor's href decides it.
pub open spec fn spec_strategy_resolves(
    anchors: Seq<Anchor>,
    name: Seq<char>,
    module: Seq<char>,
    bare: Seq<char>,
    base: Seq<char>,
    url: Seq<char>,
) -> bool {
    exists|i: int|
        0 <= i < anchors.len() && spec_anchor_matches(#[trigger] anchors[i], name, module, bare)
            && (forall|k: int|
            0 <= k < i ==> !spec_anchor_matches(#[trigger] anchors[k], name, module, bare)) && url
            == spec_resolved_url(base, anchors[i].href@, module)
}

/// No anchor of the list resolves the request.
pub open spec fn spec_strategy_fails(
    anchors: Seq<Anchor>,
    name: Seq<char>,
    module: Seq<char>,
    bare: Seq<char>,
) -> bool {
    forall|k: int|
        0 <= k < anchors.len() ==> !spec_anchor_matches(#[trigger] anchors[k], name, module, bare)
}

/// Resolves a requested type name against the anchors the two layout
/// generations produced: the first generation with a matching anchor
/// wins, and within it the first matching anchor in document order.
pub fn resolve_from_anchors(
    anchors_gen1: &Vec<Anchor>,
    anchors_gen2: &Vec<Anchor>,
    package: &Vec<char>,
    version: &Vec<char>,
    name: &Vec<char>,
) -> (r: Option<Vec<char>>)
    ensures
        ({
            let module = spec_module_path(name@);
            let bare = spec_bare_name(name@);
            let base = spec_base_url(package@, version@);
            match r {
                Some(url) => spec_strategy_resolves(
                    anchors_gen1@,
                    name@,
                    module,
                    bare,
                    base,
                    url@,
                ) || (spec_strategy_fails(anchors_gen1@, name@, module, bare)
                    && spec_strategy_resolves(anchors_gen2@, name@, module, bare, base, url@)),
                None => spec_strategy_fails(anchors_gen1@, name@, module, bare)
                    && spec_strategy_fails(anchors_gen2@, name@, module, bare),
            }
        }),
{
    let (module, bare) = split_qualified(name);
    let base = base_url(package, version);
    match find_first_anchor(anchors_gen1, name, &module, &bare) {
        Some(i) => {
            let href = str_to_chars(anchors_gen1[i].href.as_str());
            let url = resolved_url(&base, &href, &module);
            Some(url)
        },
        None => {
            match find_first_anchor(anchors_gen2, name, &module, &bare) {
                Some(i) => {
                    let href = str_to_chars(anchors_gen2[i].href.as_str());
                    let url = resolved_url(&base, &href, &module);
                    Some(url)
                },
                None => None,
            }
        },
    }
}

// ---------------------------------------------------------------------------
// Gathering raw texts from the resolved page
// ---------------------------------------------------------------------------

/// Parses a CSS selector, or reports it as a programming error.
fn parse_sel(selector: &str) -> (r: Result<scraper::Selector, HarvestError>)
    ensures
        r matches Err(e) ==> e is Selector,
{
    match parse_selector(selector) {
        Some(s) => Ok(s),
        None => Err(HarvestError::Selector { selector: selector.to_owned() }),
    }
}

/// For every element matching `outer`, the texts of its first
/// sub-elements matching each of the three inner selectors (empty
/// when absent), in document order.
fn gather_triples(
    doc: &scraper::Html,
    outer: &scraper::Selector,
    first: &scraper::Selector,
    second: &scraper::Selector,
    third: &scraper::Selector,
) -> Vec<(String, String, String)> {
    let elements = crate::html::select_in_document(doc, outer);
    let mut r: Vec<(String, String, String)> = Vec::new();
    let mut i: usize = 0;
    while i < elements.len()
        invariant
            i <= elements@.len(),
        decreases elements@.len() - i,
    {
        let a = crate::html::first_text_in(&elements[i], first);
        let b = crate::html::first_text_in(&elements[i], second);
        let c = crate::html::first_text_in(&elements[i], third);
        r.push((a, b, c));
        i += 1;
    }
    r
}

/// For every element matching `outer`, the text of its first
/// sub-element matching `inner` (empty when absent), in document
/// order.
fn gather_first_texts(
    doc: &scraper::Html,
    outer: &scraper::Selector,
    inner: &scraper::Selector,
) -> Vec<String> {
    let elements = crate::html::select_in_document(doc, outer);
    let mut r: Vec<String> = Vec::new();
    let mut i: usize = 0;
    while i < elements.len()
        invariant
            i <= elements@.len(),
        decreases elements@.len() - i,
    {
        r.push(crate::html::first_text_in(&elements[i], inner));
        i += 1;
    }
    r
}

// ---------------------------------------------------------------------------
// The tool
// ---------------------------------------------------------------------------

/// Resolves and extracts documentation for one named type.
pub struct StructDocsTool<F> {
    pub fetcher: F,
}

impl<F: HtmlFetcher> StructDocsTool<F> {
    /// A tool that retrieves pages through the given fetcher.
    pub fn new(fetcher: F) -> (r: Self)
        ensures
            r.fetcher == fetcher,
    {
        StructDocsTool { fetcher }
    }

    /// Retrieves the markup behind a URL through the tool's fetcher.
    pub fn fetch_html(&self, url: &str) -> Result<String, crate::fetch::FetchError> {
        self.fetcher.fetch_html(url)
    }

    /// Resolves the documentation page URL for a requested type name,
    /// trying both layout generations of the all-items page.  A
    /// successful result is the resolved-URL construction applied to
    /// some matched href: an absolute href verbatim, or the versioned
    /// base URL extended by the href with the module path spliced in
    /// where it was missing.
    pub fn find_struct_url(&self, crate_name: &str, struct_name: &str, version: Option<&str>) -> (r:
        Result<String, HarvestError>)
        ensures
            match r {
                Ok(u) => exists|href: Seq<char>|
                    u@ == spec_resolved_url(
                        spec_base_url(crate_name@, spec_version_of(version)),
                        href,
                        spec_module_path(struct_name@),
                    ),
                Err(e) => {
                    &&& !(e is MalformedInput)
                    &&& (e matches HarvestError::Fetch { url, .. } ==> url@ == spec_all_items_url(
                        crate_name@,
                        spec_version_of(version),
                    ))
                    &&& (e matches HarvestError::NotFound { crate_name: c, struct_name: s, version: v }
                         ==> c@ == crate_name@ && s@ == struct_name@ && v@ == spec_version_of(
                        version,
                    ))
                },
            },
    {
        let version_str: &str = match version {
            Some(v) => v,
            None => "latest",
        };
        let pkg = str_to_chars(crate_name);
        let ver = str_to_chars(version_str);
        let url_c = all_items_url(&pkg, &ver);
        let url = chars_to_string(&url_c);
        let html = match self.fetcher.fetch_html(url.as_str()) {
            Ok(h) => h,
            Err(fe) => {
                return Err(HarvestError::Fetch { url, cause: fe.cause });
            },
        };
        let doc = parse_document(html.as_str());
        let sel1 = match parse_selector("h3#structs + ul.all-items > li > a") {
            Some(s) => s,
            None => {
                return Err(
                    HarvestError::Selector {
                        selector: "h3#structs + ul.all-items > li > a".to_owned(),
                    },
                );
            },
        };
        let sel2 = match parse_selector("div[id='structs'] > div.item-table > div.item-row > a") {
            Some(s) => s,
            None => {
                return Err(
                    HarvestError::Selector {
                        selector: "div[id='structs'] > div.item-table > div.item-row > a"
                            .to_owned(),
                    },
                );
            },
        };
        let anchors_gen1 = anchors_in(&doc, &sel1);
        let anchors_gen2 = anchors_in(&doc, &sel2);
        let name = str_to_chars(struct_name);
        match resolve_from_anchors(&anchors_gen1, &anchors_gen2, &pkg, &ver, &name) {
            Some(resolved) => {
                proof {
                    let module = spec_module_path(name@);
                    let bare = spec_bare_name(name@);
                    let b = spec_base_url(pkg@, ver@);
                    assert(ver@ == spec_version_of(version));
                    assert(b == spec_base_url(crate_name@, spec_version_of(version)));
                    assert(module == spec_module_path(struct_name@));
                    if spec_strategy_resolves(
                        anchors_gen1@,
                        name@,
                        module,
                        bare,
                        b,
                        resolved@,
                    ) {
                        let i = choose|i: int|
                            0 <= i < anchors_gen1@.len() && spec_anchor_matches(
                                #[trigger] anchors_gen1@[i],
                                name@,
                                module,
                                bare,
                            ) && (forall|k: int|
                                0 <= k < i ==> !spec_anchor_matches(
                                    #[trigger] anchors_gen1@[k],
                                    name@,
                                    module,
                                    bare,
                                )) && resolved@ == spec_resolved_url(
                                b,
                                anchors_gen1@[i].href@,
                                module,
                            );
                        assert(resolved@ == spec_resolved_url(
                            spec_base_url(crate_name@, spec_version_of(version)),
                            anchors_gen1@[i].href@,
                            spec_module_path(struct_name@),
                        ));
                    } else {
                        let i = choose|i: int|
                            0 <= i < anchors_gen2@.len() && spec_anchor_matches(
                                #[trigger] anchors_gen2@[i],
                                name@,
                                module,
                                bare,
                            ) && (forall|k: int|
                                0 <= k < i ==> !spec_anchor_matches(
                                    #[trigger] anchors_gen2@[k],
                                    name@,
                                    module,
                                    bare,
                                )) && resolved@ == spec_resolved_url(
                                b,
                                anchors_gen2@[i].href@,
                                module,
                            );
                        assert(resolved@ == spec_resolved_url(
                            spec_base_url(crate_name@, spec_version_of(version)),
                            anchors_gen2@[i].href@,
                            spec_module_path(struct_name@),
                        ));
                    }
                }
                Ok(chars_to_string(&resolved))
            },
            None => Err(
                HarvestError::NotFound {
                    crate_name: crate_name.to_owned(),
                    struct_name: struct_name.to_owned(),
                    version: version_str.to_owned(),
                },
            ),
        }
    }

    /// Resolves the page for a requested type and extracts its
    /// structured documentation record.  The returned record's `name`
    /// echoes the request exactly; a missing page section only
    /// empties the corresponding part of the record.  Whatever the
    /// fetched page held, the description is trimmed, every method's
    /// parts are trimmed, and no returned trait name is empty.
    pub fn fetch_docs(&self, crate_name: &str, struct_name: &str, version: Option<&str>) -> (r:
        Result<StructDocs, HarvestError>)
        ensures
            match r {
                Ok(d) => {
                    &&& crate_name@.len() > 0
                    &&& struct_name@.len() > 0
                    &&& d.name@ == struct_name@
                    &&& d.crate_name@ == crate_name@
                    &&& spec_trim(d.description@) == d.description@
                    &&& forall|i: int|
                        0 <= i < d.methods@.len() ==> ({
                            let m = (#[trigger] d.methods@[i])@;
                            &&& m.name == spec_trim(m.name)
                            &&& m.signature == spec_trim(m.signature)
                            &&& m.description == spec_trim(m.description)
                        })
                    &&& forall|i: int|
                        0 <= i < d.traits@.len() ==> (#[trigger] d.traits@[i])@.len() > 0
                },
                Err(e) => {
                    &&& (e is MalformedInput <==> (crate_name@.len() == 0 || struct_name@.len()
                        == 0))
                    &&& (e matches HarvestError::NotFound { crate_name: c, struct_name: s, version: v }
                         ==> c@ == crate_name@ && s@ == struct_name@ && v@ == spec_version_of(
                        version,
                    ))
                },
            },
    {
        if crate_name.is_empty() {
            return Err(
                HarvestError::MalformedInput {
                    message: "crate_name must not be empty".to_owned(),
                },
            );
        }
        if struct_name.is_empty() {
            return Err(
                HarvestError::MalformedInput {
                    message: "struct_name must not be empty".to_owned(),
                },
            );
        }
        let url = match self.find_struct_url(crate_name, struct_name, version) {
            Ok(u) => u,
            Err(e) => {
                return Err(e);
            },
        };
        let html = match self.fetcher.fetch_html(url.as_str()) {
            Ok(h) => h,
            Err(fe) => {
                return Err(HarvestError::Fetch { url, cause: fe.cause });
            },
        };
        let doc = parse_document(html.as_str());
        let desc_sel = match parse_sel(".toggle.top-doc .docblock") {
            Ok(s) => s,
            Err(e) => {
                return Err(e);
            },
        };
        let method_sel = match parse_sel(".impl-items .toggle.method-toggle") {
            Ok(s) => s,
            Err(e) => {
                return Err(e);
            },
        };
        let fn_sel = match parse_sel(".code-header .fn") {
            Ok(s) => s,
            Err(e) => {
                return Err(e);
            },
        };
        let code_header_sel = match parse_sel(".code-header") {
            Ok(s) => s,
            Err(e) => {
                return Err(e);
            },
        };
        let docblock_sel = match parse_sel(".docblock") {
            Ok(s) => s,
            Err(e) => {
                return Err(e);
            },
        };
        let trait_impl_sel = match parse_sel("#trait-implementations .impl") {
            Ok(s) => s,
            Err(e) => {
                return Err(e);
            },
        };
        let trait_name_sel = match parse_sel("h3 .trait") {
            Ok(s) => s,
            Err(e) => {
                return Err(e);
            },
        };
        let synthetic_impl_sel = match parse_sel("#synthetic-implementations .impl") {
            Ok(s) => s,
            Err(e) => {
                return Err(e);
            },
        };
        let blanket_impl_sel = match parse_sel("#blanket-implementations .impl") {
            Ok(s) => s,
            Err(e) => {
                return Err(e);
            },
        };
        let field_sel = match parse_sel(".structfield") {
            Ok(s) => s,
            Err(e) => {
                return Err(e);
            },
        };
        let field_name_sel = match parse_sel(".structfield-name") {
            Ok(s) => s,
            Err(e) => {
                return Err(e);
            },
        };
        let field_type_sel = match parse_sel(".type") {
            Ok(s) => s,
            Err(e) => {
                return Err(e);
            },
        };
        let description = crate::html::first_text_in_document(&doc, &desc_sel);
        let methods_raw = gather_triples(
            &doc,
            &method_sel,
            &fn_sel,
            &code_header_sel,
            &docblock_sel,
        );
        let tier1 = gather_first_texts(&doc, &trait_impl_sel, &trait_name_sel);
        let tier2 = gather_first_texts(&doc, &synthetic_impl_sel, &trait_name_sel);
        let tier3 = gather_first_texts(&doc, &blanket_impl_sel, &trait_name_sel);
        let fields_raw = gather_triples(
            &doc,
            &field_sel,
            &field_name_sel,
            &field_type_sel,
            &docblock_sel,
        );
        Ok(
            assemble_struct_docs(
                struct_name,
                crate_name,
                description.as_str(),
                &methods_raw,
                tier1,
                tier2,
                tier3,
                &fields_raw,
            ),
        )
    }
}

impl StructDocsTool<TestHtmlFetcher> {
    /// A tool over a deterministic fixture fetcher with no pages yet;
    /// tests register fixture markup on `fetcher` directly.
    pub fn new_with_test_fetcher() -> (r: Self)
        ensures
            r.fetcher.pages@.len() == 0,
    {
        StructDocsTool { fetcher: TestHtmlFetcher::new() }
    }
}

} // verus!
