//! Library-wide laws, stated and proved against the spec functions
//! that the public contracts use.

use vstd::prelude::*;
use crate::html::Anchor;
use crate::text::lemma_first_match;
use crate::text::spec_bare_name;
use crate::text::spec_contains;
use crate::text::spec_first_match;
use crate::text::spec_join;
use crate::text::spec_matches_at;
use crate::text::spec_module_path;
use crate::text::spec_name_parts;
use crate::text::spec_split;
use crate::text::spec_starts_with;
use crate::text::spec_strip_front;
use crate::text::spec_ends_with;
use crate::text::spec_trim;
use crate::tools::crate_items::spec_catalog_items;
use crate::tools::crate_items::ItemModel;
use crate::tools::get_struct_docs::spec_anchor_matches;
use crate::tools::get_struct_docs::spec_strategy_resolves;
use crate::urls::spec_base_url;
use crate::urls::spec_doc_link;
use crate::urls::spec_has_module_segment;
use crate::urls::spec_resolved_url;
use crate::tools::get_struct_docs::spec_select_tier;
use crate::tools::get_struct_docs::spec_methods;
use crate::tools::get_struct_docs::spec_fields;
use crate::tools::get_struct_docs::spec_keep_nonempty;
use crate::tools::get_struct_docs::methods_model;
use crate::tools::get_struct_docs::fields_model;
use crate::tools::get_struct_docs::strings_model;
use crate::tools::get_struct_docs::StructDocs;

verus! {

/// A name without a path separator is all bare name and no module
/// path.
pub proof fn lemma_unqualified_parts(name: Seq<char>)
    requires
        !spec_contains(name, "::"@),
    ensures
        spec_bare_name(name) == name,
        spec_module_path(name) == Seq::<char>::empty(),
{
    lemma_first_match(name, "::"@);
    if spec_first_match(name, "::"@) >= 0 {
        assert(spec_matches_at(name, "::"@, spec_first_match(name, "::"@)));
        assert(spec_contains(name, "::"@));
    }
    assert(spec_split(name, "::"@) == seq![name]);
    assert(spec_name_parts(name).last() == name);
    assert(spec_name_parts(name).drop_last() =~= Seq::<Seq<char>>::empty());
}

/// A name of the form `module::bare`, where neither part holds a
/// separator of its own and none straddles the boundary, splits back
/// into exactly that module path and bare name.
pub proof fn lemma_qualified_parts(module: Seq<char>, bare: Seq<char>)
    requires
        module.len() > 0,
        bare.len() > 0,
        !spec_contains(module, "::"@),
        !spec_contains(bare, "::"@),
        module[module.len() - 1] != ':',
        bare[0] != ':',
    ensures
        spec_bare_name(module + "::"@ + bare) == bare,
        spec_module_path(module + "::"@ + bare) == module,
{
    reveal_strlit("::");
    let full = module + "::"@ + bare;
    let m = module.len() as int;
    assert("::"@.len() == 2);
    assert forall|j: int| 0 <= j < 2 implies full[m + j] == "::"@[j] by {
        assert(full[m + j] == ("::"@)[j]);
    }
    assert(spec_matches_at(full, "::"@, m));
    assert forall|t: int| 0 <= t < m implies !spec_matches_at(full, "::"@, t) by {
        if spec_matches_at(full, "::"@, t) {
            assert(("::"@)[0] == ':');
            assert(("::"@)[1] == ':');
            assert(full[t + 0] == ("::"@)[0]);
            assert(full[t + 1] == ("::"@)[1]);
            assert(full[t + 0] == ':');
            assert(full[t + 1] == ':');
            if t + 1 < m {
                assert(module[t + 0] == ':');
                assert(module[t + 1] == ':');
                assert(spec_matches_at(module, "::"@, t));
                assert(spec_contains(module, "::"@));
            } else {
                assert(full[t] == module[m - 1]);
            }
        }
    }
    lemma_first_match(full, "::"@);
    let fm = spec_first_match(full, "::"@);
    if fm < 0 {
        assert(!spec_matches_at(full, "::"@, m));
    }
    if 0 <= fm < m {
        assert(!spec_matches_at(full, "::"@, fm));
    }
    if fm > m {
        assert(!spec_matches_at(full, "::"@, m));
    }
    assert(fm == m);
    assert(full.subrange(0, m) =~= module);
    assert(full.subrange(m + 2, full.len() as int) =~= bare);
    lemma_first_match(bare, "::"@);
    if spec_first_match(bare, "::"@) >= 0 {
        assert(spec_matches_at(bare, "::"@, spec_first_match(bare, "::"@)));
        assert(spec_contains(bare, "::"@));
    }
    assert(spec_split(bare, "::"@) == seq![bare]);
    assert(spec_split(full, "::"@) == seq![module] + spec_split(bare, "::"@));
    assert(spec_name_parts(full) =~= seq![module, bare]);
    assert(spec_name_parts(full).last() == bare);
    assert(spec_name_parts(full).drop_last() =~= seq![module]);
    assert(spec_join(seq![module], "::"@) == module);
}

/// Resolving an unqualified name and its module-qualified form against
/// the same catalog yields the same URL, provided every anchor that
/// matches either form carries the same href (both forms name the same
/// actual type), and that href is relative and already names the
/// module path in one of its segments.
pub proof fn lemma_qualified_unqualified_same_url(
    anchors: Seq<Anchor>,
    package: Seq<char>,
    version: Seq<char>,
    module: Seq<char>,
    bare: Seq<char>,
    href: Seq<char>,
    url1: Seq<char>,
    url2: Seq<char>,
)
    requires
        module.len() > 0,
        bare.len() > 0,
        !spec_contains(module, "::"@),
        !spec_contains(bare, "::"@),
        module[module.len() - 1] != ':',
        bare[0] != ':',
        forall|k: int|
            0 <= k < anchors.len() ==> ((spec_anchor_matches(
                #[trigger] anchors[k],
                bare,
                Seq::<char>::empty(),
                bare,
            ) || spec_anchor_matches(anchors[k], module + "::"@ + bare, module, bare))
                ==> anchors[k].href@ == href),
        !spec_starts_with(href, "http"@),
        spec_has_module_segment(spec_strip_front(href, '/'), module),
        spec_strategy_resolves(
            anchors,
            bare,
            spec_module_path(bare),
            spec_bare_name(bare),
            spec_base_url(package, version),
            url1,
        ),
        spec_strategy_resolves(
            anchors,
            module + "::"@ + bare,
            spec_module_path(module + "::"@ + bare),
            spec_bare_name(module + "::"@ + bare),
            spec_base_url(package, version),
            url2,
        ),
    ensures
        url1 == url2,
{
    lemma_unqualified_parts(bare);
    lemma_qualified_parts(module, bare);
    let full = module + "::"@ + bare;
    let base = spec_base_url(package, version);
    let i1 = choose|i: int|
        0 <= i < anchors.len() && spec_anchor_matches(
            #[trigger] anchors[i],
            bare,
            spec_module_path(bare),
            spec_bare_name(bare),
        ) && (forall|k: int|
            0 <= k < i ==> !spec_anchor_matches(
                #[trigger] anchors[k],
                bare,
                spec_module_path(bare),
                spec_bare_name(bare),
            )) && url1 == spec_resolved_url(base, anchors[i].href@, spec_module_path(bare));
    assert(anchors[i1].href@ == href);
    assert(url1 == spec_resolved_url(base, href, Seq::<char>::empty()));
    let i2 = choose|i: int|
        0 <= i < anchors.len() && spec_anchor_matches(
            #[trigger] anchors[i],
            full,
            spec_module_path(full),
            spec_bare_name(full),
        ) && (forall|k: int|
            0 <= k < i ==> !spec_anchor_matches(
                #[trigger] anchors[k],
                full,
                spec_module_path(full),
                spec_bare_name(full),
            )) && url2 == spec_resolved_url(base, anchors[i].href@, spec_module_path(full));
    assert(anchors[i2].href@ == href);
    assert(url2 == spec_resolved_url(base, href, module));
    assert(spec_resolved_url(base, href, Seq::<char>::empty()) == base + "/"@ + spec_strip_front(
        href,
        '/',
    ));
    assert(spec_resolved_url(base, href, module) == base + "/"@ + spec_strip_front(href, '/'));
}

proof fn lemma_strip_front_suffix(s: Seq<char>, c: char)
    ensures
        exists|j: int|
            0 <= j <= s.len() && spec_strip_front(s, c) == s.subrange(j, s.len() as int) && (
            forall|k: int| 0 <= k < j ==> s[k] == c),
        spec_strip_front(s, c).len() > 0 ==> spec_strip_front(s, c)[0] != c,
    decreases s.len(),
{
    if s.len() > 0 && s[0] == c {
        let t = s.drop_first();
        lemma_strip_front_suffix(t, c);
        let j = choose|j: int|
            0 <= j <= t.len() && spec_strip_front(t, c) == t.subrange(j, t.len() as int) && (
            forall|k: int| 0 <= k < j ==> t[k] == c);
        assert(t.subrange(j, t.len() as int) =~= s.subrange(j + 1, s.len() as int));
        assert forall|k: int| 0 <= k < j + 1 implies s[k] == c by {
            if k > 0 {
                assert(t[k - 1] == s[k]);
            }
        }
        assert(spec_strip_front(s, c) == s.subrange(j + 1, s.len() as int));
    } else {
        assert(s.subrange(0, s.len() as int) =~= s);
        assert(spec_strip_front(s, c) == s.subrange(0, s.len() as int));
    }
}

proof fn lemma_contains_in_suffix(s: Seq<char>, j: int, n: Seq<char>)
    requires
        0 <= j <= s.len(),
        spec_contains(s.subrange(j, s.len() as int), n),
    ensures
        spec_contains(s, n),
{
    let sub = s.subrange(j, s.len() as int);
    let t = choose|t: int| spec_matches_at(sub, n, t);
    assert forall|u: int| 0 <= u < n.len() implies s[j + t + u] == n[u] by {
        assert(sub[t + u] == n[u]);
    }
    assert(spec_matches_at(s, n, j + t));
}

/// The absolute link built for a well-formed relative href starts
/// with the base URL and one separator, ends in the page-file
/// extension, and holds no doubled separator after the base.
pub proof fn lemma_doc_link_shape(base: Seq<char>, p: Seq<char>)
    requires
        p.len() > 0,
        !spec_starts_with(p, "http"@),
        spec_ends_with(p, ".html"@),
        !spec_contains(p, "//"@),
    ensures
        spec_starts_with(spec_doc_link(base, p), base + "/"@),
        spec_ends_with(spec_doc_link(base, p), ".html"@),
        !spec_contains(
            spec_doc_link(base, p).subrange(base.len() as int, spec_doc_link(base, p).len() as int),
            "//"@,
        ),
{
    reveal_strlit(".html");
    reveal_strlit("//");
    reveal_strlit("/");
    let link = spec_doc_link(base, p);
    let stripped = spec_strip_front(p, '/');
    lemma_strip_front_suffix(p, '/');
    let j = choose|j: int|
        0 <= j <= p.len() && stripped == p.subrange(j, p.len() as int) && (forall|k: int|
            0 <= k < j ==> p[k] == '/');
    assert(p.len() >= 5);
    if j >= 2 {
        assert(p[0] == '/');
        assert(p[1] == '/');
        assert(("//"@)[0] == '/');
        assert(("//"@)[1] == '/');
        assert(spec_matches_at(p, "//"@, 0));
        assert(false);
    }
    if j == 1 && p.len() == 5 {
        assert(p[0] == (".html"@)[0]);
        assert(p[0] == '/');
        assert(false);
    }
    assert(stripped.len() == p.len() - j >= 5);
    assert forall|u: int| 0 <= u < 5 implies stripped[stripped.len() - 5 + u] == (".html"@)[u] by {
        assert(stripped[stripped.len() - 5 + u] == p[p.len() - 5 + u]);
        assert(p[p.len() - 5 + u] == (".html"@)[u]);
    }
    assert(spec_ends_with(stripped, ".html"@));
    assert(link == base + "/"@ + stripped);
    assert(("/"@).len() == 1);
    assert forall|u: int| 0 <= u < (base + "/"@).len() implies link[u] == (base + "/"@)[u] by {}
    assert(spec_starts_with(link, base + "/"@));
    assert forall|u: int| 0 <= u < 5 implies link[link.len() - 5 + u] == (".html"@)[u] by {
        assert(link[link.len() - 5 + u] == stripped[stripped.len() - 5 + u]);
    }
    assert(spec_ends_with(link, ".html"@));
    let suffix = link.subrange(base.len() as int, link.len() as int);
    assert(suffix =~= "/"@ + stripped);
    if spec_contains(suffix, "//"@) {
        let t = choose|t: int| spec_matches_at(suffix, "//"@, t);
        assert(suffix[t + 0] == ("//"@)[0]);
        assert(suffix[t + 1] == ("//"@)[1]);
        if t == 0 {
            assert(suffix[1] == stripped[0]);
            assert(stripped[0] == '/');
            assert(false);
        } else {
            assert(suffix[t] == stripped[t - 1]);
            assert(suffix[t + 1] == stripped[t]);
            assert(spec_matches_at(stripped, "//"@, t - 1));
            lemma_contains_in_suffix(p, j, "//"@);
            assert(false);
        }
    }
}

/// Every record the catalog extractor emits for a category comes from
/// one of its anchors, with a non-empty trimmed name and href.
pub proof fn lemma_catalog_item_source(anchors: Seq<Anchor>, base: Seq<char>, i: int)
    requires
        0 <= i < spec_catalog_items(anchors, base).len(),
    ensures
        exists|k: int|
            0 <= k < anchors.len() && {
                let p = spec_trim((#[trigger] anchors[k]).href@);
                &&& spec_trim(anchors[k].text@).len() > 0
                &&& p.len() > 0
                &&& spec_catalog_items(anchors, base)[i] == ItemModel {
                    name: spec_trim(anchors[k].text@),
                    path: p,
                    doc_link: spec_doc_link(base, p),
                }
            },
    decreases anchors.len(),
{
    let items = spec_catalog_items(anchors, base);
    let init = spec_catalog_items(anchors.drop_last(), base);
    if i < init.len() {
        lemma_catalog_item_source(anchors.drop_last(), base, i);
        let k = choose|k: int|
            0 <= k < anchors.drop_last().len() && {
                let p = spec_trim((#[trigger] anchors.drop_last()[k]).href@);
                &&& spec_trim(anchors.drop_last()[k].text@).len() > 0
                &&& p.len() > 0
                &&& spec_catalog_items(anchors.drop_last(), base)[i] == ItemModel {
                    name: spec_trim(anchors.drop_last()[k].text@),
                    path: p,
                    doc_link: spec_doc_link(base, p),
                }
            };
        assert(anchors.drop_last()[k] == anchors[k]);
        assert(items[i] == init[i]);
    } else {
        let a = anchors.last();
        assert(items[i] == ItemModel {
            name: spec_trim(a.text@),
            path: spec_trim(a.href@),
            doc_link: spec_doc_link(base, spec_trim(a.href@)),
        });
        assert(anchors[anchors.len() - 1] == a);
    }
}

/// Every documentation link in an extracted category starts with the
/// versioned base URL and a separator, ends in the page-file
/// extension, and holds no doubled separator after the base —
/// provided each anchor's trimmed href is relative, ends in the
/// extension and holds no doubled separator itself.
pub proof fn lemma_catalog_link_shape(anchors: Seq<Anchor>, base: Seq<char>, i: int)
    requires
        0 <= i < spec_catalog_items(anchors, base).len(),
        forall|k: int|
            0 <= k < anchors.len() ==> {
                let p = spec_trim((#[trigger] anchors[k]).href@);
                p.len() > 0 ==> (!spec_starts_with(p, "http"@) && spec_ends_with(p, ".html"@)
                    && !spec_contains(p, "//"@))
            },
    ensures
        ({
            let link = spec_catalog_items(anchors, base)[i].doc_link;
            &&& spec_starts_with(link, base + "/"@)
            &&& spec_ends_with(link, ".html"@)
            &&& !spec_contains(link.subrange(base.len() as int, link.len() as int), "//"@)
        }),
{
    lemma_catalog_item_source(anchors, base, i);
    let k = choose|k: int|
        0 <= k < anchors.len() && {
            let p = spec_trim((#[trigger] anchors[k]).href@);
            &&& spec_trim(anchors[k].text@).len() > 0
            &&& p.len() > 0
            &&& spec_catalog_items(anchors, base)[i] == ItemModel {
                name: spec_trim(anchors[k].text@),
                path: p,
                doc_link: spec_doc_link(base, p),
            }
        };
    let p = spec_trim(anchors[k].href@);
    lemma_doc_link_shape(base, p);
}

/// Trait-tier policy: when the explicit trait-implementation tier is
/// non-empty it alone decides the trait list; the synthetic and
/// blanket tiers contribute nothing, whatever they hold.
pub proof fn lemma_trait_tier_priority(t1: Seq<Seq<char>>, t2: Seq<Seq<char>>, t3: Seq<Seq<char>>)
    requires
        t1.len() > 0,
    ensures
        spec_select_tier(t1, t2, t3) == t1,
{
}

/// Extraction is deterministic: two records assembled from the same
/// requested name, package name and raw extracted texts are identical
/// in every part.
pub proof fn lemma_extraction_deterministic(
    a: StructDocs,
    b: StructDocs,
    struct_name: Seq<char>,
    crate_name: Seq<char>,
    description_raw: Seq<char>,
    methods_raw: Seq<(String, String, String)>,
    tier1: Seq<String>,
    tier2: Seq<String>,
    tier3: Seq<String>,
    fields_raw: Seq<(String, String, String)>,
)
    requires
        a.name@ == struct_name,
        b.name@ == struct_name,
        a.crate_name@ == crate_name,
        b.crate_name@ == crate_name,
        a.description@ == spec_trim(description_raw),
        b.description@ == spec_trim(description_raw),
        methods_model(a.methods@) == spec_methods(methods_raw),
        methods_model(b.methods@) == spec_methods(methods_raw),
        strings_model(a.traits@) == spec_select_tier(
            spec_keep_nonempty(tier1),
            spec_keep_nonempty(tier2),
            spec_keep_nonempty(tier3),
        ),
        strings_model(b.traits@) == spec_select_tier(
            spec_keep_nonempty(tier1),
            spec_keep_nonempty(tier2),
            spec_keep_nonempty(tier3),
        ),
        fields_model(a.fields@) == spec_fields(fields_raw),
        fields_model(b.fields@) == spec_fields(fields_raw),
    ensures
        a.name@ == b.name@,
        a.crate_name@ == b.crate_name@,
        a.description@ == b.description@,
        methods_model(a.methods@) == methods_model(b.methods@),
        strings_model(a.traits@) == strings_model(b.traits@),
        fields_model(a.fields@) == fields_model(b.fields@),
{
}

} // verus!
