//! Verified construction of docs.rs URLs.
//!
//! The versioned base URL, the catalog's absolute documentation links,
//! and the resolver's page URL (with the module-path splice for hrefs
//! that omit it) are all built here, each pinned to a spec function.

use vstd::prelude::*;
use crate::text::append_chars;
use crate::text::contains_sub;
use crate::text::push_char;
use crate::text::rfind_char;
use crate::text::replace_sub;
use crate::text::spec_contains;
use crate::text::spec_replace;
use crate::text::spec_rfind;
use crate::text::spec_split;
use crate::text::spec_starts_with;
use crate::text::spec_strip_front;
use crate::text::split_sub;
use crate::text::starts_with_sub;
use crate::text::str_to_chars;
use crate::text::strip_front_chars;
use crate::text::sub_vec;

verus! {

/// The versioned base URL of a package's documentation:
/// `<site-root>/<package>/<version>/<package>`.
pub open spec fn spec_base_url(package: Seq<char>, version: Seq<char>) -> Seq<char> {
    "https://docs.rs/"@ + package + "/"@ + version + "/"@ + package
}

/// Builds the versioned base URL for a package.
pub fn base_url(package: &Vec<char>, version: &Vec<char>) -> (r: Vec<char>)
    ensures
        r@ == spec_base_url(package@, version@),
{
    let mut r = str_to_chars("https://docs.rs/");
    append_chars(&mut r, package);
    push_char(&mut r, '/');
    append_chars(&mut r, version);
    push_char(&mut r, '/');
    append_chars(&mut r, package);
    proof {
        reveal_strlit("/");
        assert(r@ =~= spec_base_url(package@, version@));
    }
    r
}

/// The all-items page of a package: the base URL plus `/all.html`.
pub open spec fn spec_all_items_url(package: Seq<char>, version: Seq<char>) -> Seq<char> {
    spec_base_url(package, version) + "/all.html"@
}

/// Builds the all-items page URL for a package.
pub fn all_items_url(package: &Vec<char>, version: &Vec<char>) -> (r: Vec<char>)
    ensures
        r@ == spec_all_items_url(package@, version@),
{
    let mut r = base_url(package, version);
    let suffix = str_to_chars("/all.html");
    append_chars(&mut r, &suffix);
    r
}

/// The absolute documentation link for a catalog href: an href that is
/// already absolute passes through; otherwise the base URL and the
/// href, stripped of leading separators, are joined with one
/// separator.
pub open spec fn spec_doc_link(base: Seq<char>, href: Seq<char>) -> Seq<char> {
    if spec_starts_with(href, "http"@) {
        href
    } else {
        base + "/"@ + spec_strip_front(href, '/')
    }
}

/// Builds the absolute documentation link for a catalog href.
pub fn doc_link(base: &Vec<char>, href: &Vec<char>) -> (r: Vec<char>)
    ensures
        r@ == spec_doc_link(base@, href@),
{
    let http = str_to_chars("http");
    if starts_with_sub(href, &http) {
        sub_vec(href, 0, href.len())
    } else {
        let mut r = sub_vec(base, 0, base.len());
        push_char(&mut r, '/');
        let stripped = strip_front_chars(href, '/');
        append_chars(&mut r, &stripped);
        proof {
            reveal_strlit("/");
            assert(base@.subrange(0, base@.len() as int) =~= base@);
            assert(href@.subrange(0, href@.len() as int) =~= href@);
            assert(r@ =~= base@ + "/"@ + spec_strip_front(href@, '/'));
        }
        r
    }
}

/// The module path written as directory segments: every `::` becomes
/// `/`.
pub open spec fn spec_module_dirs(module: Seq<char>) -> Seq<char> {
    spec_replace(module, "::"@, "/"@)
}

/// Whether some `/`-separated segment of `href` contains the module
/// path.
pub open spec fn spec_has_module_segment(href: Seq<char>, module: Seq<char>) -> bool {
    exists|i: int|
        0 <= i < spec_split(href, "/"@).len() && spec_contains(
            #[trigger] spec_split(href, "/"@)[i],
            module,
        )
}

/// Whether some `/`-separated segment of `href` contains `module`.
pub fn has_module_segment(href: &Vec<char>, module: &Vec<char>) -> (r: bool)
    ensures
        r == spec_has_module_segment(href@, module@),
{
    let sep = str_to_chars("/");
    proof {
        reveal_strlit("/");
    }
    let parts = split_sub(href, &sep);
    let ghost dv = parts.deep_view();
    let mut i: usize = 0;
    while i < parts.len()
        invariant
            dv == parts.deep_view(),
            dv.len() == parts@.len(),
            dv =~= spec_split(href@, "/"@),
            i <= dv.len(),
            forall|k: int| 0 <= k < i ==> !spec_contains(#[trigger] dv[k], module@),
        decreases dv.len() - i,
    {
        proof {
            assert(parts@[i as int].deep_view() =~= parts@[i as int]@);
        }
        if contains_sub(&parts[i], module) {
            proof {
                assert(spec_contains(spec_split(href@, "/"@)[i as int], module@));
            }
            return true;
        }
        i += 1;
    }
    false
}

/// The href with the module path spliced in as directory segments
/// immediately before its final segment.
pub open spec fn spec_splice_module(href: Seq<char>, module: Seq<char>) -> Seq<char> {
    let k = spec_rfind(href, '/');
    if k >= 0 {
        href.subrange(0, k) + "/"@ + spec_module_dirs(module) + "/"@ + href.subrange(
            k + 1,
            href.len() as int,
        )
    } else {
        spec_module_dirs(module) + "/"@ + href
    }
}

proof fn lemma_rfind_in_range(s: Seq<char>, c: char)
    ensures
        spec_rfind(s, c) < s.len(),
    decreases s.len(),
{
    if s.len() > 0 && s[s.len() - 1] != c {
        lemma_rfind_in_range(s.drop_last(), c);
    }
}

/// Splices the module path into `href` before its final segment.
pub fn splice_module(href: &Vec<char>, module: &Vec<char>) -> (r: Vec<char>)
    ensures
        r@ == spec_splice_module(href@, module@),
{
    let sep2 = str_to_chars("::");
    proof {
        reveal_strlit("::");
        reveal_strlit("/");
    }
    let slash = str_to_chars("/");
    let dirs = replace_sub(module, &sep2, &slash);
    let hlen = href.len();
    proof {
        lemma_rfind_in_range(href@, '/');
    }
    match rfind_char(href, '/') {
        Some(k) => {
            let mut r = sub_vec(href, 0, k);
            push_char(&mut r, '/');
            append_chars(&mut r, &dirs);
            push_char(&mut r, '/');
            let tail = sub_vec(href, k + 1, hlen);
            append_chars(&mut r, &tail);
            proof {
                assert(r@ =~= spec_splice_module(href@, module@));
            }
            r
        },
        None => {
            let mut r = sub_vec(&dirs, 0, dirs.len());
            push_char(&mut r, '/');
            append_chars(&mut r, href);
            proof {
                assert(dirs@.subrange(0, dirs@.len() as int) =~= dirs@);
                assert(r@ =~= spec_splice_module(href@, module@));
            }
            r
        },
    }
}

/// The resolved page URL for a matched href: an absolute href passes
/// through; otherwise the href is stripped of leading separators,
/// given the module path as directory segments when it lacks one
/// containing it, and appended to the base URL.
pub open spec fn spec_resolved_url(base: Seq<char>, href: Seq<char>, module: Seq<char>) -> Seq<
    char,
> {
    if spec_starts_with(href, "http"@) {
        href
    } else {
        let h = spec_strip_front(href, '/');
        let f = if module.len() > 0 && !spec_has_module_segment(h, module) {
            spec_splice_module(h, module)
        } else {
            h
        };
        base + "/"@ + f
    }
}

/// Builds the resolved page URL for a matched href.
pub fn resolved_url(base: &Vec<char>, href: &Vec<char>, module: &Vec<char>) -> (r: Vec<char>)
    ensures
        r@ == spec_resolved_url(base@, href@, module@),
{
    let http = str_to_chars("http");
    if starts_with_sub(href, &http) {
        return sub_vec(href, 0, href.len());
    }
    let h = strip_front_chars(href, '/');
    let needs_splice = module.len() > 0 && !has_module_segment(&h, module);
    let f = if needs_splice {
        splice_module(&h, module)
    } else {
        h
    };
    let mut r = sub_vec(base, 0, base.len());
    push_char(&mut r, '/');
    append_chars(&mut r, &f);
    proof {
        reveal_strlit("/");
        assert(base@.subrange(0, base@.len() as int) =~= base@);
        assert(r@ =~= spec_resolved_url(base@, href@, module@));
    }
    r
}

} // verus!
