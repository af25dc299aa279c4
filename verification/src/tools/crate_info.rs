//! Parses the line-oriented output of a package metadata lookup into a
//! structured record.
//!
//! The first line carries the package name, the second its
//! description.  Later `key: value` lines fill the optional fields; a
//! `features:` line opens the feature listing, where each line reads
//! `name = [dep, dep]` and a leading `+` marks a default feature; a
//! `note:` line ends the listing.

use vstd::prelude::*;
use crate::errors::HarvestError;
use crate::text::chars_to_string;
use crate::text::chars_eq;
use crate::text::find_first;
use crate::text::first_token;
use crate::text::lemma_deep_push_str;
use crate::text::lemma_first_match;
use crate::text::lines_of;
use crate::text::spec_first_match;
use crate::text::spec_first_token;
use crate::text::spec_lines;
use crate::text::spec_split;
use crate::text::spec_starts_with;
use crate::text::spec_strip_front;
use crate::text::spec_trim;
use crate::text::spec_trim_brackets;
use crate::text::split_sub;
use crate::text::starts_with_sub;
use crate::text::str_to_chars;
use crate::text::strip_front_chars;
use crate::text::sub_vec;
use crate::text::trim_brackets;
use crate::text::trim_chars;

verus! {

/// Structured metadata about a package.
#[derive(Debug, PartialEq)]
pub struct CrateInfo {
    pub name: String,
    pub description: String,
    pub version: String,
    pub license: Option<String>,
    pub rust_version: Option<String>,
    pub documentation: Option<String>,
    pub homepage: Option<String>,
    pub repository: Option<String>,
    pub crates_io: Option<String>,
    pub features: Vec<Feature>,
}

/// One feature flag of a package.
#[derive(Debug, PartialEq)]
pub struct Feature {
    pub name: String,
    pub is_default: bool,
    pub dependencies: Vec<String>,
}

/// The mathematical model of a [`Feature`].
pub ghost struct FeatureModel {
    pub name: Seq<char>,
    pub is_default: bool,
    pub dependencies: Seq<Seq<char>>,
}

impl View for Feature {
    type V = FeatureModel;

    open spec fn view(&self) -> FeatureModel {
        FeatureModel {
            name: self.name@,
            is_default: self.is_default,
            dependencies: self.dependencies.deep_view(),
        }
    }
}

/// The mathematical model of a [`CrateInfo`].
pub ghost struct CrateInfoModel {
    pub name: Seq<char>,
    pub description: Seq<char>,
    pub version: Seq<char>,
    pub license: Option<Seq<char>>,
    pub rust_version: Option<Seq<char>>,
    pub documentation: Option<Seq<char>>,
    pub homepage: Option<Seq<char>>,
    pub repository: Option<Seq<char>>,
    pub crates_io: Option<Seq<char>>,
    pub features: Seq<FeatureModel>,
}

impl View for CrateInfo {
    type V = CrateInfoModel;

    open spec fn view(&self) -> CrateInfoModel {
        CrateInfoModel {
            name: self.name@,
            description: self.description@,
            version: self.version@,
            license: self.license.deep_view(),
            rust_version: self.rust_version.deep_view(),
            documentation: self.documentation.deep_view(),
            homepage: self.homepage.deep_view(),
            repository: self.repository.deep_view(),
            crates_io: self.crates_io.deep_view(),
            features: self.features@.map_values(|f: Feature| f@),
        }
    }
}

// ---------------------------------------------------------------------------
// The parse, as a function of the output text
// ---------------------------------------------------------------------------

/// The feature a listing line describes: the part before the first
/// `=` is the name (a leading `+` marks a default feature and is
/// stripped); the part after it, without surrounding brackets, is
/// split on commas into dependency names.
pub open spec fn spec_parse_feature(l: Seq<char>) -> FeatureModel {
    let k = spec_first_match(l, "="@);
    let name_raw = if k < 0 {
        l
    } else {
        l.subrange(0, k)
    };
    let deps_raw = if k < 0 {
        Seq::<char>::empty()
    } else {
        l.subrange(k + 1, l.len() as int)
    };
    let name_t = spec_trim(name_raw);
    let deps_str = spec_trim(deps_raw);
    FeatureModel {
        name: spec_strip_front(name_t, '+'),
        is_default: spec_starts_with(name_t, "+"@),
        dependencies: if deps_str.len() == 0 {
            Seq::empty()
        } else {
            spec_split(spec_trim_brackets(deps_str), ","@).map_values(|d: Seq<char>| spec_trim(d))
        },
    }
}

/// What a `key: value` line sets: known keys fill their field, any
/// other key changes nothing.
pub open spec fn spec_apply_kv(
    info: CrateInfoModel,
    key: Seq<char>,
    value: Seq<char>,
) -> CrateInfoModel {
    if key == "version"@ {
        CrateInfoModel { version: value, ..info }
    } else if key == "license"@ {
        CrateInfoModel { license: Some(value), ..info }
    } else if key == "rust-version"@ {
        CrateInfoModel { rust_version: Some(value), ..info }
    } else if key == "documentation"@ {
        CrateInfoModel { documentation: Some(value), ..info }
    } else if key == "homepage"@ {
        CrateInfoModel { homepage: Some(value), ..info }
    } else if key == "repository"@ {
        CrateInfoModel { repository: Some(value), ..info }
    } else if key == "crates.io"@ {
        CrateInfoModel { crates_io: Some(value), ..info }
    } else {
        info
    }
}

/// The parser's state between lines.
pub ghost struct ParseStateModel {
    pub info: CrateInfoModel,
    pub in_features: bool,
    pub done: bool,
}

/// How one line advances the parse: blank lines are skipped, a
/// `features:` line opens the feature listing, a `note:` line inside
/// it ends the parse, other lines add a feature or fill a field.
pub open spec fn spec_apply_line(st: ParseStateModel, line: Seq<char>) -> ParseStateModel {
    if st.done {
        st
    } else {
        let l = spec_trim(line);
        if l.len() == 0 {
            st
        } else if spec_starts_with(l, "features:"@) {
            ParseStateModel { in_features: true, ..st }
        } else if st.in_features {
            if spec_starts_with(l, "note:"@) {
                ParseStateModel { done: true, ..st }
            } else {
                ParseStateModel {
                    info: CrateInfoModel {
                        features: st.info.features.push(spec_parse_feature(l)),
                        ..st.info
                    },
                    ..st
                }
            }
        } else {
            let k = spec_first_match(l, ":"@);
            if k < 0 {
                st
            } else {
                let key = spec_trim(l.subrange(0, k));
                let value = spec_trim(l.subrange(k + 1, l.len() as int));
                ParseStateModel { info: spec_apply_kv(st.info, key, value), ..st }
            }
        }
    }
}

/// The state after every line has been applied in order.
pub open spec fn spec_apply_lines(lines: Seq<Seq<char>>, st: ParseStateModel) -> ParseStateModel
    decreases lines.len(),
{
    if lines.len() == 0 {
        st
    } else {
        spec_apply_lines(lines.drop_first(), spec_apply_line(st, lines.first()))
    }
}

proof fn lemma_apply_lines_snoc(lines: Seq<Seq<char>>, st: ParseStateModel, x: Seq<char>)
    ensures
        spec_apply_lines(lines.push(x), st) == spec_apply_line(spec_apply_lines(lines, st), x),
    decreases lines.len(),
{
    if lines.len() == 0 {
        assert(lines.push(x).len() == 1);
        assert(lines.push(x).first() == x);
        assert(lines.push(x).drop_first() =~= Seq::<Seq<char>>::empty());
        assert(spec_apply_lines(lines.push(x), st) == spec_apply_lines(
            lines.push(x).drop_first(),
            spec_apply_line(st, x),
        ));
        assert(spec_apply_lines(Seq::<Seq<char>>::empty(), spec_apply_line(st, x))
            == spec_apply_line(st, x));
    } else {
        assert(lines.push(x).first() == lines.first());
        assert(lines.push(x).drop_first() =~= lines.drop_first().push(x));
        assert(spec_apply_lines(lines.push(x), st) == spec_apply_lines(
            lines.drop_first().push(x),
            spec_apply_line(st, lines.first()),
        ));
        assert(spec_apply_lines(lines, st) == spec_apply_lines(
            lines.drop_first(),
            spec_apply_line(st, lines.first()),
        ));
        lemma_apply_lines_snoc(lines.drop_first(), spec_apply_line(st, lines.first()), x);
    }
}

/// The record the whole output parses to: the first line's first
/// token is the name, the second line the description, and the
/// remaining lines are applied in order.  An output with no lines
/// parses to nothing.
pub open spec fn spec_parse_info(out: Seq<char>) -> Option<CrateInfoModel> {
    let ls = spec_lines(out);
    if ls.len() == 0 {
        None
    } else {
        let rest = if ls.len() >= 2 {
            ls.skip(2)
        } else {
            Seq::<Seq<char>>::empty()
        };
        let st0 = ParseStateModel {
            info: CrateInfoModel {
                name: spec_first_token(ls[0]),
                description: if ls.len() >= 2 {
                    spec_trim(ls[1])
                } else {
                    Seq::<char>::empty()
                },
                version: Seq::empty(),
                license: None,
                rust_version: None,
                documentation: None,
                homepage: None,
                repository: None,
                crates_io: None,
                features: Seq::empty(),
            },
            in_features: false,
            done: false,
        };
        Some(spec_apply_lines(rest, st0).info)
    }
}

// ---------------------------------------------------------------------------
// The executable parser
// ---------------------------------------------------------------------------

/// The parser's executable state between lines.
struct ParseBuild {
    info: CrateInfo,
    in_features: bool,
    done: bool,
}

impl View for ParseBuild {
    type V = ParseStateModel;

    closed spec fn view(&self) -> ParseStateModel {
        ParseStateModel { info: self.info@, in_features: self.in_features, done: self.done }
    }
}

/// Whether `v` holds exactly the characters of the literal.
fn is_lit(v: &Vec<char>, s: &str) -> (r: bool)
    ensures
        r == (v@ == s@),
{
    let lit = str_to_chars(s);
    chars_eq(v, &lit)
}

/// Parses one feature listing line.
fn parse_feature(l: &Vec<char>) -> (r: Feature)
    ensures
        r@ == spec_parse_feature(l@),
{
    let eq = str_to_chars("=");
    proof {
        reveal_strlit("=");
        lemma_first_match(l@, "="@);
    }
    let n = l.len();
    let (name_raw, deps_raw): (Vec<char>, Vec<char>) = match find_first(l, &eq) {
        None => (sub_vec(l, 0, n), Vec::new()),
        Some(k) => (sub_vec(l, 0, k), sub_vec(l, k + 1, n)),
    };
    proof {
        assert(l@.subrange(0, l@.len() as int) =~= l@);
        if spec_first_match(l@, "="@) < 0 {
            assert(deps_raw@ =~= Seq::<char>::empty());
        }
    }
    let name_t = trim_chars(&name_raw);
    let deps_str = trim_chars(&deps_raw);
    let plus = str_to_chars("+");
    let is_default = starts_with_sub(&name_t, &plus);
    let fname = strip_front_chars(&name_t, '+');
    let mut deps: Vec<String> = Vec::new();
    if deps_str.len() > 0 {
        let inner = trim_brackets(&deps_str);
        let comma = str_to_chars(",");
        proof {
            reveal_strlit(",");
        }
        let parts = split_sub(&inner, &comma);
        let ghost pdv = parts.deep_view();
        let ghost target = spec_split(spec_trim_brackets(deps_str@), ","@).map_values(
            |d: Seq<char>| spec_trim(d),
        );
        proof {
            assert(pdv == spec_split(spec_trim_brackets(deps_str@), ","@));
            assert(deps.deep_view() =~= target.subrange(0, 0));
        }
        let mut i: usize = 0;
        while i < parts.len()
            invariant
                pdv == parts.deep_view(),
                pdv.len() == parts@.len(),
                target.len() == pdv.len(),
                forall|k: int| 0 <= k < pdv.len() ==> target[k] == spec_trim(#[trigger] pdv[k]),
                i <= pdv.len(),
                deps.deep_view() == target.subrange(0, i as int),
            decreases pdv.len() - i,
        {
            proof {
                assert(parts@[i as int].deep_view() =~= parts@[i as int]@);
                assert(pdv[i as int] == parts@[i as int]@);
            }
            let d = trim_chars(&parts[i]);
            let ds = chars_to_string(&d);
            let ghost prev_rv = deps@;
            let ghost prev_dv = deps.deep_view();
            deps.push(ds);
            proof {
                assert(ds@ == spec_trim(pdv[i as int]));
                assert(ds@ == target[i as int]);
                lemma_deep_push_str(prev_rv, deps@.last());
                assert(deps@ == prev_rv.push(deps@.last()));
                assert(deps.deep_view() =~= prev_dv.push(ds@));
                assert(deps.deep_view() =~= target.subrange(0, i + 1));
            }
            i += 1;
        }
        proof {
            assert(target.subrange(0, target.len() as int) =~= target);
        }
    } else {
        proof {
            assert(deps.deep_view() =~= Seq::<Seq<char>>::empty());
        }
    }
    let f = Feature { name: chars_to_string(&fname), is_default, dependencies: deps };
    proof {
        assert(f@.name == spec_parse_feature(l@).name);
        assert(f@.is_default == spec_parse_feature(l@).is_default);
        assert(f@.dependencies == spec_parse_feature(l@).dependencies);
    }
    f
}

/// Fills the field a `key: value` line names, if any.
fn apply_kv(info: &mut CrateInfo, key: &Vec<char>, value: &Vec<char>)
    ensures
        final(info)@ == spec_apply_kv(old(info)@, key@, value@),
{
    let vs = chars_to_string(value);
    if is_lit(key, "version") {
        info.version = vs;
    } else if is_lit(key, "license") {
        info.license = Some(vs);
    } else if is_lit(key, "rust-version") {
        info.rust_version = Some(vs);
    } else if is_lit(key, "documentation") {
        info.documentation = Some(vs);
    } else if is_lit(key, "homepage") {
        info.homepage = Some(vs);
    } else if is_lit(key, "repository") {
        info.repository = Some(vs);
    } else if is_lit(key, "crates.io") {
        info.crates_io = Some(vs);
    }
}

/// Advances the parse by one line.
fn apply_line(st: &mut ParseBuild, line: &Vec<char>)
    ensures
        final(st)@ == spec_apply_line(old(st)@, line@),
{
    if st.done {
        return ;
    }
    let l = trim_chars(line);
    if l.len() == 0 {
        return ;
    }
    let feat_marker = str_to_chars("features:");
    if starts_with_sub(&l, &feat_marker) {
        st.in_features = true;
        return ;
    }
    if st.in_features {
        let note_marker = str_to_chars("note:");
        if starts_with_sub(&l, &note_marker) {
            st.done = true;
            return ;
        }
        let f = parse_feature(&l);
        let ghost prev = st.info.features@;
        st.info.features.push(f);
        proof {
            assert(st.info.features@.map_values(|x: Feature| x@) =~= prev.map_values(
                |x: Feature| x@,
            ).push(f@));
        }
        return ;
    }
    let colon = str_to_chars(":");
    proof {
        reveal_strlit(":");
        lemma_first_match(l@, ":"@);
    }
    match find_first(&l, &colon) {
        None => {},
        Some(k) => {
            let key_raw = sub_vec(&l, 0, k);
            let key = trim_chars(&key_raw);
            let value_raw = sub_vec(&l, k + 1, l.len());
            let value = trim_chars(&value_raw);
            apply_kv(&mut st.info, &key, &value);
        },
    }
}

/// Parses package metadata from the lookup command's text output.
pub struct CrateInfoTool;

impl CrateInfoTool {
    /// A metadata parsing tool.
    pub fn new() -> Self {
        CrateInfoTool
    }

    /// Parses the lookup command's output into a structured record;
    /// an output with no lines at all is rejected.
    pub fn parse_cargo_info_output(&self, output: &str) -> (r: Result<CrateInfo, HarvestError>)
        ensures
            match r {
                Ok(c) => spec_parse_info(output@) == Some(c@),
                Err(e) => spec_parse_info(output@) is None && (e matches
                HarvestError::MalformedInput { message } && message@ == "Empty output"@),
            },
    {
        let out_c = str_to_chars(output);
        let ls = lines_of(&out_c);
        let ghost lsd = ls.deep_view();
        if ls.len() == 0 {
            proof {
                assert(lsd.len() == 0);
            }
            return Err(HarvestError::MalformedInput { message: "Empty output".to_owned() });
        }
        proof {
            assert(ls@[0].deep_view() =~= ls@[0]@);
        }
        let name_c = first_token(&ls[0]);
        let desc_c: Vec<char> = if ls.len() >= 2 {
            proof {
                assert(ls@[1].deep_view() =~= ls@[1]@);
            }
            trim_chars(&ls[1])
        } else {
            Vec::new()
        };
        let mut st = ParseBuild {
            info: CrateInfo {
                name: chars_to_string(&name_c),
                description: chars_to_string(&desc_c),
                version: String::new(),
                license: None,
                rust_version: None,
                documentation: None,
                homepage: None,
                repository: None,
                crates_io: None,
                features: Vec::new(),
            },
            in_features: false,
            done: false,
        };
        let ghost st0 = st@;
        let ghost rest = if lsd.len() >= 2 {
            lsd.skip(2)
        } else {
            Seq::<Seq<char>>::empty()
        };
        proof {
            assert(st.info.features@.map_values(|x: Feature| x@) =~= Seq::<FeatureModel>::empty());
            assert(st@ == spec_apply_lines(rest.subrange(0, 0), st0));
        }
        let mut i: usize = 2;
        while i < ls.len()
            invariant
                lsd == ls.deep_view(),
                lsd.len() == ls@.len(),
                2 <= i,
                i <= 2 + rest.len(),
                lsd.len() >= 2 ==> rest == lsd.skip(2),
                lsd.len() < 2 ==> rest.len() == 0,
                st@ == spec_apply_lines(rest.subrange(0, i - 2), st0),
            decreases lsd.len() - i,
        {
            let ghost pre = rest.subrange(0, i - 2);
            proof {
                assert(ls@[i as int].deep_view() =~= ls@[i as int]@);
                assert(rest[i - 2] == lsd[i as int]);
            }
            apply_line(&mut st, &ls[i]);
            proof {
                lemma_apply_lines_snoc(pre, st0, rest[i - 2]);
                assert(rest.subrange(0, i - 1) =~= pre.push(rest[i - 2]));
            }
            i += 1;
        }
        proof {
            assert(rest.subrange(0, rest.len() as int) =~= rest);
            if lsd.len() >= 2 {
                assert(i - 2 == rest.len());
            }
            assert(st@ == spec_apply_lines(rest, st0));
        }
        Ok(st.info)
    }
}

} // verus!
