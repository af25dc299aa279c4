//! Verified text utilities.
//!
//! The library's logic works on `Vec<char>` values whose mathematical
//! model is `Seq<char>`.  This module provides the spec-level string
//! functions (matching, trimming, splitting, joining) and executable
//! counterparts proved against them.

use vstd::prelude::*;

verus! {

// ---------------------------------------------------------------------------
// Substring matching
// ---------------------------------------------------------------------------

/// The needle `n` occurs in `h` starting at position `i`.
pub open spec fn spec_matches_at(h: Seq<char>, n: Seq<char>, i: int) -> bool {
    &&& 0 <= i
    &&& i + n.len() <= h.len()
    &&& forall|j: int| 0 <= j < n.len() ==> h[i + j] == n[j]
}

/// The needle `n` occurs somewhere in `h`.
pub open spec fn spec_contains(h: Seq<char>, n: Seq<char>) -> bool {
    exists|i: int| spec_matches_at(h, n, i)
}

/// `h` begins with the prefix `p`.
pub open spec fn spec_starts_with(h: Seq<char>, p: Seq<char>) -> bool {
    spec_matches_at(h, p, 0)
}

/// `h` ends with the suffix `s`.
pub open spec fn spec_ends_with(h: Seq<char>, s: Seq<char>) -> bool {
    spec_matches_at(h, s, h.len() - s.len())
}

/// Whether `n` occurs in `h` at position `i`.
pub fn matches_at(h: &Vec<char>, n: &Vec<char>, i: usize) -> (b: bool)
    requires
        i + n@.len() <= h@.len(),
    ensures
        b == spec_matches_at(h@, n@, i as int),
{
    let hn = h.len();
    let nn = n.len();
    let mut j: usize = 0;
    while j < nn
        invariant
            hn == h@.len(),
            nn == n@.len(),
            i + nn <= hn,
            j <= nn,
            forall|k: int| 0 <= k < j ==> h@[i + k] == n@[k],
        decreases nn - j,
    {
        if h[i + j] != n[j] {
            return false;
        }
        j += 1;
    }
    true
}

/// Whether `n` occurs anywhere in `h`.
pub fn contains_sub(h: &Vec<char>, n: &Vec<char>) -> (b: bool)
    ensures
        b == spec_contains(h@, n@),
{
    if n.len() > h.len() {
        assert(forall|i: int| !spec_matches_at(h@, n@, i));
        return false;
    }
    let mut i: usize = 0;
    let last: usize = h.len() - n.len();
    while i < last
        invariant
            n@.len() <= h@.len(),
            last == h@.len() - n@.len(),
            i <= last,
            forall|k: int| 0 <= k < i ==> !spec_matches_at(h@, n@, k),
        decreases last - i,
    {
        if matches_at(h, n, i) {
            return true;
        }
        i += 1;
    }
    if matches_at(h, n, last) {
        return true;
    }
    assert forall|k: int| !spec_matches_at(h@, n@, k) by {
        if k < 0 || k > last {
            assert(!spec_matches_at(h@, n@, k));
        }
    }
    false
}

/// Whether `h` begins with `p`.
pub fn starts_with_sub(h: &Vec<char>, p: &Vec<char>) -> (b: bool)
    ensures
        b == spec_starts_with(h@, p@),
{
    if p.len() > h.len() {
        return false;
    }
    matches_at(h, p, 0)
}

/// Whether `h` ends with `s`.
pub fn ends_with_sub(h: &Vec<char>, s: &Vec<char>) -> (b: bool)
    ensures
        b == spec_ends_with(h@, s@),
{
    if s.len() > h.len() {
        return false;
    }
    matches_at(h, s, h.len() - s.len())
}

/// Whether two character vectors hold the same characters.
pub fn chars_eq(a: &Vec<char>, b: &Vec<char>) -> (r: bool)
    ensures
        r == (a@ == b@),
{
    if a.len() != b.len() {
        return false;
    }
    let r = matches_at(a, b, 0);
    proof {
        if r {
            assert(a@ =~= b@);
        }
    }
    r
}

// ---------------------------------------------------------------------------
// First occurrence, splitting, joining, replacing
// ---------------------------------------------------------------------------

/// Position of the first occurrence of `n` in `h`, or -1 if there is none.
pub open spec fn spec_first_match(h: Seq<char>, n: Seq<char>) -> int
    decreases h.len(),
{
    if spec_matches_at(h, n, 0) {
        0
    } else if h.len() == 0 {
        -1
    } else {
        let r = spec_first_match(h.drop_first(), n);
        if r < 0 {
            -1
        } else {
            r + 1
        }
    }
}

proof fn lemma_matches_at_shift(h: Seq<char>, n: Seq<char>, k: int)
    requires
        h.len() > 0,
        k >= 0,
    ensures
        spec_matches_at(h, n, k + 1) == spec_matches_at(h.drop_first(), n, k),
{
    let t = h.drop_first();
    if spec_matches_at(h, n, k + 1) {
        assert forall|j: int| 0 <= j < n.len() implies t[k + j] == n[j] by {
            assert(h[k + 1 + j] == n[j]);
        }
        assert(spec_matches_at(t, n, k));
    }
    if spec_matches_at(t, n, k) {
        assert forall|j: int| 0 <= j < n.len() implies h[k + 1 + j] == n[j] by {
            assert(t[k + j] == n[j]);
        }
        assert(spec_matches_at(h, n, k + 1));
    }
}

/// `spec_first_match` is the least match position when one exists, and
/// is -1 exactly when there is no match.
pub proof fn lemma_first_match(h: Seq<char>, n: Seq<char>)
    ensures
        spec_first_match(h, n) < 0 ==> forall|k: int| !spec_matches_at(h, n, k),
        spec_first_match(h, n) >= 0 ==> spec_matches_at(h, n, spec_first_match(h, n)),
        spec_first_match(h, n) >= 0 ==> forall|k: int|
            0 <= k < spec_first_match(h, n) ==> !spec_matches_at(h, n, k),
    decreases h.len(),
{
    let i = spec_first_match(h, n);
    if spec_matches_at(h, n, 0) {
    } else if h.len() == 0 {
        assert forall|k: int| !spec_matches_at(h, n, k) by {
            if 0 <= k && k + n.len() <= h.len() {
                assert(k == 0);
            }
        }
    } else {
        let t = h.drop_first();
        let r = spec_first_match(t, n);
        lemma_first_match(t, n);
        if r < 0 {
            assert forall|k: int| !spec_matches_at(h, n, k) by {
                if k > 0 {
                    lemma_matches_at_shift(h, n, k - 1);
                } else if k == 0 {
                    assert(!spec_matches_at(h, n, 0));
                }
            }
        } else {
            lemma_matches_at_shift(h, n, r);
            assert(spec_matches_at(h, n, r + 1));
            assert forall|k: int| 0 <= k < r + 1 implies !spec_matches_at(h, n, k) by {
                if k > 0 {
                    lemma_matches_at_shift(h, n, k - 1);
                }
            }
        }
    }
}

/// The position of the first occurrence of `n` in `h`, if any.
pub fn find_first(h: &Vec<char>, n: &Vec<char>) -> (r: Option<usize>)
    ensures
        match r {
            Some(i) => i == spec_first_match(h@, n@),
            None => spec_first_match(h@, n@) < 0,
        },
{
    proof {
        lemma_first_match(h@, n@);
    }
    if n.len() > h.len() {
        assert(forall|k: int| !spec_matches_at(h@, n@, k));
        return None;
    }
    let mut i: usize = 0;
    let last: usize = h.len() - n.len();
    while i < last
        invariant
            n@.len() <= h@.len(),
            last == h@.len() - n@.len(),
            i <= last,
            forall|k: int| 0 <= k < i ==> !spec_matches_at(h@, n@, k),
        decreases last - i,
    {
        if matches_at(h, n, i) {
            proof {
                lemma_first_match(h@, n@);
            }
            return Some(i);
        }
        i += 1;
    }
    if matches_at(h, n, last) {
        proof {
            lemma_first_match(h@, n@);
        }
        return Some(last);
    }
    assert forall|k: int| !spec_matches_at(h@, n@, k) by {
        if k < 0 || k > last {
            assert(!spec_matches_at(h@, n@, k));
        }
    }
    None
}

/// The pieces of `s` between the leftmost non-overlapping occurrences
/// of the separator, as `str::split` produces them.
pub open spec fn spec_split(s: Seq<char>, sep: Seq<char>) -> Seq<Seq<char>>
    decreases s.len(),
{
    let i = spec_first_match(s, sep);
    if sep.len() == 0 || i < 0 || i + sep.len() > s.len() {
        seq![s]
    } else {
        seq![s.subrange(0, i)] + spec_split(s.subrange(i + sep.len(), s.len() as int), sep)
    }
}

/// A copy of `v[from..to]`.
pub fn sub_vec(v: &Vec<char>, from: usize, to: usize) -> (r: Vec<char>)
    requires
        from <= to <= v@.len(),
    ensures
        r@ == v@.subrange(from as int, to as int),
{
    let mut r: Vec<char> = Vec::new();
    let mut i: usize = from;
    while i < to
        invariant
            from <= i <= to <= v@.len(),
            r@ == v@.subrange(from as int, i as int),
        decreases to - i,
    {
        r.push(v[i]);
        proof {
            assert(r@ =~= v@.subrange(from as int, i + 1));
        }
        i += 1;
    }
    r
}

/// Pushing onto a vector of character vectors pushes the view onto the
/// deep view.
pub proof fn lemma_deep_push(s: Seq<Vec<char>>, x: Vec<char>)
    ensures
        Seq::new(s.push(x).len(), |i: int| s.push(x)[i].deep_view()) =~= Seq::new(
            s.len(),
            |i: int| s[i].deep_view(),
        ).push(x@),
{
    assert(x.deep_view() =~= x@);
}

/// Pushing onto a vector of strings pushes the view onto the deep
/// view.
pub proof fn lemma_deep_push_str(s: Seq<String>, x: String)
    ensures
        Seq::new(s.push(x).len(), |i: int| s.push(x)[i].deep_view()) =~= Seq::new(
            s.len(),
            |i: int| s[i].deep_view(),
        ).push(x@),
{
}

/// Splits `s` on the separator, as `str::split` does.
pub fn split_sub(s: &Vec<char>, sep: &Vec<char>) -> (r: Vec<Vec<char>>)
    requires
        sep@.len() > 0,
    ensures
        r.deep_view() == spec_split(s@, sep@),
        r@.len() > 0,
{
    let mut r: Vec<Vec<char>> = Vec::new();
    let mut rest: Vec<char> = sub_vec(s, 0, s.len());
    proof {
        assert(rest@ =~= s@);
    }
    loop
        invariant
            sep@.len() > 0,
            spec_split(s@, sep@) =~= r.deep_view() + spec_split(rest@, sep@),
        decreases rest@.len(),
    {
        proof {
            lemma_first_match(rest@, sep@);
        }
        match find_first(&rest, sep) {
            None => {
                assert(spec_split(rest@, sep@) =~= seq![rest@]);
                let ghost prev = r.deep_view();
                let ghost prev_rv = r@;
                let ghost rv = rest@;
                r.push(rest);
                proof {
                    lemma_deep_push(prev_rv, r@.last());
                    assert(r@ == prev_rv.push(r@.last()));
                    assert(r.deep_view() =~= prev.push(rv));
                    assert(prev.push(rv) =~= prev + seq![rv]);
                    assert(r.deep_view() =~= spec_split(s@, sep@));
                }
                return r;
            },
            Some(i) => {
                let part = sub_vec(&rest, 0, i);
                let next = sub_vec(&rest, i + sep.len(), rest.len());
                let ghost prev = r.deep_view();
                let ghost prev_rv = r@;
                let ghost partv = part@;
                let ghost old_rest = rest@;
                r.push(part);
                proof {
                    assert(spec_split(old_rest, sep@) =~= seq![old_rest.subrange(0, i as int)]
                        + spec_split(next@, sep@));
                    lemma_deep_push(prev_rv, r@.last());
                    assert(r@ == prev_rv.push(r@.last()));
                    assert(r.deep_view() =~= prev.push(partv));
                    assert(prev.push(partv) =~= prev + seq![old_rest.subrange(0, i as int)]);
                    assert(r.deep_view() + spec_split(next@, sep@) =~= spec_split(s@, sep@));
                }
                rest = next;
            },
        }
    }
}

/// The parts joined with the separator between consecutive parts.
pub open spec fn spec_join(parts: Seq<Seq<char>>, sep: Seq<char>) -> Seq<char>
    decreases parts.len(),
{
    if parts.len() == 0 {
        Seq::empty()
    } else if parts.len() == 1 {
        parts[0]
    } else {
        parts[0] + sep + spec_join(parts.drop_first(), sep)
    }
}

proof fn lemma_join_step(parts: Seq<Seq<char>>, sep: Seq<char>, i: int)
    requires
        0 < i < parts.len(),
    ensures
        spec_join(parts.subrange(0, i + 1), sep) == spec_join(parts.subrange(0, i), sep) + sep
            + parts[i],
    decreases i,
{
    if i == 1 {
        assert(parts.subrange(0, 2) =~= seq![parts[0], parts[1]]);
        assert(parts.subrange(0, 2).drop_first() =~= seq![parts[1]]);
        assert(parts.subrange(0, 1) =~= seq![parts[0]]);
        assert(spec_join(seq![parts[1]], sep) == parts[1]);
        assert(spec_join(parts.subrange(0, 2), sep) == parts.subrange(0, 2)[0] + sep + spec_join(
            parts.subrange(0, 2).drop_first(),
            sep,
        ));
        assert(spec_join(parts.subrange(0, 1), sep) == parts[0]);
        assert(spec_join(parts.subrange(0, 2), sep) =~= spec_join(parts.subrange(0, 1), sep) + sep
            + parts[1]);
    } else {
        let t = parts.drop_first();
        lemma_join_step(t, sep, i - 1);
        assert(t.subrange(0, i) =~= parts.subrange(0, i + 1).drop_first());
        assert(t.subrange(0, i - 1) =~= parts.subrange(0, i).drop_first());
        assert(t[i - 1] == parts[i]);
        assert(spec_join(parts.subrange(0, i + 1), sep) == parts[0] + sep + spec_join(
            t.subrange(0, i),
            sep,
        ));
        assert(spec_join(parts.subrange(0, i), sep) == parts[0] + sep + spec_join(
            t.subrange(0, i - 1),
            sep,
        ));
        assert(parts[0] + sep + (spec_join(t.subrange(0, i - 1), sep) + sep + t[i - 1]) =~= (
        parts[0] + sep + spec_join(t.subrange(0, i - 1), sep)) + sep + t[i - 1]);
        assert(spec_join(parts.subrange(0, i + 1), sep) =~= spec_join(parts.subrange(0, i), sep)
            + sep + parts[i]);
    }
}

/// Joins the parts with the separator between consecutive parts.
pub fn join_sub(parts: &Vec<Vec<char>>, sep: &Vec<char>) -> (r: Vec<char>)
    ensures
        r@ == spec_join(parts.deep_view(), sep@),
{
    let ghost pv = parts.deep_view();
    let mut r: Vec<char> = Vec::new();
    if parts.len() == 0 {
        return r;
    }
    append_chars(&mut r, &parts[0]);
    proof {
        assert(pv.subrange(0, 1) =~= seq![pv[0]]);
        assert(r@ =~= spec_join(pv.subrange(0, 1), sep@));
    }
    let mut i: usize = 1;
    while i < parts.len()
        invariant
            1 <= i <= pv.len(),
            pv == parts.deep_view(),
            pv.len() == parts@.len(),
            r@ == spec_join(pv.subrange(0, i as int), sep@),
        decreases pv.len() - i,
    {
        append_chars(&mut r, sep);
        append_chars(&mut r, &parts[i]);
        proof {
            lemma_join_step(pv, sep@, i as int);
            assert(parts@[i as int].deep_view() == pv[i as int]);
        }
        i += 1;
    }
    proof {
        assert(pv.subrange(0, pv.len() as int) =~= pv);
    }
    r
}

/// `s` with every occurrence of `from` replaced by `to`, as
/// `str::replace` does.
pub open spec fn spec_replace(s: Seq<char>, from: Seq<char>, to: Seq<char>) -> Seq<char> {
    spec_join(spec_split(s, from), to)
}

/// Replaces every occurrence of `from` in `s` by `to`.
pub fn replace_sub(s: &Vec<char>, from: &Vec<char>, to: &Vec<char>) -> (r: Vec<char>)
    requires
        from@.len() > 0,
    ensures
        r@ == spec_replace(s@, from@, to@),
{
    let parts = split_sub(s, from);
    join_sub(&parts, to)
}

/// Position of the last occurrence of `c` in `s`, or -1 if there is
/// none.
pub open spec fn spec_rfind(s: Seq<char>, c: char) -> int
    decreases s.len(),
{
    if s.len() == 0 {
        -1
    } else if s[s.len() - 1] == c {
        s.len() - 1
    } else {
        spec_rfind(s.drop_last(), c)
    }
}

/// The position of the last occurrence of `c` in `v`, if any.
pub fn rfind_char(v: &Vec<char>, c: char) -> (r: Option<usize>)
    ensures
        match r {
            Some(i) => i == spec_rfind(v@, c),
            None => spec_rfind(v@, c) < 0,
        },
{
    let mut i: usize = v.len();
    proof {
        assert(v@.subrange(0, v@.len() as int) =~= v@);
    }
    while i > 0
        invariant
            i <= v@.len(),
            spec_rfind(v@, c) == spec_rfind(v@.subrange(0, i as int), c),
        decreases i,
    {
        let ghost pre = v@.subrange(0, i as int);
        if v[i - 1] == c {
            proof {
                assert(pre[pre.len() - 1] == c);
            }
            return Some(i - 1);
        }
        proof {
            assert(pre[pre.len() - 1] != c);
            assert(pre.drop_last() =~= v@.subrange(0, i - 1));
        }
        i -= 1;
    }
    proof {
        assert(v@.subrange(0, 0) =~= Seq::<char>::empty());
    }
    None
}

// ---------------------------------------------------------------------------
// Lines and tokens
// ---------------------------------------------------------------------------

/// A line with one trailing carriage return removed, as `str::lines`
/// yields it.
pub open spec fn spec_strip_cr(l: Seq<char>) -> Seq<char> {
    if l.len() > 0 && l.last() == '\r' {
        l.drop_last()
    } else {
        l
    }
}

/// The lines of `s`, as `str::lines` yields them: pieces between
/// newline terminators, without the final empty piece a trailing
/// newline leaves.  A carriage return directly before a newline is
/// removed; a final piece with no newline after it keeps its
/// characters.
pub open spec fn spec_lines(s: Seq<char>) -> Seq<Seq<char>> {
    if s.len() == 0 {
        Seq::empty()
    } else {
        let parts = spec_split(s, "\n"@);
        let kept = if s.last() == '\n' {
            parts.drop_last()
        } else {
            parts
        };
        Seq::new(
            kept.len(),
            |i: int|
                if i + 1 < parts.len() {
                    spec_strip_cr(kept[i])
                } else {
                    kept[i]
                },
        )
    }
}

/// Splits `v` into its lines.
pub fn lines_of(v: &Vec<char>) -> (r: Vec<Vec<char>>)
    ensures
        r.deep_view() == spec_lines(v@),
{
    let mut r: Vec<Vec<char>> = Vec::new();
    if v.len() == 0 {
        proof {
            assert(r.deep_view() =~= spec_lines(v@));
        }
        return r;
    }
    let nl = str_to_chars("\n");
    proof {
        reveal_strlit("\n");
    }
    let mut parts = split_sub(v, &nl);
    let ghost all_parts = parts.deep_view();
    let mut kept_len = parts.len();
    if v[v.len() - 1] == '\n' {
        kept_len -= 1;
    }
    let ghost kept = if v@.last() == '\n' {
        all_parts.drop_last()
    } else {
        all_parts
    };
    let ghost target = spec_lines(v@);
    proof {
        assert(kept.len() == kept_len);
        assert(forall|k: int| 0 <= k < kept.len() ==> kept[k] == all_parts[k]);
        assert(target.len() == kept_len);
    }
    let n_parts = parts.len();
    let mut i: usize = 0;
    while i < kept_len
        invariant
            kept_len <= parts@.len(),
            n_parts == parts@.len(),
            parts@.len() == all_parts.len(),
            all_parts == parts.deep_view(),
            kept.len() == kept_len,
            forall|k: int| 0 <= k < kept.len() ==> kept[k] == all_parts[k],
            target.len() == kept_len,
            forall|k: int|
                0 <= k < kept.len() ==> target[k] == (if k + 1 < all_parts.len() {
                    spec_strip_cr(kept[k])
                } else {
                    kept[k]
                }),
            i <= kept_len,
            r.deep_view() == target.subrange(0, i as int),
        decreases kept_len - i,
    {
        let part = &parts[i];
        proof {
            assert(parts@[i as int].deep_view() =~= parts@[i as int]@);
            assert(all_parts[i as int] == parts@[i as int]@);
        }
        let n = part.len();
        let terminated = i + 1 < n_parts;
        let line = if terminated && n > 0 && part[n - 1] == '\r' {
            sub_vec(part, 0, n - 1)
        } else {
            sub_vec(part, 0, n)
        };
        proof {
            assert(part@.subrange(0, part@.len() as int) =~= part@);
            if part@.len() > 0 && part@.last() == '\r' {
                assert(part@.subrange(0, part@.len() - 1) =~= part@.drop_last());
            }
            assert(line@ == target[i as int]);
        }
        let ghost prev_rv = r@;
        let ghost prev_dv = r.deep_view();
        r.push(line);
        proof {
            lemma_deep_push(prev_rv, r@.last());
            assert(r@ == prev_rv.push(r@.last()));
            assert(r.deep_view() =~= prev_dv.push(line@));
            assert(r.deep_view() =~= target.subrange(0, i + 1));
        }
        i += 1;
    }
    proof {
        assert(target.subrange(0, target.len() as int) =~= target);
    }
    r
}

/// The position of the first whitespace character, or the length when
/// there is none.
pub open spec fn spec_first_space(s: Seq<char>) -> int
    decreases s.len(),
{
    if s.len() == 0 {
        0
    } else if spec_is_space(s[0]) {
        0
    } else {
        1 + spec_first_space(s.drop_first())
    }
}

proof fn lemma_first_space_at(s: Seq<char>, i: int)
    requires
        0 <= i <= s.len(),
        forall|k: int| 0 <= k < i ==> !spec_is_space(s[k]),
        i < s.len() ==> spec_is_space(s[i]),
    ensures
        spec_first_space(s) == i,
    decreases s.len(),
{
    if i > 0 {
        let t = s.drop_first();
        assert(forall|k: int| 0 <= k < i - 1 ==> t[k] == s[k + 1] && !spec_is_space(t[k]));
        if i - 1 < t.len() {
            assert(t[i - 1] == s[i]);
        }
        lemma_first_space_at(t, i - 1);
    }
}

/// The first whitespace-separated token of a line: leading whitespace
/// is skipped and the token runs to the next whitespace (empty when
/// the line is blank).
pub open spec fn spec_first_token(line: Seq<char>) -> Seq<char> {
    let t = spec_trim_front(line);
    t.subrange(0, spec_first_space(t))
}

/// The first whitespace-separated token of `v`.
pub fn first_token(v: &Vec<char>) -> (r: Vec<char>)
    ensures
        r@ == spec_first_token(v@),
{
    let n = v.len();
    let mut start: usize = 0;
    while start < n && is_space(v[start])
        invariant
            n == v@.len(),
            start <= n,
            forall|k: int| 0 <= k < start ==> spec_is_space(v@[k]),
        decreases n - start,
    {
        start += 1;
    }
    proof {
        lemma_trim_front_subrange(v@, start as int);
        let t = v@.subrange(start as int, n as int);
        if start < n {
            assert(t[0] == v@[start as int]);
        }
        assert(spec_trim_front(t) == t);
    }
    let mut j: usize = start;
    while j < n && !is_space(v[j])
        invariant
            n == v@.len(),
            start <= j <= n,
            forall|k: int| start <= k < j ==> !spec_is_space(v@[k]),
        decreases n - j,
    {
        j += 1;
    }
    proof {
        let t = v@.subrange(start as int, n as int);
        assert(forall|k: int| 0 <= k < j - start ==> t[k] == v@[k + start] && !spec_is_space(t[k]));
        if j < n {
            assert(t[j - start] == v@[j as int]);
        }
        lemma_first_space_at(t, j - start);
        assert(t.subrange(0, j - start) =~= v@.subrange(start as int, j as int));
    }
    sub_vec(v, start, j)
}

// ---------------------------------------------------------------------------
// Bracket trimming
// ---------------------------------------------------------------------------

/// A square-bracket character.
pub open spec fn spec_is_bracket(c: char) -> bool {
    c == '[' || c == ']'
}

/// `s` without its leading bracket characters.
pub open spec fn spec_strip_brackets_front(s: Seq<char>) -> Seq<char>
    decreases s.len(),
{
    if s.len() > 0 && spec_is_bracket(s[0]) {
        spec_strip_brackets_front(s.drop_first())
    } else {
        s
    }
}

/// `s` without its trailing bracket characters.
pub open spec fn spec_strip_brackets_back(s: Seq<char>) -> Seq<char>
    decreases s.len(),
{
    if s.len() > 0 && spec_is_bracket(s[s.len() - 1]) {
        spec_strip_brackets_back(s.drop_last())
    } else {
        s
    }
}

/// `s` without leading and trailing bracket characters, as
/// `str::trim_matches` strips them.
pub open spec fn spec_trim_brackets(s: Seq<char>) -> Seq<char> {
    spec_strip_brackets_back(spec_strip_brackets_front(s))
}

proof fn lemma_strip_brackets_front_subrange(s: Seq<char>, i: int)
    requires
        0 <= i <= s.len(),
        forall|k: int| 0 <= k < i ==> spec_is_bracket(s[k]),
    ensures
        spec_strip_brackets_front(s) == spec_strip_brackets_front(s.subrange(i, s.len() as int)),
    decreases i,
{
    if i > 0 {
        assert(s.drop_first() =~= s.subrange(1, s.len() as int));
        lemma_strip_brackets_front_subrange(s.subrange(1, s.len() as int), i - 1);
        assert(s.subrange(1, s.len() as int).subrange(i - 1, s.len() - 1) =~= s.subrange(
            i,
            s.len() as int,
        ));
    } else {
        assert(s.subrange(0, s.len() as int) =~= s);
    }
}

proof fn lemma_strip_brackets_back_subrange(s: Seq<char>, i: int)
    requires
        0 <= i <= s.len(),
        forall|k: int| i <= k < s.len() ==> spec_is_bracket(s[k]),
    ensures
        spec_strip_brackets_back(s) == spec_strip_brackets_back(s.subrange(0, i)),
    decreases s.len() - i,
{
    if i < s.len() {
        assert(spec_is_bracket(s[s.len() - 1]));
        let sub = s.subrange(0, s.len() - 1);
        assert(s.drop_last() =~= sub);
        assert(forall|k: int| i <= k < sub.len() ==> spec_is_bracket(#[trigger] sub[k]));
        lemma_strip_brackets_back_subrange(sub, i);
        assert(sub.subrange(0, i) =~= s.subrange(0, i));
    } else {
        assert(s.subrange(0, i) =~= s);
    }
}

/// `v` without leading and trailing bracket characters.
pub fn trim_brackets(v: &Vec<char>) -> (r: Vec<char>)
    ensures
        r@ == spec_trim_brackets(v@),
{
    let n = v.len();
    let mut start: usize = 0;
    while start < n && (v[start] == '[' || v[start] == ']')
        invariant
            n == v@.len(),
            start <= n,
            forall|k: int| 0 <= k < start ==> spec_is_bracket(v@[k]),
        decreases n - start,
    {
        start += 1;
    }
    proof {
        lemma_strip_brackets_front_subrange(v@, start as int);
    }
    let ghost tail = v@.subrange(start as int, n as int);
    proof {
        if start < n {
            assert(tail[0] == v@[start as int]);
        }
        assert(spec_strip_brackets_front(tail) == tail);
    }
    let mut end: usize = n;
    while end > start && (v[end - 1] == '[' || v[end - 1] == ']')
        invariant
            n == v@.len(),
            start <= end <= n,
            forall|k: int| end <= k < n ==> spec_is_bracket(v@[k]),
        decreases end,
    {
        end -= 1;
    }
    proof {
        assert(forall|k: int|
            end - start <= k < tail.len() ==> spec_is_bracket(#[trigger] tail[k]));
        lemma_strip_brackets_back_subrange(tail, end - start);
        assert(tail.subrange(0, end - start) =~= v@.subrange(start as int, end as int));
        if end > start {
            assert(v@.subrange(start as int, end as int)[end - start - 1] == v@[end - 1]);
        }
        assert(spec_strip_brackets_back(v@.subrange(start as int, end as int)) == v@.subrange(
            start as int,
            end as int,
        ));
    }
    sub_vec(v, start, end)
}

// ---------------------------------------------------------------------------
// Qualified names
// ---------------------------------------------------------------------------

/// The `::`-separated pieces of a possibly qualified name.
pub open spec fn spec_name_parts(name: Seq<char>) -> Seq<Seq<char>> {
    spec_split(name, "::"@)
}

/// The bare name: the final piece of the qualified name.
pub open spec fn spec_bare_name(name: Seq<char>) -> Seq<char> {
    spec_name_parts(name).last()
}

/// The module path: every piece before the final one, rejoined with
/// `::` (empty for an unqualified name).
pub open spec fn spec_module_path(name: Seq<char>) -> Seq<char> {
    spec_join(spec_name_parts(name).drop_last(), "::"@)
}

/// Splits a possibly qualified name into its module path and its bare
/// name.
pub fn split_qualified(name: &Vec<char>) -> (r: (Vec<char>, Vec<char>))
    ensures
        r.0@ == spec_module_path(name@),
        r.1@ == spec_bare_name(name@),
{
    let sep = str_to_chars("::");
    proof {
        reveal_strlit("::");
    }
    let parts = split_sub(name, &sep);
    let ghost dv = parts.deep_view();
    let n = parts.len();
    let bare = sub_vec(&parts[n - 1], 0, parts[n - 1].len());
    proof {
        assert(parts@[n - 1].deep_view() =~= parts@[n - 1]@);
        assert(bare@ =~= dv.last());
    }
    let mut init: Vec<Vec<char>> = Vec::new();
    proof {
        assert(init.deep_view() =~= dv.subrange(0, 0));
    }
    let mut i: usize = 0;
    while i < n - 1
        invariant
            n == parts@.len(),
            n >= 1,
            i <= n - 1,
            dv == parts.deep_view(),
            dv.len() == n,
            init.deep_view() == dv.subrange(0, i as int),
        decreases n - 1 - i,
    {
        let p = sub_vec(&parts[i], 0, parts[i].len());
        proof {
            assert(parts@[i as int].deep_view() =~= parts@[i as int]@);
            assert(p@ =~= parts@[i as int]@);
            assert(p@ == dv[i as int]);
        }
        let ghost prev_rv = init@;
        let ghost prev_dv = init.deep_view();
        init.push(p);
        proof {
            lemma_deep_push(prev_rv, init@.last());
            assert(init@ == prev_rv.push(init@.last()));
            assert(init.deep_view() =~= prev_dv.push(p@));
            assert(init.deep_view() =~= dv.subrange(0, i + 1));
        }
        i += 1;
    }
    let module = join_sub(&init, &sep);
    proof {
        assert(dv.subrange(0, n - 1) =~= dv.drop_last());
    }
    (module, bare)
}

/// `s` without its leading occurrences of `c`.
pub open spec fn spec_strip_front(s: Seq<char>, c: char) -> Seq<char>
    decreases s.len(),
{
    if s.len() > 0 && s[0] == c {
        spec_strip_front(s.drop_first(), c)
    } else {
        s
    }
}

proof fn lemma_strip_front_subrange(s: Seq<char>, c: char, i: int)
    requires
        0 <= i <= s.len(),
        forall|k: int| 0 <= k < i ==> s[k] == c,
    ensures
        spec_strip_front(s, c) == spec_strip_front(s.subrange(i, s.len() as int), c),
    decreases i,
{
    if i > 0 {
        assert(s.drop_first() =~= s.subrange(1, s.len() as int));
        lemma_strip_front_subrange(s.subrange(1, s.len() as int), c, i - 1);
        assert(s.subrange(1, s.len() as int).subrange(i - 1, s.len() - 1) =~= s.subrange(
            i,
            s.len() as int,
        ));
    } else {
        assert(s.subrange(0, s.len() as int) =~= s);
    }
}

/// `v` without its leading occurrences of `c`.
pub fn strip_front_chars(v: &Vec<char>, c: char) -> (r: Vec<char>)
    ensures
        r@ == spec_strip_front(v@, c),
{
    let n = v.len();
    let mut start: usize = 0;
    while start < n && v[start] == c
        invariant
            n == v@.len(),
            start <= n,
            forall|k: int| 0 <= k < start ==> v@[k] == c,
        decreases n - start,
    {
        start += 1;
    }
    proof {
        lemma_strip_front_subrange(v@, c, start as int);
        let tail = v@.subrange(start as int, n as int);
        if start < n {
            assert(tail[0] == v@[start as int]);
        }
        assert(spec_strip_front(tail, c) == tail);
    }
    sub_vec(v, start, n)
}

// ---------------------------------------------------------------------------
// Conversions between strings and character vectors
// ---------------------------------------------------------------------------

/// The characters of a string slice, in order.
pub fn str_to_chars(s: &str) -> (r: Vec<char>)
    ensures
        r@ == s@,
{
    let n = s.unicode_len();
    let mut r: Vec<char> = Vec::new();
    let mut i: usize = 0;
    while i < n
        invariant
            n == s@.len(),
            i <= n,
            r@ == s@.subrange(0, i as int),
        decreases n - i,
    {
        r.push(s.get_char(i));
        proof {
            assert(r@ =~= s@.subrange(0, i + 1));
        }
        i += 1;
    }
    proof {
        assert(r@ =~= s@);
    }
    r
}

/// Relies on `String`'s `FromIterator` over `char`: the resulting
/// string holds exactly the iterator's characters in order.
#[verifier::external_body]
pub(crate) fn chars_to_string(v: &Vec<char>) -> (r: String)
    ensures
        r@ == v@,
{
    v.iter().collect()
}

// ---------------------------------------------------------------------------
// Whitespace and trimming
// ---------------------------------------------------------------------------

/// A Unicode whitespace character, as `char::is_whitespace` counts
/// them (the White_Space property).
pub open spec fn spec_is_space(c: char) -> bool {
    ||| c as u32 == 0x09
    ||| c as u32 == 0x0A
    ||| c as u32 == 0x0B
    ||| c as u32 == 0x0C
    ||| c as u32 == 0x0D
    ||| c as u32 == 0x20
    ||| c as u32 == 0x85
    ||| c as u32 == 0xA0
    ||| c as u32 == 0x1680
    ||| (0x2000 <= c as u32 && c as u32 <= 0x200A)
    ||| c as u32 == 0x2028
    ||| c as u32 == 0x2029
    ||| c as u32 == 0x202F
    ||| c as u32 == 0x205F
    ||| c as u32 == 0x3000
}

/// Whether `c` is a Unicode whitespace character.
pub fn is_space(c: char) -> (b: bool)
    ensures
        b == spec_is_space(c),
{
    let u = c as u32;
    u == 0x09 || u == 0x0A || u == 0x0B || u == 0x0C || u == 0x0D || u == 0x20 || u == 0x85
        || u == 0xA0 || u == 0x1680 || (0x2000 <= u && u <= 0x200A) || u == 0x2028 || u == 0x2029
        || u == 0x202F || u == 0x205F || u == 0x3000
}

/// `s` without its leading whitespace.
pub open spec fn spec_trim_front(s: Seq<char>) -> Seq<char>
    decreases s.len(),
{
    if s.len() > 0 && spec_is_space(s[0]) {
        spec_trim_front(s.drop_first())
    } else {
        s
    }
}

/// `s` without its trailing whitespace.
pub open spec fn spec_trim_back(s: Seq<char>) -> Seq<char>
    decreases s.len(),
{
    if s.len() > 0 && spec_is_space(s[s.len() - 1]) {
        spec_trim_back(s.drop_last())
    } else {
        s
    }
}

/// `s` without leading and trailing whitespace.
pub open spec fn spec_trim(s: Seq<char>) -> Seq<char> {
    spec_trim_back(spec_trim_front(s))
}

proof fn lemma_trim_front_subrange(s: Seq<char>, i: int)
    requires
        0 <= i <= s.len(),
        forall|k: int| 0 <= k < i ==> spec_is_space(s[k]),
    ensures
        spec_trim_front(s) == spec_trim_front(s.subrange(i, s.len() as int)),
    decreases i,
{
    if i > 0 {
        assert(spec_trim_front(s) == spec_trim_front(s.drop_first()));
        assert(s.drop_first() =~= s.subrange(1, s.len() as int));
        lemma_trim_front_subrange(s.subrange(1, s.len() as int), i - 1);
        assert(s.subrange(1, s.len() as int).subrange(i - 1, s.len() - 1)
            =~= s.subrange(i, s.len() as int));
    } else {
        assert(s.subrange(0, s.len() as int) =~= s);
    }
}

proof fn lemma_trim_back_subrange(s: Seq<char>, i: int)
    requires
        0 <= i <= s.len(),
        forall|k: int| i <= k < s.len() ==> spec_is_space(s[k]),
    ensures
        spec_trim_back(s) == spec_trim_back(s.subrange(0, i)),
    decreases s.len() - i,
{
    if i < s.len() {
        assert(spec_is_space(s[s.len() - 1]));
        assert(spec_trim_back(s) == spec_trim_back(s.drop_last()));
        let sub = s.subrange(0, s.len() - 1);
        assert(s.drop_last() =~= sub);
        assert(forall|k: int| i <= k < sub.len() ==> spec_is_space(#[trigger] sub[k]));
        lemma_trim_back_subrange(sub, i);
        assert(sub.subrange(0, i) =~= s.subrange(0, i));
    } else {
        assert(s.subrange(0, i) =~= s);
    }
}

proof fn lemma_trim_front_head(s: Seq<char>)
    ensures
        spec_trim_front(s).len() > 0 ==> !spec_is_space(spec_trim_front(s)[0]),
    decreases s.len(),
{
    if s.len() > 0 && spec_is_space(s[0]) {
        lemma_trim_front_head(s.drop_first());
    }
}

proof fn lemma_trim_back_last(s: Seq<char>)
    ensures
        spec_trim_back(s).len() > 0 ==> !spec_is_space(spec_trim_back(s).last()),
    decreases s.len(),
{
    if s.len() > 0 && spec_is_space(s[s.len() - 1]) {
        lemma_trim_back_last(s.drop_last());
    }
}

proof fn lemma_trim_back_head(s: Seq<char>)
    ensures
        spec_trim_back(s).len() > 0 ==> spec_trim_back(s)[0] == s[0],
    decreases s.len(),
{
    if s.len() > 0 && spec_is_space(s[s.len() - 1]) {
        lemma_trim_back_head(s.drop_last());
    }
}

/// Trimming is idempotent: a trimmed string trims to itself.
pub proof fn lemma_trim_idempotent(s: Seq<char>)
    ensures
        spec_trim(spec_trim(s)) == spec_trim(s),
{
    let t = spec_trim_front(s);
    let u = spec_trim_back(t);
    lemma_trim_front_head(s);
    lemma_trim_back_head(t);
    lemma_trim_back_last(t);
    if u.len() > 0 {
        assert(u[0] == t[0]);
        assert(!spec_is_space(u[0]));
    }
    assert(spec_trim_front(u) == u);
    assert(spec_trim_back(u) == u);
}

/// `v` without leading and trailing whitespace.
pub fn trim_chars(v: &Vec<char>) -> (r: Vec<char>)
    ensures
        r@ == spec_trim(v@),
{
    let n = v.len();
    let mut start: usize = 0;
    while start < n && is_space(v[start])
        invariant
            n == v@.len(),
            start <= n,
            forall|k: int| 0 <= k < start ==> spec_is_space(v@[k]),
        decreases n - start,
    {
        start += 1;
    }
    proof {
        lemma_trim_front_subrange(v@, start as int);
    }
    let ghost tail = v@.subrange(start as int, n as int);
    proof {
        if start < n {
            assert(!spec_is_space(tail[0]));
        }
        assert(spec_trim_front(tail) == tail);
    }
    let mut end: usize = n;
    while end > start && is_space(v[end - 1])
        invariant
            n == v@.len(),
            start <= end <= n,
            forall|k: int| end <= k < n ==> spec_is_space(v@[k]),
        decreases end,
    {
        end -= 1;
    }
    proof {
        lemma_trim_back_subrange(tail, end - start);
        assert(tail.subrange(0, end - start) =~= v@.subrange(start as int, end as int));
        if end > start {
            assert(v@.subrange(start as int, end as int)[end - start - 1] == v@[end - 1]);
            assert(!spec_is_space(v@[end - 1]));
        }
        assert(spec_trim_back(v@.subrange(start as int, end as int))
            == v@.subrange(start as int, end as int));
    }
    let mut r: Vec<char> = Vec::new();
    let mut i: usize = start;
    while i < end
        invariant
            start <= i <= end <= v@.len(),
            r@ == v@.subrange(start as int, i as int),
        decreases end - i,
    {
        r.push(v[i]);
        proof {
            assert(r@ =~= v@.subrange(start as int, i + 1));
        }
        i += 1;
    }
    proof {
        assert(r@ =~= v@.subrange(start as int, end as int));
    }
    r
}

// ---------------------------------------------------------------------------
// Appending
// ---------------------------------------------------------------------------

/// Appends the characters of `src` to `dst`.
pub fn append_chars(dst: &mut Vec<char>, src: &Vec<char>)
    ensures
        final(dst)@ == old(dst)@ + src@,
{
    let mut i: usize = 0;
    while i < src.len()
        invariant
            i <= src@.len(),
            dst@ == old(dst)@ + src@.subrange(0, i as int),
        decreases src@.len() - i,
    {
        dst.push(src[i]);
        proof {
            assert(old(dst)@ + src@.subrange(0, i + 1) =~= (old(dst)@ + src@.subrange(
                0,
                i as int,
            )).push(src@[i as int]));
        }
        i += 1;
    }
    proof {
        assert(src@.subrange(0, src@.len() as int) =~= src@);
    }
}

/// Appends one character to `dst`.
pub fn push_char(dst: &mut Vec<char>, c: char)
    ensures
        final(dst)@ == old(dst)@.push(c),
{
    dst.push(c);
}

} // verus!
