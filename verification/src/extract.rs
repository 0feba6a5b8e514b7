//! Structured extraction primitives: the small grammars parsed out of URL
//! fragments and path segments. Each parser searches its input for the
//! leftmost occurrence of a fixed shape, the way the recognizers expect:
//! a line-number spec `L<digits>(-L<digits>)?`, a `<component>-v<version>`
//! tag split, a rustdoc `<kind>.<ident>.html` page name, and a rustdoc
//! fragment `<kind>.<ident>` identifier.

use vstd::prelude::*;

use crate::text::{
    digit, digit_run_end, digit_run_end_exec, has_at, has_word_at, is_digit_char, join,
    join_range, str_eq, word_run_end, word_run_end_exec,
};

verus! {

/// A parsed line-number spec from a fragment: one line, or a range.
#[derive(Clone, Debug, PartialEq, Eq)]
pub enum LineNumberSpec {
    Single(String),
    Range(String, String),
}

/// The mathematical value of a [`LineNumberSpec`].
pub enum LineNumberSpecView {
    Single(Seq<char>),
    Range(Seq<char>, Seq<char>),
}

impl View for LineNumberSpec {
    type V = LineNumberSpecView;

    open spec fn view(&self) -> LineNumberSpecView {
        match self {
            LineNumberSpec::Single(l) => LineNumberSpecView::Single(l@),
            LineNumberSpec::Range(s, e) => LineNumberSpecView::Range(s@, e@),
        }
    }
}

/// `L` followed by at least one digit occurs at index `i`.
pub open spec fn line_match_at(s: Seq<char>, i: int) -> bool {
    0 <= i && i + 1 < s.len() && s[i] == 'L' && digit(s[i + 1])
}

/// The first index at or after `i` where a line-number spec starts.
pub open spec fn first_line_match(s: Seq<char>, i: int) -> Option<int>
    decreases s.len() - i,
{
    if i < 0 || i >= s.len() {
        None
    } else if line_match_at(s, i) {
        Some(i)
    } else {
        first_line_match(s, i + 1)
    }
}

/// The line-number spec found in `frag`, if any: the leftmost `L<digits>`,
/// extended to a range when `-L<digits>` follows the first digit run.
pub open spec fn spec_line_number_spec(frag: Seq<char>) -> Option<LineNumberSpecView> {
    match first_line_match(frag, 0) {
        None => None,
        Some(i) => {
            let de = digit_run_end(frag, i + 1);
            let start = frag.subrange(i + 1, de);
            if de + 2 < frag.len() && frag[de] == '-' && frag[de + 1] == 'L' && digit(
                frag[de + 2],
            ) {
                Some(
                    LineNumberSpecView::Range(
                        start,
                        frag.subrange(de + 2, digit_run_end(frag, de + 2)),
                    ),
                )
            } else {
                Some(LineNumberSpecView::Single(start))
            }
        },
    }
}

proof fn lemma_first_line_match_tail_none(s: Seq<char>, i: int)
    requires
        s.len() - 1 <= i,
    ensures
        first_line_match(s, i) is None,
    decreases s.len() - i,
{
    if 0 <= i && i < s.len() {
        lemma_first_line_match_tail_none(s, i + 1);
    }
}

/// Parses the line-number spec out of a fragment, if one occurs in it.
pub fn parse_line_number_spec(frag: &str) -> (r: Option<LineNumberSpec>)
    ensures
        match r {
            Some(sp) => spec_line_number_spec(frag@) == Some(sp@),
            None => spec_line_number_spec(frag@) is None,
        },
{
    let n = frag.unicode_len();
    let mut i: usize = 0;
    while n >= 1 && i < n - 1
        invariant
            n == frag@.len(),
            i <= n,
            first_line_match(frag@, 0) == first_line_match(frag@, i as int),
        decreases n - i,
    {
        if frag.get_char(i) == 'L' && is_digit_char(frag.get_char(i + 1)) {
            let de = digit_run_end_exec(frag, i + 1);
            let start = String::from_str(frag.substring_char(i + 1, de));
            if n - de > 2 && frag.get_char(de) == '-' && frag.get_char(de + 1) == 'L'
                && is_digit_char(frag.get_char(de + 2)) {
                let ee = digit_run_end_exec(frag, de + 2);
                let end = String::from_str(frag.substring_char(de + 2, ee));
                return Some(LineNumberSpec::Range(start, end));
            }
            return Some(LineNumberSpec::Single(start));
        }
        i += 1;
    }
    proof {
        lemma_first_line_match_tail_none(frag@, i as int);
    }
    None
}

/// `-v<digit>` occurs at index `k`, with a non-empty component before it.
pub open spec fn cv_sep_at(s: Seq<char>, k: int) -> bool {
    1 <= k && k + 2 < s.len() && s[k] == '-' && s[k + 1] == 'v' && digit(s[k + 2])
}

/// The last index at or before `k` where a version suffix starts.
pub open spec fn last_cv_sep(s: Seq<char>, k: int) -> Option<int>
    decreases k,
{
    if k < 1 {
        None
    } else if cv_sep_at(s, k) {
        Some(k)
    } else {
        last_cv_sep(s, k - 1)
    }
}

/// The end of an optional `.<digits>` group starting at `i`.
pub open spec fn dot_group_end(s: Seq<char>, i: int) -> int {
    if 0 <= i && i + 1 < s.len() && s[i] == '.' && digit(s[i + 1]) {
        digit_run_end(s, i + 1)
    } else {
        i
    }
}

/// Splits a release tag into component and version, when the tag matches
/// `<component>-v<major>[.<minor>[.<patch>]]`: the component is everything
/// before the last such separator, and the version keeps its `v`.
pub open spec fn spec_component_version(tag: Seq<char>) -> Option<(Seq<char>, Seq<char>)> {
    match last_cv_sep(tag, tag.len() - 3) {
        None => None,
        Some(k) => {
            let e = dot_group_end(tag, dot_group_end(tag, digit_run_end(tag, k + 2)));
            Some((tag.subrange(0, k), tag.subrange(k + 1, e)))
        },
    }
}

/// The end of an optional `.<digits>` group starting at `i`.
fn dot_group_end_exec(s: &str, i: usize) -> (e: usize)
    requires
        i as int <= s@.len(),
    ensures
        e as int == dot_group_end(s@, i as int),
        i <= e,
        e as int <= s@.len(),
{
    let n = s.unicode_len();
    if i < n && n - i > 1 && s.get_char(i) == '.' && is_digit_char(s.get_char(i + 1)) {
        digit_run_end_exec(s, i + 1)
    } else {
        i
    }
}

/// Splits a release tag into component and version text, if it matches.
pub fn split_component_version(tag: &str) -> (r: Option<(String, String)>)
    ensures
        match r {
            Some(cv) => spec_component_version(tag@) == Some((cv.0@, cv.1@)),
            None => spec_component_version(tag@) is None,
        },
{
    let n = tag.unicode_len();
    if n < 4 {
        return None;
    }
    let mut k: usize = n - 3;
    loop
        invariant
            n == tag@.len(),
            4 <= n,
            1 <= k <= n - 3,
            last_cv_sep(tag@, (n - 3) as int) == last_cv_sep(tag@, k as int),
        decreases k,
    {
        if tag.get_char(k) == '-' && tag.get_char(k + 1) == 'v' && is_digit_char(
            tag.get_char(k + 2),
        ) {
            let e0 = digit_run_end_exec(tag, k + 2);
            let e = dot_group_end_exec(tag, dot_group_end_exec(tag, e0));
            let component = String::from_str(tag.substring_char(0, k));
            let version = String::from_str(tag.substring_char(k + 1, e));
            return Some((component, version));
        }
        if k == 1 {
            proof {
                assert(!cv_sep_at(tag@, 1));
                assert(last_cv_sep(tag@, 0) is None);
            }
            return None;
        }
        k = k - 1;
    }
}

/// The rustdoc page-name kind that occurs at index `i`, if any.
pub open spec fn kind_at(s: Seq<char>, i: int) -> Option<Seq<char>> {
    if has_at(s, i, "constant"@) {
        Some("constant"@)
    } else if has_at(s, i, "struct"@) {
        Some("struct"@)
    } else if has_at(s, i, "fn"@) {
        Some("fn"@)
    } else if has_at(s, i, "enum"@) {
        Some("enum"@)
    } else if has_at(s, i, "trait"@) {
        Some("trait"@)
    } else if has_at(s, i, "attr"@) {
        Some("attr"@)
    } else if has_at(s, i, "primitive"@) {
        Some("primitive"@)
    } else if has_at(s, i, "type"@) {
        Some("type"@)
    } else {
        None
    }
}

/// A whole `<kind>.<ident>.html` shape occurs at index `i`: the kind, a dot,
/// a non-empty identifier run, then `.html`.
pub open spec fn symbol_split_at(s: Seq<char>, i: int) -> Option<(Seq<char>, Seq<char>)> {
    match kind_at(s, i) {
        None => None,
        Some(kind) => {
            let p = i + kind.len() as int;
            if p < s.len() && s[p] == '.' {
                let w = word_run_end(s, p + 1);
                if w > p + 1 && has_at(s, w, ".html"@) {
                    Some((kind, s.subrange(p + 1, w)))
                } else {
                    None
                }
            } else {
                None
            }
        },
    }
}

/// The leftmost `<kind>.<ident>.html` occurrence at or after `i`.
pub open spec fn first_symbol_split(s: Seq<char>, i: int) -> Option<(Seq<char>, Seq<char>)>
    decreases s.len() - i,
{
    if i < 0 || i >= s.len() {
        None
    } else if symbol_split_at(s, i) is Some {
        symbol_split_at(s, i)
    } else {
        first_symbol_split(s, i + 1)
    }
}

/// The length of the kind that occurs at `i`, if any.
fn kind_at_exec(s: &str, i: usize) -> (r: Option<usize>)
    ensures
        match (r, kind_at(s@, i as int)) {
            (Some(l), Some(k)) => l as int == k.len(),
            (None, None) => true,
            _ => false,
        },
{
    if has_word_at(s, i, "constant") {
        Some("constant".unicode_len())
    } else if has_word_at(s, i, "struct") {
        Some("struct".unicode_len())
    } else if has_word_at(s, i, "fn") {
        Some("fn".unicode_len())
    } else if has_word_at(s, i, "enum") {
        Some("enum".unicode_len())
    } else if has_word_at(s, i, "trait") {
        Some("trait".unicode_len())
    } else if has_word_at(s, i, "attr") {
        Some("attr".unicode_len())
    } else if has_word_at(s, i, "primitive") {
        Some("primitive".unicode_len())
    } else if has_word_at(s, i, "type") {
        Some("type".unicode_len())
    } else {
        None
    }
}

/// The kind and identifier at index `i`, when the whole shape fits there.
fn symbol_split_at_exec(s: &str, i: usize) -> (r: Option<(String, String)>)
    requires
        i as int <= s@.len(),
    ensures
        match (r, symbol_split_at(s@, i as int)) {
            (Some(ks), Some(spec_ks)) => ks.0@ == spec_ks.0 && ks.1@ == spec_ks.1,
            (None, None) => true,
            _ => false,
        },
{
    let n = s.unicode_len();
    match kind_at_exec(s, i) {
        None => None,
        Some(l) => {
            proof {
                let kind = kind_at(s@, i as int)->Some_0;
                assert(has_at(s@, i as int, kind));
            }
            let p = i + l;
            if p < n && s.get_char(p) == '.' {
                let w = word_run_end_exec(s, p + 1);
                if w > p + 1 && has_word_at(s, w, ".html") {
                    let kind = String::from_str(s.substring_char(i, p));
                    let ident = String::from_str(s.substring_char(p + 1, w));
                    Some((kind, ident))
                } else {
                    None
                }
            } else {
                None
            }
        },
    }
}

/// The rustdoc fragment kind that occurs at index `i`, if any.
pub open spec fn frag_kind_at(s: Seq<char>, i: int) -> Option<Seq<char>> {
    if has_at(s, i, "tymethod"@) {
        Some("tymethod"@)
    } else if has_at(s, i, "method"@) {
        Some("method"@)
    } else if has_at(s, i, "associatedconstant"@) {
        Some("associatedconstant"@)
    } else if has_at(s, i, "structfield"@) {
        Some("structfield"@)
    } else {
        None
    }
}

/// A `<kind>.<ident>` shape occurs at index `i`: a fragment kind, a dot,
/// then a non-empty identifier run. Yields the identifier.
pub open spec fn frag_split_at(s: Seq<char>, i: int) -> Option<Seq<char>> {
    match frag_kind_at(s, i) {
        None => None,
        Some(kind) => {
            let p = i + kind.len() as int;
            if p < s.len() && s[p] == '.' {
                let w = word_run_end(s, p + 1);
                if w > p + 1 {
                    Some(s.subrange(p + 1, w))
                } else {
                    None
                }
            } else {
                None
            }
        },
    }
}

/// The leftmost `<kind>.<ident>` occurrence at or after `i`.
pub open spec fn first_frag_split(s: Seq<char>, i: int) -> Option<Seq<char>>
    decreases s.len() - i,
{
    if i < 0 || i >= s.len() {
        None
    } else if frag_split_at(s, i) is Some {
        frag_split_at(s, i)
    } else {
        first_frag_split(s, i + 1)
    }
}

/// The length of the fragment kind that occurs at `i`, if any.
fn frag_kind_at_exec(s: &str, i: usize) -> (r: Option<usize>)
    ensures
        match (r, frag_kind_at(s@, i as int)) {
            (Some(l), Some(k)) => l as int == k.len(),
            (None, None) => true,
            _ => false,
        },
{
    if has_word_at(s, i, "tymethod") {
        Some("tymethod".unicode_len())
    } else if has_word_at(s, i, "method") {
        Some("method".unicode_len())
    } else if has_word_at(s, i, "associatedconstant") {
        Some("associatedconstant".unicode_len())
    } else if has_word_at(s, i, "structfield") {
        Some("structfield".unicode_len())
    } else {
        None
    }
}

/// The identifier at index `i`, when the whole fragment shape fits there.
fn frag_split_at_exec(s: &str, i: usize) -> (r: Option<String>)
    requires
        i as int <= s@.len(),
    ensures
        match (r, frag_split_at(s@, i as int)) {
            (Some(id), Some(spec_id)) => id@ == spec_id,
            (None, None) => true,
            _ => false,
        },
{
    let n = s.unicode_len();
    match frag_kind_at_exec(s, i) {
        None => None,
        Some(l) => {
            proof {
                let kind = frag_kind_at(s@, i as int)->Some_0;
                assert(has_at(s@, i as int, kind));
            }
            let p = i + l;
            if p < n && s.get_char(p) == '.' {
                let w = word_run_end_exec(s, p + 1);
                if w > p + 1 {
                    Some(String::from_str(s.substring_char(p + 1, w)))
                } else {
                    None
                }
            } else {
                None
            }
        },
    }
}

/// Finds the leftmost `<kind>.<ident>` occurrence in a fragment.
pub fn find_frag_split(s: &str) -> (r: Option<String>)
    ensures
        match (r, first_frag_split(s@, 0)) {
            (Some(id), Some(spec_id)) => id@ == spec_id,
            (None, None) => true,
            _ => false,
        },
{
    let n = s.unicode_len();
    let mut i: usize = 0;
    while i < n
        invariant
            n == s@.len(),
            i <= n,
            first_frag_split(s@, 0) == first_frag_split(s@, i as int),
        decreases n - i,
    {
        let found = frag_split_at_exec(s, i);
        if found.is_some() {
            return found;
        }
        i += 1;
    }
    None
}

/// A sequence holding the parts an optional piece contributes to a joined
/// path: one element, or none.
pub open spec fn opt_part(p: Option<Seq<char>>) -> Seq<Seq<char>> {
    match p {
        Some(x) => seq![x],
        None => Seq::empty(),
    }
}

/// The `::`-joined symbol path for a documented item: the crate or root
/// module name (omitted for a primitive), the module path segments, the
/// identifier split out of a trailing `<kind>.<ident>.html` page name, and
/// an identifier split out of the fragment. A trailing `index.html` or empty
/// segment contributes no identifier; any other trailing segment that is not
/// a recognized page name makes the whole path fail.
pub open spec fn spec_symbol_path(
    crate_name: Seq<char>,
    rest: Seq<Seq<char>>,
    fragment: Option<Seq<char>>,
) -> Option<Seq<char>> {
    let split: Option<(Seq<Seq<char>>, Option<(Seq<char>, Seq<char>)>)> = if rest.len() == 0 {
        Some((rest, None))
    } else if rest.last() == "index.html"@ || rest.last() == ""@ {
        Some((rest.drop_last(), None))
    } else {
        match first_symbol_split(rest.last(), 0) {
            None => None,
            Some(ks) => Some((rest.drop_last(), Some(ks))),
        }
    };
    match split {
        None => None,
        Some((middle, symbol)) => {
            let crate_part: Seq<Seq<char>> = match symbol {
                Some(ks) => if ks.0 == "primitive"@ {
                    Seq::empty()
                } else {
                    seq![crate_name]
                },
                None => seq![crate_name],
            };
            let sym_part = match symbol {
                Some(ks) => seq![ks.1],
                None => Seq::<Seq<char>>::empty(),
            };
            let frag_part = match fragment {
                None => Seq::<Seq<char>>::empty(),
                Some(f) => opt_part(first_frag_split(f, 0)),
            };
            Some(join(crate_part + middle + sym_part + frag_part, "::"@))
        },
    }
}

/// Resolves the symbol path for the segments `segments[from..]`, read
/// against the given crate or root module name and optional fragment.
pub fn extract_rust_symbol_path(
    crate_module_name: &str,
    segments: &Vec<String>,
    from: usize,
    fragment: Option<&str>,
) -> (r: Option<String>)
    requires
        from as int <= segments@.len(),
    ensures
        match r {
            Some(p) => spec_symbol_path(
                crate_module_name@,
                segments.deep_view().skip(from as int),
                fragment.deep_view(),
            ) == Some(p@),
            None => spec_symbol_path(
                crate_module_name@,
                segments.deep_view().skip(from as int),
                fragment.deep_view(),
            ) is None,
        },
{
    let ghost rest = segments.deep_view().skip(from as int);
    let n = segments.len();
    let mut end = n;
    let mut symbol: Option<(String, String)> = None;
    if from < n {
        proof {
            assert(rest.last() == segments.deep_view()[n - 1]);
        }
        let last = &segments[n - 1];
        if str_eq(last.as_str(), "index.html") || str_eq(last.as_str(), "") {
            end = n - 1;
        } else {
            match find_symbol_split(last.as_str()) {
                None => {
                    return None;
                },
                Some(ks) => {
                    symbol = Some(ks);
                    end = n - 1;
                },
            }
        }
    }
    let ghost spec_split = if rest.len() == 0 {
        Some((rest, Option::<(Seq<char>, Seq<char>)>::None))
    } else if rest.last() == "index.html"@ || rest.last() == ""@ {
        Some((rest.drop_last(), Option::<(Seq<char>, Seq<char>)>::None))
    } else {
        match first_symbol_split(rest.last(), 0) {
            None => None,
            Some(ks) => Some((rest.drop_last(), Some(ks))),
        }
    };
    let ghost middle = spec_split->Some_0.0;
    let ghost spec_symbol = spec_split->Some_0.1;
    proof {
        assert(spec_split is Some);
        assert(match (symbol, spec_symbol) {
            (Some(ks), Some(sks)) => ks.0@ == sks.0 && ks.1@ == sks.1,
            (None, None) => true,
            _ => false,
        });
        assert(middle =~= segments.deep_view().subrange(from as int, end as int));
    }
    let frag_ident: Option<String> = match fragment {
        None => None,
        Some(f) => find_frag_split(f),
    };
    let include_crate = match &symbol {
        Some(ks) => !str_eq(ks.0.as_str(), "primitive"),
        None => true,
    };
    let ghost crate_part: Seq<Seq<char>> = if include_crate {
        seq![crate_module_name@]
    } else {
        Seq::empty()
    };
    let ghost sym_part: Seq<Seq<char>> = match spec_symbol {
        Some(ks) => seq![ks.1],
        None => Seq::empty(),
    };
    let ghost frag_part: Seq<Seq<char>> = match fragment.deep_view() {
        None => Seq::empty(),
        Some(f) => opt_part(first_frag_split(f, 0)),
    };
    let mut parts: Vec<String> = Vec::new();
    if include_crate {
        parts.push(String::from_str(crate_module_name));
    }
    proof {
        assert(parts.deep_view() =~= crate_part);
    }
    let mut k = from;
    while k < end
        invariant
            from <= k <= end,
            end as int <= segments@.len(),
            segments.deep_view().len() == segments@.len(),
            parts.deep_view() =~= crate_part + segments.deep_view().subrange(
                from as int,
                k as int,
            ),
        decreases end - k,
    {
        let ghost before = parts.deep_view();
        parts.push(segments[k].clone());
        proof {
            assert(parts.deep_view() =~= before.push(segments.deep_view()[k as int]));
            assert(parts.deep_view() =~= crate_part + segments.deep_view().subrange(
                from as int,
                k + 1,
            ));
        }
        k += 1;
    }
    if let Some(ks) = symbol {
        parts.push(ks.1);
    }
    if let Some(id) = frag_ident {
        parts.push(id);
    }
    proof {
        assert(parts.deep_view() =~= crate_part + middle + sym_part + frag_part);
    }
    let out = join_range(&parts, 0, parts.len(), "::");
    proof {
        assert(parts.deep_view().subrange(0, parts.deep_view().len() as int) =~= parts.deep_view());
    }
    Some(out)
}

/// Finds the leftmost `<kind>.<ident>.html` occurrence in a page name.
pub fn find_symbol_split(s: &str) -> (r: Option<(String, String)>)
    ensures
        match (r, first_symbol_split(s@, 0)) {
            (Some(ks), Some(spec_ks)) => ks.0@ == spec_ks.0 && ks.1@ == spec_ks.1,
            (None, None) => true,
            _ => false,
        },
{
    let n = s.unicode_len();
    let mut i: usize = 0;
    while i < n
        invariant
            n == s@.len(),
            i <= n,
            first_symbol_split(s@, 0) == first_symbol_split(s@, i as int),
        decreases n - i,
    {
        let found = symbol_split_at_exec(s, i);
        if found.is_some() {
            return found;
        }
        i += 1;
    }
    None
}

} // verus!
