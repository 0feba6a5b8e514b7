//! Character- and string-level helpers shared by the recognizers: digit and
//! word-character classification, first-match association lookups, joining a
//! sequence of segments with a separator, and small slicing utilities.

use vstd::prelude::*;

verus! {

/// An ASCII decimal digit.
pub open spec fn digit(c: char) -> bool {
    '0' <= c && c <= '9'
}

/// Every character of `s` is an ASCII decimal digit (true of the empty string).
pub open spec fn all_digits(s: Seq<char>) -> bool {
    forall|i: int| 0 <= i < s.len() ==> digit(#[trigger] s[i])
}

/// An identifier character: ASCII letter, digit or underscore.
pub open spec fn word_char(c: char) -> bool {
    ('a' <= c && c <= 'z') || ('A' <= c && c <= 'Z') || digit(c) || c == '_'
}

/// Index just past the run of digit characters that starts at `i`.
pub open spec fn digit_run_end(s: Seq<char>, i: int) -> int
    decreases s.len() - i,
{
    if 0 <= i < s.len() && digit(s[i]) {
        digit_run_end(s, i + 1)
    } else {
        i
    }
}

/// Index just past the run of identifier characters that starts at `i`.
pub open spec fn word_run_end(s: Seq<char>, i: int) -> int
    decreases s.len() - i,
{
    if 0 <= i < s.len() && word_char(s[i]) {
        word_run_end(s, i + 1)
    } else {
        i
    }
}

/// The word `w` occurs in `s` starting at index `i`.
pub open spec fn has_at(s: Seq<char>, i: int, w: Seq<char>) -> bool {
    0 <= i && i + w.len() <= s.len() && s.subrange(i, i + w.len() as int) == w
}

/// `parts` joined with the separator `sep` between consecutive parts.
pub open spec fn join(parts: Seq<Seq<char>>, sep: Seq<char>) -> Seq<char>
    decreases parts.len(),
{
    if parts.len() == 0 {
        Seq::empty()
    } else if parts.len() == 1 {
        parts[0]
    } else {
        parts[0] + sep + join(parts.drop_first(), sep)
    }
}

/// The value of the first pair of `q` whose key is `key`.
pub open spec fn first_value(q: Seq<(Seq<char>, Seq<char>)>, key: Seq<char>) -> Option<Seq<char>>
    decreases q.len(),
{
    if q.len() == 0 {
        None
    } else if q[0].0 == key {
        Some(q[0].1)
    } else {
        first_value(q.drop_first(), key)
    }
}

/// No two pairs of the table share a key.
pub open spec fn unique_keys<V>(s: Seq<(Seq<char>, V)>) -> bool {
    forall|i: int, j: int| 0 <= i < j < s.len() ==> s[i].0 != s[j].0
}

/// The value of the first pair of the table whose key is `key`.
pub open spec fn assoc_find<V>(s: Seq<(Seq<char>, V)>, key: Seq<char>) -> Option<V>
    decreases s.len(),
{
    if s.len() == 0 {
        None
    } else if s[0].0 == key {
        Some(s[0].1)
    } else {
        assoc_find(s.drop_first(), key)
    }
}

/// A found value stands in the table under the key it was found by.
pub proof fn lemma_assoc_find_some_exists<V>(s: Seq<(Seq<char>, V)>, key: Seq<char>)
    requires
        assoc_find(s, key) is Some,
    ensures
        exists|i: int|
            0 <= i < s.len() && (#[trigger] s[i]).0 == key && s[i].1 == assoc_find(
                s,
                key,
            )->Some_0,
    decreases s.len(),
{
    if s.len() > 0 && s[0].0 != key {
        let tail = s.drop_first();
        lemma_assoc_find_some_exists(tail, key);
        let i = choose|i: int|
            0 <= i < tail.len() && (#[trigger] tail[i]).0 == key && tail[i].1 == assoc_find(
                tail,
                key,
            )->Some_0;
        assert(s[i + 1] == tail[i]);
    }
}

/// Under distinct keys, the first-match lookup is map lookup: whichever
/// position holds the key, the lookup yields that entry's value, so the
/// order of the table is irrelevant.
pub proof fn lemma_assoc_find_unique<V>(s: Seq<(Seq<char>, V)>, key: Seq<char>, i: int)
    requires
        unique_keys(s),
        0 <= i < s.len(),
        s[i].0 == key,
    ensures
        assoc_find(s, key) == Some(s[i].1),
    decreases s.len(),
{
    if i > 0 {
        assert(s[0].0 != key);
        let tail = s.drop_first();
        assert(unique_keys(tail)) by {
            assert forall|a: int, b: int| 0 <= a < b < tail.len() implies (#[trigger] tail[a]).0
                != (#[trigger] tail[b]).0 by {
                assert(tail[a] == s[a + 1]);
                assert(tail[b] == s[b + 1]);
            }
        }
        assert(tail[i - 1] == s[i]);
        lemma_assoc_find_unique(tail, key, i - 1);
    }
}

/// A key that stands under no pair of the table is not found.
pub proof fn lemma_assoc_find_absent<V>(s: Seq<(Seq<char>, V)>, key: Seq<char>)
    requires
        forall|i: int| 0 <= i < s.len() ==> (#[trigger] s[i]).0 != key,
    ensures
        assoc_find(s, key) is None,
    decreases s.len(),
{
    if s.len() > 0 {
        let tail = s.drop_first();
        assert(forall|i: int| 0 <= i < tail.len() ==> (#[trigger] tail[i]).0 != key) by {
            assert(forall|i: int|
                0 <= i < tail.len() ==> #[trigger] tail[i] == s[i + 1]);
        }
        lemma_assoc_find_absent(tail, key);
    }
}

/// Joining splits at the last part: the joined front, the separator, then
/// the last part.
pub proof fn lemma_join_snoc(parts: Seq<Seq<char>>, sep: Seq<char>)
    requires
        parts.len() >= 1,
    ensures
        join(parts, sep) == if parts.len() == 1 {
            parts[0]
        } else {
            join(parts.drop_last(), sep) + sep + parts.last()
        },
    decreases parts.len(),
{
    if parts.len() >= 2 {
        let df = parts.drop_first();
        lemma_join_snoc(df, sep);
        if parts.len() == 2 {
            assert(parts.drop_last() =~= seq![parts[0]]);
            assert(join(parts.drop_last(), sep) == parts[0]);
        } else {
            assert(df.drop_last() =~= parts.drop_last().drop_first());
            assert(join(parts.drop_last(), sep) == parts.drop_last()[0] + sep + join(
                parts.drop_last().drop_first(),
                sep,
            ));
            assert(parts[0] + sep + (join(df.drop_last(), sep) + sep + df.last()) =~= (parts[0]
                + sep + join(df.drop_last(), sep)) + sep + parts.last());
        }
    }
}

/// Joins the segments `v[from..to]` with the separator `sep`.
pub fn join_range(v: &Vec<String>, from: usize, to: usize, sep: &str) -> (r: String)
    requires
        from <= to,
        to as int <= v@.len(),
    ensures
        r@ == join(v.deep_view().subrange(from as int, to as int), sep@),
{
    let mut out = String::new();
    let mut k: usize = from;
    while k < to
        invariant
            from <= k <= to,
            to as int <= v@.len(),
            v.deep_view().len() == v@.len(),
            out@ == join(v.deep_view().subrange(from as int, k as int), sep@),
        decreases to - k,
    {
        if k > from {
            out.append(sep);
        }
        out.append(v[k].as_str());
        proof {
            let dv = v.deep_view();
            let upto = dv.subrange(from as int, k + 1);
            lemma_join_snoc(upto, sep@);
            assert(upto.drop_last() =~= dv.subrange(from as int, k as int));
            assert(upto.last() == dv[k as int]);
        }
        k += 1;
    }
    proof {
        assert(v.deep_view().subrange(from as int, k as int) =~= v.deep_view().subrange(
            from as int,
            to as int,
        ));
    }
    out
}

/// `s` with every `-` replaced by `_`.
pub open spec fn replace_dash(s: Seq<char>) -> Seq<char> {
    s.map_values(|c: char| if c == '-' { '_' } else { c })
}

/// Whether `a` with every `-` replaced by `_` equals `b`.
pub fn eq_replace_dash(a: &str, b: &str) -> (r: bool)
    ensures
        r == (replace_dash(a@) == b@),
{
    let an = a.unicode_len();
    let bn = b.unicode_len();
    if an != bn {
        assert(replace_dash(a@) != b@) by {
            assert(replace_dash(a@).len() == a@.len());
        }
        return false;
    }
    let mut i: usize = 0;
    while i < an
        invariant
            an == a@.len(),
            an == b@.len(),
            i <= an,
            forall|j: int| 0 <= j < i ==> replace_dash(a@)[j] == b@[j],
        decreases an - i,
    {
        let c = a.get_char(i);
        let expected = if c == '-' {
            '_'
        } else {
            c
        };
        if expected != b.get_char(i) {
            assert(replace_dash(a@)[i as int] != b@[i as int]);
            return false;
        }
        i += 1;
    }
    assert(replace_dash(a@) =~= b@);
    true
}

/// The first `n` characters of `s`, or all of it when it is shorter.
pub open spec fn spec_truncate(s: Seq<char>, n: int) -> Seq<char> {
    if s.len() >= n {
        s.take(n)
    } else {
        s
    }
}

/// Truncates `s` to its first `n` characters.
pub fn truncate_chars<'a>(s: &'a str, n: usize) -> (r: &'a str)
    ensures
        r@ == spec_truncate(s@, n as int),
{
    let len = s.unicode_len();
    if len >= n {
        let r = s.substring_char(0, n);
        proof {
            assert(r@ =~= s@.take(n as int));
        }
        r
    } else {
        s
    }
}

/// Finds the value of the first pair of `q` whose key is `key`.
pub fn first_query_value<'a>(q: &'a Vec<(String, String)>, key: &str) -> (r: Option<&'a String>)
    ensures
        match r {
            Some(v) => first_value(q.deep_view(), key@) == Some(v@),
            None => first_value(q.deep_view(), key@) is None,
        },
{
    let ghost qv = q.deep_view();
    let n = q.len();
    let mut i: usize = 0;
    proof {
        assert(qv.skip(0) =~= qv);
    }
    while i < n
        invariant
            n == q@.len(),
            qv == q.deep_view(),
            qv.len() == n,
            i <= n,
            first_value(qv, key@) == first_value(qv.skip(i as int), key@),
        decreases n - i,
    {
        if str_eq(q[i].0.as_str(), key) {
            proof {
                assert(qv.skip(i as int)[0] == qv[i as int]);
            }
            return Some(&q[i].1);
        }
        proof {
            assert(qv.skip(i as int)[0] == qv[i as int]);
            assert(qv.skip(i as int).drop_first() =~= qv.skip(i + 1));
        }
        i += 1;
    }
    proof {
        assert(qv.skip(n as int).len() == 0);
    }
    None
}

/// Whether two string slices hold the same characters.
pub fn str_eq(a: &str, b: &str) -> (r: bool)
    ensures
        r == (a@ == b@),
{
    let an = a.unicode_len();
    let bn = b.unicode_len();
    if an != bn {
        assert(a@ != b@);
        return false;
    }
    let mut i: usize = 0;
    while i < an
        invariant
            an == a@.len(),
            an == b@.len(),
            i <= an,
            forall|j: int| 0 <= j < i ==> a@[j] == b@[j],
        decreases an - i,
    {
        if a.get_char(i) != b.get_char(i) {
            assert(a@[i as int] != b@[i as int]);
            return false;
        }
        i += 1;
    }
    assert(a@ =~= b@);
    true
}

/// Whether `c` is an ASCII decimal digit.
pub fn is_digit_char(c: char) -> (r: bool)
    ensures
        r == digit(c),
{
    '0' <= c && c <= '9'
}

/// Whether `c` is an identifier character.
pub fn is_word_char(c: char) -> (r: bool)
    ensures
        r == word_char(c),
{
    ('a' <= c && c <= 'z') || ('A' <= c && c <= 'Z') || is_digit_char(c) || c == '_'
}

/// Index just past the run of digit characters of `s` that starts at `start`.
pub fn digit_run_end_exec(s: &str, start: usize) -> (e: usize)
    requires
        start as int <= s@.len(),
    ensures
        e as int == digit_run_end(s@, start as int),
        start <= e,
        e as int <= s@.len(),
{
    let n = s.unicode_len();
    let mut i: usize = start;
    while i < n && is_digit_char(s.get_char(i))
        invariant
            n == s@.len(),
            start <= i <= n,
            digit_run_end(s@, start as int) == digit_run_end(s@, i as int),
        decreases n - i,
    {
        i += 1;
    }
    i
}

/// Index just past the run of identifier characters of `s` that starts at
/// `start`.
pub fn word_run_end_exec(s: &str, start: usize) -> (e: usize)
    requires
        start as int <= s@.len(),
    ensures
        e as int == word_run_end(s@, start as int),
        start <= e,
        e as int <= s@.len(),
{
    let n = s.unicode_len();
    let mut i: usize = start;
    while i < n && is_word_char(s.get_char(i))
        invariant
            n == s@.len(),
            start <= i <= n,
            word_run_end(s@, start as int) == word_run_end(s@, i as int),
        decreases n - i,
    {
        i += 1;
    }
    i
}

/// Whether the word `w` occurs in `s` starting at index `i`.
pub fn has_word_at(s: &str, i: usize, w: &str) -> (r: bool)
    ensures
        r == has_at(s@, i as int, w@),
{
    let n = s.unicode_len();
    let wn = w.unicode_len();
    if i > n || wn > n - i {
        return false;
    }
    let mut j: usize = 0;
    while j < wn
        invariant
            n == s@.len(),
            wn == w@.len(),
            i + wn <= n,
            j <= wn,
            forall|jj: int| 0 <= jj < j ==> s@[i + jj] == w@[jj],
        decreases wn - j,
    {
        if s.get_char(i + j) != w.get_char(j) {
            assert(s@.subrange(i as int, i + wn) != w@) by {
                assert(s@.subrange(i as int, i + wn)[j as int] == s@[i + j]);
            }
            return false;
        }
        j += 1;
    }
    assert(s@.subrange(i as int, i + wn) =~= w@);
    true
}

/// Whether every character of `s` is an ASCII decimal digit.
pub fn str_all_digits(s: &str) -> (r: bool)
    ensures
        r == all_digits(s@),
{
    let n = s.unicode_len();
    let mut i: usize = 0;
    while i < n
        invariant
            n == s@.len(),
            i <= n,
            forall|j: int| 0 <= j < i ==> digit(#[trigger] s@[j]),
        decreases n - i,
    {
        if !is_digit_char(s.get_char(i)) {
            return false;
        }
        i += 1;
    }
    true
}

} // verus!
