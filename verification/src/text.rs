//! Character-level helpers over `&str` and `String`: substring search,
//! prefix and suffix tests, path components, splitting and joining.
//!
//! Paths are carried as plain strings; the file-name, stem and extension
//! functions follow the usual rules (the file name is what follows the
//! last separator; a leading dot does not start an extension).

use vstd::prelude::*;

verus! {

/// `needle` occurs in `hay` starting at position `i`.
pub open spec fn matches_at(hay: Seq<char>, needle: Seq<char>, i: int) -> bool {
    0 <= i && i + needle.len() <= hay.len() && hay.subrange(i, i + needle.len()) == needle
}

/// `needle` occurs somewhere in `hay`.
pub open spec fn seq_contains_seq(hay: Seq<char>, needle: Seq<char>) -> bool {
    exists|i: int| matches_at(hay, needle, i)
}

/// `s` starts with `p`.
pub open spec fn seq_starts_with(s: Seq<char>, p: Seq<char>) -> bool {
    p.len() <= s.len() && s.subrange(0, p.len() as int) == p
}

/// `s` ends with `p`.
pub open spec fn seq_ends_with(s: Seq<char>, p: Seq<char>) -> bool {
    p.len() <= s.len() && s.subrange(s.len() - p.len(), s.len() as int) == p
}

/// Position of the last occurrence of `c` in `s`, or -1 if it does not
/// occur.
pub open spec fn last_index_of(s: Seq<char>, c: char) -> int
    decreases s.len(),
{
    if s.len() == 0 {
        -1
    } else if s.last() == c {
        s.len() - 1
    } else {
        last_index_of(s.drop_last(), c)
    }
}

pub proof fn lemma_last_index_of(s: Seq<char>, c: char)
    ensures
        -1 <= last_index_of(s, c) < s.len(),
        last_index_of(s, c) == -1 ==> forall|k: int| 0 <= k < s.len() ==> s[k] != c,
        last_index_of(s, c) >= 0 ==> last_index_of(s, c) < s.len() && s[last_index_of(s, c)] == c
            && forall|k: int| last_index_of(s, c) < k < s.len() ==> s[k] != c,
    decreases s.len(),
{
    if s.len() > 0 && s.last() != c {
        lemma_last_index_of(s.drop_last(), c);
        assert(forall|k: int| 0 <= k < s.len() - 1 ==> s.drop_last()[k] == s[k]);
        assert(s[s.len() - 1] != c);
    }
}

/// Whether `p` occurs in `s` at position `start`, by character comparison.
pub(crate) fn match_at(s: &str, start: usize, p: &str) -> (b: bool)
    requires
        start + p@.len() <= s@.len(),
    ensures
        b == matches_at(s@, p@, start as int),
{
    let n = s.unicode_len();
    let m = p.unicode_len();
    let mut j: usize = 0;
    while j < m
        invariant
            n == s@.len(),
            m == p@.len(),
            start + m <= n,
            0 <= j <= m,
            forall|t: int| 0 <= t < j ==> s@[start + t] == p@[t],
        decreases m - j,
    {
        if s.get_char(start + j) != p.get_char(j) {
            proof {
                assert(!matches_at(s@, p@, start as int)) by {
                    if s@.subrange(start as int, start + p@.len()) == p@ {
                        assert(s@.subrange(start as int, start + p@.len())[j as int] == p@[
                            j as int
                        ]);
                    }
                }
            }
            return false;
        }
        j += 1;
    }
    proof {
        assert(s@.subrange(start as int, start + p@.len()) =~= p@);
    }
    true
}

/// Whether two strings hold the same characters.
pub(crate) fn str_eq(a: &str, b: &str) -> (r: bool)
    ensures
        r == (a@ == b@),
{
    let n = a.unicode_len();
    if n != b.unicode_len() {
        proof {
            assert(a@ != b@) by {
                if a@ == b@ {
                    assert(a@.len() == b@.len());
                }
            }
        }
        return false;
    }
    let r = match_at(a, 0, b);
    proof {
        assert(a@.subrange(0, b@.len() as int) =~= a@);
    }
    r
}

/// Whether `needle` occurs anywhere in `hay`.
pub(crate) fn str_contains(hay: &str, needle: &str) -> (b: bool)
    ensures
        b == seq_contains_seq(hay@, needle@),
{
    let n = hay.unicode_len();
    let m = needle.unicode_len();
    if m > n {
        proof {
            assert(!seq_contains_seq(hay@, needle@)) by {
                if exists|i: int| matches_at(hay@, needle@, i) {
                    let i = choose|i: int| matches_at(hay@, needle@, i);
                    assert(i + needle@.len() <= hay@.len());
                }
            }
        }
        return false;
    }
    if m == 0 {
        proof {
            assert(hay@.subrange(0, 0) =~= needle@);
            assert(matches_at(hay@, needle@, 0));
        }
        return true;
    }
    let mut i: usize = 0;
    while i <= n - m
        invariant
            n == hay@.len(),
            m == needle@.len(),
            0 < m <= n,
            0 <= i <= n - m + 1,
            forall|t: int| 0 <= t < i ==> !matches_at(hay@, needle@, t),
        decreases n - i,
    {
        if match_at(hay, i, needle) {
            return true;
        }
        i += 1;
    }
    proof {
        assert(!seq_contains_seq(hay@, needle@)) by {
            if exists|t: int| matches_at(hay@, needle@, t) {
                let t = choose|t: int| matches_at(hay@, needle@, t);
                assert(t <= n - m);
            }
        }
    }
    false
}

/// Whether `s` starts with `p`.
pub(crate) fn str_starts_with(s: &str, p: &str) -> (b: bool)
    ensures
        b == seq_starts_with(s@, p@),
{
    if p.unicode_len() > s.unicode_len() {
        return false;
    }
    match_at(s, 0, p)
}

/// Whether `s` ends with `p`.
pub(crate) fn str_ends_with(s: &str, p: &str) -> (b: bool)
    ensures
        b == seq_ends_with(s@, p@),
{
    let n = s.unicode_len();
    let m = p.unicode_len();
    if m > n {
        return false;
    }
    match_at(s, n - m, p)
}

/// Position of the last occurrence of `c` in `s`, if any.
pub(crate) fn rfind_char(s: &str, c: char) -> (r: Option<usize>)
    ensures
        r matches Some(i) ==> i == last_index_of(s@, c),
        r is None ==> last_index_of(s@, c) == -1,
{
    let n = s.unicode_len();
    let mut j: usize = n;
    while j > 0
        invariant
            n == s@.len(),
            0 <= j <= n,
            forall|k: int| j <= k < n ==> s@[k] != c,
        decreases j,
    {
        if s.get_char(j - 1) == c {
            proof {
                lemma_last_index_of(s@, c);
            }
            return Some(j - 1);
        }
        j -= 1;
    }
    proof {
        lemma_last_index_of(s@, c);
    }
    None
}

/// The characters of `s` from `from` (inclusive) to `to` (exclusive), as
/// an owned string.
pub(crate) fn substring(s: &str, from: usize, to: usize) -> (r: String)
    requires
        from <= to <= s@.len(),
    ensures
        r@ == s@.subrange(from as int, to as int),
{
    String::from_str(s.substring_char(from, to))
}

/// The file-name component of a path: what follows the last `/`.
pub open spec fn spec_file_name(path: Seq<char>) -> Seq<char> {
    path.subrange(last_index_of(path, '/') + 1, path.len() as int)
}

/// The stem of a path's file name: the part before the last `.`, unless
/// the only dot is a leading one.
pub open spec fn spec_file_stem(path: Seq<char>) -> Seq<char> {
    let name = spec_file_name(path);
    let d = last_index_of(name, '.');
    if d <= 0 {
        name
    } else {
        name.subrange(0, d)
    }
}

/// The extension of a path's file name: what follows the last `.`, when
/// that dot neither leads the name nor is absent.
pub open spec fn spec_has_extension(path: Seq<char>, ext: Seq<char>) -> bool {
    let name = spec_file_name(path);
    let d = last_index_of(name, '.');
    d > 0 && name.subrange(d + 1, name.len() as int) == ext
}

/// The file-name component of `path`.
pub(crate) fn file_name_of(path: &str) -> (r: String)
    ensures
        r@ == spec_file_name(path@),
{
    let n = path.unicode_len();
    proof {
        lemma_last_index_of(path@, '/');
    }
    match rfind_char(path, '/') {
        Some(i) => substring(path, i + 1, n),
        None => substring(path, 0, n),
    }
}

/// The stem of `path`'s file name.
pub(crate) fn file_stem_of(path: &str) -> (r: String)
    ensures
        r@ == spec_file_stem(path@),
{
    let name = file_name_of(path);
    let n = name.as_str().unicode_len();
    proof {
        lemma_last_index_of(name@, '.');
    }
    match rfind_char(name.as_str(), '.') {
        Some(d) => {
            if d == 0 {
                proof {
                    assert(name@.subrange(0, name@.len() as int) =~= name@);
                }
                substring(name.as_str(), 0, n)
            } else {
                substring(name.as_str(), 0, d)
            }
        },
        None => {
            proof {
                assert(name@.subrange(0, name@.len() as int) =~= name@);
            }
            substring(name.as_str(), 0, n)
        },
    }
}

/// Whether `path`'s file name carries the extension `ext`.
pub(crate) fn has_extension(path: &str, ext: &str) -> (b: bool)
    ensures
        b == spec_has_extension(path@, ext@),
{
    let name = file_name_of(path);
    let n = name.as_str().unicode_len();
    proof {
        lemma_last_index_of(name@, '.');
    }
    match rfind_char(name.as_str(), '.') {
        Some(d) => {
            if d == 0 {
                false
            } else {
                let tail = substring(name.as_str(), d + 1, n);
                str_eq(tail.as_str(), ext)
            }
        },
        None => false,
    }
}

/// The parent of a path: what precedes the last `/`, or the empty string
/// when there is no separator.
pub open spec fn spec_parent(path: Seq<char>) -> Seq<char> {
    let i = last_index_of(path, '/');
    if i <= 0 {
        Seq::empty()
    } else {
        path.subrange(0, i)
    }
}

/// The parent component of `path`.
pub(crate) fn parent_of(path: &str) -> (r: String)
    ensures
        r@ == spec_parent(path@),
{
    proof {
        lemma_last_index_of(path@, '/');
    }
    match rfind_char(path, '/') {
        Some(i) => {
            if i == 0 {
                String::new()
            } else {
                substring(path, 0, i)
            }
        },
        None => String::new(),
    }
}

/// Position of the first occurrence of `c` in `s`, or -1 if it does not
/// occur.
pub open spec fn first_index_of(s: Seq<char>, c: char) -> int
    decreases s.len(),
{
    if s.len() == 0 {
        -1
    } else if s.first() == c {
        0
    } else {
        let r = first_index_of(s.drop_first(), c);
        if r == -1 {
            -1
        } else {
            r + 1
        }
    }
}

pub proof fn lemma_first_index_of(s: Seq<char>, c: char)
    ensures
        -1 <= first_index_of(s, c) < s.len(),
        first_index_of(s, c) == -1 ==> forall|k: int| 0 <= k < s.len() ==> s[k] != c,
        first_index_of(s, c) >= 0 ==> s[first_index_of(s, c)] == c && forall|k: int|
            0 <= k < first_index_of(s, c) ==> s[k] != c,
    decreases s.len(),
{
    if s.len() > 0 && s.first() != c {
        lemma_first_index_of(s.drop_first(), c);
        assert(forall|k: int| 1 <= k < s.len() ==> s.drop_first()[k - 1] == s[k]);
    }
}

/// A line with one trailing carriage return removed.
pub open spec fn strip_cr(l: Seq<char>) -> Seq<char> {
    if l.len() > 0 && l.last() == '\r' {
        l.drop_last()
    } else {
        l
    }
}

/// The lines of `s`: split at every newline, one trailing carriage
/// return removed per line, and no final empty line when the text ends
/// with a newline.
pub open spec fn split_lines(s: Seq<char>) -> Seq<Seq<char>>
    decreases s.len(),
    via split_lines_decreases
{
    if s.len() == 0 {
        Seq::empty()
    } else {
        let i = first_index_of(s, '\n');
        if i == -1 {
            seq![strip_cr(s)]
        } else {
            seq![strip_cr(s.take(i))] + split_lines(s.skip(i + 1))
        }
    }
}

#[via_fn]
proof fn split_lines_decreases(s: Seq<char>) {
    lemma_first_index_of(s, '\n');
}

/// The characters of `s` from `from` to `to`, with one trailing carriage
/// return removed.
fn line_between(s: &str, from: usize, to: usize) -> (r: String)
    requires
        from <= to <= s@.len(),
    ensures
        r@ == strip_cr(s@.subrange(from as int, to as int)),
{
    if to > from && s.get_char(to - 1) == '\r' {
        proof {
            assert(s@.subrange(from as int, to as int).last() == s@[to - 1]);
            assert(s@.subrange(from as int, to as int).drop_last() =~= s@.subrange(
                from as int,
                to - 1,
            ));
        }
        substring(s, from, to - 1)
    } else {
        proof {
            if to > from {
                assert(s@.subrange(from as int, to as int).last() == s@[to - 1]);
            }
        }
        substring(s, from, to)
    }
}

/// Split `s` into its lines.
pub(crate) fn split_str_lines(s: &str) -> (r: Vec<String>)
    ensures
        r.deep_view() == split_lines(s@),
{
    let n = s.unicode_len();
    let mut out: Vec<String> = Vec::new();
    let mut pos: usize = 0;
    proof {
        assert(s@.skip(0) =~= s@);
        assert(out.deep_view() + split_lines(s@) =~= split_lines(s@));
    }
    while pos < n
        invariant
            n == s@.len(),
            0 <= pos <= n,
            split_lines(s@) == out.deep_view() + split_lines(s@.skip(pos as int)),
        decreases n - pos,
    {
        let mut j = pos;
        let mut found = false;
        while j < n && !found
            invariant
                n == s@.len(),
                pos <= j <= n,
                forall|k: int| pos <= k < j ==> s@[k] != '\n',
                found ==> j < n && s@[j as int] == '\n',
            decreases n - j, (if found {
                0int
            } else {
                1int
            }),
        {
            if s.get_char(j) == '\n' {
                found = true;
            } else {
                j += 1;
            }
        }
        let ghost rest = s@.skip(pos as int);
        proof {
            lemma_first_index_of(rest, '\n');
            assert(forall|k: int| 0 <= k < rest.len() ==> rest[k] == s@[pos + k]);
        }
        if found {
            proof {
                assert(rest[j - pos] == '\n');
                let fi = first_index_of(rest, '\n');
                assert(fi >= 0);
                if fi < j - pos {
                    assert(rest[fi] == '\n');
                    assert(s@[pos + fi] == '\n');
                    assert(false);
                }
                if fi > j - pos {
                    assert(rest[j - pos] != '\n');
                    assert(false);
                }
                assert(first_index_of(rest, '\n') == j - pos);
                assert(rest.take(j - pos) =~= s@.subrange(pos as int, j as int));
                assert(rest.skip(j - pos + 1) =~= s@.skip(j + 1));
            }
            let line = line_between(s, pos, j);
            let ghost prev_dv = out.deep_view();
            out.push(line);
            pos = j + 1;
            proof {
                assert(out.deep_view() =~= prev_dv.push(line@));
                assert(split_lines(s@) =~= out.deep_view() + split_lines(s@.skip(pos as int)));
            }
        } else {
            proof {
                let fi = first_index_of(rest, '\n');
                if fi >= 0 {
                    assert(rest[fi] == '\n');
                    assert(s@[pos + fi] == '\n');
                    assert(false);
                }
            }
            let line = line_between(s, pos, n);
            proof {
                assert(s@.subrange(pos as int, n as int) =~= rest);
            }
            let ghost prev_dv = out.deep_view();
            out.push(line);
            pos = n;
            proof {
                assert(out.deep_view() =~= prev_dv.push(line@));
                assert(s@.skip(n as int) =~= Seq::<char>::empty());
                assert(split_lines(s@) =~= out.deep_view() + split_lines(s@.skip(pos as int)));
            }
        }
    }
    proof {
        assert(s@.skip(pos as int) =~= Seq::<char>::empty());
        assert(split_lines(s@) =~= out.deep_view());
    }
    out
}

/// `s` with every leading occurrence of the non-empty prefix `p`
/// removed.
pub open spec fn trim_prefix_rec(s: Seq<char>, p: Seq<char>) -> Seq<char>
    decreases s.len(),
{
    if p.len() > 0 && s.len() >= p.len() && s.subrange(0, p.len() as int) == p {
        trim_prefix_rec(s.skip(p.len() as int), p)
    } else {
        s
    }
}

/// Remove every leading occurrence of `p` from `s`.
pub(crate) fn trim_prefix(s: &str, p: &str) -> (r: String)
    ensures
        r@ == trim_prefix_rec(s@, p@),
{
    let plen = p.unicode_len();
    if plen == 0 {
        return String::from_str(s);
    }
    let mut cur = String::from_str(s);
    let mut done = false;
    while !done
        invariant
            p@.len() == plen,
            plen > 0,
            trim_prefix_rec(cur@, p@) == trim_prefix_rec(s@, p@),
            done ==> !(cur@.len() >= plen && cur@.subrange(0, plen as int) == p@),
        decreases cur@.len(), (if done {
            0int
        } else {
            1int
        }),
    {
        if str_starts_with(cur.as_str(), p) {
            let ghost prev = cur@;
            let cl = cur.as_str().unicode_len();
            cur = substring(cur.as_str(), plen, cl);
            proof {
                assert(cur@ =~= prev.skip(plen as int));
            }
        } else {
            done = true;
        }
    }
    cur
}

/// The elements of `parts` in order, separated by commas.
pub open spec fn join_comma(parts: Seq<Seq<char>>) -> Seq<char>
    decreases parts.len(),
{
    if parts.len() == 0 {
        Seq::empty()
    } else if parts.len() == 1 {
        parts[0]
    } else {
        join_comma(parts.drop_last()) + ","@ + parts.last()
    }
}

/// Join `parts` with commas.
pub(crate) fn join_with_comma(parts: &Vec<String>) -> (r: String)
    ensures
        r@ == join_comma(parts.deep_view()),
{
    let mut out = String::new();
    let n = parts.len();
    for i in 0..n
        invariant
            n == parts.len(),
            out@ == join_comma(parts.deep_view().take(i as int)),
    {
        if i > 0 {
            out.append(",");
        }
        out.append(parts[i].as_str());
        proof {
            let dv = parts.deep_view();
            assert(dv.take(i + 1).drop_last() =~= dv.take(i as int));
            assert(dv.take(i + 1).last() == dv[i as int]);
            if i == 0 {
                assert(out@ =~= join_comma(dv.take(i + 1)));
            }
        }
    }
    proof {
        assert(parts.deep_view().take(n as int) =~= parts.deep_view());
    }
    out
}

} // verus!
