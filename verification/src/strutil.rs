//! Verified helpers for working with strings viewed as sequences of
//! characters: equality, prefix/suffix/substring tests, path component
//! extraction and joining lists with a separator.

use vstd::prelude::*;
use vstd::string::StrSliceExecFns;
use vstd::string::StringExecFns;

verus! {

/// `prefix` is an initial segment of `s`.
pub open spec fn starts_with_seq(s: Seq<char>, prefix: Seq<char>) -> bool {
    prefix.len() <= s.len() && s.subrange(0, prefix.len() as int) == prefix
}

/// `suffix` is a final segment of `s`.
pub open spec fn ends_with_seq(s: Seq<char>, suffix: Seq<char>) -> bool {
    suffix.len() <= s.len() && s.subrange(s.len() - suffix.len(), s.len() as int) == suffix
}

/// `needle` occurs in `hay` starting at position `k`.
pub open spec fn matches_at(hay: Seq<char>, needle: Seq<char>, k: int) -> bool {
    0 <= k && k + needle.len() <= hay.len() && hay.subrange(k, k + needle.len()) == needle
}

/// `needle` occurs somewhere in `hay`.
pub open spec fn contains_seq(hay: Seq<char>, needle: Seq<char>) -> bool {
    exists|k: int| matches_at(hay, needle, k)
}

/// Character-for-character string equality.
pub fn str_eq(a: &str, b: &str) -> (r: bool)
    ensures
        r == (a@ == b@),
{
    let alen = a.unicode_len();
    let blen = b.unicode_len();
    if alen != blen {
        return false;
    }
    let mut i: usize = 0;
    while i < alen
        invariant
            i <= alen,
            alen == a@.len(),
            alen == b@.len(),
            forall|j: int| 0 <= j < i ==> a@[j] == b@[j],
        decreases alen - i,
    {
        if a.get_char(i) != b.get_char(i) {
            return false;
        }
        i += 1;
    }
    proof {
        assert(a@ =~= b@);
    }
    true
}

/// Whether `s` begins with `prefix`.
pub fn starts_with(s: &str, prefix: &str) -> (r: bool)
    ensures
        r == starts_with_seq(s@, prefix@),
{
    let slen = s.unicode_len();
    let plen = prefix.unicode_len();
    if plen > slen {
        return false;
    }
    let mut i: usize = 0;
    while i < plen
        invariant
            i <= plen,
            plen <= slen,
            slen == s@.len(),
            plen == prefix@.len(),
            forall|j: int| 0 <= j < i ==> s@[j] == prefix@[j],
        decreases plen - i,
    {
        if s.get_char(i) != prefix.get_char(i) {
            proof {
                assert(s@.subrange(0, plen as int)[i as int] == s@[i as int]);
            }
            return false;
        }
        i += 1;
    }
    proof {
        assert(s@.subrange(0, plen as int) =~= prefix@);
    }
    true
}

/// Whether `s` ends with `suffix`.
pub fn ends_with(s: &str, suffix: &str) -> (r: bool)
    ensures
        r == ends_with_seq(s@, suffix@),
{
    let slen = s.unicode_len();
    let xlen = suffix.unicode_len();
    if xlen > slen {
        return false;
    }
    let off = slen - xlen;
    let mut i: usize = 0;
    while i < xlen
        invariant
            i <= xlen,
            off == slen - xlen,
            xlen <= slen,
            slen == s@.len(),
            xlen == suffix@.len(),
            forall|j: int| 0 <= j < i ==> s@[off + j] == suffix@[j],
        decreases xlen - i,
    {
        if s.get_char(off + i) != suffix.get_char(i) {
            proof {
                assert(s@.subrange(off as int, slen as int)[i as int] == s@[off + i]);
            }
            return false;
        }
        i += 1;
    }
    proof {
        assert(s@.subrange(off as int, slen as int) =~= suffix@);
    }
    true
}

/// Whether `needle` occurs in `hay` starting at position `k`.
fn occurs_at(hay: &str, needle: &str, k: usize) -> (r: bool)
    requires
        k + needle@.len() <= hay@.len(),
    ensures
        r == matches_at(hay@, needle@, k as int),
{
    let hlen = hay.unicode_len();
    let nlen = needle.unicode_len();
    let mut m: usize = 0;
    while m < nlen
        invariant
            m <= nlen,
            k + nlen <= hlen,
            hlen == hay@.len(),
            nlen == needle@.len(),
            forall|j: int| 0 <= j < m ==> hay@[k + j] == needle@[j],
        decreases nlen - m,
    {
        if hay.get_char(k + m) != needle.get_char(m) {
            proof {
                assert(hay@.subrange(k as int, k + nlen as int)[m as int] == hay@[k + m]);
            }
            return false;
        }
        m += 1;
    }
    proof {
        assert(hay@.subrange(k as int, k + nlen as int) =~= needle@);
    }
    true
}

/// Whether `needle` occurs in `hay` as a contiguous substring.
pub fn contains_str(hay: &str, needle: &str) -> (r: bool)
    ensures
        r == contains_seq(hay@, needle@),
{
    let hlen = hay.unicode_len();
    let nlen = needle.unicode_len();
    if nlen > hlen {
        proof {
            assert(forall|k: int| !matches_at(hay@, needle@, k));
        }
        return false;
    }
    if nlen == 0 {
        proof {
            assert(hay@.subrange(0, 0) =~= needle@);
            assert(matches_at(hay@, needle@, 0));
        }
        return true;
    }
    let mut k: usize = 0;
    while k <= hlen - nlen
        invariant
            0 < nlen <= hlen,
            hlen == hay@.len(),
            nlen == needle@.len(),
            k <= hlen - nlen + 1,
            forall|j: int| 0 <= j < k ==> !matches_at(hay@, needle@, j),
        decreases hlen - nlen + 1 - k,
    {
        if occurs_at(hay, needle, k) {
            return true;
        }
        k += 1;
    }
    proof {
        assert(forall|j: int| matches_at(hay@, needle@, j) ==> 0 <= j <= hlen - nlen);
    }
    false
}

/// Position of the last occurrence of `c` in `s`, if any.
pub open spec fn last_index_of(s: Seq<char>, c: char) -> Option<int>
    decreases s.len(),
{
    if s.len() == 0 {
        None
    } else if s.last() == c {
        Some(s.len() - 1)
    } else {
        last_index_of(s.drop_last(), c)
    }
}

pub proof fn lemma_last_index_bounds(s: Seq<char>, c: char)
    ensures
        match last_index_of(s, c) {
            None => forall|j: int| 0 <= j < s.len() ==> s[j] != c,
            Some(i) => 0 <= i < s.len() && s[i] == c && forall|j: int| i < j < s.len() ==> s[j] != c,
        },
    decreases s.len(),
{
    if s.len() > 0 && s.last() != c {
        lemma_last_index_bounds(s.drop_last(), c);
        assert(forall|j: int| 0 <= j < s.len() - 1 ==> s[j] == s.drop_last()[j]);
    }
}

/// Find the position of the last occurrence of `c` in `s`.
pub fn find_last(s: &str, c: char) -> (r: Option<usize>)
    ensures
        match r {
            None => last_index_of(s@, c) is None,
            Some(i) => last_index_of(s@, c) == Some(i as int),
        },
{
    let len = s.unicode_len();
    let mut i: usize = len;
    while i > 0
        invariant
            i <= len,
            len == s@.len(),
            forall|j: int| i <= j < s@.len() ==> s@[j] != c,
        decreases i,
    {
        if s.get_char(i - 1) == c {
            proof {
                lemma_last_index_bounds(s@, c);
                if last_index_of(s@, c) is None {
                    assert(s@[i - 1] != c);
                }
                let li = last_index_of(s@, c)->Some_0;
                assert(li == i - 1) by {
                    if li < i - 1 {
                        assert(s@[i - 1] != c);
                    }
                };
            }
            return Some(i - 1);
        }
        i -= 1;
    }
    proof {
        lemma_last_index_bounds(s@, c);
    }
    None
}

/// The final path component of `s`: everything after the last `/`,
/// or all of `s` when it holds no `/`.
pub open spec fn basename_seq(s: Seq<char>) -> Seq<char> {
    match last_index_of(s, '/') {
        None => s,
        Some(i) => s.subrange(i + 1, s.len() as int),
    }
}

/// Extract the final path component of `s`.
pub fn basename<'a>(s: &'a str) -> (r: &'a str)
    ensures
        r@ == basename_seq(s@),
{
    proof {
        lemma_last_index_bounds(s@, '/');
    }
    let len = s.unicode_len();
    match find_last(s, '/') {
        None => s,
        Some(i) => s.substring_char(i + 1, len),
    }
}

/// The directory above `s`: everything before the last `/` (the root `/`
/// when the last `/` is the first character), or nothing when `s` holds
/// no `/` or is the root itself.
pub open spec fn parent_seq(s: Seq<char>) -> Option<Seq<char>> {
    match last_index_of(s, '/') {
        None => None,
        Some(i) => if i == 0 {
            if s.len() == 1 {
                None
            } else {
                Some(s.subrange(0, 1))
            }
        } else {
            Some(s.subrange(0, i))
        },
    }
}

/// A parent directory path is strictly shorter than the path itself.
pub proof fn lemma_parent_shorter(s: Seq<char>)
    ensures
        parent_seq(s) matches Some(p) ==> p.len() < s.len(),
{
    lemma_last_index_bounds(s, '/');
}

/// Step one directory upward from `s`.
pub fn parent_dir(s: &str) -> (r: Option<String>)
    ensures
        match parent_seq(s@) {
            None => r is None,
            Some(p) => r is Some && r->Some_0@ == p,
        },
{
    proof {
        lemma_last_index_bounds(s@, '/');
    }
    match find_last(s, '/') {
        None => None,
        Some(i) => {
            if i == 0 {
                if s.unicode_len() == 1 {
                    None
                } else {
                    Some(s.substring_char(0, 1).to_owned())
                }
            } else {
                Some(s.substring_char(0, i).to_owned())
            }
        },
    }
}

/// `p` with a trailing `/` added unless it already ends in one.
pub open spec fn with_trailing_slash(p: Seq<char>) -> Seq<char> {
    if p.len() > 0 && p.last() == '/' {
        p
    } else {
        p.push('/')
    }
}

/// `d` lies at or below the directory `root`: it is `root` itself or
/// extends it past a path separator.
pub open spec fn path_prefix(root: Seq<char>, d: Seq<char>) -> bool {
    d == root || starts_with_seq(d, with_trailing_slash(root))
}

/// Whether the directory `d` is `root` itself or lies below it.
pub fn is_path_prefix(root: &str, d: &str) -> (r: bool)
    ensures
        r == path_prefix(root@, d@),
{
    if str_eq(d, root) {
        return true;
    }
    let rlen = root.unicode_len();
    if rlen > 0 && root.get_char(rlen - 1) == '/' {
        starts_with(d, root)
    } else {
        let mut pr = root.to_owned();
        pr.append("/");
        proof {
            reveal_strlit("/");
            assert(pr@ =~= with_trailing_slash(root@));
        }
        starts_with(d, pr.as_str())
    }
}

/// The remainder of `d` below the directory `root`: empty when the two
/// are equal, the part past the separator when `d` extends `root`, and
/// nothing when `d` lies elsewhere.
pub open spec fn strip_prefix_seq(d: Seq<char>, root: Seq<char>) -> Option<Seq<char>> {
    if d == root {
        Some(Seq::empty())
    } else if starts_with_seq(d, with_trailing_slash(root)) {
        Some(d.subrange(with_trailing_slash(root).len() as int, d.len() as int))
    } else {
        None
    }
}

/// Strip the directory `root` off the front of `d`.
pub fn strip_path_prefix(d: &str, root: &str) -> (r: Option<String>)
    ensures
        match strip_prefix_seq(d@, root@) {
            None => r is None,
            Some(s) => r matches Some(x) && x@ == s,
        },
{
    if str_eq(d, root) {
        return Some(String::new());
    }
    let rlen = root.unicode_len();
    let mut pr = root.to_owned();
    if !(rlen > 0 && root.get_char(rlen - 1) == '/') {
        pr.append("/");
        proof {
            reveal_strlit("/");
            assert(pr@ =~= with_trailing_slash(root@));
        }
    }
    if starts_with(d, pr.as_str()) {
        let plen = pr.as_str().unicode_len();
        let dlen = d.unicode_len();
        Some(d.substring_char(plen, dlen).to_owned())
    } else {
        None
    }
}

/// The path `name` resolved relative to the directory `dir`.
pub open spec fn joined_path(dir: Seq<char>, name: Seq<char>) -> Seq<char> {
    with_trailing_slash(dir) + name
}

/// Append the relative path `name` to the directory `dir`.
pub fn path_join(dir: &str, name: &str) -> (r: String)
    ensures
        r@ == joined_path(dir@, name@),
{
    let mut out = dir.to_owned();
    let dlen = dir.unicode_len();
    if !(dlen > 0 && dir.get_char(dlen - 1) == '/') {
        out.append("/");
        proof {
            reveal_strlit("/");
            assert(out@ =~= with_trailing_slash(dir@));
        }
    }
    out.append(name);
    out
}

/// The elements of `parts` laid end to end with `sep` between them.
pub open spec fn join_seq(parts: Seq<Seq<char>>, sep: Seq<char>) -> Seq<char>
    decreases parts.len(),
{
    if parts.len() == 0 {
        Seq::empty()
    } else if parts.len() == 1 {
        parts[0]
    } else {
        join_seq(parts.drop_last(), sep) + sep + parts.last()
    }
}

/// Concatenate `parts`, separated by `sep`.
pub fn join_strings(parts: &Vec<String>, sep: &str) -> (r: String)
    ensures
        r@ == join_seq(parts.deep_view(), sep@),
{
    let mut out = String::new();
    let mut i: usize = 0;
    while i < parts.len()
        invariant
            i <= parts.len(),
            out@ == join_seq(parts.deep_view().take(i as int), sep@),
        decreases parts.len() - i,
    {
        if i > 0 {
            out.append(sep);
        }
        out.append(parts[i].as_str());
        proof {
            let dv = parts.deep_view();
            assert(dv.take(i + 1).drop_last() =~= dv.take(i as int));
            assert(dv.take(i + 1).last() == dv[i as int]);
            assert(dv[i as int] == parts[i as int]@);
        }
        i += 1;
    }
    proof {
        assert(parts.deep_view().take(parts.len() as int) =~= parts.deep_view());
    }
    out
}

/// `s` cut at every occurrence of `c`; the separators themselves are
/// dropped and empty pieces are kept.
pub open spec fn split_on(s: Seq<char>, c: char) -> Seq<Seq<char>>
    decreases s.len(),
    via split_on_decreases
{
    match last_index_of(s, c) {
        None => seq![s],
        Some(i) => split_on(s.subrange(0, i), c).push(s.subrange(i + 1, s.len() as int)),
    }
}

#[via_fn]
proof fn split_on_decreases(s: Seq<char>, c: char) {
    lemma_last_index_bounds(s, c);
}

/// Cut `s` at every occurrence of `c`.
pub fn split_char(s: &str, c: char) -> (r: Vec<String>)
    ensures
        r.deep_view() == split_on(s@, c),
    decreases s@.len(),
{
    proof {
        lemma_last_index_bounds(s@, c);
    }
    match find_last(s, c) {
        None => {
            let mut r: Vec<String> = Vec::new();
            r.push(s.to_owned());
            proof {
                assert(r.deep_view() =~= split_on(s@, c));
            }
            r
        },
        Some(i) => {
            let len = s.unicode_len();
            let head = s.substring_char(0, i);
            let mut r = split_char(head, c);
            let tail = s.substring_char(i + 1, len);
            r.push(tail.to_owned());
            proof {
                assert(r.deep_view() =~= split_on(s@, c));
            }
            r
        },
    }
}

} // verus!
