//! Paths as text.
//!
//! A path is an absolute, `/`-separated string without a trailing separator,
//! as produced by canonicalisation. The functions below are defined on every
//! string, and agree with `std::path::Path` on such canonical paths.
use vstd::prelude::*;
use vstd::string::*;

verus! {

/// Index of the last occurrence of `c` in `s`, or -1 where there is none.
pub open spec fn last_index_of(s: Seq<char>, c: char) -> int
    decreases s.len(),
{
    if s.len() == 0 {
        -1
    } else if s.last() == c {
        s.len() - 1
    } else {
        last_index_of(s.drop_last(), c)
    }
}

/// The last occurrence lies inside `s` and holds `c`.
pub proof fn lemma_last_index_bounds(s: Seq<char>, c: char)
    ensures
        -1 <= last_index_of(s, c) < s.len(),
        last_index_of(s, c) >= 0 ==> s[last_index_of(s, c)] == c,
        forall|j: int| last_index_of(s, c) < j < s.len() ==> s[j] != c,
    decreases s.len(),
{
    if s.len() > 0 && s.last() != c {
        lemma_last_index_bounds(s.drop_last(), c);
        assert forall|j: int| last_index_of(s, c) < j < s.len() implies s[j] != c by {
            if j < s.len() - 1 {
                assert(s.drop_last()[j] == s[j]);
            }
        }
    }
}

/// The last occurrence in a concatenation lies in its second part where that
/// part holds `c`, and in its first part otherwise.
pub proof fn lemma_last_index_concat(a: Seq<char>, b: Seq<char>, c: char)
    ensures
        last_index_of(a + b, c) == if last_index_of(b, c) >= 0 {
            a.len() + last_index_of(b, c)
        } else {
            last_index_of(a, c)
        },
    decreases b.len(),
{
    if b.len() == 0 {
        assert(a + b == a);
    } else {
        assert((a + b).last() == b.last());
        if b.last() != c {
            assert((a + b).drop_last() == a + b.drop_last());
            lemma_last_index_concat(a, b.drop_last(), c);
        }
    }
}

/// A sequence without `c` has no last occurrence of it.
pub proof fn lemma_last_index_absent(s: Seq<char>, c: char)
    requires
        forall|j: int| 0 <= j < s.len() ==> s[j] != c,
    ensures
        last_index_of(s, c) == -1,
{
    lemma_last_index_bounds(s, c);
}

/// Cutting a sequence after its last occurrence of `c` keeps that occurrence last.
pub proof fn lemma_last_index_prefix(s: Seq<char>, m: int, c: char)
    requires
        last_index_of(s, c) < m <= s.len(),
    ensures
        last_index_of(s.subrange(0, m), c) == last_index_of(s, c),
    decreases s.len() - m,
{
    lemma_last_index_bounds(s, c);
    if m < s.len() {
        assert(s.last() != c);
        assert(s.drop_last().subrange(0, m) == s.subrange(0, m));
        lemma_last_index_prefix(s.drop_last(), m, c);
    } else {
        assert(s.subrange(0, m) == s);
    }
}

/// The last component of `p`; none for the root or a path ending in `/`.
pub open spec fn file_name_of(p: Seq<char>) -> Option<Seq<char>> {
    let k = last_index_of(p, '/');
    let name = p.subrange(k + 1, p.len() as int);
    if name.len() == 0 {
        None
    } else {
        Some(name)
    }
}

/// The directory holding `p`; none for the root and for a bare name.
pub open spec fn parent_of(p: Seq<char>) -> Option<Seq<char>> {
    let k = last_index_of(p, '/');
    if k < 0 || file_name_of(p).is_none() {
        None
    } else if k == 0 {
        Some(seq!['/'])
    } else {
        Some(p.subrange(0, k))
    }
}

/// Text after the last `.` of a file name, where that dot is not its first character.
pub open spec fn name_extension(n: Seq<char>) -> Option<Seq<char>> {
    let d = last_index_of(n, '.');
    if d <= 0 {
        None
    } else {
        Some(n.subrange(d + 1, n.len() as int))
    }
}

/// The extension of the file name of `p`.
pub open spec fn extension_of(p: Seq<char>) -> Option<Seq<char>> {
    match file_name_of(p) {
        None => None,
        Some(n) => name_extension(n),
    }
}

/// `p` with its extension replaced by `e` (or `e` added where it has none).
pub open spec fn with_extension_of(p: Seq<char>, e: Seq<char>) -> Seq<char> {
    match file_name_of(p) {
        None => p,
        Some(n) => {
            let d = last_index_of(n, '.');
            let stem_end = if d <= 0 {
                p.len() as int
            } else {
                p.len() - n.len() + d
            };
            if e.len() == 0 {
                p.subrange(0, stem_end)
            } else {
                p.subrange(0, stem_end) + seq!['.'] + e
            }
        },
    }
}

/// A file name holds no separator.
pub proof fn lemma_file_name_plain(p: Seq<char>)
    requires
        file_name_of(p) is Some,
    ensures
        last_index_of(file_name_of(p).unwrap(), '/') == -1,
{
    let k = last_index_of(p, '/');
    lemma_last_index_bounds(p, '/');
    let n = file_name_of(p).unwrap();
    assert forall|j: int| 0 <= j < n.len() implies n[j] != '/' by {
        assert(n[j] == p[k + 1 + j]);
    }
    lemma_last_index_absent(n, '/');
}

/// A name joined to a directory with a file name has that directory as its
/// parent and that name as its file name.
pub proof fn lemma_join_parts(d: Seq<char>, name: Seq<char>)
    requires
        file_name_of(d) is Some,
        name.len() > 0,
        last_index_of(name, '/') == -1,
    ensures
        parent_of(join_of(d, name)) == Some(d),
        file_name_of(join_of(d, name)) == Some(name),
{
    lemma_last_index_bounds(d, '/');
    assert(d.last() != '/');
    let slash = seq!['/'];
    let j = d + slash + name;
    assert(join_of(d, name) == j);
    assert(last_index_of(slash, '/') == 0);
    lemma_last_index_concat(d, slash, '/');
    lemma_last_index_concat(d + slash, name, '/');
    assert(last_index_of(j, '/') == d.len());
    assert(j.subrange(d.len() as int + 1, j.len() as int) == name);
    assert(j.subrange(0, d.len() as int) == d);
}

/// An extension free of dots and separators.
pub open spec fn plain_extension(e: Seq<char>) -> bool {
    e.len() > 0 && last_index_of(e, '.') == -1 && last_index_of(e, '/') == -1
}

/// Replacing the extension keeps the directory, and the new extension is the
/// file's extension.
pub proof fn lemma_with_extension_parts(p: Seq<char>, e: Seq<char>)
    requires
        file_name_of(p) is Some,
        plain_extension(e),
    ensures
        parent_of(with_extension_of(p, e)) == parent_of(p),
        extension_of(with_extension_of(p, e)) == Some(e),
{
    let k = last_index_of(p, '/');
    lemma_last_index_bounds(p, '/');
    let n = p.subrange(k + 1, p.len() as int);
    let d = last_index_of(n, '.');
    lemma_last_index_bounds(n, '.');
    let stem_end = if d <= 0 {
        p.len() as int
    } else {
        p.len() - n.len() + d
    };
    let pre = p.subrange(0, stem_end);
    let dot = seq!['.'];
    let q = pre + dot + e;
    assert(with_extension_of(p, e) == q);
    lemma_last_index_prefix(p, stem_end, '/');
    lemma_last_index_concat(pre, dot, '/');
    assert(last_index_of(dot, '/') == -1) by {
        assert(dot.last() == '.');
        assert(last_index_of(dot.drop_last(), '/') == -1);
    }
    lemma_last_index_concat(pre + dot, e, '/');
    assert(last_index_of(q, '/') == k);
    let nq = q.subrange(k + 1, q.len() as int);
    let stem = p.subrange(k + 1, stem_end);
    assert(nq == stem + dot + e);
    lemma_last_index_concat(stem, dot, '.');
    assert(last_index_of(dot, '.') == 0);
    lemma_last_index_concat(stem + dot, e, '.');
    assert(last_index_of(nq, '.') == stem.len());
    assert(nq.subrange(stem.len() as int + 1, nq.len() as int) == e);
    if k >= 0 {
        assert(q.subrange(0, k) =~= p.subrange(0, k));
    }
}

/// Replacing the extension twice is replacing it once with the second.
pub proof fn lemma_with_extension_twice(p: Seq<char>, e: Seq<char>, e2: Seq<char>)
    requires
        file_name_of(p) is Some,
        plain_extension(e),
        plain_extension(e2),
    ensures
        with_extension_of(with_extension_of(p, e), e2) == with_extension_of(p, e2),
{
    let k = last_index_of(p, '/');
    lemma_last_index_bounds(p, '/');
    let n = p.subrange(k + 1, p.len() as int);
    let d = last_index_of(n, '.');
    lemma_last_index_bounds(n, '.');
    let stem_end = if d <= 0 {
        p.len() as int
    } else {
        p.len() - n.len() + d
    };
    let pre = p.subrange(0, stem_end);
    let dot = seq!['.'];
    let q = pre + dot + e;
    assert(with_extension_of(p, e) == q);
    lemma_last_index_prefix(p, stem_end, '/');
    lemma_last_index_concat(pre, dot, '/');
    assert(last_index_of(dot, '/') == -1) by {
        assert(dot.last() == '.');
        assert(last_index_of(dot.drop_last(), '/') == -1);
    }
    lemma_last_index_concat(pre + dot, e, '/');
    assert(last_index_of(q, '/') == k);
    let nq = q.subrange(k + 1, q.len() as int);
    let stem = p.subrange(k + 1, stem_end);
    assert(nq == stem + dot + e);
    lemma_last_index_concat(stem, dot, '.');
    assert(last_index_of(dot, '.') == 0);
    lemma_last_index_concat(stem + dot, e, '.');
    assert(last_index_of(nq, '.') == stem.len());
    assert(file_name_of(q) == Some(nq));
    assert(q.subrange(0, stem_end) == pre);
}

/// A file keeps its path when its extension is replaced by itself.
pub proof fn lemma_with_own_extension(f: Seq<char>, x: Seq<char>)
    requires
        extension_of(f) == Some(x),
        x.len() > 0,
    ensures
        with_extension_of(f, x) == f,
{
    let k = last_index_of(f, '/');
    lemma_last_index_bounds(f, '/');
    let n = f.subrange(k + 1, f.len() as int);
    let d = last_index_of(n, '.');
    lemma_last_index_bounds(n, '.');
    let stem_end = f.len() - n.len() + d;
    assert(f[stem_end] == n[d]);
    assert(f.subrange(0, stem_end) + seq!['.'] + x =~= f);
}

/// The path of `name` inside `dir`.
pub open spec fn join_of(dir: Seq<char>, name: Seq<char>) -> Seq<char> {
    if dir.len() == 0 {
        name
    } else if dir.last() == '/' {
        dir + name
    } else {
        dir + seq!['/'] + name
    }
}

/// Whether two strings hold the same characters.
pub fn str_eq(a: &str, b: &str) -> (r: bool)
    ensures
        r == (a@ == b@),
{
    let n = a.unicode_len();
    if n != b.unicode_len() {
        return false;
    }
    let mut i: usize = 0;
    while i < n
        invariant
            n == a@.len(),
            n == b@.len(),
            i <= n,
            a@.subrange(0, i as int) == b@.subrange(0, i as int),
        decreases n - i,
    {
        if a.get_char(i) != b.get_char(i) {
            return false;
        }
        assert(a@.subrange(0, i + 1) == a@.subrange(0, i as int).push(a@[i as int]));
        assert(b@.subrange(0, i + 1) == b@.subrange(0, i as int).push(b@[i as int]));
        i = i + 1;
    }
    assert(a@ == a@.subrange(0, n as int));
    assert(b@ == b@.subrange(0, n as int));
    true
}

/// Whether `s` ends with `suffix`.
pub fn ends_with(s: &str, suffix: &str) -> (r: bool)
    ensures
        r == (suffix@.len() <= s@.len() && s@.subrange(s@.len() - suffix@.len(), s@.len() as int)
            == suffix@),
{
    let n = s.unicode_len();
    let m = suffix.unicode_len();
    if m > n {
        return false;
    }
    let tail = s.substring_char(n - m, n);
    str_eq(tail, suffix)
}

/// Index of the last occurrence of `c` in `s`.
pub fn rfind_char(s: &str, c: char) -> (r: Option<usize>)
    ensures
        r is None <==> last_index_of(s@, c) == -1,
        r matches Some(k) ==> k == last_index_of(s@, c) && k < s@.len(),
{
    let mut i: usize = s.unicode_len();
    assert(s@.subrange(0, i as int) == s@);
    while i > 0
        invariant
            i <= s@.len(),
            last_index_of(s@, c) == last_index_of(s@.subrange(0, i as int), c),
        decreases i,
    {
        assert(s@.subrange(0, i as int).drop_last() == s@.subrange(0, i - 1));
        if s.get_char(i - 1) == c {
            return Some(i - 1);
        }
        i = i - 1;
    }
    None
}

/// Extension of a file name (see `name_extension`).
pub fn name_extension_str(n: &str) -> (r: Option<String>)
    ensures
        r matches Some(x) ==> name_extension(n@) == Some(x@),
        r is None ==> name_extension(n@) is None,
{
    let len = n.unicode_len();
    match rfind_char(n, '.') {
        Some(d) if d > 0 => Some(String::from_str(n.substring_char(d + 1, len))),
        _ => None,
    }
}

/// The file name of `p` (see `file_name_of`).
pub fn file_name(p: &str) -> (r: Option<String>)
    ensures
        r matches Some(x) ==> file_name_of(p@) == Some(x@),
        r is None ==> file_name_of(p@) is None,
{
    let len = p.unicode_len();
    let start: usize = match rfind_char(p, '/') {
        Some(k) => k + 1,
        None => 0,
    };
    if start == len {
        None
    } else {
        Some(String::from_str(p.substring_char(start, len)))
    }
}

/// The parent directory of `p` (see `parent_of`).
pub fn parent(p: &str) -> (r: Option<String>)
    ensures
        r matches Some(x) ==> parent_of(p@) == Some(x@),
        r is None ==> parent_of(p@) is None,
{
    let len = p.unicode_len();
    match rfind_char(p, '/') {
        None => None,
        Some(k) => {
            if k + 1 == len {
                None
            } else if k == 0 {
                let r = String::from_str("/");
                proof {
                    reveal_strlit("/");
                }
                assert(r@ == seq!['/']);
                Some(r)
            } else {
                Some(String::from_str(p.substring_char(0, k)))
            }
        },
    }
}

/// The extension of `p` (see `extension_of`).
pub fn extension(p: &str) -> (r: Option<String>)
    ensures
        r matches Some(x) ==> extension_of(p@) == Some(x@),
        r is None ==> extension_of(p@) is None,
{
    match file_name(p) {
        None => None,
        Some(n) => name_extension_str(n.as_str()),
    }
}

/// `p` with extension `e` (see `with_extension_of`).
pub fn with_extension(p: &str, e: &str) -> (r: String)
    ensures
        r@ == with_extension_of(p@, e@),
{
    match file_name(p) {
        None => String::from_str(p),
        Some(n) => {
            let nlen = n.as_str().unicode_len();
            let plen = p.unicode_len();
            proof {
                lemma_last_index_bounds(p@, '/');
            }
            let stem_end: usize = match rfind_char(n.as_str(), '.') {
                Some(d) if d > 0 => plen - nlen + d,
                _ => plen,
            };
            let stem = String::from_str(p.substring_char(0, stem_end));
            if e.unicode_len() == 0 {
                stem
            } else {
                let dotted = stem.concat(".");
                proof {
                    reveal_strlit(".");
                }
                dotted.concat(e)
            }
        },
    }
}

/// The path of `name` inside `dir` (see `join_of`).
pub fn join(dir: &str, name: &str) -> (r: String)
    ensures
        r@ == join_of(dir@, name@),
{
    let n = dir.unicode_len();
    if n == 0 {
        String::from_str(name)
    } else if dir.get_char(n - 1) == '/' {
        String::from_str(dir).concat(name)
    } else {
        proof {
            reveal_strlit("/");
        }
        String::from_str(dir).concat("/").concat(name)
    }
}

} // verus!
