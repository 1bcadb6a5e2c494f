//! Unix paths as text: the final component, its extension and stem, and joining,
//! following `std::path::Path::file_name`, `extension`, `file_stem` and `join`.
use vstd::prelude::*;
use crate::text::{chars_of, string_of, concat, text_lowercase, lower_case};

verus! {

/// The index of the last `c` in `s`, or -1 when there is none.
pub open spec fn last_index_of(s: Seq<char>, c: char) -> int
    decreases s.len(),
{
    if s.len() == 0 {
        -1
    } else if s.last() == c {
        s.len() - 1
    } else {
        last_index_of(s.drop_last(), c)
    }
}

/// The final component of the path `s` (`Path::file_name`): trailing `/` and
/// `.` components are passed over; none for an empty path, the root, or a
/// path that ends in `..`.
pub open spec fn file_name(s: Seq<char>) -> Option<Seq<char>>
    decreases s.len(),
{
    if s.len() == 0 {
        None
    } else if s.last() == '/' {
        file_name(s.drop_last())
    } else {
        let seg = s.subrange(last_index_of(s, '/') + 1, s.len() as int);
        if seg == seq!['.'] {
            file_name(s.drop_last())
        } else if seg == seq!['.', '.'] {
            None
        } else {
            Some(seg)
        }
    }
}

/// The extension of a file name: what follows its last `.`, unless there is no
/// `.` or the only one starts the name.
pub open spec fn name_extension(name: Seq<char>) -> Option<Seq<char>> {
    let k = last_index_of(name, '.');
    if k <= 0 {
        None
    } else {
        Some(name.subrange(k + 1, name.len() as int))
    }
}

/// The stem of a file name: what precedes its last `.`, or the whole name where
/// `name_extension` finds no extension.
pub open spec fn name_stem(name: Seq<char>) -> Seq<char> {
    let k = last_index_of(name, '.');
    if k <= 0 {
        name
    } else {
        name.subrange(0, k)
    }
}

/// `Path::extension`.
pub open spec fn path_extension(s: Seq<char>) -> Option<Seq<char>> {
    match file_name(s) {
        Some(n) => name_extension(n),
        None => None,
    }
}

/// `Path::file_stem`.
pub open spec fn path_stem(s: Seq<char>) -> Option<Seq<char>> {
    match file_name(s) {
        Some(n) => Some(name_stem(n)),
        None => None,
    }
}

/// `Path::join` of a relative or absolute `name` onto `base`: an absolute
/// name replaces the base; otherwise a `/` is put between them unless the base
/// is empty or already ends with one.
pub open spec fn join_path(base: Seq<char>, name: Seq<char>) -> Seq<char> {
    if name.len() > 0 && name[0] == '/' {
        name
    } else if base.len() == 0 || base.last() == '/' {
        base + name
    } else {
        base + seq!['/'] + name
    }
}

/// `last_index_of` stays within the text and finds a `c` there.
pub proof fn lemma_last_index_of(s: Seq<char>, c: char)
    ensures
        -1 <= last_index_of(s, c) < s.len(),
        last_index_of(s, c) >= 0 ==> s[last_index_of(s, c)] == c,
        forall|i: int| last_index_of(s, c) < i < s.len() ==> s[i] != c,
    decreases s.len(),
{
    if s.len() > 0 && s.last() != c {
        lemma_last_index_of(s.drop_last(), c);
        assert forall|i: int| last_index_of(s, c) < i < s.len() implies s[i] != c by {
            if i < s.len() - 1 {
                assert(s[i] == s.drop_last()[i]);
            }
        }
    }
}

/// The last `c` is found by its position alone: the index `k` holding `c`
/// with no `c` after it.
pub proof fn lemma_last_index_is(s: Seq<char>, c: char, k: int)
    requires
        -1 <= k < s.len(),
        k >= 0 ==> s[k] == c,
        forall|i: int| k < i < s.len() ==> s[i] != c,
    ensures
        last_index_of(s, c) == k,
    decreases s.len(),
{
    if s.len() > 0 && k < s.len() - 1 {
        assert(s.last() == s[s.len() - 1]);
        lemma_last_index_is(s.drop_last(), c, k);
    }
}

/// A final component holds no `/`.
pub proof fn lemma_file_name_no_slash(s: Seq<char>)
    ensures
        file_name(s) matches Some(n) ==> forall|i: int| 0 <= i < n.len() ==> n[i] != '/',
    decreases s.len(),
{
    if s.len() > 0 {
        if s.last() == '/' {
            lemma_file_name_no_slash(s.drop_last());
        } else {
            let k = last_index_of(s, '/');
            lemma_last_index_of(s, '/');
            let seg = s.subrange(k + 1, s.len() as int);
            if seg == seq!['.'] {
                lemma_file_name_no_slash(s.drop_last());
            } else if seg != seq!['.', '.'] {
                assert forall|i: int| 0 <= i < seg.len() implies seg[i] != '/' by {
                    assert(seg[i] == s[k + 1 + i]);
                }
            }
        }
    }
}

/// The index of the last `c` in `s[lo..hi]`, counted from `lo`.
fn last_index(s: &[char], lo: usize, hi: usize, c: char) -> (r: Option<usize>)
    requires
        lo <= hi <= s@.len(),
    ensures
        match r {
            Some(k) => k < hi - lo && last_index_of(s@.subrange(lo as int, hi as int), c) == k,
            None => last_index_of(s@.subrange(lo as int, hi as int), c) == -1,
        },
{
    let mut j = hi;
    while j > lo
        invariant
            lo <= j <= hi <= s@.len(),
            last_index_of(s@.subrange(lo as int, hi as int), c) == last_index_of(
                s@.subrange(lo as int, j as int),
                c,
            ),
        decreases j - lo,
    {
        assert(s@.subrange(lo as int, j as int).drop_last() =~= s@.subrange(lo as int, j - 1));
        if s[j - 1] == c {
            return Some(j - 1 - lo);
        }
        j = j - 1;
    }
    None
}

/// The bounds of the final component of the path `s[0..hi]`.
fn file_name_bounds(s: &[char], hi: usize) -> (r: Option<(usize, usize)>)
    requires
        hi <= s@.len(),
    ensures
        match r {
            Some((a, b)) => a <= b <= hi && file_name(s@.subrange(0, hi as int)) == Some(
                s@.subrange(a as int, b as int),
            ),
            None => file_name(s@.subrange(0, hi as int)) is None,
        },
    decreases hi,
{
    let ghost p = s@.subrange(0, hi as int);
    if hi == 0 {
        return None;
    }
    assert(p.drop_last() =~= s@.subrange(0, hi - 1));
    if s[hi - 1] == '/' {
        return file_name_bounds(s, hi - 1);
    }
    let start = match last_index(s, 0, hi, '/') {
        Some(k) => k + 1,
        None => 0,
    };
    proof {
        lemma_last_index_of(p, '/');
    }
    assert(p.subrange(last_index_of(p, '/') + 1, p.len() as int) =~= s@.subrange(
        start as int,
        hi as int,
    ));
    let len = hi - start;
    if len == 1 && s[start] == '.' {
        assert(s@.subrange(start as int, hi as int) =~= seq!['.']);
        return file_name_bounds(s, hi - 1);
    }
    if len == 2 && s[start] == '.' && s[start + 1] == '.' {
        assert(s@.subrange(start as int, hi as int) =~= seq!['.', '.']);
        return None;
    }
    proof {
        if len == 1 {
            assert(s@.subrange(start as int, hi as int)[0] == s[start as int]);
        }
        if len == 2 {
            assert(s@.subrange(start as int, hi as int)[0] == s[start as int]);
            assert(s@.subrange(start as int, hi as int)[1] == s[start + 1]);
        }
    }
    Some((start, hi))
}

/// The final component of the path `path` (`Path::file_name`).
pub fn file_name_of(path: &str) -> (r: Option<String>)
    ensures
        match file_name(path@) {
            Some(n) => r matches Some(x) && x@ == n,
            None => r is None,
        },
{
    let c = chars_of(path);
    assert(c@.subrange(0, c@.len() as int) =~= path@);
    match file_name_bounds(c.as_slice(), c.len()) {
        Some((a, b)) => Some(string_of(c.as_slice(), a, b)),
        None => None,
    }
}

/// The extension of the path `path` (`Path::extension`).
pub fn extension_of(path: &str) -> (r: Option<String>)
    ensures
        match path_extension(path@) {
            Some(e) => r matches Some(x) && x@ == e,
            None => r is None,
        },
{
    let c = chars_of(path);
    let cs = c.as_slice();
    assert(cs@.subrange(0, cs@.len() as int) =~= path@);
    match file_name_bounds(cs, cs.len()) {
        Some((a, b)) => {
            let ghost name = cs@.subrange(a as int, b as int);
            match last_index(cs, a, b, '.') {
                Some(k) => if k == 0 {
                    None
                } else {
                    assert(name.subrange(k + 1, name.len() as int) =~= cs@.subrange(
                        a + k + 1,
                        b as int,
                    ));
                    Some(string_of(cs, a + k + 1, b))
                },
                None => None,
            }
        },
        None => None,
    }
}

/// The stem of the path `path` (`Path::file_stem`).
pub fn stem_of(path: &str) -> (r: Option<String>)
    ensures
        match path_stem(path@) {
            Some(e) => r matches Some(x) && x@ == e,
            None => r is None,
        },
{
    let c = chars_of(path);
    let cs = c.as_slice();
    assert(cs@.subrange(0, cs@.len() as int) =~= path@);
    match file_name_bounds(cs, cs.len()) {
        Some((a, b)) => {
            let ghost name = cs@.subrange(a as int, b as int);
            match last_index(cs, a, b, '.') {
                Some(k) => if k == 0 {
                    Some(string_of(cs, a, b))
                } else {
                    assert(name.subrange(0, k as int) =~= cs@.subrange(a as int, a + k));
                    Some(string_of(cs, a, a + k))
                },
                None => Some(string_of(cs, a, b)),
            }
        },
        None => None,
    }
}

/// `name` joined onto `base` (`Path::join`).
pub fn join(base: &str, name: &str) -> (r: String)
    ensures
        r@ == join_path(base@, name@),
{
    let bc = chars_of(base);
    let nc = chars_of(name);
    if nc.len() > 0 && nc[0] == '/' {
        String::from_str(name)
    } else if bc.len() == 0 || bc[bc.len() - 1] == '/' {
        concat(base, name)
    } else {
        let with_sep = concat(base, "/");
        proof {
            reveal_strlit("/");
        }
        concat(with_sep.as_str(), name)
    }
}

/// The lower-cased extension of `path`, empty when it has none
/// (`path.extension().and_then(|e| e.to_str()).unwrap_or("").to_lowercase()`).
pub fn lowercase_extension(path: &str) -> (r: String)
    ensures
        r@ == text_lowercase(
            match path_extension(path@) {
                Some(e) => e,
                None => Seq::<char>::empty(),
            },
        ),
{
    match extension_of(path) {
        Some(e) => lower_case(e.as_str()),
        None => {
            let empty = String::new();
            lower_case(empty.as_str())
        },
    }
}

} // verus!
