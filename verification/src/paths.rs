//! A light model of slash-separated paths. The file name of a path is the
//! suffix after its last separator; a component is a whole slash-delimited
//! segment; the project root of a managed exercise lies two components above
//! the exercise file.

use vstd::prelude::*;

use crate::text::contains_at;
use crate::text::str_eq;

verus! {

/// `c` occurs somewhere in `p`.
pub open spec fn occurs(p: Seq<char>, c: char) -> bool {
    exists|i: int| 0 <= i < p.len() && p[i] == c
}

/// The suffix of `p` after the last occurrence of `c`; all of `p` when `c`
/// does not occur.
pub open spec fn after_last(p: Seq<char>, c: char) -> Seq<char>
    decreases p.len(),
{
    if p.len() == 0 {
        Seq::<char>::empty()
    } else if p.last() == c {
        Seq::<char>::empty()
    } else {
        after_last(p.drop_last(), c).push(p.last())
    }
}

/// The prefix of `p` before the last occurrence of `c`; empty when `c` does
/// not occur.
pub open spec fn before_last(p: Seq<char>, c: char) -> Seq<char>
    decreases p.len(),
{
    if p.len() == 0 {
        p
    } else if p.last() == c {
        p.drop_last()
    } else {
        before_last(p.drop_last(), c)
    }
}

/// The file name of a path: the part after the last separator.
pub open spec fn spec_file_name(p: Seq<char>) -> Seq<char> {
    after_last(p, '/')
}

/// When `k` is the last occurrence of `c` in `p`, the suffix after it is the
/// subrange beyond `k` and the prefix before it the subrange up to `k`.
pub proof fn lemma_split_at_last(p: Seq<char>, c: char, k: int)
    requires
        0 <= k < p.len(),
        p[k] == c,
        forall|j: int| k < j < p.len() ==> p[j] != c,
    ensures
        after_last(p, c) == p.subrange(k + 1, p.len() as int),
        before_last(p, c) == p.subrange(0, k),
    decreases p.len(),
{
    if k == p.len() - 1 {
        assert(after_last(p, c) =~= p.subrange(k + 1, p.len() as int));
        assert(before_last(p, c) =~= p.subrange(0, k));
    } else {
        let q = p.drop_last();
        assert(forall|j: int| k < j < q.len() ==> q[j] == p[j]);
        lemma_split_at_last(q, c, k);
        assert(after_last(p, c) =~= p.subrange(k + 1, p.len() as int));
        assert(before_last(p, c) =~= p.subrange(0, k));
    }
}

/// When `c` does not occur in `p`, the suffix after it is all of `p` and the
/// prefix before it is empty.
pub proof fn lemma_no_occurrence(p: Seq<char>, c: char)
    requires
        forall|j: int| 0 <= j < p.len() ==> p[j] != c,
    ensures
        after_last(p, c) == p,
        before_last(p, c) == Seq::<char>::empty(),
    decreases p.len(),
{
    if p.len() == 0 {
        assert(after_last(p, c) =~= p);
        assert(before_last(p, c) =~= Seq::<char>::empty());
    } else {
        lemma_no_occurrence(p.drop_last(), c);
        assert(after_last(p, c) =~= p);
    }
}

/// The index of the last occurrence of `c` in `s`, if any.
pub fn rfind_char(s: &str, c: char) -> (r: Option<usize>)
    ensures
        match r {
            Some(k) => k < s@.len() && s@[k as int] == c && (forall|j: int|
                k < j < s@.len() ==> s@[j] != c),
            None => forall|j: int| 0 <= j < s@.len() ==> s@[j] != c,
        },
{
    let n = s.unicode_len();
    let mut i: usize = n;
    while i > 0
        invariant
            n == s@.len(),
            i <= n,
            forall|j: int| i <= j < n ==> s@[j] != c,
        decreases i,
    {
        i -= 1;
        if s.get_char(i) == c {
            return Some(i);
        }
    }
    None
}

/// The file name of a slash-separated path, that is, the suffix after the
/// last separator; `None` when that suffix is empty, so that no name can be
/// determined.
pub fn file_name_of(path: &str) -> (r: Option<String>)
    ensures
        match r {
            Some(name) => name@ == spec_file_name(path@) && name@.len() > 0,
            None => spec_file_name(path@).len() == 0,
        },
{
    let n = path.unicode_len();
    match rfind_char(path, '/') {
        Some(k) => {
            proof {
                lemma_split_at_last(path@, '/', k as int);
            }
            if k + 1 == n {
                None
            } else {
                let name = path.substring_char(k + 1, n);
                proof {
                    assert(name@ =~= spec_file_name(path@));
                }
                Some(name.to_owned())
            }
        },
        None => {
            proof {
                lemma_no_occurrence(path@, '/');
            }
            if n == 0 {
                None
            } else {
                Some(path.to_owned())
            }
        },
    }
}

/// The directory two separators above a path: the prefix before the
/// second-to-last separator. `None` when the path has fewer than two
/// separators.
pub fn project_root_of(path: &str) -> (r: Option<String>)
    ensures
        match r {
            Some(root) => occurs(path@, '/') && occurs(before_last(path@, '/'), '/') && root@
                == before_last(before_last(path@, '/'), '/'),
            None => !occurs(path@, '/') || !occurs(before_last(path@, '/'), '/'),
        },
{
    match rfind_char(path, '/') {
        None => {
            proof {
                lemma_no_occurrence(path@, '/');
            }
            None
        },
        Some(k1) => {
            proof {
                lemma_split_at_last(path@, '/', k1 as int);
            }
            let parent = path.substring_char(0, k1);
            match rfind_char(parent, '/') {
                None => {
                    proof {
                        lemma_no_occurrence(parent@, '/');
                    }
                    None
                },
                Some(k2) => {
                    proof {
                        lemma_split_at_last(parent@, '/', k2 as int);
                    }
                    let root = parent.substring_char(0, k2);
                    Some(root.to_owned())
                },
            }
        },
    }
}

/// `comp` stands as a whole slash-delimited segment of `p` beginning at
/// index `i`.
pub open spec fn is_component_at(p: Seq<char>, comp: Seq<char>, i: int) -> bool {
    &&& contains_at(p, comp, i)
    &&& (i == 0 || p[i - 1] == '/')
    &&& (i + comp.len() == p.len() || p[i + comp.len()] == '/')
}

/// `comp` stands as a whole slash-delimited segment somewhere in `p`.
pub open spec fn has_component(p: Seq<char>, comp: Seq<char>) -> bool {
    exists|i: int| is_component_at(p, comp, i)
}

/// Whether `comp` appears as a whole path segment of `path`.
pub fn path_has_component(path: &str, comp: &str) -> (r: bool)
    requires
        comp@.len() > 0,
    ensures
        r == has_component(path@, comp@),
{
    let n = path.unicode_len();
    let m = comp.unicode_len();
    if m > n {
        proof {
            assert(forall|i: int| !is_component_at(path@, comp@, i));
        }
        return false;
    }
    let mut i: usize = 0;
    while i <= n - m
        invariant
            1 <= m <= n,
            n == path@.len(),
            m == comp@.len(),
            i <= n - m + 1,
            forall|j: int| 0 <= j < i ==> !is_component_at(path@, comp@, j),
        decreases n - m - i + 1,
    {
        let boundary_left = i == 0 || path.get_char(i - 1) == '/';
        let boundary_right = i + m == n || path.get_char(i + m) == '/';
        if boundary_left && boundary_right {
            let piece = path.substring_char(i, i + m);
            if str_eq(piece, comp) {
                proof {
                    assert(is_component_at(path@, comp@, i as int));
                }
                return true;
            }
        }
        i += 1;
    }
    proof {
        assert(forall|j: int| is_component_at(path@, comp@, j) ==> 0 <= j < i);
    }
    false
}

} // verus!
