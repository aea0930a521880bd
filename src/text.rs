use vstd::prelude::*;
use vstd::string::{StrSliceExecFns, StringExecFns};

verus! {

/// `s` with the prefix `p` removed, or `s` itself where it does not start
/// with `p`.
pub open spec fn strip_or_keep(s: Seq<char>, p: Seq<char>) -> Seq<char> {
    if p.is_prefix_of(s) {
        s.subrange(p.len() as int, s.len() as int)
    } else {
        s
    }
}

/// The part of `s` after its last `/`; all of `s` where it holds none.
pub open spec fn last_segment(s: Seq<char>) -> Seq<char>
    decreases s.len(),
{
    if s.len() == 0 {
        s
    } else if s.last() == '/' {
        Seq::empty()
    } else {
        last_segment(s.drop_last()).push(s.last())
    }
}

/// `s` without the slashes it starts with.
pub open spec fn trim_leading_slashes(s: Seq<char>) -> Seq<char>
    decreases s.len(),
{
    if s.len() > 0 && s[0] == '/' {
        trim_leading_slashes(s.drop_first())
    } else {
        s
    }
}

/// The part of `s` before its last `/`; empty where it holds none.
pub open spec fn before_last_slash(s: Seq<char>) -> Seq<char>
    decreases s.len(),
{
    if s.len() == 0 {
        s
    } else if s.last() == '/' {
        s.drop_last()
    } else {
        before_last_slash(s.drop_last())
    }
}

/// `s` with every `../` removed, matching from left to right.
pub open spec fn drop_parent_refs(s: Seq<char>) -> Seq<char>
    decreases s.len(),
{
    if s.len() == 0 {
        s
    } else if s.len() >= 3 && s[0] == '.' && s[1] == '.' && s[2] == '/' {
        drop_parent_refs(s.subrange(3, s.len() as int))
    } else {
        seq![s[0]] + drop_parent_refs(s.drop_first())
    }
}

/// `s` without the directory prefix `p` and the slash that follows it.
pub open spec fn strip_dir(s: Seq<char>, p: Seq<char>) -> Option<Seq<char>> {
    if p.is_prefix_of(s) && s.len() > p.len() && s[p.len() as int] == '/' {
        Some(s.subrange(p.len() as int + 1, s.len() as int))
    } else {
        None
    }
}

/// Whether `s` starts with `p`.
pub fn starts_with(s: &str, p: &str) -> (r: bool)
    ensures
        r == p@.is_prefix_of(s@),
{
    let n = s.unicode_len();
    let m = p.unicode_len();
    if m > n {
        return false;
    }
    let mut i: usize = 0;
    while i < m
        invariant
            m <= n,
            n == s@.len(),
            m == p@.len(),
            0 <= i <= m,
            forall|j: int| 0 <= j < i ==> s@[j] == p@[j],
        decreases m - i,
    {
        if s.get_char(i) != p.get_char(i) {
            return false;
        }
        i = i + 1;
    }
    assert(p@ =~= s@.subrange(0, p@.len() as int));
    true
}

/// Whether `s` ends with `p`.
pub fn ends_with(s: &str, p: &str) -> (r: bool)
    ensures
        r == p@.is_suffix_of(s@),
{
    let n = s.unicode_len();
    let m = p.unicode_len();
    if m > n {
        return false;
    }
    let d = n - m;
    let mut i: usize = 0;
    while i < m
        invariant
            m <= n,
            d == n - m,
            n == s@.len(),
            m == p@.len(),
            0 <= i <= m,
            forall|j: int| 0 <= j < i ==> s@[d + j] == p@[j],
        decreases m - i,
    {
        if s.get_char(d + i) != p.get_char(i) {
            assert(s@.subrange(d as int, n as int)[i as int] == s@[d + i]);
            return false;
        }
        i = i + 1;
    }
    assert(p@ =~= s@.subrange(d as int, n as int));
    true
}

/// Whether two texts are equal.
pub fn same_text(a: &str, b: &str) -> (r: bool)
    ensures
        r == (a@ == b@),
{
    let r = a.unicode_len() == b.unicode_len() && starts_with(a, b);
    proof {
        if a@.len() == b@.len() && b@.is_prefix_of(a@) {
            assert(a@ =~= b@);
        }
    }
    r
}

/// Removes the prefix `p` from `s` where `s` starts with it.
pub fn strip_prefix_or_keep(s: &str, p: &str) -> (r: String)
    ensures
        r@ == strip_or_keep(s@, p@),
{
    if starts_with(s, p) {
        let n = s.unicode_len();
        let m = p.unicode_len();
        String::from_str(s.substring_char(m, n))
    } else {
        String::from_str(s)
    }
}

/// The part of `s` after its last `/`.
pub fn last_path_segment(s: &str) -> (r: String)
    ensures
        r@ == last_segment(s@),
{
    let n = s.unicode_len();
    let mut i: usize = n;
    assert(s@.subrange(0, n as int) =~= s@);
    assert(s@.subrange(n as int, n as int) =~= Seq::<char>::empty());
    assert(last_segment(s@) + Seq::<char>::empty() =~= last_segment(s@));
    while i > 0 && s.get_char(i - 1) != '/'
        invariant
            n == s@.len(),
            0 <= i <= n,
            last_segment(s@) == last_segment(s@.subrange(0, i as int)) + s@.subrange(i as int, n as int),
        decreases i,
    {
        let ghost head = s@.subrange(0, i as int);
        assert(head.drop_last() =~= s@.subrange(0, i - 1));
        assert(head.last() == s@[i - 1]);
        assert(s@.subrange(i - 1, n as int) =~= seq![s@[i - 1]] + s@.subrange(i as int, n as int));
        assert(last_segment(head) == last_segment(s@.subrange(0, i - 1)).push(s@[i - 1]));
        assert(last_segment(head) + s@.subrange(i as int, n as int) =~= last_segment(
            s@.subrange(0, i - 1),
        ) + s@.subrange(i - 1, n as int));
        i = i - 1;
    }
    proof {
        let head = s@.subrange(0, i as int);
        if i == 0 {
            assert(head.len() == 0);
        } else {
            assert(head.last() == s@[i - 1]);
        }
        assert(last_segment(head) =~= Seq::<char>::empty());
        assert(last_segment(s@) =~= s@.subrange(i as int, n as int));
    }
    String::from_str(s.substring_char(i, n))
}


/// Removes the slashes that `s` starts with.
pub fn trim_start_slashes(s: &str) -> (r: String)
    ensures
        r@ == trim_leading_slashes(s@),
{
    let n = s.unicode_len();
    let mut i: usize = 0;
    assert(s@.subrange(0, n as int) =~= s@);
    while i < n && s.get_char(i) == '/'
        invariant
            n == s@.len(),
            0 <= i <= n,
            trim_leading_slashes(s@) == trim_leading_slashes(s@.subrange(i as int, n as int)),
        decreases n - i,
    {
        let ghost tail = s@.subrange(i as int, n as int);
        assert(tail.drop_first() =~= s@.subrange(i + 1, n as int));
        i = i + 1;
    }
    String::from_str(s.substring_char(i, n))
}

/// The part of `s` before its last `/`, or an empty text.
pub fn before_last_path_slash(s: &str) -> (r: String)
    ensures
        r@ == before_last_slash(s@),
{
    let n = s.unicode_len();
    let mut i: usize = n;
    assert(s@.subrange(0, n as int) =~= s@);
    while i > 0 && s.get_char(i - 1) != '/'
        invariant
            n == s@.len(),
            0 <= i <= n,
            before_last_slash(s@) == before_last_slash(s@.subrange(0, i as int)),
        decreases i,
    {
        let ghost head = s@.subrange(0, i as int);
        assert(head.drop_last() =~= s@.subrange(0, i - 1));
        i = i - 1;
    }
    if i == 0 {
        proof {
            assert(s@.subrange(0, 0) =~= Seq::<char>::empty());
        }
        String::new()
    } else {
        proof {
            let head = s@.subrange(0, i as int);
            assert(head.last() == s@[i - 1]);
            assert(head.drop_last() =~= s@.subrange(0, i - 1));
        }
        String::from_str(s.substring_char(0, i - 1))
    }
}

/// Removes every `../` from `s`.
pub fn remove_parent_refs(s: &str) -> (r: String)
    ensures
        r@ == drop_parent_refs(s@),
{
    let n = s.unicode_len();
    let mut out = String::new();
    let mut start: usize = 0;
    let mut i: usize = 0;
    assert(s@.subrange(0, n as int) =~= s@);
    assert(s@.subrange(0, 0) =~= Seq::<char>::empty());
    while i < n
        invariant
            n == s@.len(),
            0 <= start <= i <= n,
            out@ + s@.subrange(start as int, i as int) + drop_parent_refs(s@.subrange(i as int, n as int))
                == drop_parent_refs(s@),
        decreases n - i,
    {
        let ghost tail = s@.subrange(i as int, n as int);
        if n - i >= 3 && s.get_char(i) == '.' && s.get_char(i + 1) == '.' && s.get_char(i + 2) == '/' {
            proof {
                assert(tail[0] == s@[i as int] && tail[1] == s@[i + 1] && tail[2] == s@[i + 2]);
                assert(tail.subrange(3, tail.len() as int) =~= s@.subrange(i + 3, n as int));
                assert(s@.subrange(start as int, i as int) =~= s@.subrange(start as int, i as int));
            }
            out.append(s.substring_char(start, i));
            i = i + 3;
            start = i;
            proof {
                assert(s@.subrange(start as int, i as int) =~= Seq::<char>::empty());
                assert(out@ + s@.subrange(start as int, i as int) =~= out@);
            }
        } else {
            proof {
                if n - i >= 3 {
                    assert(tail[0] == s@[i as int] && tail[1] == s@[i + 1] && tail[2] == s@[i + 2]);
                }
                assert(tail.drop_first() =~= s@.subrange(i + 1, n as int));
                assert(s@.subrange(start as int, i + 1) =~= s@.subrange(start as int, i as int) + seq![
                    s@[i as int],
                ]);
                assert(tail[0] == s@[i as int]);
                assert(drop_parent_refs(tail) == seq![s@[i as int]] + drop_parent_refs(
                    s@.subrange(i + 1, n as int),
                ));
                assert(out@ + s@.subrange(start as int, i + 1) + drop_parent_refs(
                    s@.subrange(i + 1, n as int),
                ) =~= out@ + s@.subrange(start as int, i as int) + drop_parent_refs(tail));
            }
            i = i + 1;
        }
    }
    out.append(s.substring_char(start, n));
    proof {
        assert(s@.subrange(n as int, n as int) =~= Seq::<char>::empty());
        assert(out@ =~= drop_parent_refs(s@));
    }
    out
}

/// Removes the directory prefix `p` and the slash after it from `s`.
pub fn strip_dir_prefix(s: &str, p: &str) -> (r: Option<String>)
    ensures
        match r {
            Some(t) => strip_dir(s@, p@) == Some(t@),
            None => strip_dir(s@, p@) is None,
        },
{
    if !starts_with(s, p) {
        return None;
    }
    let n = s.unicode_len();
    let m = p.unicode_len();
    if n > m && s.get_char(m) == '/' {
        Some(String::from_str(s.substring_char(m + 1, n)))
    } else {
        None
    }
}

} // verus!
