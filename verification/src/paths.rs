//! Slash-separated paths as text.
use crate::text;
use vstd::prelude::*;

verus! {

/// `rel` taken from the directory `base`; an absolute `rel` stands alone.
pub open spec fn joined_path(base: Seq<char>, rel: Seq<char>) -> Seq<char> {
    if rel.len() > 0 && rel.first() == '/' {
        rel
    } else if base.len() == 0 || base.last() == '/' {
        base + rel
    } else {
        base.push('/') + rel
    }
}

/// Join a relative path to a directory.
pub fn join_path(base: &str, rel: &str) -> (r: String)
    ensures
        r@ == joined_path(base@, rel@),
{
    let b = text::to_chars(base);
    let t = text::to_chars(rel);
    if t.len() > 0 && t[0] == '/' {
        return rel.to_owned();
    }
    let mut out = base.to_owned();
    if b.len() > 0 && b[b.len() - 1] != '/' {
        out.push('/');
    }
    out.push_str(rel);
    out
}

/// Whether a path component names something: it is neither empty nor a dot.
pub open spec fn is_real(c: Seq<char>) -> bool {
    c.len() > 0 && c != seq!['.']
}

/// The last component that names something, if any.
pub open spec fn last_real(p: Seq<Seq<char>>) -> Option<Seq<char>>
    decreases p.len(),
{
    if p.len() == 0 {
        None
    } else if is_real(p.last()) {
        Some(p.last())
    } else {
        last_real(p.drop_last())
    }
}

/// The file name at the end of a path, unless it ends in `..`.
pub open spec fn file_name_of(path: Seq<char>) -> Option<Seq<char>> {
    match last_real(text::split_at(path, '/')) {
        Some(n) => if n == seq!['.', '.'] {
            None
        } else {
            Some(n)
        },
        None => None,
    }
}

/// The file name at the end of a path.
pub fn file_name(path: &str) -> (r: Option<String>)
    ensures
        r is Some <==> file_name_of(path@) is Some,
        r is Some ==> Some(r->0@) == file_name_of(path@),
{
    let p = text::split_on(path, '/');
    let ghost t = text::texts(p@);
    let mut k = p.len();
    assert(t.take(k as int) =~= t);
    while k > 0
        invariant
            k <= p@.len(),
            t == text::texts(p@),
            last_real(t) == last_real(t.take(k as int)),
            t == text::split_at(path@, '/'),
        decreases k,
    {
        assert(t[k as int - 1] == p@[k as int - 1]@);
        assert(t.take(k as int).drop_last() =~= t.take(k as int - 1));
        let v = text::to_chars(p[k - 1].as_str());
        let dot = v.len() == 1 && v[0] == '.';
        let dots = v.len() == 2 && v[0] == '.' && v[1] == '.';
        proof {
            if dot {
                assert(v@ =~= seq!['.']);
            }
            if dots {
                assert(v@ =~= seq!['.', '.']);
            }
            assert(dot == (v@ == seq!['.']));
            assert(dots == (v@ == seq!['.', '.']));
        }
        if v.len() > 0 && !dot {
            if dots {
                return None;
            }
            return Some(p[k - 1].clone());
        }
        k = k - 1;
    }
    None
}

/// Where the last dot of a name stands, or -1.
pub open spec fn last_dot(s: Seq<char>) -> int
    decreases s.len(),
{
    if s.len() == 0 {
        -1
    } else if s.last() == '.' {
        s.len() - 1
    } else {
        last_dot(s.drop_last())
    }
}

/// What stands behind the last dot of a path's file name, unless that dot
/// begins the name.
pub open spec fn extension_of(path: Seq<char>) -> Option<Seq<char>> {
    match file_name_of(path) {
        Some(n) => if last_dot(n) <= 0 {
            None
        } else {
            Some(n.skip(last_dot(n) + 1))
        },
        None => None,
    }
}

/// The extension of a path's file name.
pub fn extension(path: &str) -> (r: Option<String>)
    ensures
        r is Some <==> extension_of(path@) is Some,
        r is Some ==> Some(r->0@) == extension_of(path@),
{
    let name = match file_name(path) {
        Some(n) => n,
        None => return None,
    };
    let v = text::to_chars(name.as_str());
    let mut k = v.len();
    assert(v@.take(k as int) =~= v@);
    while k > 0 && v[k - 1] != '.'
        invariant
            k <= v@.len(),
            last_dot(v@) == last_dot(v@.take(k as int)),
        decreases k,
    {
        assert(v@.take(k as int).drop_last() =~= v@.take(k as int - 1));
        k = k - 1;
    }
    if k <= 1 {
        return None;
    }
    let r = text::slice_chars(&v, k, v.len());
    assert(r@ =~= v@.skip(k as int));
    Some(r)
}

} // verus!
