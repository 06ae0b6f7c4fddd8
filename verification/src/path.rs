//! Unix paths as byte strings: joining, the parent directory, and text
//! conversions of bytes.
use vstd::prelude::*;
use vstd::utf8::{decode_utf8, valid_utf8};

verus! {

/// The path separator, `/`.
pub const SLASH: u8 = 47;

/// The line feed, `\n`.
pub const NEWLINE: u8 = 10;

/// A path is absolute when it starts at the root, `/`.
pub open spec fn is_absolute(p: Seq<u8>) -> bool {
    p.len() > 0 && p[0] == SLASH
}

/// `PathBuf::push` on Unix: an absolute `p` replaces `base`; otherwise `p`
/// is appended, after a `/` where `base` is not empty and does not end in one.
pub open spec fn join(base: Seq<u8>, p: Seq<u8>) -> Seq<u8> {
    if is_absolute(p) {
        p
    } else if base.len() > 0 && base.last() != SLASH {
        base + seq![SLASH] + p
    } else {
        base + p
    }
}

/// `p` without its trailing `/` characters.
pub open spec fn trim_trailing_slashes(p: Seq<u8>) -> Seq<u8>
    decreases p.len(),
{
    if p.len() > 0 && p.last() == SLASH {
        trim_trailing_slashes(p.drop_last())
    } else {
        p
    }
}

/// The position of the last `/` in `p`.
pub open spec fn last_slash(p: Seq<u8>) -> Option<int>
    decreases p.len(),
{
    if p.len() == 0 {
        None
    } else if p.last() == SLASH {
        Some(p.len() - 1)
    } else {
        last_slash(p.drop_last())
    }
}

/// The directory that holds `p`: the text before the last separator of `p`
/// (trailing separators ignored), `/` for a child of the root, the empty
/// path for a bare name, and nothing for the root or the empty path.
pub open spec fn parent(p: Seq<u8>) -> Option<Seq<u8>> {
    let q = trim_trailing_slashes(p);
    if q.len() == 0 {
        None
    } else {
        match last_slash(q) {
            None => Some(seq![]),
            Some(i) => {
                let r = trim_trailing_slashes(q.take(i));
                if r.len() == 0 {
                    Some(seq![SLASH])
                } else {
                    Some(r)
                }
            },
        }
    }
}

/// `b` without one trailing newline.
pub open spec fn strip_newline(b: Seq<u8>) -> Seq<u8> {
    if b.len() > 0 && b.last() == NEWLINE {
        b.drop_last()
    } else {
        b
    }
}

/// The text that `String::from_utf8_lossy` makes of `bytes`.
pub uninterp spec fn lossy_utf8(bytes: Seq<u8>) -> Seq<char>;

/// `String::from_utf8_lossy`, made owned: `bytes` decoded as UTF-8, each
/// invalid sequence replaced by U+FFFD. Stated: the result is `lossy_utf8`
/// of the bytes, and valid UTF-8 is decoded unchanged. What replaces an
/// invalid sequence is left unsaid.
#[verifier::external_body]
pub(crate) fn lossy_string(bytes: &[u8]) -> (res: String)
    ensures
        res@ == lossy_utf8(bytes@),
        valid_utf8(bytes@) ==> res@ == decode_utf8(bytes@),
{
    String::from_utf8_lossy(bytes).into_owned()
}

/// `std::str::from_utf8`, made owned: the text that `bytes` encode, where
/// they are valid UTF-8, else nothing.
#[verifier::external_body]
pub(crate) fn utf8_string(bytes: &[u8]) -> (res: Option<String>)
    ensures
        res is Some <==> valid_utf8(bytes@),
        res matches Some(s) ==> s@ == decode_utf8(bytes@),
{
    match std::str::from_utf8(bytes) {
        Ok(s) => Some(s.to_owned()),
        Err(_) => None,
    }
}

/// A `/` with none after it is the last `/`.
proof fn last_slash_at(p: Seq<u8>, i: int)
    requires
        0 <= i < p.len(),
        p[i] == SLASH,
        forall|j: int| i < j < p.len() ==> p[j] != SLASH,
    ensures
        last_slash(p) == Some(i),
    decreases p.len(),
{
    if i < p.len() - 1 {
        let d = p.drop_last();
        assert forall|j: int| i < j < d.len() implies d[j] != SLASH by {
            assert(d[j] == p[j]);
        }
        last_slash_at(d, i);
    }
}

/// Trailing separators stripped from a path that ends in none leave it as it is.
proof fn trim_trailing_slashes_none(p: Seq<u8>)
    requires
        p.len() == 0 || p.last() != SLASH,
    ensures
        trim_trailing_slashes(p) == p,
{
}

/// Stripping trailing separators from `d` followed by some separators gives
/// `d`, where `d` ends in none.
proof fn trim_trailing_slashes_of_slashes(d: Seq<u8>, k: nat)
    requires
        d.len() == 0 || d.last() != SLASH,
    ensures
        trim_trailing_slashes(d + Seq::new(k, |i: int| SLASH)) == d,
    decreases k,
{
    let t = d + Seq::new(k, |i: int| SLASH);
    if k == 0 {
        assert(t =~= d);
    } else {
        assert(t.last() == SLASH);
        assert(t.drop_last() =~= d + Seq::new((k - 1) as nat, |i: int| SLASH));
        trim_trailing_slashes_of_slashes(d, (k - 1) as nat);
    }
}

/// The parent of a path is the path without its last component: for a
/// directory `d` (not ending in `/`) and a name `c` (holding no `/`),
/// `d/c`, with any number of trailing separators, has the parent `d`, or
/// `/` where `d` is empty (a child of the root).
pub proof fn parent_law(d: Seq<u8>, c: Seq<u8>, trailing: nat)
    requires
        c.len() > 0,
        !c.contains(SLASH),
        d.len() == 0 || d.last() != SLASH,
    ensures
        parent(d + seq![SLASH] + c + Seq::new(trailing, |i: int| SLASH)) == Some(
            if d.len() == 0 {
                seq![SLASH]
            } else {
                d
            },
        ),
{
    let q0 = d + seq![SLASH] + c;
    assert(q0.last() == c.last());
    assert(c.contains(c.last()));
    trim_trailing_slashes_of_slashes(q0, trailing);
    let i = d.len() as int;
    assert(q0[i] == SLASH);
    assert forall|j: int| i < j < q0.len() implies q0[j] != SLASH by {
        assert(q0[j] == c[j - i - 1]);
        assert(c.contains(c[j - i - 1]));
    }
    last_slash_at(q0, i);
    assert(q0.take(i) =~= d);
    trim_trailing_slashes_none(d);
}

/// `p` is absolute.
pub fn path_is_absolute(p: &Vec<u8>) -> (res: bool)
    ensures
        res == is_absolute(p@),
{
    p.len() > 0 && p[0] == SLASH
}

/// A copy of `v[from..to]`.
pub fn slice_bytes(v: &Vec<u8>, from: usize, to: usize) -> (res: Vec<u8>)
    requires
        from <= to <= v.len(),
    ensures
        res@ == v@.subrange(from as int, to as int),
{
    let mut res: Vec<u8> = Vec::new();
    let mut k = from;
    while k < to
        invariant
            from <= k <= to <= v.len(),
            res@ == v@.subrange(from as int, k as int),
        decreases to - k,
    {
        res.push(v[k]);
        k = k + 1;
        assert(res@ =~= v@.subrange(from as int, k as int));
    }
    res
}

/// `base` joined with `p`, as `PathBuf::join`.
pub fn join_path(base: &Vec<u8>, p: &Vec<u8>) -> (res: Vec<u8>)
    ensures
        res@ == join(base@, p@),
{
    if path_is_absolute(p) {
        return slice_bytes(p, 0, p.len());
    }
    let mut res = slice_bytes(base, 0, base.len());
    if base.len() > 0 && base[base.len() - 1] != SLASH {
        res.push(SLASH);
    }
    let mut k: usize = 0;
    let ghost start = res@;
    while k < p.len()
        invariant
            k <= p.len(),
            res@ == start + p@.take(k as int),
        decreases p.len() - k,
    {
        res.push(p[k]);
        k = k + 1;
        assert(res@ =~= start + p@.take(k as int));
    }
    assert(p@.take(p.len() as int) =~= p@);
    assert(base@.subrange(0, base.len() as int) =~= base@);
    res
}

/// `b` without one trailing newline.
pub fn without_newline(b: &Vec<u8>) -> (res: Vec<u8>)
    ensures
        res@ == strip_newline(b@),
{
    if b.len() > 0 && b[b.len() - 1] == NEWLINE {
        slice_bytes(b, 0, b.len() - 1)
    } else {
        slice_bytes(b, 0, b.len())
    }
}

/// The length of `p[..n]` without its trailing separators.
fn trimmed_len(p: &Vec<u8>, n: usize) -> (res: usize)
    requires
        n <= p.len(),
    ensures
        res <= n,
        p@.take(res as int) == trim_trailing_slashes(p@.take(n as int)),
{
    let mut k = n;
    while k > 0 && p[k - 1] == SLASH
        invariant
            k <= n <= p.len(),
            trim_trailing_slashes(p@.take(n as int)) == trim_trailing_slashes(p@.take(k as int)),
        decreases k,
    {
        assert(p@.take(k as int).drop_last() =~= p@.take(k - 1));
        k = k - 1;
    }
    k
}

/// The directory that holds `p`.
pub fn parent_dir(p: &Vec<u8>) -> (res: Option<Vec<u8>>)
    ensures
        match res {
            Some(r) => parent(p@) == Some(r@),
            None => parent(p@) is None,
        },
{
    assert(p@.take(p.len() as int) =~= p@);
    let q = trimmed_len(p, p.len());
    if q == 0 {
        return None;
    }
    let ghost qs = p@.take(q as int);
    let mut k = q;
    assert(qs.take(q as int) =~= qs);
    while k > 0 && p[k - 1] != SLASH
        invariant
            k <= q <= p.len(),
            qs == p@.take(q as int),
            last_slash(qs) == last_slash(qs.take(k as int)),
        decreases k,
    {
        assert(qs.take(k as int).drop_last() =~= qs.take(k - 1));
        k = k - 1;
    }
    if k == 0 {
        assert(qs.take(0) =~= seq![]);
        return Some(Vec::new());
    }
    assert(qs.take(k as int).drop_last() =~= qs.take(k - 1));
    assert(last_slash(qs) == Some(k - 1));
    assert(qs.take(k - 1) =~= p@.take(k - 1));
    let r = trimmed_len(p, k - 1);
    if r == 0 {
        let mut root: Vec<u8> = Vec::new();
        root.push(SLASH);
        assert(root@ =~= seq![SLASH]);
        Some(root)
    } else {
        let res = slice_bytes(p, 0, r);
        assert(res@ =~= p@.take(r as int));
        Some(res)
    }
}

} // verus!
