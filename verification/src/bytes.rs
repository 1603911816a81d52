use vstd::prelude::*;

verus! {

/// The four bytes of `v` in little-endian order.
pub open spec fn le32_bytes(v: u32) -> Seq<u8> {
    seq![
        (v & 0xff) as u8,
        ((v >> 8) & 0xff) as u8,
        ((v >> 16) & 0xff) as u8,
        ((v >> 24) & 0xff) as u8,
    ]
}

/// The two bytes of `v` in big-endian order (high byte first).
pub open spec fn be16_bytes(v: u16) -> Seq<u8> {
    seq![((v >> 8) & 0xff) as u8, (v & 0xff) as u8]
}

/// The unsigned value read from two big-endian bytes (high byte first).
pub open spec fn be16_value(hi: u8, lo: u8) -> u16 {
    (hi as u16) << 8 | (lo as u16)
}

/// The unsigned value read from four little-endian bytes.
pub open spec fn le32_value(b0: u8, b1: u8, b2: u8, b3: u8) -> u32 {
    (b0 as u32) | (b1 as u32) << 8 | (b2 as u32) << 16 | (b3 as u32) << 24
}

/// Append the four little-endian bytes of `v` to `out`.
pub(crate) fn push_le32(out: &mut Vec<u8>, v: u32)
    ensures
        final(out)@ == old(out)@ + le32_bytes(v),
{
    out.push((v & 0xff) as u8);
    out.push(((v >> 8) & 0xff) as u8);
    out.push(((v >> 16) & 0xff) as u8);
    out.push(((v >> 24) & 0xff) as u8);
    proof {
        assert(out@ =~= old(out)@ + le32_bytes(v));
    }
}

/// Append the two big-endian bytes of `v` to `out`.
pub(crate) fn push_be16(out: &mut Vec<u8>, v: u16)
    ensures
        final(out)@ == old(out)@ + be16_bytes(v),
{
    out.push(((v >> 8) & 0xff) as u8);
    out.push((v & 0xff) as u8);
    proof {
        assert(out@ =~= old(out)@ + be16_bytes(v));
    }
}

/// An ASCII upper-case letter folded to lower case; every other byte is
/// kept as it is.
pub open spec fn lower_byte(b: u8) -> u8 {
    if 65 <= b <= 90 {
        (b + 32) as u8
    } else {
        b
    }
}

/// A byte string with every ASCII upper-case letter folded to lower case.
pub open spec fn lower_bytes(s: Seq<u8>) -> Seq<u8> {
    s.map_values(|b: u8| lower_byte(b))
}

/// Fold every ASCII upper-case letter of `s` to lower case.
pub(crate) fn to_lower(s: &[u8]) -> (r: Vec<u8>)
    ensures
        r@ == lower_bytes(s@),
{
    let mut out: Vec<u8> = Vec::new();
    let mut i: usize = 0;
    while i < s.len()
        invariant
            i <= s@.len(),
            out@.len() == i,
            forall|j: int| 0 <= j < i ==> out@[j] == lower_byte(s@[j]),
        decreases s@.len() - i,
    {
        let b = s[i];
        if 65 <= b && b <= 90 {
            out.push(b + 32);
        } else {
            out.push(b);
        }
        i = i + 1;
    }
    proof {
        assert(out@ =~= lower_bytes(s@));
    }
    out
}

/// Whether `s` holds exactly the two given bytes.
pub(crate) fn word_eq2(s: &[u8], c0: u8, c1: u8) -> (r: bool)
    ensures
        r == (s@ == seq![c0, c1]),
{
    let r = s.len() == 2 && s[0] == c0 && s[1] == c1;
    proof {
        if r {
            assert(s@ =~= seq![c0, c1]);
        }
    }
    r
}

/// Whether `s` holds exactly the three given bytes.
pub(crate) fn word_eq3(s: &[u8], c0: u8, c1: u8, c2: u8) -> (r: bool)
    ensures
        r == (s@ == seq![c0, c1, c2]),
{
    let r = s.len() == 3 && s[0] == c0 && s[1] == c1 && s[2] == c2;
    proof {
        if r {
            assert(s@ =~= seq![c0, c1, c2]);
        }
    }
    r
}

/// Whether `s` holds exactly the four given bytes.
pub(crate) fn word_eq4(s: &[u8], c0: u8, c1: u8, c2: u8, c3: u8) -> (r: bool)
    ensures
        r == (s@ == seq![c0, c1, c2, c3]),
{
    let r = s.len() == 4 && s[0] == c0 && s[1] == c1 && s[2] == c2 && s[3] == c3;
    proof {
        if r {
            assert(s@ =~= seq![c0, c1, c2, c3]);
        }
    }
    r
}

/// Append every byte of `content` to `out`.
pub(crate) fn push_bytes(out: &mut Vec<u8>, content: &[u8])
    ensures
        final(out)@ == old(out)@ + content@,
{
    let mut k: usize = 0;
    while k < content.len()
        invariant
            k <= content@.len(),
            out@ =~= old(out)@ + content@.subrange(0, k as int),
        decreases content@.len() - k,
    {
        out.push(content[k]);
        k = k + 1;
    }
    proof {
        assert(out@ =~= old(out)@ + content@);
    }
}

/// Append `by` zero bytes to `v`.
pub(crate) fn grow_zeroed(v: &mut Vec<u8>, by: usize)
    ensures
        final(v)@ == old(v)@ + Seq::new(by as nat, |i: int| 0u8),
{
    let mut k: usize = 0;
    while k < by
        invariant
            k <= by,
            v@ =~= old(v)@ + Seq::new(k as nat, |i: int| 0u8),
        decreases by - k,
    {
        v.push(0);
        k = k + 1;
    }
    proof {
        assert(v@ =~= old(v)@ + Seq::new(by as nat, |i: int| 0u8));
    }
}

/// Append the bytes of `src` from `from` up to `to` to `out`.
pub(crate) fn push_sub(out: &mut Vec<u8>, src: &Vec<u8>, from: usize, to: usize)
    requires
        from <= to <= src@.len(),
    ensures
        final(out)@ == old(out)@ + src@.subrange(from as int, to as int),
{
    let mut k = from;
    while k < to
        invariant
            from <= k <= to <= src@.len(),
            out@ =~= old(out)@ + src@.subrange(from as int, k as int),
        decreases to - k,
    {
        out.push(src[k]);
        k = k + 1;
    }
    proof {
        assert(out@ =~= old(out)@ + src@.subrange(from as int, to as int));
    }
}

/// An exact copy of a byte string.
pub(crate) fn clone_bytes(v: &Vec<u8>) -> (r: Vec<u8>)
    ensures
        r@ == v@,
{
    let mut out: Vec<u8> = Vec::new();
    let mut i: usize = 0;
    while i < v.len()
        invariant
            i <= v@.len(),
            out@ =~= v@.subrange(0, i as int),
        decreases v@.len() - i,
    {
        out.push(v[i]);
        i = i + 1;
    }
    proof {
        assert(out@ =~= v@);
    }
    out
}

/// Whether two byte strings hold the same bytes.
pub(crate) fn bytes_equal(a: &[u8], b: &[u8]) -> (r: bool)
    ensures
        r == (a@ == b@),
{
    if a.len() != b.len() {
        return false;
    }
    let mut i: usize = 0;
    while i < a.len()
        invariant
            a@.len() == b@.len(),
            i <= a@.len(),
            forall|j: int| 0 <= j < i ==> a@[j] == b@[j],
        decreases a@.len() - i,
    {
        if a[i] != b[i] {
            return false;
        }
        i = i + 1;
    }
    proof {
        assert(a@ =~= b@);
    }
    true
}

} // verus!
