//! Little-endian encoding and decoding of the integers that travel in
//! protocol headers, descriptor lists and PCM samples.
use vstd::prelude::*;

verus! {

/// The value of the two bytes at `o`, least significant first.
pub open spec fn le16_at(s: Seq<u8>, o: int) -> int {
    s[o] + 0x100 * s[o + 1]
}

/// The value of the four bytes at `o`, least significant first.
pub open spec fn le32_at(s: Seq<u8>, o: int) -> int {
    s[o] + 0x100 * s[o + 1] + 0x1_0000 * s[o + 2] + 0x100_0000 * s[o + 3]
}

/// The value of the eight bytes at `o`, least significant first.
pub open spec fn le64_at(s: Seq<u8>, o: int) -> int {
    le32_at(s, o) + 0x1_0000_0000 * le32_at(s, o + 4)
}

/// The two bytes of `v`, least significant first.
pub open spec fn u16_le(v: u16) -> Seq<u8> {
    seq![(v % 0x100) as u8, (v / 0x100) as u8]
}

/// The four bytes of `v`, least significant first.
pub open spec fn u32_le(v: u32) -> Seq<u8> {
    seq![
        (v % 0x100) as u8,
        (v / 0x100 % 0x100) as u8,
        (v / 0x1_0000 % 0x100) as u8,
        (v / 0x100_0000) as u8,
    ]
}

/// The eight bytes of `v`, least significant first.
pub open spec fn u64_le(v: u64) -> Seq<u8> {
    u32_le((v % 0x1_0000_0000) as u32) + u32_le((v / 0x1_0000_0000) as u32)
}

/// Two's complement: the signed number whose 16-bit pattern is `v`.
pub open spec fn as_signed16(v: int) -> int {
    if v < 0x8000 {
        v
    } else {
        v - 0x1_0000
    }
}

/// Two's complement: the 16-bit pattern of the signed number `v`.
pub open spec fn as_unsigned16(v: int) -> int {
    if v < 0 {
        v + 0x1_0000
    } else {
        v
    }
}

/// Two's complement: the signed number whose 32-bit pattern is `v`.
pub open spec fn as_signed32(v: int) -> int {
    if v < 0x8000_0000 {
        v
    } else {
        v - 0x1_0000_0000
    }
}

/// Two's complement: the 32-bit pattern of the signed number `v`.
pub open spec fn as_unsigned32(v: int) -> int {
    if v < 0 {
        v + 0x1_0000_0000
    } else {
        v
    }
}

/// Two's complement: the signed number whose 64-bit pattern is `v`.
pub open spec fn as_signed64(v: int) -> int {
    if v < 0x8000_0000_0000_0000 {
        v
    } else {
        v - 0x1_0000_0000_0000_0000
    }
}

/// Two's complement: the 64-bit pattern of the signed number `v`.
pub open spec fn as_unsigned64(v: int) -> int {
    if v < 0 {
        v + 0x1_0000_0000_0000_0000
    } else {
        v
    }
}

/// `s` with `data` written over it from position `off` on.
pub open spec fn overwrite(s: Seq<u8>, off: int, data: Seq<u8>) -> Seq<u8> {
    Seq::new(
        s.len(),
        |i: int|
            if off <= i < off + data.len() {
                data[i - off]
            } else {
                s[i]
            },
    )
}

/// Decoding undoes encoding for 16-bit values, wherever the bytes stand.
pub proof fn lemma_u16_round_trip(v: u16, s: Seq<u8>, o: int)
    requires
        0 <= o,
        o + 2 <= s.len(),
        s.subrange(o, o + 2) == u16_le(v),
    ensures
        le16_at(s, o) == v,
{
    let t = s.subrange(o, o + 2);
    assert(t[0] == s[o] && t[1] == s[o + 1]);
}

/// Decoding undoes encoding for 32-bit values, wherever the bytes stand.
pub proof fn lemma_u32_round_trip(v: u32, s: Seq<u8>, o: int)
    requires
        0 <= o,
        o + 4 <= s.len(),
        s.subrange(o, o + 4) == u32_le(v),
    ensures
        le32_at(s, o) == v,
{
    let t = s.subrange(o, o + 4);
    assert(t[0] == s[o] && t[1] == s[o + 1] && t[2] == s[o + 2] && t[3] == s[o + 3]);
}

/// Decoding undoes encoding for 64-bit values, wherever the bytes stand.
pub proof fn lemma_u64_round_trip(v: u64, s: Seq<u8>, o: int)
    requires
        0 <= o,
        o + 8 <= s.len(),
        s.subrange(o, o + 8) == u64_le(v),
    ensures
        le64_at(s, o) == v,
{
    let t = s.subrange(o, o + 8);
    assert(s.subrange(o, o + 4) =~= t.subrange(0, 4));
    assert(s.subrange(o + 4, o + 8) =~= t.subrange(4, 8));
    assert(t.subrange(0, 4) =~= u32_le((v % 0x1_0000_0000) as u32));
    assert(t.subrange(4, 8) =~= u32_le((v / 0x1_0000_0000) as u32));
    lemma_u32_round_trip((v % 0x1_0000_0000) as u32, s, o);
    lemma_u32_round_trip((v / 0x1_0000_0000) as u32, s, o + 4);
}

/// A number is read least significant byte first: its remainders by 256 are
/// the bytes in the order in which they stand.
pub proof fn law_least_significant_first(s: Seq<u8>, o: int)
    ensures
        le16_at(s, o) % 256 == s[o],
        le16_at(s, o) / 256 == s[o + 1],
        le32_at(s, o) % 256 == s[o],
        le32_at(s, o) / 256 % 256 == s[o + 1],
        le32_at(s, o) / 0x1_0000 % 256 == s[o + 2],
        le32_at(s, o) / 0x100_0000 == s[o + 3],
        le64_at(s, o) % 0x1_0000_0000 == le32_at(s, o),
        le64_at(s, o) / 0x1_0000_0000 == le32_at(s, o + 4),
{
}

/// Two's complement: a pattern and its number differ by a multiple of the
/// range, the number lies around zero, and either gives back the other.
pub proof fn law_twos_complement(v: int)
    ensures
        0 <= v < 0x1_0000 ==> {
            &&& -0x8000 <= as_signed16(v) < 0x8000
            &&& (as_signed16(v) - v) % 0x1_0000 == 0
            &&& as_unsigned16(as_signed16(v)) == v
        },
        0 <= v < 0x1_0000_0000 ==> {
            &&& -0x8000_0000 <= as_signed32(v) < 0x8000_0000
            &&& (as_signed32(v) - v) % 0x1_0000_0000 == 0
            &&& as_unsigned32(as_signed32(v)) == v
        },
        0 <= v < 0x1_0000_0000_0000_0000 ==> {
            &&& -0x8000_0000_0000_0000 <= as_signed64(v) < 0x8000_0000_0000_0000
            &&& (as_signed64(v) - v) % 0x1_0000_0000_0000_0000 == 0
            &&& as_unsigned64(as_signed64(v)) == v
        },
{
}

/// Writing over bytes changes those bytes and no others.
pub proof fn law_overwrite(s: Seq<u8>, off: int, data: Seq<u8>)
    requires
        0 <= off,
        off + data.len() <= s.len(),
    ensures
        overwrite(s, off, data) == s.take(off) + data + s.skip(off + data.len()),
{
    assert(overwrite(s, off, data) =~= s.take(off) + data + s.skip(off + data.len()));
}

/// Read a 16-bit value at `o`.
pub fn get_u16(b: &[u8], o: usize) -> (v: u16)
    requires
        o + 2 <= b@.len(),
    ensures
        v == le16_at(b@, o as int),
{
    (b[o] as u16) + 0x100 * (b[o + 1] as u16)
}

/// Read a 32-bit value at `o`.
pub fn get_u32(b: &[u8], o: usize) -> (v: u32)
    requires
        o + 4 <= b@.len(),
    ensures
        v == le32_at(b@, o as int),
{
    (b[o] as u32) + 0x100 * (b[o + 1] as u32) + 0x1_0000 * (b[o + 2] as u32) + 0x100_0000 * (b[o
        + 3] as u32)
}

/// Read a 64-bit value at `o`.
pub fn get_u64(b: &[u8], o: usize) -> (v: u64)
    requires
        o + 8 <= b@.len(),
    ensures
        v == le64_at(b@, o as int),
{
    assert(o + 8 <= b.len());
    let lo: u64 = get_u32(b, o) as u64;
    let hi: u64 = get_u32(b, o + 4) as u64;
    lo + 0x1_0000_0000 * hi
}

/// Read a signed 16-bit value at `o`.
pub fn get_i16(b: &[u8], o: usize) -> (v: i16)
    requires
        o + 2 <= b@.len(),
    ensures
        v == as_signed16(le16_at(b@, o as int)),
{
    let u: u16 = get_u16(b, o);
    if u < 0x8000 {
        u as i16
    } else {
        (u as i32 - 0x1_0000) as i16
    }
}

/// Read a signed 32-bit value at `o`.
pub fn get_i32(b: &[u8], o: usize) -> (v: i32)
    requires
        o + 4 <= b@.len(),
    ensures
        v == as_signed32(le32_at(b@, o as int)),
{
    let u: u32 = get_u32(b, o);
    if u < 0x8000_0000 {
        u as i32
    } else {
        (u as i64 - 0x1_0000_0000) as i32
    }
}

/// Read a signed 64-bit value at `o`.
pub fn get_i64(b: &[u8], o: usize) -> (v: i64)
    requires
        o + 8 <= b@.len(),
    ensures
        v == as_signed64(le64_at(b@, o as int)),
{
    let u: u64 = get_u64(b, o);
    if u < 0x8000_0000_0000_0000 {
        u as i64
    } else {
        (u as i128 - 0x1_0000_0000_0000_0000) as i64
    }
}

/// The 16-bit pattern of a signed sample.
pub fn pattern16(v: i16) -> (u: u16)
    ensures
        u == as_unsigned16(v as int),
{
    if v < 0 {
        (v as i32 + 0x1_0000) as u16
    } else {
        v as u16
    }
}

/// The 32-bit pattern of a signed number.
pub fn pattern32(v: i32) -> (u: u32)
    ensures
        u == as_unsigned32(v as int),
{
    if v < 0 {
        (v as i64 + 0x1_0000_0000) as u32
    } else {
        v as u32
    }
}

/// The 64-bit pattern of a signed number.
pub fn pattern64(v: i64) -> (u: u64)
    ensures
        u == as_unsigned64(v as int),
{
    if v < 0 {
        (v as i128 + 0x1_0000_0000_0000_0000) as u64
    } else {
        v as u64
    }
}

/// Append the two bytes of `v`.
pub fn push_u16(out: &mut Vec<u8>, v: u16)
    ensures
        final(out)@ == old(out)@ + u16_le(v),
{
    out.push((v % 0x100) as u8);
    out.push((v / 0x100) as u8);
    assert(out@ =~= old(out)@ + u16_le(v));
}

/// Append the four bytes of `v`.
pub fn push_u32(out: &mut Vec<u8>, v: u32)
    ensures
        final(out)@ == old(out)@ + u32_le(v),
{
    out.push((v % 0x100) as u8);
    out.push((v / 0x100 % 0x100) as u8);
    out.push((v / 0x1_0000 % 0x100) as u8);
    out.push((v / 0x100_0000) as u8);
    assert(out@ =~= old(out)@ + u32_le(v));
}

/// Append the eight bytes of `v`.
pub fn push_u64(out: &mut Vec<u8>, v: u64)
    ensures
        final(out)@ == old(out)@ + u64_le(v),
{
    push_u32(out, (v % 0x1_0000_0000) as u32);
    push_u32(out, (v / 0x1_0000_0000) as u32);
    assert(out@ =~= old(out)@ + u64_le(v));
}

/// Copy `data` into `mem` starting at `off`.
pub fn put_bytes(mem: &mut [u8], off: usize, data: &[u8])
    requires
        off + data@.len() <= old(mem)@.len(),
    ensures
        final(mem)@ == overwrite(old(mem)@, off as int, data@),
{
    let mut i: usize = 0;
    while i < data.len()
        invariant
            i <= data@.len(),
            off + data@.len() <= old(mem)@.len(),
            mem@.len() == old(mem)@.len(),
            mem.len() == mem@.len(),
            mem@ =~= overwrite(old(mem)@, off as int, data@.subrange(0, i as int)),
        decreases data@.len() - i,
    {
        mem[off + i] = data[i];
        i = i + 1;
    }
    assert(data@.subrange(0, i as int) =~= data@);
}

/// Copy the bytes of `mem` from `from` up to `to`.
pub fn copy_range(mem: &[u8], from: usize, to: usize) -> (out: Vec<u8>)
    requires
        from <= to <= mem@.len(),
    ensures
        out@ == mem@.subrange(from as int, to as int),
{
    let mut out: Vec<u8> = Vec::new();
    let mut i: usize = from;
    while i < to
        invariant
            from <= i <= to <= mem@.len(),
            out@ == mem@.subrange(from as int, i as int),
        decreases to - i,
    {
        out.push(mem[i]);
        i = i + 1;
        assert(mem@.subrange(from as int, i as int) =~= mem@.subrange(from as int, i - 1).push(
            mem@[i - 1],
        ));
    }
    out
}

/// Set every byte of `mem` to zero.
pub fn fill_zero(mem: &mut [u8])
    ensures
        final(mem)@ == Seq::new(old(mem)@.len(), |i: int| 0u8),
{
    let mut i: usize = 0;
    while i < mem.len()
        invariant
            i <= mem@.len(),
            mem@.len() == old(mem)@.len(),
            forall|k: int| 0 <= k < i ==> mem@[k] == 0,
        decreases mem@.len() - i,
    {
        mem[i] = 0;
        i = i + 1;
    }
    assert(mem@ =~= Seq::new(old(mem)@.len(), |i: int| 0u8));
}

} // verus!
