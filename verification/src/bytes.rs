//! Fixed-width integers as bytes, and byte ranges of a buffer.
use vstd::prelude::*;

verus! {

// ─── Integers as byte sequences ──────────────────────────────────────────────

/// The two little-endian bytes of `x`.
pub open spec fn le16(x: u16) -> Seq<u8> {
    seq![(x % 0x100) as u8, (x / 0x100) as u8]
}

/// The four little-endian bytes of `x`.
pub open spec fn le32(x: u32) -> Seq<u8> {
    seq![
        (x % 0x100) as u8,
        (x / 0x100 % 0x100) as u8,
        (x / 0x1_0000 % 0x100) as u8,
        (x / 0x100_0000) as u8,
    ]
}

/// The eight little-endian bytes of `x`.
pub open spec fn le64(x: u64) -> Seq<u8> {
    le32((x % 0x1_0000_0000) as u32) + le32((x / 0x1_0000_0000) as u32)
}

/// The two big-endian bytes of `x`.
pub open spec fn be16(x: u16) -> Seq<u8> {
    seq![(x / 0x100) as u8, (x % 0x100) as u8]
}

/// The four big-endian bytes of `x`.
pub open spec fn be32(x: u32) -> Seq<u8> {
    seq![
        (x / 0x100_0000) as u8,
        (x / 0x1_0000 % 0x100) as u8,
        (x / 0x100 % 0x100) as u8,
        (x % 0x100) as u8,
    ]
}

/// The eight big-endian bytes of `x`.
pub open spec fn be64(x: u64) -> Seq<u8> {
    be32((x / 0x1_0000_0000) as u32) + be32((x % 0x1_0000_0000) as u32)
}

/// The number whose little-endian bytes are the two bytes of `s` from `at`.
pub open spec fn le16_at(s: Seq<u8>, at: int) -> u16 {
    (s[at] + s[at + 1] * 0x100) as u16
}

/// The number whose little-endian bytes are the four bytes of `s` from `at`.
pub open spec fn le32_at(s: Seq<u8>, at: int) -> u32 {
    (s[at] + s[at + 1] * 0x100 + s[at + 2] * 0x1_0000 + s[at + 3] * 0x100_0000) as u32
}

/// The number whose little-endian bytes are the eight bytes of `s` from `at`.
pub open spec fn le64_at(s: Seq<u8>, at: int) -> u64 {
    (le32_at(s, at) + le32_at(s, at + 4) * 0x1_0000_0000) as u64
}

/// The number whose big-endian bytes are the two bytes of `s` from `at`.
pub open spec fn be16_at(s: Seq<u8>, at: int) -> u16 {
    (s[at] * 0x100 + s[at + 1]) as u16
}

/// The number whose big-endian bytes are the four bytes of `s` from `at`.
pub open spec fn be32_at(s: Seq<u8>, at: int) -> u32 {
    (s[at] * 0x100_0000 + s[at + 1] * 0x1_0000 + s[at + 2] * 0x100 + s[at + 3]) as u32
}

/// The number whose big-endian bytes are the eight bytes of `s` from `at`.
pub open spec fn be64_at(s: Seq<u8>, at: int) -> u64 {
    (be32_at(s, at) * 0x1_0000_0000 + be32_at(s, at + 4)) as u64
}

/// A number below 2^32 is the sum of its four bytes, each by its weight.
proof fn bytes_of_u32(x: u32)
    ensures
        x == x % 0x100 + x / 0x100 % 0x100 * 0x100 + x / 0x1_0000 % 0x100 * 0x1_0000 + x
            / 0x100_0000 * 0x100_0000,
        x / 0x100_0000 < 0x100,
{
    let q = x / 0x100;
    let r = q / 0x100;
    assert(r == x / 0x1_0000);
    assert(r / 0x100 == x / 0x100_0000);
    assert(x == q * 0x100 + x % 0x100);
    assert(q == r * 0x100 + q % 0x100);
    assert(r == r / 0x100 * 0x100 + r % 0x100);
}

/// Reading a number back from its little-endian bytes gives the number.
pub proof fn le_bytes_round_trip(a: u16, b: u32, c: u64)
    ensures
        le16_at(le16(a), 0) == a,
        le32_at(le32(b), 0) == b,
        le64_at(le64(c), 0) == c,
{
    bytes_of_u32(b);
    let low = (c % 0x1_0000_0000) as u32;
    let high = (c / 0x1_0000_0000) as u32;
    bytes_of_u32(low);
    bytes_of_u32(high);
    let s = le64(c);
    assert(s.subrange(0, 4) == le32(low));
    assert(s.subrange(4, 8) == le32(high));
    assert(le32_at(s, 0) == le32_at(le32(low), 0));
    assert(le32_at(s, 4) == le32_at(le32(high), 0));
}

/// Reading a number back from its big-endian bytes gives the number.
pub proof fn be_bytes_round_trip(a: u16, b: u32, c: u64)
    ensures
        be16_at(be16(a), 0) == a,
        be32_at(be32(b), 0) == b,
        be64_at(be64(c), 0) == c,
{
    bytes_of_u32(b);
    let low = (c % 0x1_0000_0000) as u32;
    let high = (c / 0x1_0000_0000) as u32;
    bytes_of_u32(low);
    bytes_of_u32(high);
    let s = be64(c);
    assert(be32_at(s, 0) == be32_at(be32(high), 0));
    assert(be32_at(s, 4) == be32_at(be32(low), 0));
}

/// The bytes of the number that four bytes stand for are those bytes.
pub proof fn le32_of_bytes(data: Seq<u8>)
    requires
        data.len() == 4,
    ensures
        le32(le32_at(data, 0)) == data,
{
    let x = le32_at(data, 0);
    assert(x == data[0] + data[1] * 0x100 + data[2] * 0x1_0000 + data[3] * 0x100_0000);
    assert(x % 0x100 == data[0]);
    assert(x / 0x100 == data[1] + data[2] * 0x100 + data[3] * 0x1_0000);
    assert(x / 0x1_0000 == data[2] + data[3] * 0x100);
    assert(x / 0x100_0000 == data[3]);
    assert(le32(x) =~= data);
}

/// The bytes of the number that eight bytes stand for are those bytes.
pub proof fn le64_of_bytes(data: Seq<u8>)
    requires
        data.len() == 8,
    ensures
        le64(le64_at(data, 0)) == data,
{
    let low = data.take(4);
    let high = data.skip(4);
    le32_of_bytes(low);
    le32_of_bytes(high);
    let a = le32_at(low, 0);
    let b = le32_at(high, 0);
    assert(data[0] == low[0] && data[1] == low[1] && data[2] == low[2] && data[3] == low[3]);
    assert(data[4] == high[0] && data[5] == high[1] && data[6] == high[2] && data[7] == high[3]);
    assert(le32_at(data, 0) == a);
    assert(le32_at(data, 4) == b);
    let x = le64_at(data, 0);
    vstd::arithmetic::div_mod::lemma_fundamental_div_mod_converse(
        x as int,
        0x1_0000_0000,
        b as int,
        a as int,
    );
    assert(le64(x) == le32(a) + le32(b));
    assert(low + high =~= data);
}

// ─── Byte strings as numbers ─────────────────────────────────────────────────

/// The number that a byte string stands for, the most significant byte first.
pub open spec fn be_value(s: Seq<u8>) -> nat
    decreases s.len(),
{
    if s.len() == 0 {
        0
    } else {
        be_value(s.drop_last()) * 0x100 + s.last() as nat
    }
}

/// The number that a byte string stands for, the least significant byte first.
pub open spec fn le_value(s: Seq<u8>) -> nat
    decreases s.len(),
{
    if s.len() == 0 {
        0
    } else {
        s[0] as nat + 0x100 * le_value(s.skip(1))
    }
}

/// One byte more at the end of a big-endian number.
proof fn be_value_step(s: Seq<u8>, from: int, to: int)
    requires
        0 <= from <= to < s.len(),
    ensures
        be_value(s.subrange(from, to + 1)) == be_value(s.subrange(from, to)) * 0x100 + s[to],
{
    assert(s.subrange(from, to + 1).drop_last() =~= s.subrange(from, to));
}

/// One byte more at the start of a little-endian number.
proof fn le_value_step(s: Seq<u8>, from: int, to: int)
    requires
        0 <= from < to <= s.len(),
    ensures
        le_value(s.subrange(from, to)) == s[from] + 0x100 * le_value(s.subrange(from + 1, to)),
{
    assert(s.subrange(from, to).skip(1) =~= s.subrange(from + 1, to));
}

/// Two, four and eight bytes in big-endian order stand for the sum of the bytes,
/// each by its weight, and are read as that number.
pub proof fn big_endian_numbers(s: Seq<u8>, at: int)
    requires
        0 <= at,
    ensures
        at + 2 <= s.len() ==> be16_at(s, at) == be_value(s.subrange(at, at + 2)) == 0x100 * s[at]
            + s[at + 1],
        at + 4 <= s.len() ==> be32_at(s, at) == be_value(s.subrange(at, at + 4)) == 0x100_0000
            * s[at] + 0x1_0000 * s[at + 1] + 0x100 * s[at + 2] + s[at + 3],
        at + 8 <= s.len() ==> be64_at(s, at) == be_value(s.subrange(at, at + 8)) == 0x1_0000_0000
            * be_value(s.subrange(at, at + 4)) + be_value(s.subrange(at + 4, at + 8)),
{
    if at + 2 <= s.len() {
        assert(s.subrange(at, at) =~= Seq::empty());
        be_value_step(s, at, at);
        be_value_step(s, at, at + 1);
    }
    if at + 4 <= s.len() {
        be_value_step(s, at, at + 2);
        be_value_step(s, at, at + 3);
    }
    if at + 8 <= s.len() {
        assert(s.subrange(at + 4, at + 4) =~= Seq::empty());
        be_value_step(s, at, at + 4);
        be_value_step(s, at, at + 5);
        be_value_step(s, at, at + 6);
        be_value_step(s, at, at + 7);
        be_value_step(s, at + 4, at + 4);
        be_value_step(s, at + 4, at + 5);
        be_value_step(s, at + 4, at + 6);
        be_value_step(s, at + 4, at + 7);
    }
}

/// Two, four and eight bytes in little-endian order stand for the sum of the
/// bytes, each by its weight, and are read as that number.
pub proof fn little_endian_numbers(s: Seq<u8>, at: int)
    requires
        0 <= at,
    ensures
        at + 2 <= s.len() ==> le16_at(s, at) == le_value(s.subrange(at, at + 2)) == s[at] + 0x100
            * s[at + 1],
        at + 4 <= s.len() ==> le32_at(s, at) == le_value(s.subrange(at, at + 4)) == s[at] + 0x100
            * s[at + 1] + 0x1_0000 * s[at + 2] + 0x100_0000 * s[at + 3],
        at + 8 <= s.len() ==> le64_at(s, at) == le_value(s.subrange(at, at + 8)) == le_value(
            s.subrange(at, at + 4),
        ) + 0x1_0000_0000 * le_value(s.subrange(at + 4, at + 8)),
{
    if at + 2 <= s.len() {
        assert(s.subrange(at + 2, at + 2) =~= Seq::empty());
        le_value_step(s, at + 1, at + 2);
        le_value_step(s, at, at + 2);
    }
    if at + 4 <= s.len() {
        assert(s.subrange(at + 4, at + 4) =~= Seq::empty());
        le_value_step(s, at + 3, at + 4);
        le_value_step(s, at + 2, at + 4);
        le_value_step(s, at + 1, at + 4);
        le_value_step(s, at, at + 4);
    }
    if at + 8 <= s.len() {
        assert(s.subrange(at + 8, at + 8) =~= Seq::empty());
        le_value_step(s, at + 7, at + 8);
        le_value_step(s, at + 6, at + 8);
        le_value_step(s, at + 5, at + 8);
        le_value_step(s, at + 4, at + 8);
        le_value_step(s, at + 3, at + 8);
        le_value_step(s, at + 2, at + 8);
        le_value_step(s, at + 1, at + 8);
        le_value_step(s, at, at + 8);
    }
}

/// The bytes of a number stand for the number, in either order, and there are
/// as many as its width has.
pub proof fn bytes_stand_for_their_number(a: u16, b: u32, c: u64)
    ensures
        le16(a).len() == 2 && le_value(le16(a)) == a,
        le32(b).len() == 4 && le_value(le32(b)) == b,
        le64(c).len() == 8 && le_value(le64(c)) == c,
        be16(a).len() == 2 && be_value(be16(a)) == a,
        be32(b).len() == 4 && be_value(be32(b)) == b,
        be64(c).len() == 8 && be_value(be64(c)) == c,
{
    le_bytes_round_trip(a, b, c);
    be_bytes_round_trip(a, b, c);
    little_endian_numbers(le16(a), 0);
    little_endian_numbers(le32(b), 0);
    little_endian_numbers(le64(c), 0);
    big_endian_numbers(be16(a), 0);
    big_endian_numbers(be32(b), 0);
    big_endian_numbers(be64(c), 0);
    assert(le16(a).subrange(0, 2) =~= le16(a));
    assert(le32(b).subrange(0, 4) =~= le32(b));
    assert(le64(c).subrange(0, 8) =~= le64(c));
    assert(be16(a).subrange(0, 2) =~= be16(a));
    assert(be32(b).subrange(0, 4) =~= be32(b));
    assert(be64(c).subrange(0, 8) =~= be64(c));
}

// ─── Byte ranges ─────────────────────────────────────────────────────────────

/// `s` with the bytes from `at` on replaced by `b`; the length stays.
pub open spec fn store(s: Seq<u8>, at: int, b: Seq<u8>) -> Seq<u8> {
    Seq::new(s.len(), |i: int| if at <= i < at + b.len() { b[i - at] } else { s[i] })
}

/// The first `n` bytes of `s`, or all of it when it is shorter.
pub open spec fn prefix(s: Seq<u8>, n: int) -> Seq<u8> {
    if n < s.len() { s.subrange(0, n) } else { s }
}

/// `n` zero bytes.
pub open spec fn zeros(n: nat) -> Seq<u8> {
    Seq::new(n, |i: int| 0u8)
}

/// The sum of the bytes of `s`.
pub open spec fn byte_sum(s: Seq<u8>) -> nat
    decreases s.len(),
{
    if s.len() == 0 { 0 } else { byte_sum(s.drop_last()) + s.last() as nat }
}

/// Reads a little-endian `u16` at `at`.
pub fn get_le16(s: &[u8], at: usize) -> (x: u16)
    requires
        at + 2 <= s@.len(),
    ensures
        x == le16_at(s@, at as int),
{
    s[at] as u16 + s[at + 1] as u16 * 0x100
}

/// Reads a little-endian `u32` at `at`.
pub fn get_le32(s: &[u8], at: usize) -> (x: u32)
    requires
        at + 4 <= s@.len(),
    ensures
        x == le32_at(s@, at as int),
{
    s[at] as u32 + s[at + 1] as u32 * 0x100 + s[at + 2] as u32 * 0x1_0000
        + s[at + 3] as u32 * 0x100_0000
}

/// Reads a little-endian `u64` at `at`.
pub fn get_le64(s: &[u8], at: usize) -> (x: u64)
    requires
        at + 8 <= s@.len(),
    ensures
        x == le64_at(s@, at as int),
{
    let _len: usize = s.len();
    get_le32(s, at) as u64 + get_le32(s, at + 4) as u64 * 0x1_0000_0000
}

/// Reads a big-endian `u16` at `at`.
pub fn get_be16(s: &[u8], at: usize) -> (x: u16)
    requires
        at + 2 <= s@.len(),
    ensures
        x == be16_at(s@, at as int),
{
    s[at] as u16 * 0x100 + s[at + 1] as u16
}

/// Reads a big-endian `u32` at `at`.
pub fn get_be32(s: &[u8], at: usize) -> (x: u32)
    requires
        at + 4 <= s@.len(),
    ensures
        x == be32_at(s@, at as int),
{
    s[at] as u32 * 0x100_0000 + s[at + 1] as u32 * 0x1_0000 + s[at + 2] as u32 * 0x100
        + s[at + 3] as u32
}

/// Reads a big-endian `u64` at `at`.
pub fn get_be64(s: &[u8], at: usize) -> (x: u64)
    requires
        at + 8 <= s@.len(),
    ensures
        x == be64_at(s@, at as int),
{
    let _len: usize = s.len();
    get_be32(s, at) as u64 * 0x1_0000_0000 + get_be32(s, at + 4) as u64
}

/// Appends the bytes of `b`.
pub fn push_bytes(v: &mut Vec<u8>, b: &[u8])
    ensures
        final(v)@ == old(v)@ + b@,
{
    let ghost before = v@;
    let mut i: usize = 0;
    while i < b.len()
        invariant
            i <= b@.len(),
            v@ == before + b@.subrange(0, i as int),
        decreases b@.len() - i,
    {
        v.push(b[i]);
        i += 1;
        assert(b@.subrange(0, i as int) == b@.subrange(0, i - 1).push(b@[i - 1]));
    }
    assert(b@.subrange(0, i as int) == b@);
}

/// Appends `n` zero bytes.
pub fn push_zeros(v: &mut Vec<u8>, n: usize)
    ensures
        final(v)@ == old(v)@ + zeros(n as nat),
{
    let ghost before = v@;
    let mut i: usize = 0;
    while i < n
        invariant
            i <= n,
            v@ == before + zeros(i as nat),
        decreases n - i,
    {
        v.push(0);
        i += 1;
        assert(zeros(i as nat) == zeros((i - 1) as nat).push(0));
    }
}

/// Appends a little-endian `u16`.
pub fn push_le16(v: &mut Vec<u8>, x: u16)
    ensures
        final(v)@ == old(v)@ + le16(x),
{
    v.push((x % 0x100) as u8);
    v.push((x / 0x100) as u8);
}

/// Appends a little-endian `u32`.
pub fn push_le32(v: &mut Vec<u8>, x: u32)
    ensures
        final(v)@ == old(v)@ + le32(x),
{
    v.push((x % 0x100) as u8);
    v.push((x / 0x100 % 0x100) as u8);
    v.push((x / 0x1_0000 % 0x100) as u8);
    v.push((x / 0x100_0000) as u8);
}

/// Appends a little-endian `u64`.
pub fn push_le64(v: &mut Vec<u8>, x: u64)
    ensures
        final(v)@ == old(v)@ + le64(x),
{
    push_le32(v, (x % 0x1_0000_0000) as u32);
    push_le32(v, (x / 0x1_0000_0000) as u32);
}

/// Appends a big-endian `u16`.
pub fn push_be16(v: &mut Vec<u8>, x: u16)
    ensures
        final(v)@ == old(v)@ + be16(x),
{
    v.push((x / 0x100) as u8);
    v.push((x % 0x100) as u8);
}

/// Appends a big-endian `u32`.
pub fn push_be32(v: &mut Vec<u8>, x: u32)
    ensures
        final(v)@ == old(v)@ + be32(x),
{
    v.push((x / 0x100_0000) as u8);
    v.push((x / 0x1_0000 % 0x100) as u8);
    v.push((x / 0x100 % 0x100) as u8);
    v.push((x % 0x100) as u8);
}

/// Appends a big-endian `u64`.
pub fn push_be64(v: &mut Vec<u8>, x: u64)
    ensures
        final(v)@ == old(v)@ + be64(x),
{
    push_be32(v, (x / 0x1_0000_0000) as u32);
    push_be32(v, (x % 0x1_0000_0000) as u32);
}

/// Overwrites the bytes of `s` from `at` on with `b`.
pub fn put_bytes(s: &mut [u8], at: usize, b: &[u8])
    requires
        at + b@.len() <= old(s)@.len(),
    ensures
        final(s)@ == store(old(s)@, at as int, b@),
{
    let ghost before = s@;
    let len: usize = s.len();
    let mut i: usize = 0;
    while i < b.len()
        invariant
            i <= b@.len(),
            at + b@.len() <= before.len() == len,
            s@ == store(before, at as int, b@.subrange(0, i as int)),
        decreases b@.len() - i,
    {
        s[at + i] = b[i];
        i += 1;
        assert(s@ =~= store(before, at as int, b@.subrange(0, i as int)));
    }
    assert(b@.subrange(0, i as int) == b@);
}

/// Overwrites the byte of `s` at `at`.
pub fn put_u8(s: &mut [u8], at: usize, x: u8)
    requires
        at < old(s)@.len(),
    ensures
        final(s)@ == store(old(s)@, at as int, seq![x]),
{
    let ghost before = s@;
    s[at] = x;
    assert(s@ =~= store(before, at as int, seq![x]));
}

/// Overwrites two bytes of `s` at `at` with a little-endian number.
pub fn put_le16(s: &mut [u8], at: usize, x: u16)
    requires
        at + 2 <= old(s)@.len(),
    ensures
        final(s)@ == store(old(s)@, at as int, le16(x)),
{
    let mut b: Vec<u8> = Vec::new();
    push_le16(&mut b, x);
    assert(b@ =~= le16(x));
    put_bytes(s, at, b.as_slice());
}

/// Overwrites four bytes of `s` at `at` with a little-endian number.
pub fn put_le32(s: &mut [u8], at: usize, x: u32)
    requires
        at + 4 <= old(s)@.len(),
    ensures
        final(s)@ == store(old(s)@, at as int, le32(x)),
{
    let mut b: Vec<u8> = Vec::new();
    push_le32(&mut b, x);
    assert(b@ =~= le32(x));
    put_bytes(s, at, b.as_slice());
}

/// Overwrites eight bytes of `s` at `at` with a little-endian number.
pub fn put_le64(s: &mut [u8], at: usize, x: u64)
    requires
        at + 8 <= old(s)@.len(),
    ensures
        final(s)@ == store(old(s)@, at as int, le64(x)),
{
    let mut b: Vec<u8> = Vec::new();
    push_le64(&mut b, x);
    assert(b@ =~= le64(x));
    put_bytes(s, at, b.as_slice());
}

/// Bytes that were stored are found where they were stored.
pub proof fn stored_bytes_are_found(s: Seq<u8>, at: int, b: Seq<u8>)
    requires
        0 <= at,
        at + b.len() <= s.len(),
    ensures
        store(s, at, b).len() == s.len(),
        store(s, at, b).subrange(at, at + b.len()) == b,
{
    assert(store(s, at, b).subrange(at, at + b.len()) =~= b);
}

/// Bytes outside the range of a store are as they were.
pub proof fn store_keeps_other_ranges(s: Seq<u8>, at: int, b: Seq<u8>, from: int, to: int)
    requires
        0 <= from <= to <= s.len(),
        to <= at || at + b.len() <= from,
    ensures
        store(s, at, b).subrange(from, to) == s.subrange(from, to),
{
    assert(store(s, at, b).subrange(from, to) =~= s.subrange(from, to));
}

/// A stored number reads back.
pub proof fn stored_le64_reads_back(s: Seq<u8>, at: int, x: u64)
    requires
        0 <= at,
        at + 8 <= s.len(),
    ensures
        le64_at(store(s, at, le64(x)), at) == x,
{
    le_bytes_round_trip(0, 0, x);
    let t = store(s, at, le64(x));
    let b = le64(x);
    assert(t[at] == b[0] && t[at + 1] == b[1] && t[at + 2] == b[2] && t[at + 3] == b[3]);
    assert(t[at + 4] == b[4] && t[at + 5] == b[5] && t[at + 6] == b[6] && t[at + 7] == b[7]);
}

/// A number outside the range of a store is as it was.
pub proof fn store_keeps_le64(s: Seq<u8>, at: int, b: Seq<u8>, from: int)
    requires
        0 <= from,
        from + 8 <= s.len(),
        from + 8 <= at || at + b.len() <= from,
    ensures
        le64_at(store(s, at, b), from) == le64_at(s, from),
{
}

/// A copy of the bytes of `s` from `from` up to `to`.
pub fn copy_range(s: &[u8], from: usize, to: usize) -> (v: Vec<u8>)
    requires
        from <= to <= s@.len(),
    ensures
        v@ == s@.subrange(from as int, to as int),
{
    let mut v: Vec<u8> = Vec::new();
    let mut i: usize = from;
    while i < to
        invariant
            from <= i <= to <= s@.len(),
            v@ == s@.subrange(from as int, i as int),
        decreases to - i,
    {
        v.push(s[i]);
        i += 1;
    }
    v
}

/// Whether the two byte strings are the same.
pub fn bytes_equal(a: &[u8], b: &[u8]) -> (same: bool)
    ensures
        same == (a@ == b@),
{
    if a.len() != b.len() {
        return false;
    }
    let mut i: usize = 0;
    while i < a.len()
        invariant
            i <= a@.len(),
            a@.len() == b@.len(),
            forall|k: int| 0 <= k < i ==> a@[k] == b@[k],
        decreases a@.len() - i,
    {
        if a[i] != b[i] {
            return false;
        }
        i += 1;
    }
    assert(a@ =~= b@);
    true
}

/// The first bytes of a string are as many as are asked for, or all where there are
/// fewer, and each is as it was.
pub proof fn prefixes_are_cut(s: Seq<u8>, n: int, i: int)
    requires
        0 <= n,
        0 <= i < prefix(s, n).len(),
    ensures
        n <= s.len() ==> prefix(s, n).len() == n,
        n > s.len() ==> prefix(s, n).len() == s.len(),
        prefix(s, n)[i] == s[i],
{
}

/// Zeros are zero, and as many as are asked for; a store keeps the length and puts
/// each byte in its place.
pub proof fn stores_put_each_byte(s: Seq<u8>, at: int, b: Seq<u8>, i: int)
    requires
        0 <= at,
        at + b.len() <= s.len(),
        0 <= i < s.len(),
    ensures
        zeros(s.len()).len() == s.len(),
        zeros(s.len())[i] == 0,
        store(s, at, b).len() == s.len(),
        at <= i < at + b.len() ==> store(s, at, b)[i] == b[i - at],
        i < at || at + b.len() <= i ==> store(s, at, b)[i] == s[i],
{
}

/// The sum of bytes is that of each of them, one after another.
pub proof fn byte_sums_add_up(s: Seq<u8>, sums: Seq<int>)
    requires
        sums.len() == s.len() + 1,
        sums[0] == 0,
        forall|k: int| 0 <= k < s.len() ==> #[trigger] sums[k + 1] == sums[k] + s[k],
    ensures
        byte_sum(s) == sums.last(),
    decreases s.len(),
{
    if s.len() > 0 {
        let front = s.drop_last();
        let u = sums.drop_last();
        assert forall|k: int| 0 <= k < front.len() implies #[trigger] u[k + 1] == u[k]
            + front[k] by {
            assert(sums[k + 1] == sums[k] + s[k]);
        }
        byte_sums_add_up(front, u);
        let n = s.len() - 1;
        assert(sums[n + 1] == sums[n] + s[n]);
    }
}

} // verus!
