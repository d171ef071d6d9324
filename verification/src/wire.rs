//! Byte-level building blocks shared by the management payload codecs:
//! the codec error, big-endian integer images, and in-place buffer writes.
use vstd::prelude::*;

verus! {

/// Errors surfaced by the management payload encoders and decoders.
#[derive(Clone, Copy, Debug, PartialEq, Eq)]
pub enum CodecError {
    /// The buffer or input is shorter than the payload needs.
    Truncated,
    /// The input is malformed; the text names what was wrong.
    Invalid(&'static str),
}

/// `s` with the bytes starting at `at` replaced by `b`.
pub open spec fn splice(s: Seq<u8>, at: int, b: Seq<u8>) -> Seq<u8> {
    s.take(at) + b + s.skip(at + b.len())
}

/// Big-endian image of a `u16`.
pub open spec fn be_u16(v: u16) -> Seq<u8> {
    seq![(v >> 8) as u8, (v & 0xff) as u8]
}

/// Big-endian image of a `u32`.
pub open spec fn be_u32(v: u32) -> Seq<u8> {
    seq![(v >> 24) as u8, ((v >> 16) & 0xff) as u8, ((v >> 8) & 0xff) as u8, (v & 0xff) as u8]
}

/// The `u16` whose big-endian image is `a, b`.
pub open spec fn u16_of(a: u8, b: u8) -> u16 {
    ((a as u16) << 8) | (b as u16)
}

/// The `u32` whose big-endian image is `a, b, c, d`.
pub open spec fn u32_of(a: u8, b: u8, c: u8, d: u8) -> u32 {
    ((a as u32) << 24) | ((b as u32) << 16) | ((c as u32) << 8) | (d as u32)
}

/// The `u16` read big-endian from `s` at `at`.
pub open spec fn be_u16_at(s: Seq<u8>, at: int) -> u16 {
    u16_of(s[at], s[at + 1])
}

/// The `u32` read big-endian from `s` at `at`.
pub open spec fn be_u32_at(s: Seq<u8>, at: int) -> u32 {
    u32_of(s[at], s[at + 1], s[at + 2], s[at + 3])
}

/// Outcome of checking that an input of length `actual` has exactly
/// `expected` bytes: short inputs are truncated, long ones carry `trailing`.
pub open spec fn exact_len(actual: int, expected: int, trailing: &'static str) -> Result<(), CodecError> {
    if actual < expected {
        Err(CodecError::Truncated)
    } else if actual != expected {
        Err(CodecError::Invalid(trailing))
    } else {
        Ok(())
    }
}

/// Reading back the big-endian image of a `u16` gives the value.
pub proof fn lemma_u16_roundtrip(v: u16)
    ensures
        u16_of(be_u16(v)[0], be_u16(v)[1]) == v,
{
    let a = (v >> 8) as u8;
    let b = (v & 0xff) as u8;
    assert(((a as u16) << 8) | (b as u16) == v) by (bit_vector)
        requires
            a == (v >> 8) as u8,
            b == (v & 0xff) as u8,
    ;
}

/// Reading back the big-endian image of a `u32` gives the value.
pub proof fn lemma_u32_roundtrip(v: u32)
    ensures
        u32_of(be_u32(v)[0], be_u32(v)[1], be_u32(v)[2], be_u32(v)[3]) == v,
{
    let a = (v >> 24) as u8;
    let b = ((v >> 16) & 0xff) as u8;
    let c = ((v >> 8) & 0xff) as u8;
    let d = (v & 0xff) as u8;
    assert(((a as u32) << 24) | ((b as u32) << 16) | ((c as u32) << 8) | (d as u32) == v)
        by (bit_vector)
        requires
            a == (v >> 24) as u8,
            b == ((v >> 16) & 0xff) as u8,
            c == ((v >> 8) & 0xff) as u8,
            d == (v & 0xff) as u8,
    ;
}

/// The big-endian image of the `u16` read from two bytes is those bytes.
pub proof fn lemma_u16_image(a: u8, b: u8)
    ensures
        be_u16(u16_of(a, b)) == seq![a, b],
{
    let v = u16_of(a, b);
    assert((v >> 8) as u8 == a && (v & 0xff) as u8 == b) by (bit_vector)
        requires
            v == ((a as u16) << 8) | (b as u16),
    ;
    assert(be_u16(v) =~= seq![a, b]);
}

/// The big-endian image of the `u32` read from four bytes is those bytes.
pub proof fn lemma_u32_image(a: u8, b: u8, c: u8, d: u8)
    ensures
        be_u32(u32_of(a, b, c, d)) == seq![a, b, c, d],
{
    let v = u32_of(a, b, c, d);
    assert((v >> 24) as u8 == a && ((v >> 16) & 0xff) as u8 == b && ((v >> 8) & 0xff) as u8 == c
        && (v & 0xff) as u8 == d) by (bit_vector)
        requires
            v == ((a as u32) << 24) | ((b as u32) << 16) | ((c as u32) << 8) | (d as u32),
    ;
    assert(be_u32(v) =~= seq![a, b, c, d]);
}

/// A `u32` image placed after `pre` reads back as the value.
pub proof fn lemma_read_u32_in(pre: Seq<u8>, v: u32, post: Seq<u8>)
    ensures
        be_u32_at(pre + be_u32(v) + post, pre.len() as int) == v,
{
    let s = pre + be_u32(v) + post;
    let n = pre.len() as int;
    assert(s[n] == be_u32(v)[0] && s[n + 1] == be_u32(v)[1] && s[n + 2] == be_u32(v)[2] && s[n
        + 3] == be_u32(v)[3]);
    lemma_u32_roundtrip(v);
}

/// A `u16` image placed after `pre` reads back as the value.
pub proof fn lemma_read_u16_in(pre: Seq<u8>, v: u16, post: Seq<u8>)
    ensures
        be_u16_at(pre + be_u16(v) + post, pre.len() as int) == v,
{
    let s = pre + be_u16(v) + post;
    let n = pre.len() as int;
    assert(s[n] == be_u16(v)[0] && s[n + 1] == be_u16(v)[1]);
    lemma_u16_roundtrip(v);
}

/// A window holding the image of `v` reads back as `v`.
pub proof fn lemma_u32_from_window(s: Seq<u8>, at: int, v: u32)
    requires
        0 <= at,
        at + 4 <= s.len(),
        s.subrange(at, at + 4) == be_u32(v),
    ensures
        be_u32_at(s, at) == v,
{
    lemma_read_u32_in(s.take(at), v, s.skip(at + 4));
    assert(s.take(at) + be_u32(v) + s.skip(at + 4) =~= s);
}

/// A window holding the image of `v` reads back as `v`.
pub proof fn lemma_u16_from_window(s: Seq<u8>, at: int, v: u16)
    requires
        0 <= at,
        at + 2 <= s.len(),
        s.subrange(at, at + 2) == be_u16(v),
    ensures
        be_u16_at(s, at) == v,
{
    lemma_read_u16_in(s.take(at), v, s.skip(at + 2));
    assert(s.take(at) + be_u16(v) + s.skip(at + 2) =~= s);
}

/// The image of the `u32` read at `at` is the four bytes there.
pub proof fn lemma_u32_image_at(s: Seq<u8>, at: int)
    requires
        0 <= at,
        at + 4 <= s.len(),
    ensures
        be_u32(be_u32_at(s, at)) == s.subrange(at, at + 4),
{
    lemma_u32_image(s[at], s[at + 1], s[at + 2], s[at + 3]);
    assert(s.subrange(at, at + 4) =~= seq![s[at], s[at + 1], s[at + 2], s[at + 3]]);
}

/// The image of the `u16` read at `at` is the two bytes there.
pub proof fn lemma_u16_image_at(s: Seq<u8>, at: int)
    requires
        0 <= at,
        at + 2 <= s.len(),
    ensures
        be_u16(be_u16_at(s, at)) == s.subrange(at, at + 2),
{
    lemma_u16_image(s[at], s[at + 1]);
    assert(s.subrange(at, at + 2) =~= seq![s[at], s[at + 1]]);
}

/// What an encoder that writes `image` at the front of a buffer leaves
/// behind: a buffer shorter than the image is untouched and reported as
/// truncated; otherwise the image replaces the front and its length is
/// returned.
pub open spec fn encode_outcome(
    image: Seq<u8>,
    before: Seq<u8>,
    after: Seq<u8>,
    r: Result<usize, CodecError>,
) -> bool {
    if before.len() < image.len() {
        r == Err::<usize, CodecError>(CodecError::Truncated) && after == before
    } else {
        r == Ok::<usize, CodecError>(image.len() as usize) && after == splice(before, 0, image)
    }
}

/// Splicing in nothing leaves a sequence unchanged.
pub proof fn lemma_splice_empty(s: Seq<u8>, at: int)
    requires
        0 <= at <= s.len(),
    ensures
        splice(s, at, Seq::<u8>::empty()) == s,
{
    assert(splice(s, at, Seq::<u8>::empty()) =~= s);
}

/// Two splices side by side are one splice of the concatenation.
pub proof fn lemma_splice_concat(s: Seq<u8>, at: int, a: Seq<u8>, b: Seq<u8>)
    requires
        0 <= at,
        at + a.len() + b.len() <= s.len(),
    ensures
        splice(splice(s, at, a), at + a.len(), b) == splice(s, at, a + b),
{
    assert(splice(splice(s, at, a), at + a.len(), b) =~= splice(s, at, a + b));
}

/// Checks that an input of length `actual` has exactly `expected` bytes.
pub fn require_exact_len(actual: usize, expected: usize, trailing: &'static str) -> (r: Result<
    (),
    CodecError,
>)
    ensures
        r == exact_len(actual as int, expected as int, trailing),
{
    if actual < expected {
        return Err(CodecError::Truncated);
    }
    if actual != expected {
        return Err(CodecError::Invalid(trailing));
    }
    Ok(())
}

/// Writes one byte at `at`.
pub fn put_u8(out: &mut [u8], at: usize, v: u8)
    requires
        at + 1 <= old(out)@.len(),
    ensures
        final(out)@ == splice(old(out)@, at as int, seq![v]),
{
    out[at] = v;
    assert(out@ =~= splice(old(out)@, at as int, seq![v]));
}

/// Writes the big-endian image of `v` at `at`.
pub fn put_u16(out: &mut [u8], at: usize, v: u16)
    requires
        at + 2 <= old(out)@.len(),
    ensures
        final(out)@ == splice(old(out)@, at as int, be_u16(v)),
{
    out[at] = (v >> 8) as u8;
    out[at + 1] = (v & 0xff) as u8;
    assert(out@ =~= splice(old(out)@, at as int, be_u16(v)));
}

/// Writes the big-endian image of `v` at `at`.
pub fn put_u32(out: &mut [u8], at: usize, v: u32)
    requires
        at + 4 <= old(out)@.len(),
    ensures
        final(out)@ == splice(old(out)@, at as int, be_u32(v)),
{
    out[at] = (v >> 24) as u8;
    out[at + 1] = ((v >> 16) & 0xff) as u8;
    out[at + 2] = ((v >> 8) & 0xff) as u8;
    out[at + 3] = (v & 0xff) as u8;
    assert(out@ =~= splice(old(out)@, at as int, be_u32(v)));
}

/// Reads a big-endian `u16` at `at`.
pub fn get_u16(s: &[u8], at: usize) -> (r: u16)
    requires
        at + 2 <= s@.len(),
    ensures
        r == be_u16_at(s@, at as int),
{
    ((s[at] as u16) << 8) | (s[at + 1] as u16)
}

/// Reads a big-endian `u32` at `at`.
pub fn get_u32(s: &[u8], at: usize) -> (r: u32)
    requires
        at + 4 <= s@.len(),
    ensures
        r == be_u32_at(s@, at as int),
{
    ((s[at] as u32) << 24) | ((s[at + 1] as u32) << 16) | ((s[at + 2] as u32) << 8) | (s[at
        + 3] as u32)
}

/// Little-endian image of a `u16`.
pub open spec fn le_u16(v: u16) -> Seq<u8> {
    seq![(v & 0xff) as u8, (v >> 8) as u8]
}

/// Little-endian image of a `u32`.
pub open spec fn le_u32(v: u32) -> Seq<u8> {
    seq![(v & 0xff) as u8, ((v >> 8) & 0xff) as u8, ((v >> 16) & 0xff) as u8, (v >> 24) as u8]
}

/// Little-endian image of a `u64`: the low word, then the high word.
pub open spec fn le_u64(v: u64) -> Seq<u8> {
    le_u32((v & 0xffff_ffff) as u32) + le_u32((v >> 32) as u32)
}

/// The `u16` read little-endian from `s` at `at`.
pub open spec fn le_u16_at(s: Seq<u8>, at: int) -> u16 {
    u16_of(s[at + 1], s[at])
}

/// The `u32` read little-endian from `s` at `at`.
pub open spec fn le_u32_at(s: Seq<u8>, at: int) -> u32 {
    u32_of(s[at + 3], s[at + 2], s[at + 1], s[at])
}

/// The `u64` read little-endian from `s` at `at`.
pub open spec fn le_u64_at(s: Seq<u8>, at: int) -> u64 {
    ((le_u32_at(s, at + 4) as u64) << 32) | (le_u32_at(s, at) as u64)
}

/// Reading back the little-endian image of a `u16` gives the value.
pub proof fn lemma_le_u16_roundtrip(v: u16)
    ensures
        le_u16_at(le_u16(v), 0) == v,
{
    lemma_u16_roundtrip(v);
}

/// Reading back the little-endian image of a `u32` gives the value.
pub proof fn lemma_le_u32_roundtrip(v: u32)
    ensures
        le_u32_at(le_u32(v), 0) == v,
{
    lemma_u32_roundtrip(v);
}

/// Reading back the little-endian image of a `u64` gives the value.
pub proof fn lemma_le_u64_roundtrip(v: u64)
    ensures
        le_u64_at(le_u64(v), 0) == v,
{
    let lo = (v & 0xffff_ffff) as u32;
    let hi = (v >> 32) as u32;
    let s = le_u64(v);
    lemma_u32_roundtrip(lo);
    lemma_u32_roundtrip(hi);
    assert(le_u32_at(s, 0) == lo);
    assert(le_u32_at(s, 4) == hi);
    assert((((v >> 32) as u32 as u64) << 32) | ((v & 0xffff_ffff) as u32 as u64) == v)
        by (bit_vector);
}

/// Writes the little-endian image of `v` at `at`.
pub fn put_u16_le(out: &mut [u8], at: usize, v: u16)
    requires
        at + 2 <= old(out)@.len(),
    ensures
        final(out)@ == splice(old(out)@, at as int, le_u16(v)),
{
    out[at] = (v & 0xff) as u8;
    out[at + 1] = (v >> 8) as u8;
    assert(out@ =~= splice(old(out)@, at as int, le_u16(v)));
}

/// Writes the little-endian image of `v` at `at`.
pub fn put_u32_le(out: &mut [u8], at: usize, v: u32)
    requires
        at + 4 <= old(out)@.len(),
    ensures
        final(out)@ == splice(old(out)@, at as int, le_u32(v)),
{
    out[at] = (v & 0xff) as u8;
    out[at + 1] = ((v >> 8) & 0xff) as u8;
    out[at + 2] = ((v >> 16) & 0xff) as u8;
    out[at + 3] = (v >> 24) as u8;
    assert(out@ =~= splice(old(out)@, at as int, le_u32(v)));
}

/// Writes the little-endian image of `v` at `at`.
pub fn put_u64_le(out: &mut [u8], at: usize, v: u64)
    requires
        at + 8 <= old(out)@.len(),
    ensures
        final(out)@ == splice(old(out)@, at as int, le_u64(v)),
{
    let n = out.len();
    assert(at + 8 <= n);
    let ghost s0 = out@;
    put_u32_le(out, at, (v & 0xffff_ffff) as u32);
    put_u32_le(out, at + 4, (v >> 32) as u32);
    proof {
        lemma_splice_concat(s0, at as int, le_u32((v & 0xffff_ffff) as u32), le_u32((v >> 32) as u32));
    }
}

/// Reads a little-endian `u16` at `at`.
pub fn get_u16_le(s: &[u8], at: usize) -> (r: u16)
    requires
        at + 2 <= s@.len(),
    ensures
        r == le_u16_at(s@, at as int),
{
    let n = s.len();
    assert(at + 2 <= n);
    ((s[at + 1] as u16) << 8) | (s[at] as u16)
}

/// Reads a little-endian `u32` at `at`.
pub fn get_u32_le(s: &[u8], at: usize) -> (r: u32)
    requires
        at + 4 <= s@.len(),
    ensures
        r == le_u32_at(s@, at as int),
{
    let n = s.len();
    assert(at + 4 <= n);
    ((s[at + 3] as u32) << 24) | ((s[at + 2] as u32) << 16) | ((s[at + 1] as u32) << 8) | (s[at] as u32)
}

/// Reads a little-endian `u64` at `at`.
pub fn get_u64_le(s: &[u8], at: usize) -> (r: u64)
    requires
        at + 8 <= s@.len(),
    ensures
        r == le_u64_at(s@, at as int),
{
    let n = s.len();
    assert(at + 8 <= n);
    let lo = get_u32_le(s, at);
    let hi = get_u32_le(s, at + 4);
    ((hi as u64) << 32) | (lo as u64)
}

/// The big-endian image of a `u32` is its base-256 digits, most significant
/// first.
pub proof fn lemma_be_u32_digits(v: u32)
    ensures
        be_u32(v) == seq![
            (v / 0x100_0000) as u8,
            ((v / 0x1_0000) % 0x100) as u8,
            ((v / 0x100) % 0x100) as u8,
            (v % 0x100) as u8,
        ],
{
    assert((v >> 24) as u8 == (v / 0x100_0000) as u8 && ((v >> 16) & 0xff) as u8 == ((v
        / 0x1_0000) % 0x100) as u8 && ((v >> 8) & 0xff) as u8 == ((v / 0x100) % 0x100) as u8 && (v
        & 0xff) as u8 == (v % 0x100) as u8) by (bit_vector);
    assert(be_u32(v) =~= seq![
        (v / 0x100_0000) as u8,
        ((v / 0x1_0000) % 0x100) as u8,
        ((v / 0x100) % 0x100) as u8,
        (v % 0x100) as u8,
    ]);
}

/// The big-endian image of a `u16` is its base-256 digits, most significant
/// first.
pub proof fn lemma_be_u16_digits(v: u16)
    ensures
        be_u16(v) == seq![(v / 0x100) as u8, (v % 0x100) as u8],
{
    assert((v >> 8) as u8 == (v / 0x100) as u8 && (v & 0xff) as u8 == (v % 0x100) as u8)
        by (bit_vector);
    assert(be_u16(v) =~= seq![(v / 0x100) as u8, (v % 0x100) as u8]);
}

/// A big-endian `u32` read from four bytes is their base-256 value, most
/// significant byte first.
pub proof fn lemma_be_u32_value(s: Seq<u8>, at: int)
    requires
        0 <= at,
        at + 4 <= s.len(),
    ensures
        be_u32_at(s, at) as int == s[at] * 0x100_0000 + s[at + 1] * 0x1_0000 + s[at + 2] * 0x100
            + s[at + 3],
{
    let a = s[at];
    let b = s[at + 1];
    let c = s[at + 2];
    let d = s[at + 3];
    assert((((a as u32) << 24) | ((b as u32) << 16) | ((c as u32) << 8) | (d as u32)) as int == a
        * 0x100_0000 + b * 0x1_0000 + c * 0x100 + d) by (bit_vector);
}

/// A big-endian `u16` read from two bytes is their base-256 value, most
/// significant byte first.
pub proof fn lemma_be_u16_value(s: Seq<u8>, at: int)
    requires
        0 <= at,
        at + 2 <= s.len(),
    ensures
        be_u16_at(s, at) as int == s[at] * 0x100 + s[at + 1],
{
    let a = s[at];
    let b = s[at + 1];
    assert((((a as u16) << 8) | (b as u16)) as int == a * 0x100 + b) by (bit_vector);
}

/// A little-endian `u16` read from two bytes is their base-256 value, least
/// significant byte first.
pub proof fn lemma_le_u16_value(s: Seq<u8>, at: int)
    requires
        0 <= at,
        at + 2 <= s.len(),
    ensures
        le_u16_at(s, at) as int == s[at] + s[at + 1] * 0x100,
{
    let a = s[at];
    let b = s[at + 1];
    assert((((b as u16) << 8) | (a as u16)) as int == a + b * 0x100) by (bit_vector);
}

/// A little-endian `u32` read from four bytes is their base-256 value, least
/// significant byte first.
pub proof fn lemma_le_u32_value(s: Seq<u8>, at: int)
    requires
        0 <= at,
        at + 4 <= s.len(),
    ensures
        le_u32_at(s, at) as int == s[at] + s[at + 1] * 0x100 + s[at + 2] * 0x1_0000 + s[at + 3]
            * 0x100_0000,
{
    let a = s[at];
    let b = s[at + 1];
    let c = s[at + 2];
    let d = s[at + 3];
    assert((((d as u32) << 24) | ((c as u32) << 16) | ((b as u32) << 8) | (a as u32)) as int == a
        + b * 0x100 + c * 0x1_0000 + d * 0x100_0000) by (bit_vector);
}

/// A little-endian `u64` read from eight bytes is their base-256 value,
/// least significant byte first.
pub proof fn lemma_le_u64_value(s: Seq<u8>, at: int)
    requires
        0 <= at,
        at + 8 <= s.len(),
    ensures
        le_u64_at(s, at) as int == le_u32_at(s, at) + le_u32_at(s, at + 4) * 0x1_0000_0000,
        le_u64_at(s, at) as int == s[at] + s[at + 1] * 0x100 + s[at + 2] * 0x1_0000 + s[at + 3]
            * 0x100_0000 + s[at + 4] * 0x1_0000_0000 + s[at + 5] * 0x100_0000_0000 + s[at + 6]
            * 0x1_0000_0000_0000 + s[at + 7] * 0x100_0000_0000_0000,
{
    let lo = le_u32_at(s, at);
    let hi = le_u32_at(s, at + 4);
    assert((((hi as u64) << 32) | (lo as u64)) as int == lo + hi * 0x1_0000_0000) by (bit_vector);
    lemma_le_u32_value(s, at);
    lemma_le_u32_value(s, at + 4);
}

} // verus!
