//! Byte-level helpers shared by the wire codecs: big-endian integers,
//! lowercase hex text, and facts connecting ASCII bytes to UTF-8 strings.
use vstd::prelude::*;
use vstd::utf8::{valid_utf8, decode_utf8, encode_utf8};

verus! {

/// The eight big-endian bytes of a 64-bit integer.
pub open spec fn u64_be(n: u64) -> Seq<u8> {
    Seq::new(8, |i: int| ((n >> ((56 - 8 * i) as u64)) & 0xff) as u8)
}

/// The 64-bit value read from eight big-endian bytes.
pub open spec fn be_val(s: Seq<u8>) -> u64
    recommends
        s.len() == 8,
{
    (((s[0] as u64) << 56u64) | ((s[1] as u64) << 48u64) | ((s[2] as u64) << 40u64)
        | ((s[3] as u64) << 32u64) | ((s[4] as u64) << 24u64) | ((s[5] as u64) << 16u64)
        | ((s[6] as u64) << 8u64) | (s[7] as u64)) as u64
}

/// Reading back the big-endian bytes of `n` yields `n` again.
pub proof fn lemma_u64_be_round_trip(n: u64)
    ensures
        be_val(u64_be(n)) == n,
{
    let s = u64_be(n);
    assert(((((n >> 56u64) & 0xff) as u64) << 56u64) | ((((n >> 48u64) & 0xff) as u64) << 48u64)
        | ((((n >> 40u64) & 0xff) as u64) << 40u64) | ((((n >> 32u64) & 0xff) as u64) << 32u64)
        | ((((n >> 24u64) & 0xff) as u64) << 24u64) | ((((n >> 16u64) & 0xff) as u64) << 16u64)
        | ((((n >> 8u64) & 0xff) as u64) << 8u64) | (((n >> 0u64) & 0xff) as u64) == n) by (bit_vector);
    assert(((n >> 56u64) & 0xff) < 256 && ((n >> 48u64) & 0xff) < 256 && ((n >> 40u64) & 0xff)
        < 256 && ((n >> 32u64) & 0xff) < 256 && ((n >> 24u64) & 0xff) < 256 && ((n >> 16u64)
        & 0xff) < 256 && ((n >> 8u64) & 0xff) < 256 && ((n >> 0u64) & 0xff) < 256) by (bit_vector);
    assert(s[0] as u64 == ((n >> 56u64) & 0xff));
    assert(s[1] as u64 == ((n >> 48u64) & 0xff));
    assert(s[2] as u64 == ((n >> 40u64) & 0xff));
    assert(s[3] as u64 == ((n >> 32u64) & 0xff));
    assert(s[4] as u64 == ((n >> 24u64) & 0xff));
    assert(s[5] as u64 == ((n >> 16u64) & 0xff));
    assert(s[6] as u64 == ((n >> 8u64) & 0xff));
    assert(s[7] as u64 == ((n >> 0u64) & 0xff));
}

/// Append the big-endian bytes of `n` to `out`.
pub fn push_u64_be(out: &mut Vec<u8>, n: u64)
    ensures
        final(out)@ == old(out)@ + u64_be(n),
{
    proof {
        assert(((n >> 56u64) & 0xff) < 256 && ((n >> 48u64) & 0xff) < 256 && ((n >> 40u64) & 0xff)
            < 256 && ((n >> 32u64) & 0xff) < 256 && ((n >> 24u64) & 0xff) < 256 && ((n >> 16u64)
            & 0xff) < 256 && ((n >> 8u64) & 0xff) < 256 && (n & 0xff) < 256) by (bit_vector);
    }
    out.push(((n >> 56u64) & 0xff) as u8);
    out.push(((n >> 48u64) & 0xff) as u8);
    out.push(((n >> 40u64) & 0xff) as u8);
    out.push(((n >> 32u64) & 0xff) as u8);
    out.push(((n >> 24u64) & 0xff) as u8);
    out.push(((n >> 16u64) & 0xff) as u8);
    out.push(((n >> 8u64) & 0xff) as u8);
    out.push((n & 0xff) as u8);
    proof {
        assert((n & 0xff) == ((n >> 0u64) & 0xff)) by (bit_vector);
        assert(u64_be(n)[0] == ((n >> 56u64) & 0xff) as u8);
        assert(u64_be(n)[1] == ((n >> 48u64) & 0xff) as u8);
        assert(u64_be(n)[2] == ((n >> 40u64) & 0xff) as u8);
        assert(u64_be(n)[3] == ((n >> 32u64) & 0xff) as u8);
        assert(u64_be(n)[4] == ((n >> 24u64) & 0xff) as u8);
        assert(u64_be(n)[5] == ((n >> 16u64) & 0xff) as u8);
        assert(u64_be(n)[6] == ((n >> 8u64) & 0xff) as u8);
        assert(u64_be(n)[7] == ((n >> 0u64) & 0xff) as u8);
        assert(out@ =~= old(out)@ + u64_be(n));
    }
}

/// Read the 64-bit big-endian value stored at `at`.
pub fn read_u64_be(bytes: &Vec<u8>, at: usize) -> (r: u64)
    requires
        at + 8 <= bytes@.len(),
    ensures
        r == be_val(bytes@.subrange(at as int, at as int + 8)),
{
    let l: usize = bytes.len();
    assert(at + 8 <= l);
    let s = Ghost(bytes@.subrange(at as int, at as int + 8));
    let r: u64 = ((bytes[at] as u64) << 56u64) | ((bytes[at + 1] as u64) << 48u64)
        | ((bytes[at + 2] as u64) << 40u64) | ((bytes[at + 3] as u64) << 32u64)
        | ((bytes[at + 4] as u64) << 24u64) | ((bytes[at + 5] as u64) << 16u64)
        | ((bytes[at + 6] as u64) << 8u64) | (bytes[at + 7] as u64);
    assert(s@[0] == bytes@[at as int] && s@[1] == bytes@[at as int + 1] && s@[2] == bytes@[at
        as int + 2] && s@[3] == bytes@[at as int + 3] && s@[4] == bytes@[at as int + 4] && s@[5]
        == bytes@[at as int + 5] && s@[6] == bytes@[at as int + 6] && s@[7] == bytes@[at as int
        + 7]);
    r
}

/// True when every byte is an ASCII byte.
pub open spec fn all_ascii(s: Seq<u8>) -> bool {
    forall|i: int| 0 <= i < s.len() ==> s[i] < 0x80
}

/// A sequence of ASCII bytes is valid UTF-8 and decodes to the same values,
/// character by character.
pub proof fn lemma_ascii_decode(s: Seq<u8>)
    requires
        all_ascii(s),
    ensures
        valid_utf8(s),
        decode_utf8(s) == Seq::new(s.len(), |i: int| s[i] as char),
    decreases s.len(),
{
    if s.len() == 0 {
        assert(decode_utf8(s) =~= Seq::new(s.len(), |i: int| s[i] as char));
    } else {
        let b = s[0];
        assert(b < 0x80 ==> b & 0x7f == b) by (bit_vector);
        assert(vstd::utf8::length_of_first_scalar(s) == 1);
        assert(vstd::utf8::pop_first_scalar(s) =~= s.drop_first());
        lemma_ascii_decode(s.drop_first());
        assert(vstd::utf8::decode_first_scalar(s) == b as u32);
        assert(decode_utf8(s) =~= Seq::new(s.len(), |i: int| s[i] as char));
    }
}

/// Relies on `String::from_utf8`: the call returns the string holding exactly
/// the given bytes when they are valid UTF-8, and nothing otherwise.
#[verifier::external_body]
pub(crate) fn string_from_utf8(bytes: &Vec<u8>) -> (r: Option<String>)
    ensures
        r is Some <==> valid_utf8(bytes@),
        r matches Some(s) ==> encode_utf8(s@) == bytes@,
{
    match String::from_utf8(bytes.clone()) {
        Ok(s) => Some(s),
        Err(_) => None,
    }
}

/// Append a copy of `src` to `out`.
pub fn push_all(out: &mut Vec<u8>, src: &Vec<u8>)
    ensures
        final(out)@ == old(out)@ + src@,
{
    let mut i: usize = 0;
    while i < src.len()
        invariant
            i <= src@.len(),
            out@ == old(out)@ + src@.take(i as int),
        decreases src@.len() - i,
    {
        out.push(src[i]);
        proof {
            assert(old(out)@ + src@.take(i + 1) =~= (old(out)@ + src@.take(i as int)).push(
                src@[i as int],
            ));
        }
        i += 1;
    }
    proof {
        assert(src@.take(src@.len() as int) =~= src@);
    }
}

/// A copy of `len` bytes of `v` starting at `start`.
pub fn sub_bytes(v: &Vec<u8>, start: usize, len: usize) -> (r: Vec<u8>)
    requires
        start + len <= v@.len(),
    ensures
        r@ == v@.subrange(start as int, start as int + len as int),
{
    let l: usize = v.len();
    assert(start + len <= l);
    let mut out: Vec<u8> = Vec::new();
    let mut i: usize = 0;
    while i < len
        invariant
            i <= len,
            start + len <= v@.len(),
            v@.len() <= usize::MAX,
            out@ == v@.subrange(start as int, start as int + i as int),
        decreases len - i,
    {
        out.push(v[start + i]);
        proof {
            assert(v@.subrange(start as int, start as int + i + 1) =~= v@.subrange(
                start as int,
                start as int + i as int,
            ).push(v@[start as int + i]));
        }
        i += 1;
    }
    out
}

/// A copy of a byte vector.
pub fn copy_bytes(v: &Vec<u8>) -> (r: Vec<u8>)
    ensures
        r@ == v@,
{
    let mut out: Vec<u8> = Vec::new();
    push_all(&mut out, v);
    proof {
        assert(out@ =~= v@);
    }
    out
}

/// Compare two byte vectors.
pub fn bytes_eq(a: &Vec<u8>, b: &Vec<u8>) -> (r: bool)
    ensures
        r == (a@ == b@),
{
    if a.len() != b.len() {
        assert(a@ != b@);
        return false;
    }
    let mut i: usize = 0;
    while i < a.len()
        invariant
            i <= a.len(),
            a@.len() == b@.len(),
            forall|j: int| 0 <= j < i ==> a@[j] == b@[j],
        decreases a.len() - i,
    {
        if a[i] != b[i] {
            return false;
        }
        i += 1;
    }
    assert(a@ =~= b@);
    true
}

/// The lowercase hex digit for a value below sixteen.
pub open spec fn hex_digit_byte(n: u8) -> u8
    recommends
        n < 16,
{
    if n < 10 {
        (n + 0x30) as u8
    } else {
        (n + 0x57) as u8
    }
}

/// The lowercase hex text of a byte sequence, two digits per byte.
pub open spec fn hex_bytes_of(bs: Seq<u8>) -> Seq<u8>
    decreases bs.len(),
{
    if bs.len() == 0 {
        Seq::empty()
    } else {
        seq![
            hex_digit_byte((bs[0] / 16) as u8),
            hex_digit_byte((bs[0] % 16) as u8),
        ] + hex_bytes_of(bs.drop_first())
    }
}

/// True for the bytes that lowercase hex text is made of.
pub open spec fn is_hex_lower(b: u8) -> bool {
    (0x30 <= b <= 0x39) || (0x61 <= b <= 0x66)
}

/// The value of one lowercase hex digit.
pub open spec fn hex_val(b: u8) -> u8
    recommends
        is_hex_lower(b),
{
    if b <= 0x39 {
        (b - 0x30) as u8
    } else {
        (b - 0x57) as u8
    }
}

/// Hex text distributes over concatenation.
pub proof fn lemma_hex_bytes_concat(a: Seq<u8>, b: Seq<u8>)
    ensures
        hex_bytes_of(a + b) == hex_bytes_of(a) + hex_bytes_of(b),
    decreases a.len(),
{
    if a.len() == 0 {
        assert(a + b =~= b);
        assert(hex_bytes_of(a) + hex_bytes_of(b) =~= hex_bytes_of(b));
    } else {
        assert((a + b).drop_first() =~= a.drop_first() + b);
        lemma_hex_bytes_concat(a.drop_first(), b);
        assert(hex_bytes_of(a + b) =~= hex_bytes_of(a) + hex_bytes_of(b));
    }
}

/// Hex text is twice as long as its source, each digit a lowercase hex byte
/// (hence ASCII), and the digit pair at position `i` spells byte `i`.
pub proof fn lemma_hex_bytes_shape(bs: Seq<u8>)
    ensures
        hex_bytes_of(bs).len() == 2 * bs.len(),
        forall|i: int|
            0 <= i < bs.len() ==> hex_bytes_of(bs)[2 * i] == hex_digit_byte((bs[i] / 16) as u8)
                && hex_bytes_of(bs)[2 * i + 1] == hex_digit_byte((bs[i] % 16) as u8),
        all_ascii(hex_bytes_of(bs)),
        forall|i: int| 0 <= i < hex_bytes_of(bs).len() ==> is_hex_lower(hex_bytes_of(bs)[i]),
    decreases bs.len(),
{
    if bs.len() != 0 {
        lemma_hex_bytes_shape(bs.drop_first());
        assert(forall|i: int|
            0 <= i < bs.len() ==> hex_bytes_of(bs)[2 * i] == hex_digit_byte((bs[i] / 16) as u8)
                && hex_bytes_of(bs)[2 * i + 1] == hex_digit_byte((bs[i] % 16) as u8)) by {
            assert(forall|i: int|
                1 <= i < bs.len() ==> bs[i] == bs.drop_first()[i - 1] && hex_bytes_of(bs)[2 * i]
                    == hex_bytes_of(bs.drop_first())[2 * (i - 1)] && hex_bytes_of(bs)[2 * i + 1]
                    == hex_bytes_of(bs.drop_first())[2 * (i - 1) + 1]);
        }
    }
}

/// Two byte sequences with the same hex text are the same.
pub proof fn lemma_hex_bytes_injective(a: Seq<u8>, b: Seq<u8>)
    requires
        hex_bytes_of(a) == hex_bytes_of(b),
    ensures
        a == b,
{
    lemma_hex_bytes_shape(a);
    lemma_hex_bytes_shape(b);
    assert forall|i: int| 0 <= i < a.len() implies a[i] == b[i] by {
        let x = a[i];
        let y = b[i];
        assert(hex_digit_byte((x / 16) as u8) == hex_digit_byte((y / 16) as u8));
        assert(hex_digit_byte((x % 16) as u8) == hex_digit_byte((y % 16) as u8));
    }
    assert(a =~= b);
}

/// The lowercase hex text of a byte vector.
pub fn hex_encode_bytes(bs: &Vec<u8>) -> (r: Vec<u8>)
    ensures
        r@ == hex_bytes_of(bs@),
{
    let mut out: Vec<u8> = Vec::new();
    let mut i: usize = 0;
    while i < bs.len()
        invariant
            i <= bs.len(),
            out@ == hex_bytes_of(bs@.take(i as int)),
        decreases bs.len() - i,
    {
        let b = bs[i];
        let hi = b / 16;
        let lo = b % 16;
        let hi_d = if hi < 10 { hi + 0x30 } else { hi + 0x57 };
        let lo_d = if lo < 10 { lo + 0x30 } else { lo + 0x57 };
        out.push(hi_d);
        out.push(lo_d);
        proof {
            assert(bs@.take(i + 1).drop_last() =~= bs@.take(i as int));
            lemma_hex_bytes_concat(bs@.take(i as int), seq![b]);
            assert(bs@.take(i + 1) =~= bs@.take(i as int) + seq![b]);
            assert(seq![b].drop_first() =~= Seq::<u8>::empty());
            assert(hex_bytes_of(Seq::<u8>::empty()) =~= Seq::<u8>::empty());
            assert(hex_bytes_of(seq![b]) =~= seq![
                hex_digit_byte((b / 16) as u8),
                hex_digit_byte((b % 16) as u8),
            ]);
            assert(out@ =~= hex_bytes_of(bs@.take(i + 1)));
        }
        i += 1;
    }
    proof {
        assert(bs@.take(bs@.len() as int) =~= bs@);
    }
    out
}

/// Parse lowercase hex text back into bytes. Succeeds exactly on text of even
/// length made of lowercase hex digits.
pub fn hex_decode_bytes(bs: &Vec<u8>) -> (r: Option<Vec<u8>>)
    ensures
        r is Some <==> (bs@.len() % 2 == 0 && forall|i: int|
            0 <= i < bs@.len() ==> is_hex_lower(bs@[i])),
        r matches Some(v) ==> hex_bytes_of(v@) == bs@ && v@.len() * 2 == bs@.len(),
{
    if bs.len() % 2 != 0 {
        return None;
    }
    let mut out: Vec<u8> = Vec::new();
    let mut i: usize = 0;
    while i < bs.len()
        invariant
            i <= bs.len(),
            i % 2 == 0,
            bs.len() % 2 == 0,
            hex_bytes_of(out@) == bs@.take(i as int),
            out@.len() * 2 == i,
            forall|j: int| 0 <= j < i ==> is_hex_lower(bs@[j]),
        decreases bs.len() - i,
    {
        let hi = bs[i];
        let lo = bs[i + 1];
        let hi_ok = (0x30 <= hi && hi <= 0x39) || (0x61 <= hi && hi <= 0x66);
        let lo_ok = (0x30 <= lo && lo <= 0x39) || (0x61 <= lo && lo <= 0x66);
        if !hi_ok || !lo_ok {
            return None;
        }
        let hi_v = if hi <= 0x39 { hi - 0x30 } else { hi - 0x57 };
        let lo_v = if lo <= 0x39 { lo - 0x30 } else { lo - 0x57 };
        let b = hi_v * 16 + lo_v;
        let ghost prev = out@;
        out.push(b);
        proof {
            lemma_hex_bytes_concat(prev, seq![b]);
            assert(out@ =~= prev + seq![b]);
            assert((b / 16) as u8 == hi_v && (b % 16) as u8 == lo_v);
            assert(hex_digit_byte(hi_v) == hi && hex_digit_byte(lo_v) == lo);
            assert(seq![b].drop_first() =~= Seq::<u8>::empty());
            assert(hex_bytes_of(Seq::<u8>::empty()) =~= Seq::<u8>::empty());
            assert(hex_bytes_of(seq![b]) =~= seq![hi, lo]);
            assert(bs@.take(i + 2) =~= bs@.take(i as int) + seq![hi, lo]);
            assert(hex_bytes_of(out@) =~= bs@.take(i + 2));
        }
        i += 2;
    }
    proof {
        assert(bs@.take(bs@.len() as int) =~= bs@);
    }
    Some(out)
}

} // verus!
