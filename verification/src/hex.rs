//! Hexadecimal text of byte strings, Ethereum addresses read from hex text,
//! and Keccak-256 digests.
use vstd::prelude::*;
use crate::text::{all_ascii, ascii_lowercase, push_char};

verus! {

/// The lowercase hex digit for `d < 16`.
pub open spec fn hex_digit(d: int) -> char {
    if d < 10 {
        (48 + d) as char
    } else {
        (87 + d) as char
    }
}

/// The lowercase hex text of `bytes`, two digits per byte, without prefix.
pub open spec fn hex_of(bytes: Seq<u8>) -> Seq<char> {
    Seq::new(
        2 * bytes.len(),
        |i: int|
            if i % 2 == 0 {
                hex_digit(bytes[i / 2] as int / 16)
            } else {
                hex_digit(bytes[i / 2] as int % 16)
            },
    )
}

/// The value of the hex digit `c` (either case), if it is one.
pub open spec fn hex_value(c: char) -> Option<int> {
    let u = c as u32;
    if 48 <= u <= 57 {
        Some(u - 48)
    } else if 97 <= u <= 102 {
        Some(u - 87)
    } else if 65 <= u <= 70 {
        Some(u - 55)
    } else {
        None
    }
}

pub open spec fn all_hex(s: Seq<char>) -> bool {
    forall|i: int| 0 <= i < s.len() ==> (#[trigger] hex_value(s[i])) is Some
}

/// `s` without one leading `"0x"`.
pub open spec fn strip_hex_prefix(s: Seq<char>) -> Seq<char> {
    if s.len() >= 2 && s[0] == '0' && s[1] == 'x' {
        s.skip(2)
    } else {
        s
    }
}

/// The bytes that the hex digit pairs of `s` spell.
pub open spec fn hex_decode(s: Seq<char>) -> Seq<u8> {
    Seq::new(
        s.len() / 2,
        |i: int| (16 * hex_value(s[2 * i])->0 + hex_value(s[2 * i + 1])->0) as u8,
    )
}

/// The 20-byte address that `s` spells: an optional `"0x"` followed by
/// exactly 40 hex digits of either case.
pub open spec fn address_from_text(s: Seq<char>) -> Option<Seq<u8>> {
    let d = strip_hex_prefix(s);
    if d.len() == 40 && all_hex(d) {
        Some(hex_decode(d))
    } else {
        None
    }
}

/// The Keccak-256 digest of `data`, as `alloy::primitives::keccak256`
/// computes it.
pub uninterp spec fn keccak256_digest(data: Seq<u8>) -> Seq<u8>;

/// The lowercase hex digit for `d`.
fn hex_digit_char(d: u8) -> (c: char)
    requires
        d < 16,
    ensures
        c == hex_digit(d as int),
{
    if d < 10 {
        (48u8 + d) as char
    } else {
        (87u8 + d) as char
    }
}

/// The lowercase hex text of `bytes`, without prefix.
pub fn vec_to_hex(bytes: &[u8]) -> (r: String)
    ensures
        r@ == hex_of(bytes@),
{
    let mut r = String::new();
    let mut i: usize = 0;
    while i < bytes.len()
        invariant
            i <= bytes@.len(),
            r@ == hex_of(bytes@.take(i as int)),
        decreases bytes@.len() - i,
    {
        let b = bytes[i];
        push_char(&mut r, hex_digit_char(b / 16));
        push_char(&mut r, hex_digit_char(b % 16));
        proof {
            let t = bytes@.take(i + 1);
            assert(t[i as int] == b);
            assert forall|k: int| 0 <= k < 2 * i implies #[trigger] hex_of(t)[k] == hex_of(
                bytes@.take(i as int),
            )[k] by {
                assert(t[k / 2] == bytes@.take(i as int)[k / 2]);
            }
            assert(r@ =~= hex_of(t));
        }
        i = i + 1;
    }
    proof {
        assert(bytes@.take(bytes@.len() as int) =~= bytes@);
    }
    r
}

/// Whether `a` and `b` hold the same bytes.
pub fn same_bytes(a: &[u8], b: &[u8]) -> (r: bool)
    ensures
        r == (a@ == b@),
{
    if a.len() != b.len() {
        return false;
    }
    let mut i: usize = 0;
    while i < a.len()
        invariant
            a@.len() == b@.len(),
            i <= a@.len(),
            forall|k: int| 0 <= k < i ==> a@[k] == b@[k],
        decreases a@.len() - i,
    {
        if a[i] != b[i] {
            return false;
        }
        i = i + 1;
    }
    assert(a@ =~= b@);
    true
}

/// Reads `text` as an address with `alloy`'s `Address::from_str`: `Some`
/// exactly when the text is an optional `"0x"` and then 40 hex digits of
/// either case, holding the bytes they spell.
#[verifier::external_body]
pub(crate) fn parse_address(text: &str) -> (r: Option<[u8; 20]>)
    ensures
        r is Some <==> address_from_text(text@) is Some,
        r matches Some(a) ==> a@ == address_from_text(text@)->0,
{
    text.parse::<alloy::primitives::Address>().ok().map(|a| a.0 .0)
}

/// The Keccak-256 digest of `data`, computed by
/// `alloy::primitives::keccak256`.
#[verifier::external_body]
pub(crate) fn keccak256(data: &[u8]) -> (r: [u8; 32])
    ensures
        r@ == keccak256_digest(data@),
{
    alloy::primitives::keccak256(data).0
}

proof fn lemma_hex_digit_value(d: int)
    requires
        0 <= d < 16,
    ensures
        hex_value(hex_digit(d)) == Some(d),
        hex_digit(d) != 'x',
{
}

/// Law: the hex text of any 20 bytes reads back, as an address, as those
/// bytes.
pub proof fn law_address_hex_round_trip(bytes: Seq<u8>)
    requires
        bytes.len() == 20,
    ensures
        address_from_text(hex_of(bytes)) == Some(bytes),
{
    let s = hex_of(bytes);
    assert forall|i: int| 0 <= i < s.len() implies (#[trigger] hex_value(s[i])) is Some by {
        lemma_hex_digit_value(bytes[i / 2] as int / 16);
        lemma_hex_digit_value(bytes[i / 2] as int % 16);
    }
    lemma_hex_digit_value(bytes[0] as int % 16);
    assert(strip_hex_prefix(s) == s);
    assert forall|i: int| 0 <= i < 20 implies #[trigger] hex_decode(s)[i] == bytes[i] by {
        assert((2 * i) % 2 == 0);
        assert((2 * i + 1) % 2 == 1);
        assert((2 * i) / 2 == i);
        assert((2 * i + 1) / 2 == i);
        lemma_hex_digit_value(bytes[i] as int / 16);
        lemma_hex_digit_value(bytes[i] as int % 16);
        assert(16 * (bytes[i] as int / 16) + bytes[i] as int % 16 == bytes[i]);
    }
    assert(hex_decode(s) =~= bytes);
}

proof fn lemma_hex_char_lower(c: char)
    requires
        hex_value(c) is Some,
    ensures
        (c as u32) < 128,
        hex_digit(hex_value(c)->0) == (if 65 <= (c as u32) <= 90 {
            ((c as u32) + 32) as char
        } else {
            c
        }),
        0 <= hex_value(c)->0 < 16,
{
    let u = c as u32;
    assert((u as char) == c);
}

/// Hex text of either case, lowercased, is the canonical hex text of the
/// bytes it spells.
pub proof fn lemma_hex_text_lowercase(h: Seq<char>)
    requires
        all_hex(h),
        h.len() % 2 == 0,
    ensures
        all_ascii(h),
        ascii_lowercase(h) == hex_of(hex_decode(h)),
{
    let d = hex_decode(h);
    assert forall|k: int| 0 <= k < h.len() implies (#[trigger] h[k] as u32) < 128 by {
        assert(hex_value(h[k]) is Some);
        lemma_hex_char_lower(h[k]);
    }
    assert forall|k: int| 0 <= k < h.len() implies #[trigger] ascii_lowercase(h)[k] == hex_of(
        d,
    )[k] by {
        let m = k / 2;
        assert(0 <= m < d.len());
        assert(hex_value(h[2 * m]) is Some);
        assert(hex_value(h[2 * m + 1]) is Some);
        lemma_hex_char_lower(h[2 * m]);
        lemma_hex_char_lower(h[2 * m + 1]);
        let v0 = hex_value(h[2 * m])->0;
        let v1 = hex_value(h[2 * m + 1])->0;
        assert(d[m] as int == 16 * v0 + v1);
        assert((16 * v0 + v1) / 16 == v0 && (16 * v0 + v1) % 16 == v1);
        if k % 2 == 0 {
            assert(k == 2 * m);
        } else {
            assert(k == 2 * m + 1);
        }
    }
    assert(ascii_lowercase(h) =~= hex_of(d));
}

/// Law: the hex text of `bytes` has two characters per byte, each a digit
/// or a lowercase letter `a`..`f`, and the text of two byte strings joined
/// is their texts joined.
pub proof fn law_hex_text_shape(a: Seq<u8>, b: Seq<u8>)
    ensures
        hex_of(a).len() == 2 * a.len(),
        forall|i: int|
            0 <= i < hex_of(a).len() ==> (48 <= (#[trigger] hex_of(a)[i] as u32) <= 57 || 97 <= (
            hex_of(a)[i] as u32) <= 102),
        hex_of(a + b) == hex_of(a) + hex_of(b),
{
    assert forall|i: int| 0 <= i < hex_of(a).len() implies (48 <= (#[trigger] hex_of(a)[i] as u32)
        <= 57 || 97 <= (hex_of(a)[i] as u32) <= 102) by {
        lemma_hex_digit_value(a[i / 2] as int / 16);
        lemma_hex_digit_value(a[i / 2] as int % 16);
    }
    let ab = a + b;
    assert forall|i: int| 0 <= i < hex_of(ab).len() implies #[trigger] hex_of(ab)[i] == (hex_of(
        a,
    ) + hex_of(b))[i] by {
        if i < 2 * a.len() {
            assert(ab[i / 2] == a[i / 2]);
        } else {
            let j = i - 2 * a.len();
            assert(j / 2 == i / 2 - a.len() && j % 2 == i % 2);
            assert(ab[i / 2] == b[j / 2]);
        }
    }
    assert(hex_of(ab) =~= hex_of(a) + hex_of(b));
}

/// Law: hex text determines the bytes it was made from.
pub proof fn law_hex_injective(a: Seq<u8>, b: Seq<u8>)
    requires
        hex_of(a) == hex_of(b),
    ensures
        a == b,
{
    assert(a.len() == b.len()) by {
        assert(hex_of(a).len() == 2 * a.len());
    }
    assert forall|i: int| 0 <= i < a.len() implies a[i] == b[i] by {
        assert((2 * i) / 2 == i && (2 * i) % 2 == 0);
        assert((2 * i + 1) / 2 == i && (2 * i + 1) % 2 == 1);
        assert(hex_of(a)[2 * i] == hex_of(b)[2 * i]);
        assert(hex_of(a)[2 * i + 1] == hex_of(b)[2 * i + 1]);
        assert(hex_of(a)[2 * i] == hex_digit(a[i] as int / 16));
        assert(hex_of(b)[2 * i] == hex_digit(b[i] as int / 16));
        assert(hex_of(a)[2 * i + 1] == hex_digit(a[i] as int % 16));
        assert(hex_of(b)[2 * i + 1] == hex_digit(b[i] as int % 16));
        lemma_hex_digit_value(a[i] as int / 16);
        lemma_hex_digit_value(a[i] as int % 16);
        lemma_hex_digit_value(b[i] as int / 16);
        lemma_hex_digit_value(b[i] as int % 16);
        assert(16 * (a[i] as int / 16) + a[i] as int % 16 == a[i]);
        assert(16 * (b[i] as int / 16) + b[i] as int % 16 == b[i]);
    }
    assert(a =~= b);
}

} // verus!
