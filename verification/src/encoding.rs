//! Fixed-width big-endian encodings, and addresses written as decimal
//! numbers.

use vstd::prelude::*;

verus! {

/// The big-endian encoding of `n` in `width` bytes. Where `n` does not fit,
/// its high part is cut off.
pub open spec fn be_bytes(n: nat, width: nat) -> Seq<u8>
    decreases width,
{
    if width == 0 {
        Seq::empty()
    } else {
        be_bytes(n / 256, (width - 1) as nat).push((n % 256) as u8)
    }
}

/// The number that `bytes` encodes in big-endian order.
pub open spec fn be_value(bytes: Seq<u8>) -> nat
    decreases bytes.len(),
{
    if bytes.len() == 0 {
        0
    } else {
        be_value(bytes.drop_last()) * 256 + bytes.last() as nat
    }
}

/// 256 to the power of `width`: the first number that `width` bytes cannot
/// hold.
pub open spec fn capacity(width: nat) -> nat
    decreases width,
{
    if width == 0 {
        1
    } else {
        256 * capacity((width - 1) as nat)
    }
}

/// Every width holds zero, and every width but zero holds all of a byte.
pub proof fn lemma_capacity_floor(width: nat)
    ensures
        capacity(width) >= 1,
        width > 0 ==> capacity(width) >= 256,
    decreases width,
{
    if width > 0 {
        lemma_capacity_floor((width - 1) as nat);
    }
}

/// An encoding has the width asked for.
pub proof fn lemma_be_bytes_len(n: nat, width: nat)
    ensures
        be_bytes(n, width).len() == width,
    decreases width,
{
    if width > 0 {
        lemma_be_bytes_len(n / 256, (width - 1) as nat);
    }
}

/// Decoding undoes encoding for every number that fits the width.
pub proof fn lemma_be_round_trip(n: nat, width: nat)
    requires
        n < capacity(width),
    ensures
        be_value(be_bytes(n, width)) == n,
    decreases width,
{
    if width > 0 {
        let rest = n / 256;
        lemma_be_round_trip(rest, (width - 1) as nat);
        let encoded = be_bytes(n, width);
        assert(encoded.drop_last() =~= be_bytes(rest, (width - 1) as nat));
    }
}

/// Two numbers that fit the width and have the same encoding are the same
/// number.
pub proof fn lemma_be_bytes_injective(a: nat, b: nat, width: nat)
    requires
        a < capacity(width),
        b < capacity(width),
        be_bytes(a, width) == be_bytes(b, width),
    ensures
        a == b,
{
    lemma_be_round_trip(a, width);
    lemma_be_round_trip(b, width);
}

/// Every `u64` fits eight bytes.
pub proof fn lemma_u64_fits(x: u64)
    ensures
        (x as nat) < capacity(8),
{
    reveal_with_fuel(capacity, 9);
}

/// The eight big-endian bytes of `x`.
pub fn u64_be_bytes(x: u64) -> (out: [u8; 8])
    ensures
        out@ == be_bytes(x as nat, 8),
{
    let mut out: [u8; 8] = [0u8; 8];
    let mut rest: u64 = x;
    let mut i: usize = 8;
    while i > 0
        invariant
            i <= 8,
            be_bytes(x as nat, 8) == be_bytes(rest as nat, i as nat) + out@.subrange(i as int, 8),
        decreases i,
    {
        let ghost before = out@;
        i -= 1;
        out[i] = (rest % 256) as u8;
        proof {
            assert(out@.subrange(i as int, 8) =~= seq![(rest % 256) as u8] + before.subrange(
                i + 1,
                8,
            ));
            assert(be_bytes(rest as nat, (i + 1) as nat) == be_bytes(
                (rest / 256) as nat,
                i as nat,
            ).push((rest % 256) as u8));
            assert(be_bytes((rest / 256) as nat, i as nat).push((rest % 256) as u8)
                + before.subrange(i + 1, 8) =~= be_bytes((rest / 256) as nat, i as nat)
                + out@.subrange(i as int, 8));
        }
        rest = rest / 256;
    }
    out
}

/// Appends `bytes` to `buffer`.
pub fn append_bytes(buffer: &mut Vec<u8>, bytes: &[u8])
    ensures
        final(buffer)@ == old(buffer)@ + bytes@,
{
    let mut i: usize = 0;
    while i < bytes.len()
        invariant
            i <= bytes@.len(),
            buffer@ == old(buffer)@ + bytes@.subrange(0, i as int),
        decreases bytes@.len() - i,
    {
        buffer.push(bytes[i]);
        i += 1;
    }
}

/// Whether `c` is one of the ten decimal digits.
pub open spec fn is_decimal_digit(c: char) -> bool {
    '0' <= c <= '9'
}

/// The number that a string of decimal digits writes, most significant digit
/// first; the empty string writes zero. `None` where a character is not a
/// decimal digit.
pub open spec fn decimal_value(text: Seq<char>) -> Option<nat>
    decreases text.len(),
{
    if text.len() == 0 {
        Some(0)
    } else if !is_decimal_digit(text.last()) {
        None
    } else {
        match decimal_value(text.drop_last()) {
            Some(high) => Some(high * 10 + ((text.last() as u32) - 48) as nat),
            None => None,
        }
    }
}

/// The 32 big-endian bytes of the number that `text` writes in decimal.
/// `None` where `text` is no decimal number or the number needs more than
/// 256 bits.
pub open spec fn decimal_word(text: Seq<char>) -> Option<Seq<u8>> {
    match decimal_value(text) {
        Some(n) => if n < capacity(32) {
            Some(be_bytes(n, 32))
        } else {
            None
        },
        None => None,
    }
}

/// `primitive_types::U256::from_dec_str`, and `U256::to_big_endian` on a
/// buffer of 32 bytes for what it returns. The first accepts exactly the
/// strings of ASCII digits whose value fits 256 bits, the empty string as
/// zero; the second writes the value most significant byte first.
#[verifier::external_body]
pub(crate) fn u256_bytes_from_decimal(text: &str) -> (r: Option<[u8; 32]>)
    ensures
        r matches Some(bytes) ==> decimal_word(text@) == Some(bytes@),
        r is None ==> decimal_word(text@) is None,
{
    let number = primitive_types::U256::from_dec_str(text).ok()?;
    let mut bytes = [0u8; 32];
    number.to_big_endian(&mut bytes);
    Some(bytes)
}

} // verus!
