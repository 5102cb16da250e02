//! Document identifiers and their wire encoding.
//!
//! The storage engine names every document by an opaque identifier whose
//! string form is 24 hexadecimal characters (12 bytes).  The model keeps
//! identifiers as `u64` counters; on the wire such an identifier appears
//! as 8 leading `'0'` characters followed by the 16 hex digits of the
//! counter.  A well-formed 24-digit string whose leading 8 characters are
//! not all `'0'` is a syntactically valid identifier that the model never
//! assigns, and so never names a stored document.

use vstd::prelude::*;
use vstd::string::StringSliceAdditionalSpecFns;

verus! {

/// `b` is the ASCII code of a hexadecimal digit.
pub open spec fn is_hex_digit(b: u8) -> bool {
    (48 <= b && b <= 57) || (97 <= b && b <= 102) || (65 <= b && b <= 70)
}

/// Numeric value of a hexadecimal digit (0 on a non-digit).
pub open spec fn hex_val(b: u8) -> u8 {
    if 48 <= b && b <= 57 {
        (b - 48) as u8
    } else if 97 <= b && b <= 102 {
        (b - 87) as u8
    } else if 65 <= b && b <= 70 {
        (b - 55) as u8
    } else {
        0
    }
}

/// Lower-case hexadecimal digit for a value below 16.
pub open spec fn hex_char_byte(n: u8) -> u8 {
    if n < 10 {
        (48 + n) as u8
    } else {
        (87 + n) as u8
    }
}

/// A well-formed identifier string: exactly 24 hexadecimal characters.
pub open spec fn valid_oid_bytes(b: Seq<u8>) -> bool {
    b.len() == 24 && forall|i: int| 0 <= i < 24 ==> is_hex_digit(#[trigger] b[i])
}

/// The 8 leading characters are all `'0'`: the identifier lies in the
/// range the model assigns.
pub open spec fn oid_prefix_zero(b: Seq<u8>) -> bool {
    forall|i: int| 0 <= i < 8 ==> #[trigger] b[i] == 48
}

/// Value of a big-endian string of hexadecimal digits.
pub open spec fn hex_num(s: Seq<u8>) -> nat
    decreases s.len(),
{
    if s.len() == 0 {
        0
    } else {
        hex_num(s.drop_last()) * 16 + hex_val(s.last()) as nat
    }
}

/// The `len` low hexadecimal digits of `n`, most significant first.
pub open spec fn hex_digits(n: nat, len: nat) -> Seq<u8>
    decreases len,
{
    if len == 0 {
        Seq::empty()
    } else {
        hex_digits(n / 16, (len - 1) as nat).push(hex_char_byte((n % 16) as u8))
    }
}

/// Sixteen to the power `n`.
pub open spec fn pow16(n: nat) -> nat
    decreases n,
{
    if n == 0 {
        1nat
    } else {
        16 * pow16((n - 1) as nat)
    }
}

/// The wire form of a model identifier: 8 `'0'` characters, then the 16
/// hex digits of the counter.
pub open spec fn id_hex_bytes(id: u64) -> Seq<u8> {
    Seq::new(8, |i: int| 48u8) + hex_digits(id as nat, 16)
}

/// Outcome of reading an identifier string.
#[derive(Clone, Copy, PartialEq, Eq, Structural, Debug)]
pub enum IdParse {
    /// Not 24 hexadecimal characters.
    Malformed,
    /// Well formed, but outside the range the model ever assigns.
    OutOfRange,
    /// A model identifier.
    Id(u64),
}

/// The outcome `r` is the one `parse_id` owes for input bytes `b`.
pub open spec fn parse_result_for(b: Seq<u8>, r: IdParse) -> bool {
    match r {
        IdParse::Malformed => !valid_oid_bytes(b),
        IdParse::OutOfRange => valid_oid_bytes(b) && !oid_prefix_zero(b),
        IdParse::Id(id) => valid_oid_bytes(b) && oid_prefix_zero(b) && id as nat == hex_num(
            b.skip(8),
        ),
    }
}

proof fn lemma_pow16_mono(a: nat, b: nat)
    requires
        a <= b,
    ensures
        pow16(a) <= pow16(b),
    decreases b,
{
    if a < b {
        lemma_pow16_mono(a, (b - 1) as nat);
        assert(pow16(b) == 16 * pow16((b - 1) as nat));
    }
}

/// A digit string of length `len` denotes a value below `pow16(len)`.
proof fn lemma_hex_num_bound(s: Seq<u8>)
    ensures
        hex_num(s) < pow16(s.len()),
    decreases s.len(),
{
    if s.len() > 0 {
        lemma_hex_num_bound(s.drop_last());
    }
}

/// Shape of an encoded counter: `len` bytes, all hexadecimal.
proof fn lemma_hex_digits_shape(n: nat, len: nat)
    ensures
        hex_digits(n, len).len() == len,
        forall|i: int| 0 <= i < len ==> is_hex_digit(#[trigger] hex_digits(n, len)[i]),
    decreases len,
{
    if len > 0 {
        lemma_hex_digits_shape(n / 16, (len - 1) as nat);
    }
}

/// Decoding inverts encoding for every value that fits in `len` digits.
proof fn lemma_hex_num_of_digits(n: nat, len: nat)
    requires
        n < pow16(len),
    ensures
        hex_num(hex_digits(n, len)) == n,
    decreases len,
{
    if len == 0 {
        assert(pow16(0) == 1);
    } else {
        let rest = (len - 1) as nat;
        assert(pow16(len) == 16 * pow16(rest));
        assert(n / 16 < pow16(rest)) by (nonlinear_arith)
            requires
                n < 16 * pow16(rest),
        ;
        lemma_hex_num_of_digits(n / 16, rest);
        lemma_hex_digits_shape(n / 16, rest);
        let s = hex_digits(n, len);
        assert(s.drop_last() =~= hex_digits(n / 16, rest));
        assert(hex_val(hex_char_byte((n % 16) as u8)) == n % 16);
    }
}

/// The wire form of a model identifier is well formed, carries the
/// zero prefix, and decodes back to the identifier it encodes: the
/// identifier round-trips through its string encoding.
pub proof fn lemma_id_round_trip(id: u64)
    ensures
        valid_oid_bytes(id_hex_bytes(id)),
        oid_prefix_zero(id_hex_bytes(id)),
        hex_num(id_hex_bytes(id).skip(8)) == id as nat,
        parse_result_for(id_hex_bytes(id), IdParse::Id(id)),
{
    let b = id_hex_bytes(id);
    lemma_hex_digits_shape(id as nat, 16);
    assert(b.skip(8) =~= hex_digits(id as nat, 16));
    assert(pow16(16) == 0x1_0000_0000_0000_0000) by {
        reveal_with_fuel(pow16, 17);
    }
    lemma_hex_num_of_digits(id as nat, 16);
}

fn byte_is_hex(b: u8) -> (r: bool)
    ensures
        r == is_hex_digit(b),
{
    (48 <= b && b <= 57) || (97 <= b && b <= 102) || (65 <= b && b <= 70)
}

fn byte_hex_val(b: u8) -> (v: u8)
    ensures
        v == hex_val(b),
        v < 16,
{
    if 48 <= b && b <= 57 {
        b - 48
    } else if 97 <= b && b <= 102 {
        b - 87
    } else if 65 <= b && b <= 70 {
        b - 55
    } else {
        0
    }
}

pub(crate) fn hex_char_of(n: u8) -> (b: u8)
    requires
        n < 16,
    ensures
        b == hex_char_byte(n),
{
    if n < 10 {
        48 + n
    } else {
        87 + n
    }
}

/// Reads an identifier string: 24 hexadecimal characters, of which the
/// leading 8 must be `'0'` for the identifier to be one the model ever
/// assigned.  Anything else is reported rather than acted on.
pub fn parse_id(s: &str) -> (r: IdParse)
    ensures
        parse_result_for(s.spec_bytes(), r),
{
    let b = s.as_bytes();
    if b.len() != 24 {
        return IdParse::Malformed;
    }
    let mut i: usize = 0;
    while i < 24
        invariant
            b@ == s.spec_bytes(),
            b@.len() == 24,
            i <= 24,
            forall|k: int| 0 <= k < i ==> is_hex_digit(#[trigger] b@[k]),
        decreases 24 - i,
    {
        if !byte_is_hex(b[i]) {
            return IdParse::Malformed;
        }
        i += 1;
    }
    let mut i: usize = 0;
    while i < 8
        invariant
            b@ == s.spec_bytes(),
            b@.len() == 24,
            i <= 8,
            forall|k: int| 0 <= k < i ==> #[trigger] b@[k] == 48,
            forall|k: int| 0 <= k < 24 ==> is_hex_digit(#[trigger] b@[k]),
        decreases 8 - i,
    {
        if b[i] != 48 {
            return IdParse::OutOfRange;
        }
        i += 1;
    }
    let ghost tail = b@.skip(8);
    let mut acc: u64 = 0;
    let mut j: usize = 0;
    while j < 16
        invariant
            b@.len() == 24,
            tail == b@.skip(8),
            forall|k: int| 0 <= k < 24 ==> is_hex_digit(#[trigger] b@[k]),
            j <= 16,
            acc as nat == hex_num(tail.take(j as int)),
        decreases 16 - j,
    {
        proof {
            lemma_hex_num_bound(tail.take(j as int));
            lemma_pow16_mono(j as nat, 15);
            assert(pow16(15) == 0x1000_0000_0000_0000) by {
                reveal_with_fuel(pow16, 16);
            }
            assert(tail.take(j + 1).drop_last() =~= tail.take(j as int));
        }
        let v = byte_hex_val(b[8 + j]);
        acc = acc * 16 + (v as u64);
        j += 1;
    }
    proof {
        assert(tail.take(16) =~= tail);
    }
    IdParse::Id(acc)
}

/// The 24-character wire form of a model identifier.
pub fn id_hex(id: u64) -> (r: Vec<u8>)
    ensures
        r@ == id_hex_bytes(id),
{
    let mut out: Vec<u8> = Vec::new();
    let mut i: usize = 0;
    while i < 8
        invariant
            i <= 8,
            out@ =~= Seq::new(i as nat, |k: int| 48u8),
        decreases 8 - i,
    {
        out.push(48);
        i += 1;
    }
    let mut digits = hex_digits_exec(id, 16);
    proof {
        assert(out@ =~= Seq::new(8, |k: int| 48u8));
    }
    out.append(&mut digits);
    proof {
        assert(out@ =~= id_hex_bytes(id));
    }
    out
}

fn hex_digits_exec(n: u64, len: usize) -> (r: Vec<u8>)
    ensures
        r@ == hex_digits(n as nat, len as nat),
    decreases len,
{
    if len == 0 {
        Vec::new()
    } else {
        let mut v = hex_digits_exec(n / 16, len - 1);
        v.push(hex_char_of((n % 16) as u8));
        v
    }
}

} // verus!
