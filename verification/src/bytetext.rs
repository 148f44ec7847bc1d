//! Small verified helpers over ASCII byte strings: decimal rendering,
//! hexadecimal encoding and decoding, whitespace trimming and
//! concatenation. Wire-level names in this crate are byte strings.

use vstd::prelude::*;

verus! {

/// The decimal digits of `n`, most significant first, as ASCII bytes.
pub open spec fn dec_digits(n: nat) -> Seq<u8>
    decreases n,
{
    if n < 10 {
        seq![(n + 48) as u8]
    } else {
        dec_digits(n / 10) + seq![(n % 10 + 48) as u8]
    }
}

/// Appends the decimal rendering of `n` to `out`.
pub fn push_decimal(out: &mut Vec<u8>, n: u64)
    ensures
        final(out)@ == old(out)@ + dec_digits(n as nat),
    decreases n,
{
    if n >= 10 {
        push_decimal(out, n / 10);
    }
    out.push((n % 10) as u8 + 48);
    proof {
        assert(out@ =~= old(out)@ + dec_digits(n as nat));
    }
}

/// The lowercase hexadecimal digit for a value below sixteen.
pub open spec fn hex_digit(v: nat) -> u8 {
    if v < 10 {
        (v + 48) as u8
    } else {
        (v + 87) as u8
    }
}

/// The lowercase hexadecimal rendering of a byte string: two digits
/// per byte, high nibble first.
pub open spec fn hex_of(s: Seq<u8>) -> Seq<u8> {
    Seq::new(
        2 * s.len(),
        |j: int|
            if j % 2 == 0 {
                hex_digit((s[j / 2] >> 4u8) as nat)
            } else {
                hex_digit((s[j / 2] & 0xfu8) as nat)
            },
    )
}

fn hex_digit_exec(v: u8) -> (r: u8)
    requires
        v < 16,
    ensures
        r == hex_digit(v as nat),
{
    if v < 10 {
        v + 48
    } else {
        v + 87
    }
}

/// Appends the lowercase hexadecimal rendering of `s` to `out`.
pub fn push_hex(out: &mut Vec<u8>, s: &Vec<u8>)
    ensures
        final(out)@ == old(out)@ + hex_of(s@),
{
    let mut i: usize = 0;
    while i < s.len()
        invariant
            i <= s.len(),
            out@ == old(out)@ + hex_of(s@).take(2 * i),
        decreases s.len() - i,
    {
        let b = s[i];
        let hi = b >> 4u8;
        let lo = b & 0xfu8;
        assert(b >> 4u8 < 16 && b & 0xfu8 < 16) by (bit_vector);
        out.push(hex_digit_exec(hi));
        out.push(hex_digit_exec(lo));
        i = i + 1;
        proof {
            assert(out@ =~= old(out)@ + hex_of(s@).take(2 * i));
        }
    }
    proof {
        assert(hex_of(s@).take(2 * s@.len() as int) =~= hex_of(s@));
    }
}

/// Whether `c` is an ASCII hexadecimal digit, either case.
pub open spec fn is_hex_digit(c: u8) -> bool {
    (48 <= c <= 57) || (97 <= c <= 102) || (65 <= c <= 70)
}

/// The value of an ASCII hexadecimal digit.
pub open spec fn hex_val(c: u8) -> nat {
    if 48 <= c <= 57 {
        (c - 48) as nat
    } else if 97 <= c <= 102 {
        (c - 87) as nat
    } else {
        (c - 55) as nat
    }
}

/// Whether `s` is a well-formed hexadecimal rendering: even length,
/// every byte a hexadecimal digit.
pub open spec fn hex_text_ok(s: Seq<u8>) -> bool {
    s.len() % 2 == 0 && forall|j: int| 0 <= j < s.len() ==> is_hex_digit(#[trigger] s[j])
}

/// The bytes denoted by a well-formed hexadecimal rendering.
pub open spec fn hex_decoded(s: Seq<u8>) -> Seq<u8> {
    Seq::new(s.len() / 2, |k: int| (hex_val(s[2 * k]) * 16 + hex_val(s[2 * k + 1])) as u8)
}

fn hex_val_exec(c: u8) -> (r: u8)
    requires
        is_hex_digit(c),
    ensures
        r == hex_val(c),
        r < 16,
{
    if 48 <= c && c <= 57 {
        c - 48
    } else if 97 <= c && c <= 102 {
        c - 87
    } else {
        c - 55
    }
}

/// Decodes a hexadecimal byte string; `None` exactly when `s` is not
/// a well-formed hexadecimal rendering.
pub fn decode_hex(s: &Vec<u8>) -> (r: Option<Vec<u8>>)
    ensures
        r is Some <==> hex_text_ok(s@),
        r matches Some(v) ==> v@ == hex_decoded(s@),
{
    if s.len() % 2 != 0 {
        return None;
    }
    let mut out: Vec<u8> = Vec::new();
    let mut i: usize = 0;
    while i < s.len()
        invariant
            i <= s.len(),
            i % 2 == 0,
            s.len() % 2 == 0,
            forall|j: int| 0 <= j < i ==> is_hex_digit(#[trigger] s@[j]),
            out@ == hex_decoded(s@).take(i as int / 2),
        decreases s.len() - i,
    {
        let c0 = s[i];
        let c1 = s[i + 1];
        let d0_ok = (48 <= c0 && c0 <= 57) || (97 <= c0 && c0 <= 102) || (65 <= c0 && c0 <= 70);
        let d1_ok = (48 <= c1 && c1 <= 57) || (97 <= c1 && c1 <= 102) || (65 <= c1 && c1 <= 70);
        if !d0_ok || !d1_ok {
            return None;
        }
        let v0 = hex_val_exec(c0);
        let v1 = hex_val_exec(c1);
        out.push(v0 * 16 + v1);
        i = i + 2;
        proof {
            assert(out@ =~= hex_decoded(s@).take(i as int / 2));
        }
    }
    proof {
        assert(hex_decoded(s@).take(s@.len() as int / 2) =~= hex_decoded(s@));
    }
    Some(out)
}

/// Round trip: decoding the hexadecimal rendering of any byte string
/// gives the byte string back.
pub proof fn lemma_hex_round_trip(b: Seq<u8>)
    ensures
        hex_text_ok(hex_of(b)),
        hex_decoded(hex_of(b)) == b,
{
    let h = hex_of(b);
    assert forall|j: int| 0 <= j < h.len() implies is_hex_digit(#[trigger] h[j]) by {
        let v = b[j / 2];
        assert((v >> 4u8) < 16 && (v & 0xfu8) < 16) by (bit_vector);
    }
    assert forall|k: int| 0 <= k < b.len() implies hex_decoded(h)[k] == b[k] by {
        let v = b[k];
        assert(h[2 * k] == hex_digit((v >> 4u8) as nat));
        assert(h[2 * k + 1] == hex_digit((v & 0xfu8) as nat));
        assert((v >> 4u8) < 16 && (v & 0xfu8) < 16) by (bit_vector);
        assert(((v >> 4u8) * 16 + (v & 0xfu8)) == v) by (bit_vector);
    }
    assert(hex_decoded(h) =~= b);
}

/// Whether `c` is ASCII whitespace: space, tab, line feed, vertical
/// tab, form feed or carriage return.
pub open spec fn is_ascii_space(c: u8) -> bool {
    c == 32 || c == 9 || c == 10 || c == 11 || c == 12 || c == 13
}

/// `s` with leading whitespace removed.
pub open spec fn trim_front(s: Seq<u8>) -> Seq<u8>
    decreases s.len(),
{
    if s.len() > 0 && is_ascii_space(s[0]) {
        trim_front(s.drop_first())
    } else {
        s
    }
}

/// `s` with trailing whitespace removed.
pub open spec fn trim_back(s: Seq<u8>) -> Seq<u8>
    decreases s.len(),
{
    if s.len() > 0 && is_ascii_space(s.last()) {
        trim_back(s.drop_last())
    } else {
        s
    }
}

/// `s` with whitespace removed from both ends.
pub open spec fn trimmed(s: Seq<u8>) -> Seq<u8> {
    trim_back(trim_front(s))
}

/// Copies `s` without its leading and trailing ASCII whitespace.
pub fn trim_bytes(s: &Vec<u8>) -> (r: Vec<u8>)
    ensures
        r@ == trimmed(s@),
{
    proof {
        assert(s@.skip(0) =~= s@);
    }
    let mut a: usize = 0;
    while a < s.len() && is_ascii_space_exec(s[a])
        invariant
            a <= s.len(),
            trim_front(s@) == trim_front(s@.skip(a as int)),
        decreases s.len() - a,
    {
        proof {
            assert(s@.skip(a as int).drop_first() =~= s@.skip(a as int + 1));
        }
        a = a + 1;
    }
    let mut b: usize = s.len();
    while b > a && is_ascii_space_exec(s[b - 1])
        invariant
            a <= b <= s.len(),
            trim_front(s@) == trim_front(s@.skip(a as int)),
            trim_back(s@.skip(a as int)) == trim_back(s@.subrange(a as int, b as int)),
        decreases b,
    {
        proof {
            assert(s@.subrange(a as int, b as int).drop_last() =~= s@.subrange(
                a as int,
                b as int - 1,
            ));
        }
        b = b - 1;
    }
    let mut out: Vec<u8> = Vec::new();
    let mut i: usize = a;
    while i < b
        invariant
            a <= i <= b <= s.len(),
            out@ == s@.subrange(a as int, i as int),
        decreases b - i,
    {
        out.push(s[i]);
        i = i + 1;
        proof {
            assert(out@ =~= s@.subrange(a as int, i as int));
        }
    }
    proof {
        if a == s@.len() {
            assert(s@.skip(a as int) =~= Seq::<u8>::empty());
        }
        assert(trim_front(s@) == s@.skip(a as int));
        if b == a {
            assert(s@.subrange(a as int, b as int) =~= Seq::<u8>::empty());
        }
        assert(trim_back(s@.subrange(a as int, b as int)) == s@.subrange(a as int, b as int));
        assert(s@.skip(a as int) =~= s@.subrange(a as int, s@.len() as int));
    }
    out
}

fn is_ascii_space_exec(c: u8) -> (r: bool)
    ensures
        r == is_ascii_space(c),
{
    c == 32 || c == 9 || c == 10 || c == 11 || c == 12 || c == 13
}

/// A fresh copy of a byte string.
pub fn copy_bytes(s: &Vec<u8>) -> (r: Vec<u8>)
    ensures
        r@ == s@,
{
    let mut out: Vec<u8> = Vec::new();
    push_all(&mut out, s);
    out
}

/// Appends every byte of `s` to `out`.
pub fn push_all(out: &mut Vec<u8>, s: &Vec<u8>)
    ensures
        final(out)@ == old(out)@ + s@,
{
    let mut i: usize = 0;
    while i < s.len()
        invariant
            i <= s.len(),
            out@ == old(out)@ + s@.take(i as int),
        decreases s.len() - i,
    {
        out.push(s[i]);
        i = i + 1;
        proof {
            assert(out@ =~= old(out)@ + s@.take(i as int));
        }
    }
    proof {
        assert(old(out)@ + s@.take(s@.len() as int) =~= old(out)@ + s@);
    }
}

} // verus!
