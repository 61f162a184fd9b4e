//! Reversible, URL-safe encoding of gallery directory names.
//!
//! A directory name may hold characters that are unsafe in a URL path
//! segment (spaces, slashes, unicode). The external identifier of a gallery
//! keeps ASCII letters and digits as they are and writes every other
//! character as `%` followed by six upper-case hex digits of its Unicode
//! scalar value. The fixed width makes decoding unambiguous, and
//! [`lemma_decode_encode`] proves that decoding inverts encoding on every
//! string.

use vstd::prelude::*;

use crate::errors::StoreError;
use vstd::utf8::is_scalar;

verus! {

broadcast use vstd::utf8::char_is_scalar, vstd::utf8::char_u32_cast;

/// True for the characters an external identifier keeps unencoded:
/// ASCII letters and digits.
pub open spec fn is_plain_char(c: char) -> bool {
    let u = c as u32;
    (0x30 <= u && u <= 0x39) || (0x41 <= u && u <= 0x5A) || (0x61 <= u && u <= 0x7A)
}

/// The upper-case hex digit for a nibble.
pub open spec fn hex_char_of(n: u32) -> char
    recommends
        n < 16,
{
    if n < 10 {
        (0x30 + n) as char
    } else {
        (0x37 + n) as char
    }
}

/// The value of one hex digit, if the character is one
/// (upper-case letters only).
pub open spec fn hex_val(c: char) -> Option<u32> {
    let u = c as u32;
    if 0x30 <= u && u <= 0x39 {
        Some((u - 0x30) as u32)
    } else if 0x41 <= u && u <= 0x46 {
        Some((u - 0x37) as u32)
    } else {
        None
    }
}

/// True when the character is an acceptable hex digit.
pub open spec fn is_hex_char(c: char) -> bool {
    hex_val(c) is Some
}

/// The scalar value written by six hex digits, most significant first.
pub open spec fn hex6_val(s: Seq<char>) -> u32
    recommends
        s.len() == 6,
        forall|i: int| 0 <= i < 6 ==> is_hex_char(s[i]),
{
    let d0 = hex_val(s[0]).unwrap_or(0);
    let d1 = hex_val(s[1]).unwrap_or(0);
    let d2 = hex_val(s[2]).unwrap_or(0);
    let d3 = hex_val(s[3]).unwrap_or(0);
    let d4 = hex_val(s[4]).unwrap_or(0);
    let d5 = hex_val(s[5]).unwrap_or(0);
    (((((d0 << 4 | d1) << 4 | d2) << 4 | d3) << 4 | d4) << 4) | d5
}

/// How one character is written in an external identifier.
pub open spec fn encode_char(c: char) -> Seq<char> {
    if is_plain_char(c) {
        seq![c]
    } else {
        let u = c as u32;
        seq![
            '%',
            hex_char_of((u >> 20) & 0xF),
            hex_char_of((u >> 16) & 0xF),
            hex_char_of((u >> 12) & 0xF),
            hex_char_of((u >> 8) & 0xF),
            hex_char_of((u >> 4) & 0xF),
            hex_char_of(u & 0xF),
        ]
    }
}

/// The external identifier of a name: each character encoded in turn.
pub open spec fn spec_encode(s: Seq<char>) -> Seq<char>
    decreases s.len(),
{
    if s.len() == 0 {
        Seq::empty()
    } else {
        encode_char(s[0]) + spec_encode(s.subrange(1, s.len() as int))
    }
}

/// The name an external identifier stands for, or `None` when the
/// identifier is malformed: a `%` not followed by six hex digits, or six
/// digits that name no Unicode scalar.
pub open spec fn spec_decode(s: Seq<char>) -> Option<Seq<char>>
    decreases s.len(),
{
    if s.len() == 0 {
        Some(Seq::empty())
    } else if s[0] == '%' {
        if s.len() >= 7 && (forall|i: int| 1 <= i < 7 ==> is_hex_char(s[i])) {
            let u = hex6_val(s.subrange(1, 7));
            if is_scalar(u) {
                match spec_decode(s.subrange(7, s.len() as int)) {
                    Some(rest) => Some(seq![u as char] + rest),
                    None => None,
                }
            } else {
                None
            }
        } else {
            None
        }
    } else {
        match spec_decode(s.subrange(1, s.len() as int)) {
            Some(rest) => Some(seq![s[0]] + rest),
            None => None,
        }
    }
}

/// Encoding one more character on the right extends the encoding on the
/// right: `spec_encode` distributes over concatenation.
pub proof fn lemma_encode_append(a: Seq<char>, b: Seq<char>)
    ensures
        spec_encode(a + b) == spec_encode(a) + spec_encode(b),
    decreases a.len(),
{
    if a.len() == 0 {
        assert(a + b =~= b);
        assert(spec_encode(a) + spec_encode(b) =~= spec_encode(b));
    } else {
        let t = a.subrange(1, a.len() as int);
        lemma_encode_append(t, b);
        assert((a + b).subrange(1, (a + b).len() as int) =~= t + b);
        assert(spec_encode(a + b) =~= spec_encode(a) + spec_encode(b));
    }
}

/// A four-bit mask leaves a value below sixteen.
pub proof fn lemma_nibble_bound(u: u32, k: u32)
    ensures
        ((u >> k) & 0xF) < 16,
        (u & 0xF) < 16,
{
    assert(((u >> k) & 0xF) < 16) by (bit_vector);
    assert((u & 0xF) < 16) by (bit_vector);
}

/// The hex digit for a nibble-extracted value.
fn hex_char(n: u32) -> (c: char)
    requires
        n < 16,
    ensures
        c == hex_char_of(n),
        is_hex_char(c),
        hex_val(c) == Some(n),
{
    let b: u8 = if n < 10 {
        (0x30 + n) as u8
    } else {
        (0x37 + n) as u8
    };
    b as char
}

/// Whether a character is kept unencoded.
fn is_plain(c: char) -> (r: bool)
    ensures
        r == is_plain_char(c),
{
    let u = c as u32;
    (0x30 <= u && u <= 0x39) || (0x41 <= u && u <= 0x5A) || (0x61 <= u && u <= 0x7A)
}

/// The value of one hex digit, if the character is one.
fn hex_value(c: char) -> (r: Option<u32>)
    ensures
        r == hex_val(c),
{
    let u = c as u32;
    if 0x30 <= u && u <= 0x39 {
        Some(u - 0x30)
    } else if 0x41 <= u && u <= 0x46 {
        Some(u - 0x37)
    } else {
        None
    }
}

/// Relies on `String::push`: appends the given character to the end of the
/// string.
pub assume_specification[ String::push ](s: &mut String, c: char)
    ensures
        final (s)@ == old(s)@.push(c),
;

/// Relies on `char::from_u32`: returns the character with the given scalar
/// value, and `None` exactly when the value is a surrogate or above the
/// Unicode range.
pub assume_specification[ char::from_u32 ](u: u32) -> (r: Option<char>)
    ensures
        r is Some <==> is_scalar(u),
        r is Some ==> r->0 == u as char,
;

/// Encodes a directory name as a URL-safe external identifier.
#[verifier::rlimit(60)]
pub fn encode(s: &str) -> (r: String)
    ensures
        r@ == spec_encode(s@),
{
    let n = s.unicode_len();
    let mut out = String::new();
    let mut i: usize = 0;
    while i < n
        invariant
            i <= n,
            n == s@.len(),
            out@ == spec_encode(s@.subrange(0, i as int)),
        decreases n - i,
    {
        let c = s.get_char(i);
        let ghost prefix = s@.subrange(0, i as int);
        if is_plain(c) {
            out.push(c);
        } else {
            let u = c as u32;
            proof {
                lemma_nibble_bound(u, 20);
                lemma_nibble_bound(u, 16);
                lemma_nibble_bound(u, 12);
                lemma_nibble_bound(u, 8);
                lemma_nibble_bound(u, 4);
            }
            out.push('%');
            out.push(hex_char((u >> 20) & 0xF));
            out.push(hex_char((u >> 16) & 0xF));
            out.push(hex_char((u >> 12) & 0xF));
            out.push(hex_char((u >> 8) & 0xF));
            out.push(hex_char((u >> 4) & 0xF));
            out.push(hex_char(u & 0xF));
        }
        proof {
            lemma_encode_append(prefix, seq![c]);
            assert(s@.subrange(0, i + 1 as int) =~= prefix + seq![c]);
            assert(seq![c].subrange(1, 1) =~= Seq::<char>::empty());
            assert(spec_encode(Seq::<char>::empty()) =~= Seq::<char>::empty());
            assert(spec_encode(seq![c]) == encode_char(c) + spec_encode(seq![c].subrange(1, 1)));
            assert(spec_encode(seq![c]) =~= encode_char(c));
            assert(out@ =~= spec_encode(prefix) + encode_char(c));
            assert(out@ =~= spec_encode(s@.subrange(0, i + 1 as int)));
        }
        i = i + 1;
    }
    proof {
        assert(s@.subrange(0, n as int) =~= s@);
    }
    out
}

/// Decodes an external identifier back to the directory name it stands
/// for; a malformed identifier is invalid input.
pub fn decode(s: &str) -> (r: Result<String, StoreError>)
    ensures
        match r {
            Ok(t) => spec_decode(s@) == Some(t@),
            Err(e) => e == StoreError::InvalidInput && spec_decode(s@) is None,
        },
{
    let n = s.unicode_len();
    let mut out = String::new();
    let mut i: usize = 0;
    proof {
        assert(s@.subrange(0, n as int) =~= s@);
        if spec_decode(s@) is Some {
            assert(Seq::<char>::empty() + spec_decode(s@)->0 =~= spec_decode(s@)->0);
        }
    }
    while i < n
        invariant
            i <= n,
            n == s@.len(),
            spec_decode(s@) == match spec_decode(s@.subrange(i as int, n as int)) {
                Some(rest) => Some(out@ + rest),
                None => None::<Seq<char>>,
            },
        decreases n - i,
    {
        let ghost tail = s@.subrange(i as int, n as int);
        let c = s.get_char(i);
        if c != '%' {
            let ghost out0 = out@;
            out.push(c);
            proof {
                let t2 = s@.subrange(i + 1 as int, n as int);
                assert(tail.subrange(1, tail.len() as int) =~= t2);
                if spec_decode(t2) is Some {
                    let rest2 = spec_decode(t2)->0;
                    assert(spec_decode(tail) == Some(seq![c] + rest2));
                    assert(out@ + rest2 =~= out0 + (seq![c] + rest2));
                }
            }
            i = i + 1;
        } else {
            if n - i < 7 {
                proof {
                    assert(tail.len() < 7);
                    assert(spec_decode(tail) is None);
                }
                return Err(StoreError::InvalidInput);
            }
            let d0 = hex_value(s.get_char(i + 1));
            let d1 = hex_value(s.get_char(i + 2));
            let d2 = hex_value(s.get_char(i + 3));
            let d3 = hex_value(s.get_char(i + 4));
            let d4 = hex_value(s.get_char(i + 5));
            let d5 = hex_value(s.get_char(i + 6));
            proof {
                assert(tail[1] == s@[i + 1]);
                assert(tail[2] == s@[i + 2]);
                assert(tail[3] == s@[i + 3]);
                assert(tail[4] == s@[i + 4]);
                assert(tail[5] == s@[i + 5]);
                assert(tail[6] == s@[i + 6]);
            }
            if d0.is_none() || d1.is_none() || d2.is_none() || d3.is_none() || d4.is_none()
                || d5.is_none() {
                proof {
                    assert(!is_hex_char(tail[1]) || !is_hex_char(tail[2]) || !is_hex_char(tail[3])
                        || !is_hex_char(tail[4]) || !is_hex_char(tail[5]) || !is_hex_char(
                        tail[6],
                    ));
                    assert(!(forall|k: int| 1 <= k < 7 ==> is_hex_char(tail[k])));
                    assert(spec_decode(tail) is None);
                }
                return Err(StoreError::InvalidInput);
            }
            let u: u32 = (((((d0.unwrap() << 4u32 | d1.unwrap()) << 4u32 | d2.unwrap()) << 4u32
                | d3.unwrap()) << 4u32 | d4.unwrap()) << 4u32) | d5.unwrap();
            proof {
                assert(forall|k: int| 1 <= k < 7 ==> is_hex_char(tail[k]));
                assert(tail.subrange(1, 7) =~= s@.subrange(i + 1 as int, i + 7 as int));
                assert(hex_val(tail.subrange(1, 7)[0]) == d0);
                assert(hex_val(tail.subrange(1, 7)[1]) == d1);
                assert(hex_val(tail.subrange(1, 7)[2]) == d2);
                assert(hex_val(tail.subrange(1, 7)[3]) == d3);
                assert(hex_val(tail.subrange(1, 7)[4]) == d4);
                assert(hex_val(tail.subrange(1, 7)[5]) == d5);
                assert(u == hex6_val(tail.subrange(1, 7)));
            }
            match char::from_u32(u) {
                Some(c2) => {
                    let ghost out0 = out@;
                    out.push(c2);
                    proof {
                        let t2 = s@.subrange(i + 7 as int, n as int);
                        assert(tail.subrange(7, tail.len() as int) =~= t2);
                        if spec_decode(t2) is Some {
                            let rest2 = spec_decode(t2)->0;
                            assert(spec_decode(tail) == Some(seq![u as char] + rest2));
                            assert(out@ + rest2 =~= out0 + (seq![u as char] + rest2));
                        }
                    }
                    i = i + 7;
                },
                None => {
                    proof {
                        assert(spec_decode(tail) is None);
                    }
                    return Err(StoreError::InvalidInput);
                },
            }
        }
    }
    proof {
        assert(s@.subrange(n as int, n as int) =~= Seq::<char>::empty());
        if spec_decode(s@.subrange(n as int, n as int)) is Some {
            assert(out@ + spec_decode(s@.subrange(n as int, n as int))->0 =~= out@);
        }
    }
    Ok(out)
}

/// Reads back one encoded character: for a character that is not kept
/// plain, its seven-character form opens with `%`, carries six hex digits,
/// and those digits name exactly its scalar value.
#[verifier::rlimit(60)]
pub proof fn lemma_encode_char_unfold(c: char)
    requires
        !is_plain_char(c),
    ensures
        encode_char(c).len() == 7,
        encode_char(c)[0] == '%',
        forall|k: int| 1 <= k < 7 ==> is_hex_char(encode_char(c)[k]),
        hex6_val(encode_char(c).subrange(1, 7)) == c as u32,
        is_scalar(c as u32),
        (c as u32) as char == c,
{
    let u = c as u32;
    vstd::utf8::char_is_scalar(c);
    vstd::utf8::char_u32_cast(c, u);
    lemma_nibble_bound(u, 20);
    lemma_nibble_bound(u, 16);
    lemma_nibble_bound(u, 12);
    lemma_nibble_bound(u, 8);
    lemma_nibble_bound(u, 4);
    lemma_hex_char_of_val((u >> 20) & 0xF);
    lemma_hex_char_of_val((u >> 16) & 0xF);
    lemma_hex_char_of_val((u >> 12) & 0xF);
    lemma_hex_char_of_val((u >> 8) & 0xF);
    lemma_hex_char_of_val((u >> 4) & 0xF);
    lemma_hex_char_of_val(u & 0xF);
    let e = encode_char(c);
    let digits = e.subrange(1, 7);
    assert(digits[0] == hex_char_of((u >> 20) & 0xF));
    assert(digits[1] == hex_char_of((u >> 16) & 0xF));
    assert(digits[2] == hex_char_of((u >> 12) & 0xF));
    assert(digits[3] == hex_char_of((u >> 8) & 0xF));
    assert(digits[4] == hex_char_of((u >> 4) & 0xF));
    assert(digits[5] == hex_char_of(u & 0xF));
    assert(hex6_val(digits) == (((((((u >> 20) & 0xF) << 4 | ((u >> 16) & 0xF)) << 4 | ((u >> 12)
        & 0xF)) << 4 | ((u >> 8) & 0xF)) << 4 | ((u >> 4) & 0xF)) << 4) | (u & 0xF));
    assert(u <= 0x10FFFF);
    assert(((((((((u >> 20) & 0xF) << 4 | ((u >> 16) & 0xF)) << 4 | ((u >> 12) & 0xF)) << 4 | ((u
        >> 8) & 0xF)) << 4 | ((u >> 4) & 0xF)) << 4) | (u & 0xF)) == u) by (bit_vector)
        requires
            u <= 0x10FFFF,
    ;
}

/// Decoding inverts encoding: every directory name survives the round
/// trip through its external identifier.
#[verifier::rlimit(60)]
pub proof fn lemma_decode_encode(s: Seq<char>)
    ensures
        spec_decode(spec_encode(s)) == Some(s),
    decreases s.len(),
{
    if s.len() == 0 {
        assert(spec_encode(s) =~= Seq::<char>::empty());
    } else {
        let c = s[0];
        let rest = s.subrange(1, s.len() as int);
        lemma_decode_encode(rest);
        let e = spec_encode(s);
        assert(e == encode_char(c) + spec_encode(rest));
        if is_plain_char(c) {
            assert(e[0] == c);
            assert(c != '%');
            assert(e.subrange(1, e.len() as int) =~= spec_encode(rest));
            assert(seq![c] + rest =~= s);
        } else {
            lemma_encode_char_unfold(c);
            let u = c as u32;
            let e7 = encode_char(c);
            assert(e[0] == '%');
            assert(e.len() >= 7);
            assert(forall|k: int| 1 <= k < 7 ==> e[k] == e7[k]);
            assert(e.subrange(1, 7) =~= e7.subrange(1, 7));
            assert(hex6_val(e.subrange(1, 7)) == u);
            assert(is_scalar(u));
            assert(e.subrange(7, e.len() as int) =~= spec_encode(rest));
            assert(seq![u as char] + rest =~= s);
        }
    }
}

/// A nibble written as a hex digit reads back as itself.
pub proof fn lemma_hex_char_of_val(n: u32)
    requires
        n < 16,
    ensures
        is_hex_char(hex_char_of(n)),
        hex_val(hex_char_of(n)) == Some(n),
{
}

} // verus!
