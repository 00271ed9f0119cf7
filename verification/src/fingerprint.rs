//! Fingerprints in hexadecimal form.

use vstd::prelude::*;
use vstd::string::*;
use vstd::utf8::encode_utf8;
use crate::text::{hex_digit, hex_value};
use crate::trash::lemma_ascii_one;

verus! {

/// Whether every byte is a hexadecimal digit.
pub open spec fn all_hex(b: Seq<u8>) -> bool {
    forall|i: int| 0 <= i < b.len() ==> hex_value(#[trigger] b[i]) is Some
}

/// The byte that two hexadecimal digits write.
pub open spec fn hex_pair(hi: u8, lo: u8) -> u8 {
    (hex_value(hi)->0 * 16 + hex_value(lo)->0) as u8
}

/// The fingerprint that a text writes: exactly 64 hexadecimal digits.
pub open spec fn fingerprint_of(s: Seq<char>) -> Option<Seq<u8>> {
    let b = encode_utf8(s);
    if b.len() == 64 && all_hex(b) {
        Some(Seq::new(32, |i: int| hex_pair(b[2 * i], b[2 * i + 1])))
    } else {
        None
    }
}

/// Reads a fingerprint of 64 hexadecimal digits.
pub fn decode_fpr(hex_str: &str) -> (r: Option<[u8; 32]>)
    ensures
        match r {
            Some(a) => fingerprint_of(hex_str@) == Some(a@),
            None => fingerprint_of(hex_str@) is None,
        },
{
    let bytes = hex_str.as_bytes();
    if bytes.len() != 64 {
        return None;
    }
    let mut out = [0u8; 32];
    let mut k: usize = 0;
    while k < 32
        invariant
            k <= 32,
            bytes@.len() == 64,
            bytes@ == encode_utf8(hex_str@),
            forall|i: int| 0 <= i < 2 * k ==> hex_value(#[trigger] bytes@[i]) is Some,
            forall|i: int|
                0 <= i < k ==> #[trigger] out@[i] == hex_pair(bytes@[2 * i], bytes@[2 * i + 1]),
        decreases 32 - k,
    {
        match (hex_digit(bytes[2 * k]), hex_digit(bytes[2 * k + 1])) {
            (Some(hi), Some(lo)) => {
                let ghost before = out@;
                out[k] = hi * 16 + lo;
                assert forall|i: int| 0 <= i < k + 1 implies #[trigger] out@[i] == hex_pair(
                    bytes@[2 * i],
                    bytes@[2 * i + 1],
                ) by {
                    if i < k {
                        assert(out@[i] == before[i]);
                    }
                }
            },
            _ => {
                assert(!all_hex(bytes@)) by {
                    if all_hex(bytes@) {
                        assert(hex_value(bytes@[2 * k as int]) is Some);
                        assert(hex_value(bytes@[2 * k + 1]) is Some);
                    }
                }
                return None;
            },
        }
        k += 1;
    }
    assert(out@ =~= Seq::new(32, |i: int| hex_pair(bytes@[2 * i], bytes@[2 * i + 1])));
    Some(out)
}

/// The lower-case hexadecimal digit of a value below 16.
pub open spec fn hex_char(d: u8) -> char {
    if d < 10 {
        ('0' as u8 + d) as char
    } else {
        ('a' as u8 + (d - 10)) as char
    }
}

/// Bytes in lower-case hexadecimal.
pub open spec fn hex_text(b: Seq<u8>) -> Seq<char> {
    Seq::new(
        2 * b.len(),
        |i: int|
            if i % 2 == 0 {
                hex_char((b[i / 2] / 16) as u8)
            } else {
                hex_char((b[i / 2] % 16) as u8)
            },
    )
}

/// The lower-case hexadecimal digit of a value below 16.
fn hex_char_of(d: u8) -> (c: char)
    requires
        d < 16,
    ensures
        c == hex_char(d),
{
    if d < 10 {
        (48u8 + d) as char
    } else {
        (97u8 + (d - 10)) as char
    }
}

/// Writes bytes in lower-case hexadecimal.
pub fn hex(b: &[u8]) -> (r: String)
    ensures
        r@ == hex_text(b@),
{
    let mut r = String::new();
    let n: usize = b.len();
    let mut k: usize = 0;
    while k < n
        invariant
            k <= n,
            n == b@.len(),
            r@ == hex_text(b@).take(2 * k),
        decreases n - k,
    {
        r.push(hex_char_of(b[k] / 16));
        r.push(hex_char_of(b[k] % 16));
        k += 1;
        proof {
            let t = hex_text(b@);
            assert((2 * (k - 1)) / 2 == k - 1);
            assert((2 * (k - 1) + 1) / 2 == k - 1);
            assert(t[2 * (k - 1)] == hex_char((b@[k - 1] / 16) as u8));
            assert(t[2 * (k - 1) + 1] == hex_char((b@[k - 1] % 16) as u8));
            assert(r@ =~= t.take(2 * k));
        }
    }
    assert(hex_text(b@).take(2 * n) =~= hex_text(b@));
    r
}

/// Whether two fingerprints are the same.
pub fn same_fpr(a: &[u8; 32], b: &[u8; 32]) -> (r: bool)
    ensures
        r == (a@ == b@),
{
    let mut i: usize = 0;
    while i < 32
        invariant
            i <= 32,
            forall|k: int| 0 <= k < i ==> a@[k] == b@[k],
        decreases 32 - i,
    {
        if a[i] != b[i] {
            return false;
        }
        i += 1;
    }
    assert(a@ =~= b@);
    true
}

proof fn lemma_ascii_bytes(s: Seq<char>)
    requires
        forall|i: int| 0 <= i < s.len() ==> (#[trigger] s[i] as u32) < 128,
    ensures
        encode_utf8(s).len() == s.len(),
        forall|i: int| 0 <= i < s.len() ==> encode_utf8(s)[i] == #[trigger] s[i] as u8,
    decreases s.len(),
{
    if s.len() > 0 {
        let t = s.drop_first();
        lemma_ascii_bytes(t);
        lemma_ascii_one(s[0]);
        assert(encode_utf8(s) =~= seq![s[0] as u8] + encode_utf8(t)) by {
            assert(seq![s[0]].drop_first() =~= Seq::<char>::empty());
            reveal_with_fuel(encode_utf8, 3);
        }
        assert forall|i: int| 0 <= i < s.len() implies encode_utf8(s)[i] == #[trigger] s[i] as u8 by {
            if i > 0 {
                assert(s[i] == t[i - 1]);
            }
        }
    }
}

/// A fingerprint written in hexadecimal is read back as it was.
pub proof fn law_fingerprint_round_trip(f: Seq<u8>)
    requires
        f.len() == 32,
    ensures
        fingerprint_of(hex_text(f)) == Some(f),
{
    let t = hex_text(f);
    lemma_ascii_bytes(t);
    let b = encode_utf8(t);
    assert forall|i: int| 0 <= i < b.len() implies hex_value(#[trigger] b[i]) is Some by {
        assert(b[i] == t[i] as u8);
    }
    assert forall|i: int| 0 <= i < 32 implies hex_pair(b[2 * i], b[2 * i + 1]) == #[trigger] f[i] by {
        assert((2 * i) / 2 == i && (2 * i + 1) / 2 == i);
        assert(b[2 * i] == t[2 * i] as u8);
        assert(b[2 * i + 1] == t[2 * i + 1] as u8);
    }
    assert(Seq::new(32, |i: int| hex_pair(b[2 * i], b[2 * i + 1])) =~= f);
}

/// A fingerprint that is written out reads back; and what reads as one has exactly sixty-four
/// hexadecimal digits, two for each byte, the higher first.
pub proof fn law_a_written_fingerprint_reads_back(
    f: &[u8; 32],
    b: &[u8],
    written: String,
    text: &str,
    r: Option<[u8; 32]>,
)
    requires
        b@ == f@,
        call_ensures(hex, (b,), written),
        text@ == written@,
        call_ensures(decode_fpr, (text,), r),
    ensures
        r is Some && r->0@ == f@,
        written@.len() == 64,
{
    law_fingerprint_round_trip(f@);
}

/// Bytes are written as two lower-case hexadecimal digits each, the higher one first.
pub proof fn law_bytes_are_written_digit_by_digit(b: &[u8], r: String, i: int)
    requires
        call_ensures(hex, (b,), r),
        0 <= i < b@.len(),
    ensures
        r@.len() == 2 * b@.len(),
        r@[2 * i] as int == (if b@[i] / 16 < 10 {
            48 + b@[i] / 16
        } else {
            87 + b@[i] / 16
        }),
        r@[2 * i + 1] as int == (if b@[i] % 16 < 10 {
            48 + b@[i] % 16
        } else {
            87 + b@[i] % 16
        }),
{
    assert((2 * i) / 2 == i && (2 * i + 1) / 2 == i);
    assert((2 * i) % 2 == 0 && (2 * i + 1) % 2 == 1);
}

/// What is not sixty-four hexadecimal digits is no fingerprint.
pub proof fn law_only_sixty_four_digits_are_a_fingerprint(text: &str, r: Option<[u8; 32]>, i: int)
    requires
        call_ensures(decode_fpr, (text,), r),
        vstd::utf8::is_ascii_chars(text@),
        r is Some,
    ensures
        text@.len() == 64,
        0 <= i < 64 ==> ('0' <= text@[i] <= '9' || 'a' <= text@[i] <= 'f' || 'A' <= text@[i] <= 'F'),
{
    lemma_ascii_bytes(text@);
    let b = encode_utf8(text@);
    if 0 <= i < 64 {
        assert(hex_value(b[i]) is Some);
        assert(b[i] == text@[i] as u8);
    }
}

} // verus!
