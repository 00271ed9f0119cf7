//! The transfer code: a 128-bit secret shown as 26 Crockford base-32 symbols in
//! groups of four, and read back tolerantly.

use vstd::prelude::*;
use vstd::arithmetic::power::pow;
use crate::text::to_chars;

verus! {

/// Length of the raw transfer secret in bytes (128 bits).
pub const TRANSFER_SECRET_LEN: usize = 16;

/// Number of base-32 symbols a 16-byte secret encodes to.
pub const SECRET_SYMBOLS: usize = 26;

/// Display grouping size.
pub const GROUP: usize = 4;

// ---------------------------------------------------------------------------
// Model
// ---------------------------------------------------------------------------

/// The big-endian number that `b` writes in base 256.
pub open spec fn bytes_value(b: Seq<u8>) -> nat
    decreases b.len(),
{
    if b.len() == 0 {
        0
    } else {
        bytes_value(b.drop_last()) * 256 + b.last() as nat
    }
}

/// The big-endian number that `s` writes in base 32.
pub open spec fn symbols_value(s: Seq<u8>) -> nat
    decreases s.len(),
{
    if s.len() == 0 {
        0
    } else {
        symbols_value(s.drop_last()) * 32 + s.last() as nat
    }
}

/// The last `k` base-256 digits of `n`, most significant first.
pub open spec fn base256(n: nat, k: nat) -> Seq<u8>
    decreases k,
{
    if k == 0 {
        Seq::empty()
    } else {
        base256(n / 256, (k - 1) as nat).push((n % 256) as u8)
    }
}

/// The last `k` base-32 digits of `n`, most significant first.
pub open spec fn base32(n: nat, k: nat) -> Seq<u8>
    decreases k,
{
    if k == 0 {
        Seq::empty()
    } else {
        base32(n / 32, (k - 1) as nat).push((n % 32) as u8)
    }
}

/// The symbol for a base-32 digit: the digits, then the letters without I, L, O
/// and U.
pub open spec fn crockford(v: u8) -> char {
    if v < 10 {
        (48 + v) as char
    } else if v < 18 {
        (65 + (v - 10)) as char
    } else if v < 20 {
        (74 + (v - 18)) as char
    } else if v < 22 {
        (77 + (v - 20)) as char
    } else if v < 27 {
        (80 + (v - 22)) as char
    } else {
        (86 + (v - 27)) as char
    }
}

/// Whether `c` is one of the 32 symbols.
pub open spec fn in_alphabet(c: char) -> bool {
    exists|v: u8| v < 32 && #[trigger] crockford(v) == c
}

/// `c` in upper case, if it is an ASCII letter.
pub open spec fn ascii_upper(c: char) -> char {
    if 'a' <= c <= 'z' {
        (c as u32 - 32) as char
    } else {
        c
    }
}

/// The look-alikes `O`, `I` and `L` folded to the digits they resemble.
pub open spec fn fold_lookalike(c: char) -> char {
    if c == 'O' {
        '0'
    } else if c == 'I' || c == 'L' {
        '1'
    } else {
        c
    }
}

/// The base-32 digit that a typed character stands for, whatever its case.
pub open spec fn symbol_of(c: char) -> Option<u8> {
    let u = fold_lookalike(ascii_upper(c));
    if in_alphabet(u) {
        Some(choose|v: u8| v < 32 && #[trigger] crockford(v) == u)
    } else {
        None
    }
}

/// Whether `c` is an ASCII letter or digit.
pub open spec fn ascii_alnum(c: char) -> bool {
    '0' <= c <= '9' || 'A' <= c <= 'Z' || 'a' <= c <= 'z'
}

/// The ASCII letters and digits of `s`: separators and spacing are dropped.
pub open spec fn payload(s: Seq<char>) -> Seq<char> {
    s.filter(|c: char| ascii_alnum(c))
}

/// Whether every character stands for a symbol.
pub open spec fn all_symbols(s: Seq<char>) -> bool {
    forall|i: int| 0 <= i < s.len() ==> symbol_of(#[trigger] s[i]) is Some
}

/// The digits that the characters of `s` stand for.
pub open spec fn digits_of(s: Seq<char>) -> Seq<u8> {
    s.map_values(|c: char| symbol_of(c)->0)
}

/// The canonical code of a secret: its 128 bits and two zero bits, five bits to a
/// symbol.
pub open spec fn code_of(secret: Seq<u8>) -> Seq<char> {
    base32(4 * bytes_value(secret), 26).map_values(|v: u8| crockford(v))
}

/// `s` with a dash before every fourth character but the first.
pub open spec fn grouped(s: Seq<char>) -> Seq<char>
    decreases s.len(),
{
    if s.len() == 0 {
        Seq::empty()
    } else {
        let i = s.len() - 1;
        let before = grouped(s.drop_last());
        if i > 0 && i % 4 == 0 {
            before.push('-').push(s.last())
        } else {
            before.push(s.last())
        }
    }
}

/// The secret that a typed code stands for: exactly 26 symbols, whose first 128
/// bits are the secret.
pub open spec fn secret_of(input: Seq<char>) -> Option<Seq<u8>> {
    let p = payload(input);
    if p.len() == 26 && all_symbols(p) {
        Some(base256(symbols_value(digits_of(p)) / 4, 16))
    } else {
        None
    }
}

// ---------------------------------------------------------------------------
// Symbols
// ---------------------------------------------------------------------------

/// Distinct digits have distinct symbols, and every symbol is an upper-case letter
/// or digit that folds to itself.
pub proof fn lemma_crockford(v: u8)
    requires
        v < 32,
    ensures
        ascii_alnum(crockford(v)),
        fold_lookalike(ascii_upper(crockford(v))) == crockford(v),
        symbol_of(crockford(v)) == Some(v),
        forall|w: u8| w < 32 && #[trigger] crockford(w) == crockford(v) ==> w == v,
{
    assert(crockford(v) == crockford(v));
}

/// Folds one input character to its base-32 value, tolerating case and the usual
/// look-alikes (`O` for `0`, `I` or `L` for `1`). `None` for a non-symbol.
pub fn decode_symbol(c: char) -> (r: Option<u8>)
    ensures
        r == symbol_of(c),
{
    let u: u32 = if 'a' <= c && c <= 'z' { c as u32 - 32 } else { c as u32 };
    let u: u32 = if u == 79 { 48 } else if u == 73 || u == 76 { 49 } else { u };
    let ghost f = fold_lookalike(ascii_upper(c));
    assert(u == f as u32);
    let v: u8 = if 48 <= u && u <= 57 {
        (u - 48) as u8
    } else if 65 <= u && u <= 72 {
        (u - 65 + 10) as u8
    } else if 74 <= u && u <= 75 {
        (u - 74 + 18) as u8
    } else if 77 <= u && u <= 78 {
        (u - 77 + 20) as u8
    } else if 80 <= u && u <= 84 {
        (u - 80 + 22) as u8
    } else if 86 <= u && u <= 90 {
        (u - 86 + 27) as u8
    } else {
        proof {
            assert forall|w: u8| w < 32 implies #[trigger] crockford(w) != f by {
                lemma_crockford(w);
            }
        }
        return None;
    };
    proof {
        assert(crockford(v) == f);
        lemma_crockford(v);
    }
    Some(v)
}

/// The symbol for a base-32 digit.
fn symbol_char(v: u8) -> (c: char)
    requires
        v < 32,
    ensures
        c == crockford(v),
{
    if v < 10 {
        (48 + v) as char
    } else if v < 18 {
        (65 + (v - 10)) as char
    } else if v < 20 {
        (74 + (v - 18)) as char
    } else if v < 22 {
        (77 + (v - 20)) as char
    } else if v < 27 {
        (80 + (v - 22)) as char
    } else {
        (86 + (v - 27)) as char
    }
}

// ---------------------------------------------------------------------------
// Encoding
// ---------------------------------------------------------------------------

/// The code's characters for the last `k` base-32 digits of `n`.
fn base32_text(n: u128, k: usize) -> (r: String)
    ensures
        r@ == base32(n as nat, k as nat).map_values(|v: u8| crockford(v)),
    decreases k,
{
    if k == 0 {
        let s = String::new();
        assert(s@ =~= base32(n as nat, 0).map_values(|v: u8| crockford(v)));
        s
    } else {
        let mut s = base32_text(n / 32, k - 1);
        let d: u8 = (n % 32) as u8;
        s.push(symbol_char(d));
        proof {
            let before = base32((n / 32) as nat, (k - 1) as nat);
            assert(base32(n as nat, k as nat) == before.push(d));
            assert(s@ =~= before.push(d).map_values(|v: u8| crockford(v)));
        }
        s
    }
}

/// Encodes the raw secret to its canonical (ungrouped, upper-case) base-32 form.
pub fn encode_transfer_secret(bytes: &[u8; 16]) -> (r: String)
    ensures
        r@ == code_of(bytes@),
{
    let mut n: u128 = 0;
    let mut i: usize = 0;
    assert(bytes@.take(0) =~= Seq::<u8>::empty());
    proof {
        lemma_pow_steps();
    }
    while i < 16
        invariant
            i <= 16,
            n == bytes_value(bytes@.take(i as int)),
            n < pow(256, i as nat),
        decreases 16 - i,
    {
        proof {
            assert(bytes@.take(i + 1).drop_last() =~= bytes@.take(i as int));
            lemma_pow_steps();
            lemma_pow_256_bound(i as nat);
        }
        n = n * 256 + bytes[i] as u128;
        i += 1;
    }
    assert(bytes@.take(16) =~= bytes@);
    proof {
        lemma_pow_steps();
    }
    // The last symbol holds three bits of the secret and two zero bits.
    let mut s = base32_text(n / 8, 25);
    let d: u8 = ((n % 8) * 4) as u8;
    s.push(symbol_char(d));
    proof {
        let m = 4 * bytes_value(bytes@);
        assert(m / 32 == n / 8);
        assert(m % 32 == (n % 8) * 4);
        let before = base32((n / 8) as nat, 25);
        assert(base32(m, 26) == before.push(d));
        assert(s@ =~= before.push(d).map_values(|v: u8| crockford(v)));
    }
    s
}

/// Inserts group separators into a canonical code for display: `ABCD-EFGH-…`.
pub fn group_transfer_code(code: &str) -> (r: String)
    ensures
        r@ == grouped(code@),
{
    let v = to_chars(code);
    let mut out = String::new();
    let mut i: usize = 0;
    while i < v.len()
        invariant
            v@ == code@,
            i <= v@.len(),
            out@ == grouped(code@.take(i as int)),
        decreases v@.len() - i,
    {
        assert(code@.take(i + 1).drop_last() =~= code@.take(i as int));
        if i > 0 && i % GROUP == 0 {
            out.push('-');
        }
        out.push(v[i]);
        i += 1;
    }
    assert(code@.take(v@.len() as int) =~= code@);
    out
}

/// The full display string for a secret: grouped base 32.
pub fn display_transfer_code(bytes: &[u8; 16]) -> (r: String)
    ensures
        r@ == grouped(code_of(bytes@)),
{
    group_transfer_code(&encode_transfer_secret(bytes))
}

// ---------------------------------------------------------------------------
// Decoding
// ---------------------------------------------------------------------------

/// The letters and digits of `input` as base-32 digits, unless one is no symbol.
fn payload_digits(input: &str) -> (r: Option<Vec<u8>>)
    ensures
        match r {
            Some(d) => all_symbols(payload(input@)) && d@ == digits_of(payload(input@)),
            None => !all_symbols(payload(input@)),
        },
{
    let v = to_chars(input);
    let mut out: Vec<u8> = Vec::new();
    let mut i: usize = 0;
    assert(payload(input@.take(0)) =~= Seq::<char>::empty()) by {
        reveal(Seq::filter);
    }
    let mut bad = false;
    while i < v.len()
        invariant
            v@ == input@,
            i <= v@.len(),
            bad == !all_symbols(payload(input@.take(i as int))),
            !bad ==> out@ == digits_of(payload(input@.take(i as int))),
        decreases v@.len() - i,
    {
        let c = v[i];
        let ghost p0 = payload(input@.take(i as int));
        let ghost p1 = payload(input@.take(i + 1));
        proof {
            assert(input@.take(i + 1).drop_last() =~= input@.take(i as int));
            assert(input@.take(i + 1).last() == c);
            reveal(Seq::filter);
        }
        if ('0' <= c && c <= '9') || ('A' <= c && c <= 'Z') || ('a' <= c && c <= 'z') {
            assert(p1 == p0.push(c));
            assert forall|k: int| 0 <= k < p0.len() implies p1[k] == #[trigger] p0[k] by {}
            match decode_symbol(c) {
                Some(d) => {
                    out.push(d);
                    proof {
                        assert(all_symbols(p1) == all_symbols(p0)) by {
                            if all_symbols(p1) {
                                assert forall|k: int| 0 <= k < p0.len() implies symbol_of(
                                    #[trigger] p0[k],
                                ) is Some by {
                                    assert(symbol_of(p1[k]) is Some);
                                }
                            }
                        }
                        if !bad {
                            assert(digits_of(p1) =~= digits_of(p0).push(d));
                        }
                    }
                },
                None => {
                    bad = true;
                    assert(symbol_of(p1[p0.len() as int]) is None);
                },
            }
        } else {
            assert(p1 == p0);
        }
        i += 1;
    }
    assert(input@.take(v@.len() as int) =~= input@);
    if bad {
        None
    } else {
        Some(out)
    }
}

/// Decodes a user-entered transfer code back to the raw 16-byte secret. Separators
/// and whitespace are ignored; the payload must be exactly [`SECRET_SYMBOLS`] valid
/// symbols or this returns `None`.
pub fn decode_transfer_code(input: &str) -> (r: Option<[u8; 16]>)
    ensures
        match r {
            Some(a) => secret_of(input@) == Some(a@),
            None => secret_of(input@) is None,
        },
{
    let digits = match payload_digits(input) {
        Some(d) => d,
        None => {
            return None;
        },
    };
    if digits.len() != SECRET_SYMBOLS {
        return None;
    }
    let ghost p = payload(input@);
    proof {
        lemma_pow_steps();
    }
    let mut n: u128 = 0;
    let mut i: usize = 0;
    assert(digits@.take(0) =~= Seq::<u8>::empty());
    while i < 25
        invariant
            i <= 25,
            digits@.len() == 26,
            forall|k: int| 0 <= k < 26 ==> #[trigger] digits@[k] < 32,
            n == symbols_value(digits@.take(i as int)),
            n < pow(32, i as nat),
        decreases 25 - i,
    {
        proof {
            assert(digits@.take(i + 1).drop_last() =~= digits@.take(i as int));
            lemma_pow_steps();
            lemma_pow_32_bound(i as nat);
        }
        n = n * 32 + digits[i] as u128;
        i += 1;
    }
    proof {
        lemma_pow_steps();
        assert(digits@.drop_last() =~= digits@.take(25));
        assert(symbols_value(digits@) == n * 32 + digits@[25]);
    }
    let mut m: u128 = n * 8 + (digits[25] / 4) as u128;
    assert(m == symbols_value(digits@) / 4);
    let mut out = [0u8; 16];
    let ghost m0 = m as nat;
    let mut k: usize = 16;
    while k > 0
        invariant
            k <= 16,
            out@.len() == 16,
            base256(m0, 16) == base256(m as nat, k as nat) + out@.subrange(k as int, 16),
        decreases k,
    {
        let d: u8 = (m % 256) as u8;
        let ghost tail = out@.subrange(k as int, 16);
        out[k - 1] = d;
        proof {
            let rest = base256((m / 256) as nat, (k - 1) as nat);
            assert(base256(m as nat, k as nat) == rest.push(d));
            assert(out@.subrange(k - 1, 16) =~= seq![d] + tail);
            assert(rest.push(d) + tail =~= rest + (seq![d] + tail));
        }
        m = m / 256;
        k -= 1;
    }
    assert(out@.subrange(0, 16) =~= out@);
    assert(base256(m as nat, 0) + out@ =~= out@);
    Some(out)
}

// ---------------------------------------------------------------------------
// Numbers in base 32 and 256
// ---------------------------------------------------------------------------

proof fn lemma_pow_steps()
    ensures
        pow(256, 0) == 1,
        pow(32, 0) == 1,
        pow(256, 16) == 0x1_0000_0000_0000_0000_0000_0000_0000_0000int,
        pow(32, 25) == 0x2000_0000_0000_0000_0000_0000_0000_0000int,
        pow(32, 26) == 0x4_0000_0000_0000_0000_0000_0000_0000_0000int,
{
    reveal(pow);
    reveal_with_fuel(pow, 28);
}

proof fn lemma_pow_256_bound(i: nat)
    requires
        i < 16,
    ensures
        pow(256, i + 1) == 256 * pow(256, i),
        pow(256, i + 1) <= 0x1_0000_0000_0000_0000_0000_0000_0000_0000int,
{
    reveal(pow);
    lemma_pow_steps();
    vstd::arithmetic::power::lemma_pow_increases(256, i + 1, 16);
}

proof fn lemma_pow_32_bound(i: nat)
    requires
        i < 25,
    ensures
        pow(32, i + 1) == 32 * pow(32, i),
        pow(32, i + 1) <= 0x2000_0000_0000_0000_0000_0000_0000_0000int,
{
    reveal(pow);
    lemma_pow_steps();
    vstd::arithmetic::power::lemma_pow_increases(32, i + 1, 25);
}

proof fn lemma_base32_value(n: nat, k: nat)
    requires
        n < pow(32, k),
    ensures
        base32(n, k).len() == k,
        symbols_value(base32(n, k)) == n,
        forall|i: int| 0 <= i < k ==> #[trigger] base32(n, k)[i] < 32,
    decreases k,
{
    reveal(pow);
    if k > 0 {
        assert(pow(32, k) == 32 * pow(32, (k - 1) as nat));
        lemma_base32_value(n / 32, (k - 1) as nat);
        assert(base32(n, k).drop_last() =~= base32(n / 32, (k - 1) as nat));
        assert forall|i: int| 0 <= i < k implies #[trigger] base32(n, k)[i] < 32 by {
            if i < k - 1 {
                assert(base32(n, k)[i] == base32(n / 32, (k - 1) as nat)[i]);
            }
        }
    }
}

proof fn lemma_bytes_round_trip(b: Seq<u8>)
    ensures
        bytes_value(b) < pow(256, b.len()),
        base256(bytes_value(b), b.len()) == b,
    decreases b.len(),
{
    reveal(pow);
    if b.len() > 0 {
        let t = b.drop_last();
        lemma_bytes_round_trip(t);
        assert(pow(256, b.len()) == 256 * pow(256, t.len()));
        assert(bytes_value(b) / 256 == bytes_value(t));
        assert(bytes_value(b) % 256 == b.last());
        assert(base256(bytes_value(b), b.len()) =~= t.push(b.last()));
        assert(t.push(b.last()) =~= b);
    } else {
        assert(base256(0, 0) =~= b);
    }
}

proof fn lemma_grouped_payload(s: Seq<char>)
    requires
        forall|i: int| 0 <= i < s.len() ==> ascii_alnum(#[trigger] s[i]),
    ensures
        payload(grouped(s)) == s,
    decreases s.len(),
{
    reveal(Seq::filter);
    if s.len() > 0 {
        let t = s.drop_last();
        assert forall|i: int| 0 <= i < t.len() implies ascii_alnum(#[trigger] t[i]) by {
            assert(t[i] == s[i]);
        }
        lemma_grouped_payload(t);
        assert(ascii_alnum(s[s.len() - 1]));
        let g = grouped(t);
        assert(g.push('-').drop_last() =~= g);
        assert(g.push('-').push(s.last()).drop_last() =~= g.push('-'));
        assert(g.push(s.last()).drop_last() =~= g);
        assert(payload(g.push('-')) == payload(g));
        assert(t.push(s.last()) =~= s);
    } else {
        assert(payload(grouped(s)) =~= s);
    }
}

// ---------------------------------------------------------------------------
// Laws
// ---------------------------------------------------------------------------

/// The canonical form of a secret has 26 symbols, all of them in the alphabet.
pub proof fn law_canonical_code_shape(secret: Seq<u8>)
    requires
        secret.len() == 16,
    ensures
        code_of(secret).len() == 26,
        forall|i: int| 0 <= i < 26 ==> in_alphabet(#[trigger] code_of(secret)[i]),
{
    lemma_pow_steps();
    lemma_bytes_round_trip(secret);
    let d = base32(4 * bytes_value(secret), 26);
    lemma_base32_value(4 * bytes_value(secret), 26);
    assert forall|i: int| 0 <= i < 26 implies in_alphabet(#[trigger] code_of(secret)[i]) by {
        assert(crockford(d[i]) == code_of(secret)[i]);
    }
}

/// A displayed code reads back as the secret it was made from.
pub proof fn law_displayed_code_reads_back(secret: Seq<u8>)
    requires
        secret.len() == 16,
    ensures
        secret_of(grouped(code_of(secret))) == Some(secret),
{
    lemma_pow_steps();
    lemma_bytes_round_trip(secret);
    let n = bytes_value(secret);
    let d = base32(4 * n, 26);
    lemma_base32_value(4 * n, 26);
    let c = code_of(secret);
    assert forall|i: int| 0 <= i < c.len() implies ascii_alnum(#[trigger] c[i]) && symbol_of(c[i])
        == Some(d[i]) by {
        lemma_crockford(d[i]);
    }
    lemma_grouped_payload(c);
    assert(all_symbols(c));
    assert(digits_of(c) =~= d);
    assert((4 * n) / 4 == n);
}

/// Case does not matter: a letter and its other case stand for the same symbol.
pub proof fn law_case_is_ignored(c: char)
    ensures
        symbol_of(ascii_upper(c)) == symbol_of(c),
{
    assert(ascii_upper(ascii_upper(c)) == ascii_upper(c));
}

/// Two inputs that differ only in separators and spacing give the same secret.
pub proof fn law_separators_are_ignored(a: Seq<char>, b: Seq<char>)
    requires
        payload(a) == payload(b),
    ensures
        secret_of(a) == secret_of(b),
{
}

/// Whoever types the code that is shown gets the secret it stands for.
pub proof fn law_the_shown_code_gives_the_secret(
    bytes: &[u8; 16],
    shown: String,
    typed: &str,
    r: Option<[u8; 16]>,
)
    requires
        call_ensures(display_transfer_code, (bytes,), shown),
        typed@ == shown@,
        call_ensures(decode_transfer_code, (typed,), r),
    ensures
        r is Some && r->0@ == bytes@,
{
    law_displayed_code_reads_back(bytes@);
}

/// A code is made of digits and capital letters, without those that are easily mistaken; it
/// has twenty-six of them, and different secrets have different codes.
pub proof fn law_codes_are_readable_and_distinct(
    a: &[u8; 16],
    b: &[u8; 16],
    ra: String,
    rb: String,
)
    requires
        call_ensures(encode_transfer_secret, (a,), ra),
        call_ensures(encode_transfer_secret, (b,), rb),
    ensures
        ra@.len() == 26,
        forall|i: int|
            0 <= i < 26 ==> ('0' <= #[trigger] ra@[i] <= '9' || 'A' <= ra@[i] <= 'Z') && ra@[i]
                != 'I' && ra@[i] != 'L' && ra@[i] != 'O' && ra@[i] != 'U',
        ra@ == rb@ ==> a@ == b@,
{
    law_canonical_code_shape(a@);
    law_displayed_code_reads_back(a@);
    law_displayed_code_reads_back(b@);
    assert forall|i: int| 0 <= i < 26 implies ('0' <= #[trigger] ra@[i] <= '9' || 'A' <= ra@[i]
        <= 'Z') && ra@[i] != 'I' && ra@[i] != 'L' && ra@[i] != 'O' && ra@[i] != 'U' by {
        assert(in_alphabet(code_of(a@)[i]));
        let v = choose|v: u8| v < 32 && #[trigger] crockford(v) == ra@[i];
        assert(crockford(v) == ra@[i]);
    }
}

/// A typed character counts for the symbol it looks like, whatever its case: a digit for
/// itself, `O` for zero, `I` and `L` for one; `U` and what is no letter or digit for none.
pub proof fn law_lookalikes_are_read_kindly(c: char, r: Option<u8>)
    requires
        call_ensures(decode_symbol, (c,), r),
    ensures
        '0' <= c <= '9' ==> r == Some((c as u8 - 48) as u8),
        c == 'O' || c == 'o' ==> r == Some(0u8),
        c == 'I' || c == 'i' || c == 'L' || c == 'l' ==> r == Some(1u8),
        c == 'U' || c == 'u' || c == '-' || c == ' ' ==> r is None,
        c == 'A' || c == 'a' ==> r == Some(10u8),
        c == 'Z' || c == 'z' ==> r == Some(31u8),
        r is Some ==> r->0 < 32,
{
    let u = fold_lookalike(ascii_upper(c));
    if '0' <= u <= '9' {
        let v = (u as u8 - 48) as u8;
        lemma_crockford(v);
        assert(crockford(v) == u);
    }
    if c == 'A' || c == 'a' {
        lemma_crockford(10);
        assert(crockford(10) == u);
    }
    if c == 'Z' || c == 'z' {
        lemma_crockford(31);
        assert(crockford(31) == u);
    }
    if in_alphabet(u) {
        let v = choose|v: u8| v < 32 && #[trigger] crockford(v) == u;
        assert(crockford(v) == u);
    }
}

/// A code of the wrong length is none: dashes and blanks aside, it takes twenty-six symbols.
pub proof fn law_a_code_has_its_length(input: &str, r: Option<[u8; 16]>)
    requires
        call_ensures(decode_transfer_code, (input,), r),
        payload(input@).len() != 26,
    ensures
        r is None,
{
}

/// A shown code is the canonical one in groups of four with a dash between them.
pub proof fn law_codes_are_shown_in_groups(code: &str, r: String, i: int)
    requires
        call_ensures(group_transfer_code, (code,), r),
        0 <= i < code@.len(),
    ensures
        r@.len() == code@.len() + (if code@.len() == 0 {
            0int
        } else {
            (code@.len() - 1) / 4
        }),
        r@[i + i / 4] == code@[i],
        i > 0 && i % 4 == 0 ==> r@[i + i / 4 - 1] == '-',
{
    lemma_grouping(code@, i);
}

proof fn lemma_grouping(s: Seq<char>, i: int)
    requires
        0 <= i < s.len(),
    ensures
        grouped(s).len() == s.len() + (s.len() - 1) / 4,
        grouped(s)[i + i / 4] == s[i],
        i > 0 && i % 4 == 0 ==> grouped(s)[i + i / 4 - 1] == '-',
    decreases s.len(),
{
    let t = s.drop_last();
    if t.len() > 0 {
        lemma_grouping(
            t,
            if i < t.len() {
                i
            } else {
                0
            },
        );
    } else {
        reveal_with_fuel(grouped, 2);
    }
}

} // verus!
