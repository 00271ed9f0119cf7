//! Text primitives: the string operations the rest of the library is built on,
//! each stated over the sequence of characters a string holds.

use vstd::prelude::*;
use vstd::utf8::{encode_utf8, valid_utf8};

verus! {

// ---------------------------------------------------------------------------
// Outside functions
// ---------------------------------------------------------------------------

/// `String::push` appends one character to the end of the string.
pub assume_specification[ String::push ](s: &mut String, c: char)
    ensures
        final(s)@ == old(s)@.push(c),
;

/// `c` in lower case, if it is an ASCII letter.
pub open spec fn ascii_lower(c: char) -> char {
    if 'A' <= c <= 'Z' {
        (c as u32 + 32) as char
    } else {
        c
    }
}

/// What `str::to_lowercase` makes of a text that is not all ASCII.
pub uninterp spec fn unicode_lowercase(s: Seq<char>) -> Seq<char>;

/// A text in lower case.
pub open spec fn lowercase(s: Seq<char>) -> Seq<char> {
    if vstd::utf8::is_ascii_chars(s) {
        s.map_values(|c: char| ascii_lower(c))
    } else {
        unicode_lowercase(s)
    }
}

/// Calls `str::to_lowercase`, the Unicode lower-case mapping, a function of the text
/// alone. In an ASCII text exactly the letters `A` to `Z` change.
#[verifier::external_body]
pub(crate) fn to_lowercase(s: &str) -> (r: String)
    ensures
        r@ == (if vstd::utf8::is_ascii_chars(s@) {
            s@.map_values(|c: char| ascii_lower(c))
        } else {
            unicode_lowercase(s@)
        }),
{
    s.to_lowercase()
}

/// Whether a character has the Unicode property `White_Space`: the controls from tab to
/// carriage return, the next-line control, and the spaces and separators.
pub open spec fn whitespace(c: char) -> bool {
    let n = c as u32;
    ||| 0x09 <= n <= 0x0d
    ||| n == 0x20 || n == 0x85 || n == 0xa0 || n == 0x1680
    ||| 0x2000 <= n <= 0x200a
    ||| n == 0x2028 || n == 0x2029 || n == 0x202f || n == 0x205f || n == 0x3000
}

/// Calls `char::is_whitespace`, which holds of the characters with the Unicode property
/// `White_Space`: those that [`whitespace`] lists.
#[verifier::external_body]
pub(crate) fn is_whitespace(c: char) -> (r: bool)
    ensures
        r == whitespace(c),
{
    c.is_whitespace()
}

/// Whether `char::is_alphanumeric` holds of a character beyond ASCII.
pub uninterp spec fn unicode_alphanumeric(c: char) -> bool;

/// Whether a character is a letter or a number: in ASCII `A` to `Z`, `a` to `z` and
/// `0` to `9`.
pub open spec fn alphanumeric(c: char) -> bool {
    if c as u32 <= 0x7f {
        'A' <= c <= 'Z' || 'a' <= c <= 'z' || '0' <= c <= '9'
    } else {
        unicode_alphanumeric(c)
    }
}

/// Calls `char::is_alphanumeric` (the Unicode alphabetic or numeric properties), a
/// function of the character alone; in ASCII it holds of the letters and digits.
#[verifier::external_body]
pub(crate) fn is_alphanumeric(c: char) -> (r: bool)
    ensures
        r == (if c as u32 <= 0x7f {
            'A' <= c <= 'Z' || 'a' <= c <= 'z' || '0' <= c <= '9'
        } else {
            unicode_alphanumeric(c)
        }),
{
    c.is_alphanumeric()
}

/// `str::from_utf8` of std: it succeeds exactly on well-formed UTF-8, and the text is
/// the one whose encoding the bytes are.
#[verifier::external_body]
pub(crate) fn from_utf8(b: &[u8]) -> (r: Option<String>)
    ensures
        r is Some == valid_utf8(b@),
        r is Some ==> encode_utf8(r->0@) == b@,
{
    match std::str::from_utf8(b) {
        Ok(s) => Some(s.to_string()),
        Err(_) => None,
    }
}

// ---------------------------------------------------------------------------
// Strings and character sequences
// ---------------------------------------------------------------------------

/// The texts of a list of strings.
pub open spec fn texts(v: Seq<String>) -> Seq<Seq<char>> {
    v.map_values(|s: String| s@)
}

/// The text of an optional string.
pub open spec fn opt_text(o: Option<String>) -> Option<Seq<char>> {
    match o {
        Some(s) => Some(s@),
        None => None,
    }
}

/// The characters of `s`, in order.
pub fn to_chars(s: &str) -> (v: Vec<char>)
    ensures
        v@ == s@,
{
    let mut v: Vec<char> = Vec::new();
    for c in it: s.chars()
        invariant
            it.seq() == s@,
            v@ == s@.take(it.index() as int),
    {
        v.push(c);
    }
    v
}

/// The string made of the characters of `v[from..to]`.
pub fn from_chars(v: &[char], from: usize, to: usize) -> (s: String)
    requires
        from <= to <= v@.len(),
    ensures
        s@ == v@.subrange(from as int, to as int),
{
    let mut s = String::new();
    let mut i: usize = from;
    while i < to
        invariant
            from <= i <= to <= v@.len(),
            s@ == v@.subrange(from as int, i as int),
        decreases to - i,
    {
        s.push(v[i]);
        i += 1;
    }
    s
}

/// An owned copy of `s`.
pub fn owned(s: &str) -> (r: String)
    ensures
        r@ == s@,
{
    let mut r = String::new();
    r.append(s);
    r
}

/// The concatenation of two texts.
pub fn concat2(a: &str, b: &str) -> (r: String)
    ensures
        r@ == a@ + b@,
{
    let mut r = owned(a);
    r.append(b);
    r
}

/// The concatenation of three texts.
pub fn concat3(a: &str, b: &str, c: &str) -> (r: String)
    ensures
        r@ == a@ + b@ + c@,
{
    let mut r = concat2(a, b);
    r.append(c);
    r
}

/// The concatenation of four texts.
pub fn concat4(a: &str, b: &str, c: &str, d: &str) -> (r: String)
    ensures
        r@ == a@ + b@ + c@ + d@,
{
    let mut r = concat3(a, b, c);
    r.append(d);
    r
}

/// Whether two texts are the same.
pub fn same_text(a: &str, b: &str) -> (r: bool)
    ensures
        r == (a@ == b@),
{
    owned(a) == owned(b)
}

/// Whether two optional texts are the same.
pub fn same_opt_text(a: &Option<String>, b: &Option<String>) -> (r: bool)
    ensures
        r == (opt_text(*a) == opt_text(*b)),
{
    match (a, b) {
        (Some(x), Some(y)) => *x == *y,
        (None, None) => true,
        _ => false,
    }
}

/// A copy of an optional string.
pub fn clone_opt(o: &Option<String>) -> (r: Option<String>)
    ensures
        opt_text(r) == opt_text(*o),
{
    match o {
        Some(s) => Some(s.clone()),
        None => None,
    }
}

/// A copy of a list of strings.
pub fn clone_texts(v: &[String]) -> (r: Vec<String>)
    ensures
        texts(r@) == texts(v@),
{
    let mut r: Vec<String> = Vec::new();
    let mut i: usize = 0;
    while i < v.len()
        invariant
            i <= v@.len(),
            texts(r@) == texts(v@).take(i as int),
        decreases v@.len() - i,
    {
        r.push(v[i].clone());
        proof {
            assert(texts(v@).take(i + 1) == texts(v@).take(i as int).push(v@[i as int]@));
        }
        i += 1;
    }
    r
}

/// Whether `t` begins with `p`.
pub open spec fn begins_with(t: Seq<char>, p: Seq<char>) -> bool {
    p.len() <= t.len() && t.take(p.len() as int) == p
}

/// Whether `s` begins with `p`.
pub fn starts_with(s: &str, p: &str) -> (r: bool)
    ensures
        r == begins_with(s@, p@),
{
    let sv = to_chars(s);
    let pv = to_chars(p);
    if pv.len() > sv.len() {
        return false;
    }
    let mut i: usize = 0;
    while i < pv.len()
        invariant
            i <= pv@.len() <= sv@.len(),
            pv@ == p@,
            sv@ == s@,
            forall|k: int| 0 <= k < i ==> sv@[k] == pv@[k],
        decreases pv@.len() - i,
    {
        if sv[i] != pv[i] {
            assert(s@.take(p@.len() as int)[i as int] == sv@[i as int]);
            return false;
        }
        i += 1;
    }
    assert(s@.take(p@.len() as int) =~= p@);
    true
}

/// Whether `needle` occurs in `hay` starting at position `k`.
pub open spec fn occurs_at(hay: Seq<char>, needle: Seq<char>, k: int) -> bool {
    0 <= k && k + needle.len() <= hay.len() && hay.subrange(k, k + needle.len()) == needle
}

/// Whether `needle` occurs somewhere in `hay`.
pub open spec fn contains_text(hay: Seq<char>, needle: Seq<char>) -> bool {
    exists|k: int| occurs_at(hay, needle, k)
}

/// Whether the characters `n` stand in `h` at position `k`.
fn matches_at(h: &[char], n: &[char], k: usize) -> (r: bool)
    requires
        k + n@.len() <= h@.len(),
    ensures
        r == occurs_at(h@, n@, k as int),
{
    let total: usize = h.len();
    let mut i: usize = 0;
    while i < n.len()
        invariant
            i <= n@.len(),
            total == h@.len(),
            k + n@.len() <= h@.len(),
            forall|j: int| 0 <= j < i ==> h@[k + j] == n@[j],
        decreases n@.len() - i,
    {
        if h[k + i] != n[i] {
            assert(h@.subrange(k as int, k + n@.len())[i as int] == h@[k + i]);
            return false;
        }
        i += 1;
    }
    assert(h@.subrange(k as int, k + n@.len()) =~= n@);
    true
}

/// Whether `needle` occurs somewhere in `hay`.
pub fn contains(hay: &str, needle: &str) -> (r: bool)
    ensures
        r == contains_text(hay@, needle@),
{
    let h = to_chars(hay);
    let n = to_chars(needle);
    if n.len() > h.len() {
        return false;
    }
    let last: usize = h.len() - n.len();
    let mut k: usize = 0;
    loop
        invariant
            h@ == hay@,
            n@ == needle@,
            last == h@.len() - n@.len(),
            k <= last,
            forall|j: int| 0 <= j < k ==> !occurs_at(hay@, needle@, j),
        decreases last - k,
    {
        if matches_at(&h, &n, k) {
            return true;
        }
        if k == last {
            return false;
        }
        k += 1;
    }
}

// ---------------------------------------------------------------------------
// Positions of a character
// ---------------------------------------------------------------------------

/// The last position of `c` in `s`, or -1.
pub open spec fn last_pos(s: Seq<char>, c: char) -> int
    decreases s.len(),
{
    if s.len() == 0 {
        -1
    } else if s.last() == c {
        s.len() - 1
    } else {
        last_pos(s.drop_last(), c)
    }
}

/// The first position of `c` in `s`, or -1.
pub open spec fn first_pos(s: Seq<char>, c: char) -> int
    decreases s.len(),
{
    if s.len() == 0 {
        -1
    } else if first_pos(s.drop_last(), c) >= 0 {
        first_pos(s.drop_last(), c)
    } else if s.last() == c {
        s.len() - 1
    } else {
        -1
    }
}

/// `last_pos` is where `c` last occurs.
pub proof fn lemma_last_pos(s: Seq<char>, c: char)
    ensures
        -1 <= last_pos(s, c) < s.len(),
        last_pos(s, c) >= 0 ==> s[last_pos(s, c)] == c,
        forall|i: int| last_pos(s, c) < i < s.len() ==> s[i] != c,
    decreases s.len(),
{
    if s.len() > 0 && s.last() != c {
        lemma_last_pos(s.drop_last(), c);
        assert forall|i: int| last_pos(s, c) < i < s.len() implies s[i] != c by {
            if i < s.len() - 1 {
                assert(s[i] == s.drop_last()[i]);
            }
        }
    }
}

/// A position that holds `c` with none after it is the last one.
pub proof fn lemma_last_pos_unique(s: Seq<char>, c: char, k: int)
    requires
        -1 <= k < s.len(),
        k >= 0 ==> s[k] == c,
        forall|i: int| k < i < s.len() ==> s[i] != c,
    ensures
        last_pos(s, c) == k,
{
    lemma_last_pos(s, c);
}

/// `first_pos` is where `c` first occurs.
pub proof fn lemma_first_pos(s: Seq<char>, c: char)
    ensures
        -1 <= first_pos(s, c) < s.len(),
        first_pos(s, c) >= 0 ==> s[first_pos(s, c)] == c && forall|i: int|
            0 <= i < first_pos(s, c) ==> s[i] != c,
        first_pos(s, c) < 0 ==> forall|i: int| 0 <= i < s.len() ==> s[i] != c,
    decreases s.len(),
{
    if s.len() > 0 {
        let t = s.drop_last();
        lemma_first_pos(t, c);
        assert forall|i: int| 0 <= i < t.len() implies s[i] == t[i] by {}
        if first_pos(t, c) < 0 && s.last() != c {
            assert forall|i: int| 0 <= i < s.len() implies s[i] != c by {
                if i < t.len() {
                    assert(s[i] == t[i]);
                }
            }
        }
    }
}

/// A position that holds `c` with none before it is the first one.
pub proof fn lemma_first_pos_unique(s: Seq<char>, c: char, k: int)
    requires
        0 <= k < s.len(),
        s[k] == c,
        forall|i: int| 0 <= i < k ==> s[i] != c,
    ensures
        first_pos(s, c) == k,
{
    lemma_first_pos(s, c);
}

/// The last position of `c` in `v`, if any.
pub fn rfind(v: &[char], c: char) -> (r: Option<usize>)
    ensures
        match r {
            Some(k) => k == last_pos(v@, c) && k < v@.len(),
            None => last_pos(v@, c) == -1,
        },
{
    let mut i: usize = v.len();
    while i > 0
        invariant
            i <= v@.len(),
            forall|k: int| i <= k < v@.len() ==> v@[k] != c,
        decreases i,
    {
        i -= 1;
        if v[i] == c {
            proof {
                lemma_last_pos_unique(v@, c, i as int);
            }
            return Some(i);
        }
    }
    proof {
        lemma_last_pos_unique(v@, c, -1);
    }
    None
}

/// The first position of `c` in `v`, if any.
pub fn find(v: &[char], c: char) -> (r: Option<usize>)
    ensures
        match r {
            Some(k) => k == first_pos(v@, c) && k < v@.len(),
            None => first_pos(v@, c) == -1,
        },
{
    let mut i: usize = 0;
    while i < v.len()
        invariant
            i <= v@.len(),
            forall|k: int| 0 <= k < i ==> v@[k] != c,
        decreases v@.len() - i,
    {
        if v[i] == c {
            proof {
                lemma_first_pos_unique(v@, c, i as int);
            }
            return Some(i);
        }
        i += 1;
    }
    proof {
        lemma_first_pos(v@, c);
    }
    None
}

// ---------------------------------------------------------------------------
// Splitting, trimming, joining
// ---------------------------------------------------------------------------

/// The pieces of `s` between occurrences of `c`; always at least one.
pub open spec fn segments(s: Seq<char>, c: char) -> Seq<Seq<char>>
    decreases s.len(),
{
    if s.len() == 0 {
        seq![Seq::<char>::empty()]
    } else {
        let before = segments(s.drop_last(), c);
        if s.last() == c {
            before.push(Seq::<char>::empty())
        } else {
            before.drop_last().push(before.last().push(s.last()))
        }
    }
}

/// There is always at least one segment.
pub proof fn lemma_segments_nonempty(s: Seq<char>, c: char)
    ensures
        segments(s, c).len() >= 1,
    decreases s.len(),
{
    if s.len() > 0 {
        lemma_segments_nonempty(s.drop_last(), c);
    }
}

/// No segment holds the separator.
pub proof fn lemma_segments_hold_no_separator(s: Seq<char>, c: char)
    ensures
        forall|i: int| 0 <= i < segments(s, c).len() ==> !(#[trigger] segments(s, c)[i]).contains(c),
    decreases s.len(),
{
    if s.len() > 0 {
        lemma_segments_hold_no_separator(s.drop_last(), c);
        lemma_segments_nonempty(s.drop_last(), c);
        let before = segments(s.drop_last(), c);
        assert forall|i: int| 0 <= i < segments(s, c).len() implies !(#[trigger] segments(
            s,
            c,
        )[i]).contains(c) by {
            if s.last() != c && i == before.len() - 1 {
                let t = before.last();
                assert(!before[before.len() - 1].contains(c));
                assert forall|k: int| 0 <= k < t.push(s.last()).len() implies t.push(s.last())[k]
                    != c by {
                    if k < t.len() {
                        assert(t.contains(t[k]));
                    }
                }
            } else if i < before.len() {
                assert(segments(s, c)[i] == before[i]);
            }
        }
    }
}

/// The segments of two texts with a separator between them are those of the one and then
/// those of the other.
pub proof fn lemma_segments_join(a: Seq<char>, c: char, b: Seq<char>)
    ensures
        segments(a.push(c) + b, c) == segments(a, c) + segments(b, c),
    decreases b.len(),
{
    let j = a.push(c) + b;
    if b.len() == 0 {
        assert(j =~= a.push(c));
        assert(a.push(c).drop_last() =~= a);
        assert(segments(j, c) =~= segments(a, c) + segments(b, c));
    } else {
        let t = b.drop_last();
        lemma_segments_join(a, c, t);
        lemma_segments_nonempty(t, c);
        assert(j.drop_last() =~= a.push(c) + t);
        assert(segments(j, c) =~= segments(a, c) + segments(b, c));
    }
}

/// The pieces of `s` between occurrences of `c`.
pub fn split_on(s: &str, c: char) -> (r: Vec<String>)
    ensures
        texts(r@) == segments(s@, c),
{
    let v = to_chars(s);
    let mut out: Vec<String> = Vec::new();
    let mut cur = String::new();
    let mut i: usize = 0;
    assert(segments(v@.take(0), c) =~= seq![Seq::<char>::empty()]);
    while i < v.len()
        invariant
            v@ == s@,
            i <= v@.len(),
            texts(out@).push(cur@) == segments(s@.take(i as int), c),
        decreases v@.len() - i,
    {
        let ghost before = texts(out@);
        assert(s@.take(i + 1).drop_last() =~= s@.take(i as int));
        if v[i] == c {
            out.push(cur);
            cur = String::new();
            assert(texts(out@) =~= segments(s@.take(i as int), c));
        } else {
            proof {
                assert(before.push(cur@).drop_last() =~= before);
            }
            cur.push(v[i]);
        }
        i += 1;
    }
    assert(s@.take(v@.len() as int) =~= s@);
    out.push(cur);
    assert(texts(out@) =~= segments(s@, c));
    out
}

/// `s` without its leading whitespace.
pub open spec fn trim_front(s: Seq<char>) -> Seq<char>
    decreases s.len(),
{
    if s.len() > 0 && whitespace(s[0]) {
        trim_front(s.drop_first())
    } else {
        s
    }
}

/// `s` without its trailing whitespace.
pub open spec fn trim_back(s: Seq<char>) -> Seq<char>
    decreases s.len(),
{
    if s.len() > 0 && whitespace(s.last()) {
        trim_back(s.drop_last())
    } else {
        s
    }
}

/// `s` without surrounding whitespace.
pub open spec fn trimmed(s: Seq<char>) -> Seq<char> {
    trim_back(trim_front(s))
}

/// `s` without surrounding whitespace.
pub fn trim(s: &str) -> (r: String)
    ensures
        r@ == trimmed(s@),
{
    let v = to_chars(s);
    let mut a: usize = 0;
    assert(v@.skip(0) =~= s@);
    while a < v.len() && is_whitespace(v[a])
        invariant
            v@ == s@,
            a <= v@.len(),
            trim_front(s@) == trim_front(v@.skip(a as int)),
        decreases v@.len() - a,
    {
        assert(v@.skip(a as int).drop_first() =~= v@.skip(a + 1));
        a += 1;
    }
    assert(trim_front(s@) == v@.skip(a as int));
    let mut b: usize = v.len();
    assert(v@.subrange(a as int, b as int) =~= v@.skip(a as int));
    while b > a && is_whitespace(v[b - 1])
        invariant
            v@ == s@,
            a <= b <= v@.len(),
            trimmed(s@) == trim_back(v@.subrange(a as int, b as int)),
        decreases b,
    {
        assert(v@.subrange(a as int, b as int).drop_last() =~= v@.subrange(a as int, b - 1));
        b -= 1;
    }
    assert(trimmed(s@) == v@.subrange(a as int, b as int));
    from_chars(&v, a, b)
}

/// The texts of `parts` with `sep` between neighbours.
pub open spec fn joined(parts: Seq<Seq<char>>, sep: Seq<char>) -> Seq<char>
    decreases parts.len(),
{
    if parts.len() == 0 {
        Seq::empty()
    } else if parts.len() == 1 {
        parts[0]
    } else {
        joined(parts.drop_last(), sep) + sep + parts.last()
    }
}

/// The texts of `parts` with `sep` between neighbours.
pub fn join(parts: &[String], sep: &str) -> (r: String)
    ensures
        r@ == joined(texts(parts@), sep@),
{
    let mut r = String::new();
    let mut i: usize = 0;
    assert(texts(parts@).take(0) =~= Seq::<Seq<char>>::empty());
    while i < parts.len()
        invariant
            i <= parts@.len(),
            r@ == joined(texts(parts@).take(i as int), sep@),
        decreases parts@.len() - i,
    {
        let ghost t = texts(parts@);
        assert(t.take(i + 1).drop_last() =~= t.take(i as int));
        assert(t.take(i + 1).last() == parts@[i as int]@);
        if i > 0 {
            r.append(sep);
        }
        r.append(&parts[i]);
        if i == 0 {
            assert(Seq::<char>::empty() + parts@[0]@ =~= parts@[0]@);
        }
        i += 1;
    }
    assert(texts(parts@).take(i as int) =~= texts(parts@));
    r
}

// ---------------------------------------------------------------------------
// Numbers
// ---------------------------------------------------------------------------

/// The decimal digit `d` as a character.
pub open spec fn digit_char(d: int) -> char {
    (48 + d) as char
}

/// The decimal form of `n`.
pub open spec fn decimal_text(n: nat) -> Seq<char>
    decreases n,
{
    if n < 10 {
        seq![digit_char(n as int)]
    } else {
        decimal_text(n / 10).push(digit_char((n % 10) as int))
    }
}

/// The decimal form of `n`, with a leading `-` when negative.
pub open spec fn signed_text(n: int) -> Seq<char> {
    if n < 0 {
        seq!['-'] + decimal_text((-n) as nat)
    } else {
        decimal_text(n as nat)
    }
}

/// The decimal form of `n`.
pub fn decimal(n: u64) -> (r: String)
    ensures
        r@ == decimal_text(n as nat),
    decreases n,
{
    if n < 10 {
        let mut s = String::new();
        s.push((48 + n as u8) as char);
        s
    } else {
        let mut s = decimal(n / 10);
        s.push((48 + (n % 10) as u8) as char);
        s
    }
}

/// The decimal form of `n`.
pub fn decimal_i64(n: i64) -> (r: String)
    ensures
        r@ == signed_text(n as int),
{
    if n < 0 {
        let m: u64 = if n == i64::MIN { 0x8000_0000_0000_0000u64 } else { (-n) as u64 };
        let d = decimal(m);
        let mut s = String::new();
        s.push('-');
        s.append(&d);
        assert(s@ =~= seq!['-'] + decimal_text((-n) as nat));
        s
    } else {
        decimal(n as u64)
    }
}

/// Whether `c` is one of `0` to `9`.
pub open spec fn is_digit(c: char) -> bool {
    '0' <= c <= '9'
}

/// Whether every character of `s` is a decimal digit.
pub open spec fn all_digits(s: Seq<char>) -> bool {
    forall|i: int| 0 <= i < s.len() ==> is_digit(#[trigger] s[i])
}

/// The number that the decimal digits `s` write.
pub open spec fn digits_value(s: Seq<char>) -> int
    decreases s.len(),
{
    if s.len() == 0 {
        0
    } else {
        digits_value(s.drop_last()) * 10 + (s.last() as int - 48)
    }
}

/// The integer that `s` writes: decimal digits with an optional sign.
pub open spec fn integer_of(s: Seq<char>) -> Option<int> {
    if s.len() > 0 && (s[0] == '-' || s[0] == '+') {
        if s.len() > 1 && all_digits(s.skip(1)) {
            Some(if s[0] == '-' { -digits_value(s.skip(1)) } else { digits_value(s.skip(1)) })
        } else {
            None
        }
    } else if s.len() > 0 && all_digits(s) {
        Some(digits_value(s))
    } else {
        None
    }
}

/// The `i64` that `s` writes, if any.
pub open spec fn i64_of(s: Seq<char>) -> Option<i64> {
    match integer_of(s) {
        Some(n) => if i64::MIN <= n <= i64::MAX {
            Some(n as i64)
        } else {
            None
        },
        None => None,
    }
}

/// The `u16` that `s` writes, if any. A minus sign is never accepted.
pub open spec fn u16_of(s: Seq<char>) -> Option<u16> {
    match integer_of(s) {
        Some(n) => if s[0] != '-' && n <= u16::MAX {
            Some(n as u16)
        } else {
            None
        },
        None => None,
    }
}

/// Digits write a number that is not negative.
pub proof fn lemma_digits_value_nonneg(s: Seq<char>)
    requires
        all_digits(s),
    ensures
        digits_value(s) >= 0,
    decreases s.len(),
{
    if s.len() > 0 {
        assert(is_digit(s[s.len() - 1]));
        assert forall|i: int| 0 <= i < s.drop_last().len() implies is_digit(
            #[trigger] s.drop_last()[i],
        ) by {
            assert(s.drop_last()[i] == s[i]);
        }
        lemma_digits_value_nonneg(s.drop_last());
    }
}

/// The value of the digits `v[from..]`: `None` if one of them is no digit,
/// saturated at `bound + 1`.
fn digits_from(v: &[char], from: usize, bound: u64) -> (r: Option<u64>)
    requires
        from <= v@.len(),
        bound <= 0x8000_0000_0000_0000u64,
    ensures
        match r {
            Some(n) => all_digits(v@.skip(from as int)) && n <= bound + 1 && (if n <= bound {
                n == digits_value(v@.skip(from as int))
            } else {
                digits_value(v@.skip(from as int)) > bound
            }),
            None => !all_digits(v@.skip(from as int)),
        },
{
    let ghost t = v@.skip(from as int);
    let mut acc: u64 = 0;
    let mut i: usize = from;
    assert(t.take(0) =~= Seq::<char>::empty());
    while i < v.len()
        invariant
            from <= i <= v@.len(),
            bound <= 0x8000_0000_0000_0000u64,
            t == v@.skip(from as int),
            acc <= bound + 1,
            all_digits(t.take(i - from)),
            acc <= bound ==> acc == digits_value(t.take(i - from)),
            acc > bound ==> digits_value(t.take(i - from)) > bound,
        decreases v@.len() - i,
    {
        let c = v[i];
        assert(t[i - from] == c);
        if c < '0' || c > '9' {
            assert(!is_digit(t[i - from]));
            return None;
        }
        let d: u64 = (c as u32 - 48) as u64;
        proof {
            let t0 = t.take(i - from);
            let t1 = t.take(i - from + 1);
            assert(t1.drop_last() =~= t0);
            assert(t1.last() == c);
            assert forall|k: int| 0 <= k < t1.len() implies is_digit(#[trigger] t1[k]) by {
                if k < t0.len() {
                    assert(t1[k] == t0[k]);
                }
            }
            lemma_digits_value_nonneg(t0);
        }
        if acc <= bound {
            let w: u128 = acc as u128 * 10 + d as u128;
            if w > bound as u128 {
                acc = bound + 1;
            } else {
                acc = w as u64;
            }
        }
        i += 1;
    }
    assert(t.take(v@.len() - from) =~= t);
    Some(acc)
}

/// Parses an `i64`.
pub fn parse_i64(s: &str) -> (r: Option<i64>)
    ensures
        r == i64_of(s@),
{
    let v = to_chars(s);
    assert(v@.skip(0) =~= v@);
    if v.len() == 0 {
        return None;
    }
    let negative = v[0] == '-';
    let signed = negative || v[0] == '+';
    let from: usize = if signed { 1 } else { 0 };
    if v.len() == from {
        return None;
    }
    match digits_from(&v, from, 0x8000_0000_0000_0000u64) {
        None => None,
        Some(n) => {
            proof {
                lemma_digits_value_nonneg(v@.skip(from as int));
            }
            if negative {
                if n < 0x8000_0000_0000_0000u64 {
                    Some(-(n as i64))
                } else if n == 0x8000_0000_0000_0000u64 {
                    Some(i64::MIN)
                } else {
                    None
                }
            } else if n < 0x8000_0000_0000_0000u64 {
                Some(n as i64)
            } else {
                None
            }
        },
    }
}

/// Parses a `u16`.
pub fn parse_u16(s: &str) -> (r: Option<u16>)
    ensures
        r == u16_of(s@),
{
    let v = to_chars(s);
    assert(v@.skip(0) =~= v@);
    if v.len() == 0 || v[0] == '-' {
        return None;
    }
    let from: usize = if v[0] == '+' { 1 } else { 0 };
    if v.len() == from {
        return None;
    }
    match digits_from(&v, from, 0xffffu64) {
        None => None,
        Some(n) => {
            if n <= 0xffff {
                proof {
                    lemma_digits_value_nonneg(v@.skip(from as int));
                }
                Some(n as u16)
            } else {
                None
            }
        },
    }
}

/// The decimal form of a number is made of digits, and they write that number.
pub proof fn lemma_decimal_round_trip(n: nat)
    ensures
        decimal_text(n).len() > 0,
        all_digits(decimal_text(n)),
        digits_value(decimal_text(n)) == n,
    decreases n,
{
    if n < 10 {
        let s = decimal_text(n);
        assert(s.drop_last() =~= Seq::<char>::empty());
        assert(digits_value(s.drop_last()) == 0);
        assert(s.last() == digit_char(n as int));
    } else {
        lemma_decimal_round_trip(n / 10);
        let s = decimal_text(n);
        assert(s.drop_last() =~= decimal_text(n / 10));
        assert forall|i: int| 0 <= i < s.len() implies is_digit(#[trigger] s[i]) by {
            if i < s.len() - 1 {
                assert(s[i] == decimal_text(n / 10)[i]);
            }
        }
    }
}

/// Reading back the decimal form of an `i64` gives that number.
pub proof fn lemma_signed_round_trip(n: i64)
    ensures
        i64_of(signed_text(n as int)) == Some(n),
        n >= 0 ==> all_digits(signed_text(n as int)),
        signed_text(n as int).len() > 0,
{
    if n < 0 {
        let m = (-n) as nat;
        lemma_decimal_round_trip(m);
        assert(signed_text(n as int).skip(1) =~= decimal_text(m));
    } else {
        lemma_decimal_round_trip(n as nat);
        assert(is_digit(decimal_text(n as nat)[0]));
    }
}

// ---------------------------------------------------------------------------
// Hexadecimal digits
// ---------------------------------------------------------------------------

/// The value of a hexadecimal digit, given as a byte.
pub open spec fn hex_value(b: u8) -> Option<u8> {
    if 48 <= b <= 57 {
        Some((b - 48) as u8)
    } else if 65 <= b <= 70 {
        Some((b - 55) as u8)
    } else if 97 <= b <= 102 {
        Some((b - 87) as u8)
    } else {
        None
    }
}

/// The value of a hexadecimal digit.
pub fn hex_digit(b: u8) -> (r: Option<u8>)
    ensures
        r == hex_value(b),
        r is Some ==> r->0 < 16,
{
    if 48 <= b && b <= 57 {
        Some(b - 48)
    } else if 65 <= b && b <= 70 {
        Some(b - 55)
    } else if 97 <= b && b <= 102 {
        Some(b - 87)
    } else {
        None
    }
}

// ---------------------------------------------------------------------------
// Laws
// ---------------------------------------------------------------------------

/// Trimming takes whitespace off the ends, all of it and nothing else.
pub proof fn law_trimming_takes_only_whitespace(s: &str, r: String)
    requires
        call_ensures(trim, (s,), r),
    ensures
        exists|front: Seq<char>, back: Seq<char>|
            s@ == front + r@ + back && #[trigger] all_whitespace(front) && #[trigger]
                all_whitespace(back),
        r@.len() > 0 ==> !whitespace(r@[0]) && !whitespace(r@.last()),
{
    let m = trim_front(s@);
    let front = lemma_trim_front(s@);
    let back = lemma_trim_back(m);
    assert(s@ =~= front + r@ + back);
    assert(all_whitespace(front) && all_whitespace(back));
    if r@.len() > 0 {
        assert(m[0] == r@[0]);
    }
}

/// Whether every character is whitespace.
pub open spec fn all_whitespace(s: Seq<char>) -> bool {
    forall|i: int| 0 <= i < s.len() ==> whitespace(#[trigger] s[i])
}

proof fn lemma_trim_front(s: Seq<char>) -> (front: Seq<char>)
    ensures
        s == front + trim_front(s),
        all_whitespace(front),
        trim_front(s).len() > 0 ==> !whitespace(trim_front(s)[0]),
    decreases s.len(),
{
    if s.len() > 0 && whitespace(s[0]) {
        let rest = lemma_trim_front(s.drop_first());
        let front = seq![s[0]] + rest;
        assert(s =~= seq![s[0]] + s.drop_first());
        assert(s =~= front + trim_front(s));
        front
    } else {
        assert(s =~= Seq::<char>::empty() + s);
        Seq::empty()
    }
}

proof fn lemma_trim_back(s: Seq<char>) -> (back: Seq<char>)
    ensures
        s == trim_back(s) + back,
        all_whitespace(back),
        trim_back(s).len() > 0 ==> !whitespace(trim_back(s).last()),
    decreases s.len(),
{
    if s.len() > 0 && whitespace(s.last()) {
        let rest = lemma_trim_back(s.drop_last());
        let back = rest.push(s.last());
        assert(s =~= s.drop_last().push(s.last()));
        assert(s =~= trim_back(s) + back);
        back
    } else {
        assert(s =~= s + Seq::<char>::empty());
        Seq::empty()
    }
}

/// A text is split at every separator and nowhere else: no piece holds the separator, and
/// the pieces joined by it are the text again.
pub proof fn law_a_split_text_joins_again(
    s: &str,
    c: char,
    parts: Vec<String>,
    pieces: &[String],
    sep: &str,
    r: String,
)
    requires
        call_ensures(split_on, (s, c), parts),
        pieces@ == parts@,
        sep@ == seq![c],
        call_ensures(join, (pieces, sep), r),
    ensures
        r@ == s@,
        forall|i: int| 0 <= i < parts@.len() ==> !(#[trigger] parts@[i])@.contains(c),
{
    lemma_segments_hold_no_separator(s@, c);
    lemma_segments_joined(s@, c);
    assert forall|i: int| 0 <= i < parts@.len() implies !(#[trigger] parts@[i])@.contains(c) by {
        assert(texts(parts@)[i] == parts@[i]@);
    }
}

proof fn lemma_segments_joined(s: Seq<char>, c: char)
    ensures
        joined(segments(s, c), seq![c]) == s,
    decreases s.len(),
{
    lemma_segments_nonempty(s, c);
    if s.len() == 0 {
        assert(joined(segments(s, c), seq![c]) =~= s);
    } else {
        let before = segments(s.drop_last(), c);
        let all = segments(s, c);
        lemma_segments_nonempty(s.drop_last(), c);
        lemma_segments_joined(s.drop_last(), c);
        if s.last() == c {
            assert(all.drop_last() =~= before);
            assert(joined(all, seq![c]) =~= s);
        } else {
            assert(all.drop_last() =~= before.drop_last());
            assert(joined(all, seq![c]) =~= joined(before, seq![c]).push(s.last()));
            assert(s =~= s.drop_last().push(s.last()));
        }
    }
}

/// A written number reads back as that number.
pub proof fn law_a_written_number_reads_back(
    n: i64,
    s: String,
    text: &str,
    r: Option<i64>,
    small: Option<u16>,
)
    requires
        call_ensures(decimal_i64, (n,), s),
        text@ == s@,
        call_ensures(parse_i64, (text,), r),
        call_ensures(parse_u16, (text,), small),
    ensures
        r == Some(n),
        0 <= n <= 65_535 ==> small is Some && small->0 == n,
        n < 0 || n > 65_535 ==> small is None,
{
    lemma_signed_round_trip(n);
    if n >= 0 {
        lemma_decimal_round_trip(n as nat);
        assert(is_digit(s@[0]));
    }
}

/// A number is written in digits without needless zeros: its last digit behind the rest of it.
pub proof fn law_a_number_is_written_digit_by_digit(n: u64, s: String, rest: String)
    requires
        call_ensures(decimal, (n,), s),
        call_ensures(decimal, (n / 10,), rest),
    ensures
        n < 10 ==> s@.len() == 1,
        n >= 10 ==> s@.drop_last() == rest@,
        s@.last() as int == 48 + n % 10,
{
    if n >= 10 {
        assert(s@.drop_last() =~= rest@);
    }
}

/// Whatever a text starts with, or has in it, is found in it, and nothing else is.
pub proof fn law_a_part_of_a_text_is_found(
    front: Seq<char>,
    back: Seq<char>,
    hay: &str,
    needle: &str,
    starts: bool,
    inside: bool,
)
    requires
        call_ensures(starts_with, (hay, needle), starts),
        call_ensures(contains, (hay, needle), inside),
    ensures
        hay@ == needle@ + back ==> starts,
        hay@ == front + needle@ + back ==> inside,
        starts ==> inside && hay@ == needle@ + hay@.skip(needle@.len() as int),
        inside ==> exists|k: int|
            0 <= k <= hay@.len() - needle@.len() && hay@ == #[trigger] hay@.take(k) + needle@
                + hay@.skip(k + needle@.len()),
{
    if hay@ == needle@ + back {
        assert(hay@.take(needle@.len() as int) =~= needle@);
    }
    if hay@ == front + needle@ + back {
        assert(hay@.subrange(front.len() as int, (front.len() + needle@.len()) as int) =~= needle@);
        assert(occurs_at(hay@, needle@, front.len() as int));
    }
    if starts {
        assert(hay@.subrange(0, needle@.len() as int) =~= needle@);
        assert(occurs_at(hay@, needle@, 0));
        assert(hay@ =~= needle@ + hay@.skip(needle@.len() as int));
    }
    if inside {
        let k = choose|k: int| occurs_at(hay@, needle@, k);
        assert(hay@ =~= hay@.take(k) + needle@ + hay@.skip(k + needle@.len()));
    }
}

/// A text without the separator is one segment.
pub proof fn lemma_one_segment(s: Seq<char>, c: char)
    requires
        !s.contains(c),
    ensures
        segments(s, c) == seq![s],
    decreases s.len(),
{
    if s.len() > 0 {
        let t = s.drop_last();
        assert forall|i: int| 0 <= i < t.len() implies t[i] != c by {
            assert(s.contains(s[i]));
        }
        assert(s.contains(s.last()));
        lemma_one_segment(t, c);
        assert(t.push(s.last()) =~= s);
        assert(segments(s, c) =~= seq![s]);
    } else {
        assert(s =~= Seq::<char>::empty());
        assert(segments(s, c) =~= seq![s]);
    }
}

} // verus!
