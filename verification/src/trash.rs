//! The trash: soft delete.
//!
//! A deleted entry is moved into the hidden `.trash/` subtree. The single path
//! segment under `.trash/` packs the deletion time, a random tag and the
//! percent-encoded original path, so a restore knows exactly where the entry came
//! from.

use vstd::prelude::*;

use vstd::string::*;

use vstd::utf8::{decode_utf8, encode_scalar, encode_utf8, valid_utf8};
use crate::browse::{item, listing, total_size, Entry, EntryKind, Item};
use crate::order::{is_ranking, lemma_text_order, sort_stable, stably_sorted, text_at_most, text_le};
use crate::path::{
    below, child_of, ext_split, is_below, is_trashed, join_path, leaf_name, leaf_of, parent_dir,
    parent_of, split_ext, trash_dir, trashed, TRASH_DIR,
};
use crate::text::{
    begins_with, concat3, decimal, decimal_i64, decimal_text, find, first_pos, from_chars, hex_digit,
    hex_value, i64_of,
    is_digit, lemma_decimal_round_trip, lemma_first_pos_unique, lemma_signed_round_trip, owned,
    parse_i64, same_text, signed_text, starts_with, texts, to_chars,
};
use crate::text_set::text_in;

verus! {

// ---------------------------------------------------------------------------
// Percent-encoding of one path segment
// ---------------------------------------------------------------------------

/// What `String::from_utf8_lossy` makes of bytes.
pub uninterp spec fn utf8_lossy(b: Seq<u8>) -> Seq<char>;

/// Calls `String::from_utf8_lossy`. The result is a function of the bytes; bytes
/// that are valid UTF-8 are decoded as they stand.
#[verifier::external_body]
fn from_utf8_lossy(b: &[u8]) -> (r: String)
    ensures
        r@ == utf8_lossy(b@),
        valid_utf8(b@) ==> r@ == decode_utf8(b@),
{
    String::from_utf8_lossy(b).into_owned()
}

/// The escape of one character: `%` and `/` are escaped, all else stands for
/// itself.
pub open spec fn escaped(c: char) -> Seq<char> {
    if c == '%' {
        seq!['%', '2', '5']
    } else if c == '/' {
        seq!['%', '2', 'F']
    } else {
        seq![c]
    }
}

/// A text with every `%` and `/` escaped.
pub open spec fn pct_encoded(s: Seq<char>) -> Seq<char>
    decreases s.len(),
{
    if s.len() == 0 {
        Seq::empty()
    } else {
        escaped(s[0]) + pct_encoded(s.drop_first())
    }
}

/// Whether an escape stands at the front of `b`.
pub open spec fn escape_ahead(b: Seq<u8>) -> bool {
    b.len() > 2 && b[0] == 37 && hex_value(b[1]) is Some && hex_value(b[2]) is Some
}

/// Bytes with every `%XX` escape replaced by the byte it stands for.
pub open spec fn unescaped(b: Seq<u8>) -> Seq<u8>
    decreases b.len(),
{
    if b.len() == 0 {
        Seq::empty()
    } else if escape_ahead(b) {
        seq![(hex_value(b[1])->0 * 16 + hex_value(b[2])->0) as u8] + unescaped(b.skip(3))
    } else {
        seq![b[0]] + unescaped(b.drop_first())
    }
}

/// The text that a percent-encoded segment stands for.
pub open spec fn pct_decoded(s: Seq<char>) -> Seq<char> {
    let b = unescaped(encode_utf8(s));
    if valid_utf8(b) {
        decode_utf8(b)
    } else {
        utf8_lossy(b)
    }
}

/// Percent-encodes the only two characters that cannot appear raw in a single trash
/// path segment: `%` (the escape itself) and `/` (a separator). Spaces, dots and
/// unicode pass through untouched.
pub fn pct_encode_seg(s: &str) -> (r: String)
    ensures
        r@ == pct_encoded(s@),
{
    let v = to_chars(s);
    let mut out = String::new();
    let mut i: usize = 0;
    assert(v@.skip(0) =~= s@);
    assert(out@ + pct_encoded(s@) =~= pct_encoded(s@));
    while i < v.len()
        invariant
            v@ == s@,
            i <= v@.len(),
            out@ + pct_encoded(v@.skip(i as int)) == pct_encoded(s@),
        decreases v@.len() - i,
    {
        let ghost before = out@;
        let c = v[i];
        if c == '%' {
            out.push('%');
            out.push('2');
            out.push('5');
        } else if c == '/' {
            out.push('%');
            out.push('2');
            out.push('F');
        } else {
            out.push(c);
        }
        proof {
            let rest = v@.skip(i as int);
            assert(rest.drop_first() =~= v@.skip(i + 1));
            assert(out@ =~= before + escaped(c));
            assert((before + escaped(c)) + pct_encoded(v@.skip(i + 1)) =~= before + (escaped(c)
                + pct_encoded(v@.skip(i + 1))));
        }
        i += 1;
    }
    assert(out@ + pct_encoded(v@.skip(i as int)) =~= out@);
    out
}

/// The byte that the escape at position `i` stands for, if there is one.
fn escape_at(bytes: &[u8], i: usize) -> (r: Option<u8>)
    requires
        i < bytes@.len(),
    ensures
        match r {
            Some(b) => escape_ahead(bytes@.skip(i as int)) && b == hex_value(bytes@[i + 1])->0 * 16
                + hex_value(bytes@[i + 2])->0,
            None => !escape_ahead(bytes@.skip(i as int)),
        },
{
    if bytes[i] != 37 || bytes.len() - i <= 2 {
        return None;
    }
    match (hex_digit(bytes[i + 1]), hex_digit(bytes[i + 2])) {
        (Some(hi), Some(lo)) => Some(hi * 16 + lo),
        _ => None,
    }
}

/// Reverses [`pct_encode_seg`]: decodes `%XX` hex escapes left to right.
pub fn pct_decode_seg(s: &str) -> (r: String)
    ensures
        r@ == pct_decoded(s@),
{
    let bytes = s.as_bytes();
    let n: usize = bytes.len();
    let mut out: Vec<u8> = Vec::new();
    let mut i: usize = 0;
    assert(bytes@.skip(0) =~= bytes@);
    assert(out@ + unescaped(bytes@) =~= unescaped(bytes@));
    while i < n
        invariant
            n == bytes@.len(),
            i <= n,
            out@ + unescaped(bytes@.skip(i as int)) == unescaped(bytes@),
        decreases n - i,
    {
        let ghost before = out@;
        let ghost rest = bytes@.skip(i as int);
        match escape_at(bytes, i) {
            Some(b) => {
                out.push(b);
                proof {
                    assert(rest.skip(3) =~= bytes@.skip(i + 3));
                    assert(out@ + unescaped(bytes@.skip(i + 3)) =~= before + (seq![b] + unescaped(
                        bytes@.skip(i + 3),
                    )));
                }
                i += 3;
            },
            None => {
                out.push(bytes[i]);
                proof {
                    assert(rest.drop_first() =~= bytes@.skip(i + 1));
                    assert(out@ + unescaped(bytes@.skip(i + 1)) =~= before + (seq![bytes@[i as int]]
                        + unescaped(bytes@.skip(i + 1))));
                }
                i += 1;
            },
        }
    }
    assert(out@ + unescaped(bytes@.skip(i as int)) =~= out@);
    from_utf8_lossy(&out)
}

/// Bytes with every `%` and `/` escaped.
spec fn bytes_escaped(b: Seq<u8>) -> Seq<u8>
    decreases b.len(),
{
    if b.len() == 0 {
        Seq::empty()
    } else {
        (if b[0] == 37 {
            seq![37u8, 50u8, 53u8]
        } else if b[0] == 47 {
            seq![37u8, 50u8, 70u8]
        } else {
            seq![b[0]]
        }) + bytes_escaped(b.drop_first())
    }
}

proof fn lemma_unescape_bytes(b: Seq<u8>)
    ensures
        unescaped(bytes_escaped(b)) == b,
    decreases b.len(),
{
    let e = bytes_escaped(b);
    if b.len() > 0 {
        let rest = bytes_escaped(b.drop_first());
        lemma_unescape_bytes(b.drop_first());
        if b[0] == 37 || b[0] == 47 {
            assert(e.skip(3) =~= rest);
            assert(e[0] == 37 && e[1] == 50);
        } else {
            assert(e.drop_first() =~= rest);
            assert(e[0] == b[0]);
        }
        assert(unescaped(e) =~= seq![b[0]] + b.drop_first());
        assert(seq![b[0]] + b.drop_first() =~= b);
    } else {
        assert(unescaped(e) =~= b);
    }
}

proof fn lemma_escape_concat(a: Seq<u8>, b: Seq<u8>)
    ensures
        bytes_escaped(a + b) == bytes_escaped(a) + bytes_escaped(b),
    decreases a.len(),
{
    if a.len() == 0 {
        assert(a + b =~= b);
        assert(bytes_escaped(a) + bytes_escaped(b) =~= bytes_escaped(b));
    } else {
        assert((a + b).drop_first() =~= a.drop_first() + b);
        lemma_escape_concat(a.drop_first(), b);
        assert(bytes_escaped(a + b) =~= bytes_escaped(a) + bytes_escaped(b));
    }
}

proof fn lemma_escape_high(b: Seq<u8>)
    requires
        forall|i: int| 0 <= i < b.len() ==> #[trigger] b[i] >= 128,
    ensures
        bytes_escaped(b) == b,
    decreases b.len(),
{
    if b.len() > 0 {
        let r = b.drop_first();
        assert forall|i: int| 0 <= i < r.len() implies #[trigger] r[i] >= 128 by {
            assert(r[i] == b[i + 1]);
        }
        lemma_escape_high(r);
        assert(b[0] >= 128);
        assert(bytes_escaped(b) =~= b);
    } else {
        assert(bytes_escaped(b) =~= b);
    }
}

proof fn lemma_utf8_concat(a: Seq<char>, b: Seq<char>)
    ensures
        encode_utf8(a + b) == encode_utf8(a) + encode_utf8(b),
    decreases a.len(),
{
    if a.len() == 0 {
        assert(a + b =~= b);
        assert(encode_utf8(a) + encode_utf8(b) =~= encode_utf8(b));
    } else {
        assert((a + b).drop_first() =~= a.drop_first() + b);
        lemma_utf8_concat(a.drop_first(), b);
        assert(encode_utf8(a + b) =~= encode_utf8(a) + encode_utf8(b));
    }
}

proof fn lemma_low_scalar(c: u32)
    by (bit_vector)
    requires
        c <= 0x7f,
    ensures
        (c & 0x7f) as u8 == c as u8,
        c as u8 == c,
{
}

proof fn lemma_high_scalar(c: u32)
    by (bit_vector)
    requires
        0x80 <= c <= 0x10ffff,
    ensures
        (0xc0u8 | (((c >> 6u32) & 0x1f) as u8)) >= 128,
        (0xe0u8 | (((c >> 12u32) & 0x0f) as u8)) >= 128,
        (0xf0u8 | (((c >> 18u32) & 0x07) as u8)) >= 128,
        (0x80u8 | ((c & 0x3f) as u8)) >= 128,
        (0x80u8 | (((c >> 6u32) & 0x3f) as u8)) >= 128,
        (0x80u8 | (((c >> 12u32) & 0x3f) as u8)) >= 128,
{
}

proof fn lemma_escape_scalar(c: char)
    ensures
        encode_utf8(escaped(c)) == bytes_escaped(encode_scalar(c as u32)),
{
    let u = c as u32;
    let e = escaped(c);
    if u <= 0x7f {
        lemma_low_scalar(u);
        assert(encode_scalar(u) =~= seq![u as u8]);
        assert(seq![u as u8].drop_first() =~= Seq::<u8>::empty());
        lemma_ascii_three('%', '2', '5');
        lemma_ascii_three('%', '2', 'F');
        lemma_ascii_one(c);
        assert(bytes_escaped(Seq::<u8>::empty()) =~= Seq::<u8>::empty());
        assert(encode_utf8(e) =~= bytes_escaped(encode_scalar(u)));
    } else {
        lemma_high_scalar(u);
        let b = encode_scalar(u);
        assert forall|i: int| 0 <= i < b.len() implies #[trigger] b[i] >= 128 by {}
        lemma_escape_high(b);
        assert(e.drop_first() =~= Seq::<char>::empty());
        assert(encode_utf8(e.drop_first()) =~= Seq::<u8>::empty());
        assert(encode_utf8(e) =~= b);
    }
}

pub(crate) proof fn lemma_ascii_one(c: char)
    requires
        c as u32 <= 0x7f,
    ensures
        encode_utf8(seq![c]) == seq![c as u8],
{
    lemma_low_scalar(c as u32);
    let s = seq![c];
    assert(s.drop_first() =~= Seq::<char>::empty());
    assert(encode_utf8(s.drop_first()) =~= Seq::<u8>::empty());
    assert(encode_utf8(s) =~= seq![c as u8]);
}

proof fn lemma_ascii_three(a: char, b: char, c: char)
    requires
        a as u32 <= 0x7f,
        b as u32 <= 0x7f,
        c as u32 <= 0x7f,
    ensures
        encode_utf8(seq![a, b, c]) == seq![a as u8, b as u8, c as u8],
{
    lemma_ascii_one(a);
    lemma_ascii_one(b);
    lemma_ascii_one(c);
    assert(seq![a, b, c] =~= seq![a] + (seq![b] + seq![c]));
    lemma_utf8_concat(seq![b], seq![c]);
    lemma_utf8_concat(seq![a], seq![b] + seq![c]);
    assert(encode_utf8(seq![a, b, c]) =~= seq![a as u8, b as u8, c as u8]);
}

proof fn lemma_encoded_bytes(s: Seq<char>)
    ensures
        encode_utf8(pct_encoded(s)) == bytes_escaped(encode_utf8(s)),
    decreases s.len(),
{
    if s.len() > 0 {
        lemma_encoded_bytes(s.drop_first());
        lemma_escape_scalar(s[0]);
        lemma_utf8_concat(escaped(s[0]), pct_encoded(s.drop_first()));
        lemma_escape_concat(encode_scalar(s[0] as u32), encode_utf8(s.drop_first()));
    } else {
        assert(encode_utf8(pct_encoded(s)) =~= bytes_escaped(encode_utf8(s)));
    }
}

/// Decoding an encoded text gives the text back.
pub proof fn law_pct_round_trip(s: Seq<char>)
    ensures
        pct_decoded(pct_encoded(s)) == s,
{
    lemma_encoded_bytes(s);
    lemma_unescape_bytes(encode_utf8(s));
    vstd::utf8::encode_utf8_valid_utf8(s);
    vstd::utf8::encode_utf8_decode_utf8(s);
}

/// An encoded text holds no separator, so it is a single path segment.
pub proof fn law_pct_encoding_has_no_separator(s: Seq<char>)
    ensures
        !pct_encoded(s).contains('/'),
    decreases s.len(),
{
    if s.len() > 0 {
        law_pct_encoding_has_no_separator(s.drop_first());
        let e = escaped(s[0]);
        let r = pct_encoded(s.drop_first());
        assert forall|i: int| 0 <= i < (e + r).len() implies (e + r)[i] != '/' by {
            if i >= e.len() {
                assert((e + r)[i] == r[i - e.len()]);
                assert(r.contains(r[i - e.len()]));
            }
        }
    }
}

// ---------------------------------------------------------------------------
// Trash tokens
// ---------------------------------------------------------------------------

/// The hidden path of an entry deleted at `at` from `orig`, with tag `tag`.
pub open spec fn trash_path(at: i64, tag: Seq<char>, orig: Seq<char>) -> Seq<char> {
    trash_dir().push('/') + (signed_text(at as int).push('-') + (tag.push('-') + pct_encoded(orig)))
}

/// What a trash path's token stands for: the deletion time and the original path.
pub open spec fn token_of(path: Seq<char>) -> Option<(i64, Seq<char>)> {
    if !begins_with(path, trash_dir().push('/')) {
        None
    } else {
        let token = path.skip(7);
        let d1 = first_pos(token, '-');
        let rest = token.skip(d1 + 1);
        let d2 = first_pos(rest, '-');
        if d1 < 0 || d2 < 0 {
            None
        } else {
            match i64_of(token.take(d1)) {
                Some(at) => Some((at, pct_decoded(rest.skip(d2 + 1)))),
                None => None,
            }
        }
    }
}

/// The hidden path a soft-deleted entry is moved to: `.trash/<at>-<tag>-<enc>`,
/// where `<at>` is the deletion time, `<tag>` a short tag (so two deletions of the
/// same path never collide), and `<enc>` the percent-encoded original path.
pub fn trash_dest(deleted_at: i64, tag: &str, orig: &str) -> (r: String)
    ensures
        r@ == trash_path(deleted_at, tag@, orig@),
{
    let mut r = owned(TRASH_DIR);
    proof {
        crate::path::lemma_trash_dir();
    }
    r.push('/');
    r.append(&decimal_i64(deleted_at));
    r.push('-');
    r.append(tag);
    r.push('-');
    r.append(&pct_encode_seg(orig));
    assert(r@ =~= trash_path(deleted_at, tag@, orig@));
    r
}

/// Parses a top-level trash entry path back into its deletion time and original
/// path. `None` for a malformed token, so a hand-mangled manifest degrades
/// gracefully instead of showing garbage.
pub fn parse_trash_token(trashed_path: &str) -> (r: Option<(i64, String)>)
    ensures
        match r {
            Some(p) => token_of(trashed_path@) == Some((p.0, p.1@)),
            None => token_of(trashed_path@) is None,
        },
{
    let mut prefix = owned(TRASH_DIR);
    prefix.push('/');
    proof {
        crate::path::lemma_trash_dir();
    }
    if !starts_with(trashed_path, &prefix) {
        return None;
    }
    let v = to_chars(trashed_path);
    let n: usize = v.len();
    let token = from_chars(&v, 7, n);
    let t = to_chars(&token);
    let tn: usize = t.len();
    assert(t@ =~= trashed_path@.skip(7));
    let d1: usize = match find(&t, '-') {
        Some(k) => k,
        None => {
            return None;
        },
    };
    let after = from_chars(&t, d1 + 1, tn);
    let rest = to_chars(&after);
    let rn: usize = rest.len();
    assert(rest@ =~= t@.skip(d1 + 1));
    let d2: usize = match find(&rest, '-') {
        Some(k) => k,
        None => {
            return None;
        },
    };
    let head = from_chars(&t, 0, d1);
    assert(head@ =~= t@.take(d1 as int));
    let at: i64 = match parse_i64(&head) {
        Some(a) => a,
        None => {
            return None;
        },
    };
    let encoded = from_chars(&rest, d2 + 1, rn);
    assert(encoded@ =~= rest@.skip(d2 + 1));
    Some((at, pct_decode_seg(&encoded)))
}

/// A trashed entry's path parses back to when it was deleted and where it came
/// from. The tag must hold no `-`, and the time must not be before the epoch.
pub proof fn law_trash_token_round_trip(at: i64, tag: Seq<char>, orig: Seq<char>)
    requires
        at >= 0,
        !tag.contains('-'),
    ensures
        token_of(trash_path(at, tag, orig)) == Some((at, orig)),
{
    let path = trash_path(at, tag, orig);
    let num = signed_text(at as int);
    let enc = pct_encoded(orig);
    let token = num.push('-') + (tag.push('-') + enc);
    lemma_signed_round_trip(at);
    assert(path.skip(7) =~= token);
    assert(path.take(7) =~= trash_dir().push('/'));
    assert forall|i: int| 0 <= i < num.len() implies token[i] != '-' by {
        assert(token[i] == num[i]);
        assert(is_digit(num[i]));
    }
    assert(token[num.len() as int] == '-');
    lemma_first_pos_unique(token, '-', num.len() as int);
    assert(token.take(num.len() as int) =~= num);
    let rest = tag.push('-') + enc;
    assert(token.skip(num.len() + 1int) =~= rest);
    assert forall|i: int| 0 <= i < tag.len() implies rest[i] != '-' by {
        assert(rest[i] == tag[i]);
        assert(tag.contains(tag[i]));
    }
    assert(rest[tag.len() as int] == '-');
    lemma_first_pos_unique(rest, '-', tag.len() as int);
    assert(rest.skip(tag.len() + 1int) =~= enc);
    law_pct_round_trip(orig);
}

/// A trashed entry is a direct child of the trash, and is in the trash.
pub proof fn law_trash_path_is_a_direct_child(at: i64, tag: Seq<char>, orig: Seq<char>)
    requires
        !tag.contains('/'),
    ensures
        parent_of(trash_path(at, tag, orig)) == trash_dir(),
        trashed(trash_path(at, tag, orig)),
{
    let name = signed_text(at as int).push('-') + (tag.push('-') + pct_encoded(orig));
    let num = signed_text(at as int);
    law_pct_encoding_has_no_separator(orig);
    lemma_signed_has_no_separator(at);
    assert forall|i: int| 0 <= i < name.len() implies name[i] != '/' by {
        if i < num.len() {
            assert(name[i] == num[i]);
            assert(num.contains(num[i]));
        } else if i > num.len() {
            let k = i - num.len() - 1;
            if k < tag.len() {
                assert(name[i] == tag[k]);
                assert(tag.contains(tag[k]));
            } else if k > tag.len() {
                let e = pct_encoded(orig);
                assert(name[i] == e[k - tag.len() - 1]);
                assert(e.contains(e[k - tag.len() - 1]));
            }
        }
    }
    assert(!name.contains('/'));
    crate::path::law_child_is_in_its_folder(trash_dir(), name);
    assert(trash_path(at, tag, orig) == child_of(trash_dir(), name));
    assert(trash_path(at, tag, orig).take(7) =~= trash_dir().push('/'));
}

proof fn lemma_signed_has_no_separator(at: i64)
    ensures
        !signed_text(at as int).contains('/'),
{
    let n = signed_text(at as int);
    if at < 0 {
        let m = (-at) as nat;
        lemma_decimal_round_trip(m);
        assert forall|i: int| 0 <= i < n.len() implies n[i] != '/' by {
            if i > 0 {
                assert(n[i] == decimal_text(m)[i - 1]);
                assert(is_digit(decimal_text(m)[i - 1]));
            }
        }
    } else {
        lemma_decimal_round_trip(at as nat);
        assert forall|i: int| 0 <= i < n.len() implies n[i] != '/' by {
            assert(is_digit(n[i]));
        }
    }
}

// ---------------------------------------------------------------------------
// The trash view
// ---------------------------------------------------------------------------

/// One soft-deleted entry, shown in the trash view.
pub struct TrashItem {
    /// Its current (hidden) path under `.trash/`.
    pub trashed_path: String,
    /// Where a restore will try to put it back (its original vault path).
    pub orig_path: String,
    /// Unix seconds it was moved to the trash.
    pub deleted_at: i64,
    pub kind: EntryKind,
    /// A file's own size, or the total size of a folder's contents.
    pub size: u64,
    /// For a folder, how many files it holds (0 for a file).
    pub files: usize,
}

/// A trash item as a mathematical value.
pub struct TrashItemView {
    pub trashed_path: Seq<char>,
    pub orig_path: Seq<char>,
    pub deleted_at: i64,
    pub kind: EntryKind,
    pub size: nat,
    pub files: nat,
}

impl View for TrashItem {
    type V = TrashItemView;

    open spec fn view(&self) -> TrashItemView {
        TrashItemView {
            trashed_path: self.trashed_path@,
            orig_path: self.orig_path@,
            deleted_at: self.deleted_at,
            kind: self.kind,
            size: self.size as nat,
            files: self.files as nat,
        }
    }
}

/// The values of a list of trash items.
pub open spec fn trash_views(v: Seq<TrashItem>) -> Seq<TrashItemView> {
    v.map_values(|t: TrashItem| t@)
}

/// The files of a vault strictly inside a folder.
pub open spec fn files_below(items: Seq<Item>, top: Seq<char>) -> Seq<Item> {
    items.filter(|e: Item| e.1 == EntryKind::File && below(e.0, top))
}

/// The files of a vault that are not in the trash.
pub open spec fn live_files(items: Seq<Item>) -> Seq<Item> {
    items.filter(|e: Item| e.1 == EntryKind::File && !trashed(e.0))
}

/// What the trash view shows of an entry: nothing unless it stands directly in the
/// trash with a well-formed token.
pub open spec fn trash_item(items: Seq<Item>, e: Item) -> Option<TrashItemView> {
    if parent_of(e.0) != trash_dir() {
        None
    } else {
        match token_of(e.0) {
            Some(t) => Some(
                TrashItemView {
                    trashed_path: e.0,
                    orig_path: t.1,
                    deleted_at: t.0,
                    kind: e.1,
                    size: if e.1 == EntryKind::Dir {
                        total_size(files_below(items, e.0))
                    } else {
                        e.2 as nat
                    },
                    files: if e.1 == EntryKind::Dir {
                        files_below(items, e.0).len()
                    } else {
                        0
                    },
                },
            ),
            None => None,
        }
    }
}

/// What the trash view shows of the entries `part`, in their order.
pub open spec fn trash_found(items: Seq<Item>, part: Seq<Item>) -> Seq<TrashItemView>
    decreases part.len(),
{
    if part.len() == 0 {
        Seq::empty()
    } else {
        let before = trash_found(items, part.drop_last());
        match trash_item(items, part.last()) {
            Some(t) => before.push(t),
            None => before,
        }
    }
}

/// The rank of trash items: the most recent first, then by original path.
pub open spec fn trash_le() -> spec_fn(TrashItemView, TrashItemView) -> bool {
    |a: TrashItemView, b: TrashItemView|
        a.deleted_at > b.deleted_at || (a.deleted_at == b.deleted_at && text_le(
            a.orig_path,
            b.orig_path,
        ))
}

proof fn lemma_trash_ranking()
    ensures
        is_ranking(|a: TrashItem, b: TrashItem| trash_le()(a@, b@)),
{
    let le = |a: TrashItem, b: TrashItem| trash_le()(a@, b@);
    assert forall|a: TrashItem, b: TrashItem| #[trigger] le(a, b) || le(b, a) by {
        lemma_text_order(a.orig_path@, b.orig_path@, a.orig_path@);
    }
    assert forall|a: TrashItem, b: TrashItem, c: TrashItem| #[trigger] le(a, b) && #[trigger] le(
        b,
        c,
    ) implies le(a, c) by {
        lemma_text_order(a.orig_path@, b.orig_path@, c.orig_path@);
    }
}

/// Part of a list never adds up to more than the whole.
pub proof fn lemma_filter_size(items: Seq<Item>, keep: spec_fn(Item) -> bool)
    ensures
        total_size(items.filter(keep)) <= total_size(items),
        items.filter(keep).len() <= items.len(),
    decreases items.len(),
{
    reveal(Seq::filter);
    if items.len() > 0 {
        lemma_filter_size(items.drop_last(), keep);
        let f = items.drop_last().filter(keep);
        if keep(items.last()) {
            assert(f.push(items.last()).drop_last() =~= f);
        }
    }
}

/// A front part of a list never adds up to more than the whole.
pub proof fn lemma_prefix_size(items: Seq<Item>, k: int)
    requires
        0 <= k <= items.len(),
    ensures
        total_size(items.take(k)) <= total_size(items),
    decreases items.len() - k,
{
    if k < items.len() {
        assert(items.take(k + 1).drop_last() =~= items.take(k));
        lemma_prefix_size(items, k + 1);
    } else {
        assert(items.take(k) =~= items);
    }
}

/// (file count, total size) of everything strictly inside a trashed folder.
pub fn trashed_subtree_totals(entries: &[Entry], top: &str) -> (r: (usize, u64))
    requires
        total_size(files_below(listing(entries@), top@)) <= u64::MAX,
    ensures
        r.0 == files_below(listing(entries@), top@).len(),
        r.1 == total_size(files_below(listing(entries@), top@)),
{
    let ghost items = listing(entries@);
    let ghost keep = |e: Item| e.1 == EntryKind::File && below(e.0, top@);
    let mut n: usize = 0;
    let mut size: u64 = 0;
    let mut i: usize = 0;
    proof {
        reveal(Seq::filter);
        assert(items.take(0).filter(keep) =~= Seq::<Item>::empty());
    }
    while i < entries.len()
        invariant
            i <= entries@.len(),
            n <= i,
            items == listing(entries@),
            keep == (|e: Item| e.1 == EntryKind::File && below(e.0, top@)),
            total_size(items.filter(keep)) <= u64::MAX,
            n == items.take(i as int).filter(keep).len(),
            size == total_size(items.take(i as int).filter(keep)),
        decreases entries@.len() - i,
    {
        let ghost f0 = items.take(i as int).filter(keep);
        let ghost f1 = items.take(i + 1).filter(keep);
        proof {
            reveal(Seq::filter);
            assert(items.take(i + 1).drop_last() =~= items.take(i as int));
            assert(items[i as int] == item(entries@[i as int]));
            lemma_filter_grows(items, keep, i + 1);
        }
        if entries[i].1 == EntryKind::File && is_below(&entries[i].0, top) {
            assert(f1 == f0.push(items[i as int]));
            assert(f1.drop_last() =~= f0);
            n += 1;
            size += entries[i].2;
        }
        i += 1;
    }
    assert(items.take(i as int) =~= items);
    (n, size)
}

proof fn lemma_filter_grows(items: Seq<Item>, keep: spec_fn(Item) -> bool, k: int)
    requires
        0 <= k <= items.len(),
    ensures
        total_size(items.take(k).filter(keep)) <= total_size(items.filter(keep)),
    decreases items.len() - k,
{
    reveal(Seq::filter);
    if k < items.len() {
        let f = items.take(k).filter(keep);
        assert(items.take(k + 1).drop_last() =~= items.take(k));
        if keep(items[k]) {
            assert(f.push(items[k]).drop_last() =~= f);
        }
        lemma_filter_grows(items, keep, k + 1);
    } else {
        assert(items.take(k) =~= items);
    }
}

/// Whether trash item `a` ranks before or with `b`.
fn trash_at_most(a: &TrashItem, b: &TrashItem) -> (r: bool)
    ensures
        r == trash_le()(a@, b@),
{
    a.deleted_at > b.deleted_at || (a.deleted_at == b.deleted_at && text_at_most(
        &a.orig_path,
        &b.orig_path,
    ))
}

/// Whether the sizes of the files in each trashed folder that is shown add up to a
/// number that fits.
pub open spec fn trash_sizes_fit(items: Seq<Item>) -> bool {
    forall|i: int|
        0 <= i < items.len() && (#[trigger] items[i]).1 == EntryKind::Dir && trash_item(
            items,
            items[i],
        ) is Some ==> total_size(files_below(items, items[i].0)) <= u64::MAX
}

/// The trash of a vault whose sizes all add up can be shown.
pub proof fn law_trash_of_a_fitting_vault_fits(items: Seq<Item>)
    requires
        total_size(items) <= u64::MAX,
    ensures
        trash_sizes_fit(items),
{
    assert forall|i: int| 0 <= i < items.len() implies total_size(
        files_below(items, (#[trigger] items[i]).0),
    ) <= u64::MAX by {
        let p = items[i].0;
        lemma_filter_size(items, |e: Item| e.1 == EntryKind::File && below(e.0, p));
    }
}

/// The soft-deleted entries (the direct children of `.trash`), most recent first.
/// Malformed tokens are skipped rather than shown wrong.
pub fn trashed_items(entries: &[Entry]) -> (r: Vec<TrashItem>)
    requires
        trash_sizes_fit(listing(entries@)),
    ensures
        stably_sorted(
            trash_found(listing(entries@), listing(entries@)),
            trash_views(r@),
            trash_le(),
        ),
{
    let ghost items = listing(entries@);
    let mut found: Vec<TrashItem> = Vec::new();
    let mut i: usize = 0;
    assert(items.take(0) =~= Seq::<Item>::empty());
    assert(trash_views(found@) =~= Seq::<TrashItemView>::empty());
    while i < entries.len()
        invariant
            i <= entries@.len(),
            items == listing(entries@),
            trash_sizes_fit(items),
            trash_views(found@) == trash_found(items, items.take(i as int)),
        decreases entries@.len() - i,
    {
        proof {
            assert(items.take(i + 1).drop_last() =~= items.take(i as int));
            assert(items[i as int] == item(entries@[i as int]));
            crate::path::lemma_trash_dir();
        }
        let p = &entries[i].0;
        if same_text(parent_dir(p), TRASH_DIR) {
            if let Some((deleted_at, orig_path)) = parse_trash_token(p) {
                let (files, size): (usize, u64) = if entries[i].1 == EntryKind::Dir {
                    trashed_subtree_totals(entries, p)
                } else {
                    (0, entries[i].2)
                };
                let ghost before = trash_views(found@);
                let t = TrashItem {
                    trashed_path: p.clone(),
                    orig_path,
                    deleted_at,
                    kind: entries[i].1,
                    size,
                    files,
                };
                let ghost tv = t@;
                found.push(t);
                assert(trash_views(found@) =~= before.push(tv));
            }
        }
        i += 1;
    }
    assert(items.take(i as int) =~= items);
    let ghost input = found@;
    let ghost le = |a: TrashItem, b: TrashItem| trash_le()(a@, b@);
    proof {
        lemma_trash_ranking();
    }
    let at_most = |a: &TrashItem, b: &TrashItem| -> (r: bool)
        ensures
            r == trash_le()(a@, b@),
        { trash_at_most(a, b) };
    let sorted = sort_stable(found, at_most, Ghost(le));
    proof {
        let p = choose|p: Seq<int>| #[trigger] crate::order::arranged(input, sorted@, le, p);
        assert forall|i: int| 0 <= i < sorted@.len() implies #[trigger] trash_views(sorted@)[i]
            == trash_views(input)[p[i]] by {
            assert(sorted@[i] == input[p[i]]);
        }
        assert forall|i: int, j: int| 0 <= i < j < sorted@.len() implies trash_le()(
            trash_views(sorted@)[i],
            trash_views(sorted@)[j],
        ) && (trash_le()(trash_views(sorted@)[j], trash_views(sorted@)[i]) ==> p[i] < p[j]) by {
            assert(le(sorted@[i], sorted@[j]) && (le(sorted@[j], sorted@[i]) ==> p[i] < p[j]));
        }
        assert(crate::order::arranged(trash_views(input), trash_views(sorted@), trash_le(), p));
    }
    sorted
}

/// Whether the vault has any entry outside the trash. A vault holding only trashed
/// files should still read as "empty" in the browser.
pub fn has_live_entries(entries: &[Entry]) -> (r: bool)
    ensures
        r == exists|i: int|
            0 <= i < entries@.len() && !trashed((#[trigger] listing(entries@)[i]).0),
{
    let mut i: usize = 0;
    while i < entries.len()
        invariant
            i <= entries@.len(),
            forall|k: int| 0 <= k < i ==> trashed((#[trigger] listing(entries@)[k]).0),
        decreases entries@.len() - i,
    {
        assert(listing(entries@)[i as int] == item(entries@[i as int]));
        if !is_trashed(&entries[i].0) {
            return true;
        }
        i += 1;
    }
    false
}

/// (live file count, live total size), that is excluding the trash, so a vault's
/// card shrinks the moment a file is trashed.
pub fn live_counts(entries: &[Entry]) -> (r: (u64, u64))
    requires
        total_size(live_files(listing(entries@))) <= u64::MAX,
    ensures
        r.0 == live_files(listing(entries@)).len(),
        r.1 == total_size(live_files(listing(entries@))),
{
    let ghost items = listing(entries@);
    let ghost keep = |e: Item| e.1 == EntryKind::File && !trashed(e.0);
    let mut n: u64 = 0;
    let mut size: u64 = 0;
    let mut i: usize = 0;
    proof {
        reveal(Seq::filter);
        assert(items.take(0).filter(keep) =~= Seq::<Item>::empty());
    }
    while i < entries.len()
        invariant
            i <= entries@.len(),
            n <= i,
            items == listing(entries@),
            keep == (|e: Item| e.1 == EntryKind::File && !trashed(e.0)),
            total_size(items.filter(keep)) <= u64::MAX,
            n == items.take(i as int).filter(keep).len(),
            size == total_size(items.take(i as int).filter(keep)),
        decreases entries@.len() - i,
    {
        let ghost f0 = items.take(i as int).filter(keep);
        let ghost f1 = items.take(i + 1).filter(keep);
        proof {
            reveal(Seq::filter);
            assert(items.take(i + 1).drop_last() =~= items.take(i as int));
            assert(items[i as int] == item(entries@[i as int]));
            lemma_filter_grows(items, keep, i + 1);
        }
        if entries[i].1 == EntryKind::File && !is_trashed(&entries[i].0) {
            assert(f1 == f0.push(items[i as int]));
            assert(f1.drop_last() =~= f0);
            n += 1;
            size += entries[i].2;
        }
        i += 1;
    }
    assert(items.take(i as int) =~= items);
    (n, size)
}

// ---------------------------------------------------------------------------
// Restoring
// ---------------------------------------------------------------------------

/// What is inserted before the extension on the `k`-th try: nothing, " (restored)",
/// " (restored 2)", and so on.
pub open spec fn restore_suffix(k: nat) -> Seq<char> {
    if k == 0 {
        Seq::empty()
    } else if k == 1 {
        " (restored)"@
    } else {
        " (restored "@ + decimal_text(k) + ")"@
    }
}

/// The `k`-th path tried for restoring `desired`.
pub open spec fn restore_candidate(desired: Seq<char>, k: nat) -> Seq<char> {
    if k == 0 {
        desired
    } else {
        let (stem, ext) = ext_split(leaf_of(desired));
        child_of(parent_of(desired), stem + restore_suffix(k) + ext)
    }
}

proof fn lemma_suffix_distinct(j: nat, k: nat)
    requires
        1 <= j < k,
    ensures
        restore_suffix(j) != restore_suffix(k),
{
    reveal_strlit(" (restored)");
    reveal_strlit(" (restored ");
    reveal_strlit(")");
    lemma_decimal_round_trip(k);
    let sk = restore_suffix(k);
    assert(sk.len() >= 13);
    if j >= 2 {
        lemma_decimal_round_trip(j);
        let sj = restore_suffix(j);
        if sj == sk {
            assert(sj.subrange(11, sj.len() - 1) =~= decimal_text(j));
            assert(sk.subrange(11, sk.len() - 1) =~= decimal_text(k));
        }
    } else {
        assert(restore_suffix(j).len() == 11);
    }
}

proof fn lemma_candidates_distinct(desired: Seq<char>, j: nat, k: nat)
    requires
        j < k,
    ensures
        restore_candidate(desired, j) != restore_candidate(desired, k),
{
    let (stem, ext) = ext_split(leaf_of(desired));
    let parent = parent_of(desired);
    let at: int = if parent.len() == 0 { 0 } else { parent.len() + 1int };
    let a = restore_candidate(desired, j);
    let b = restore_candidate(desired, k);
    if j == 0 {
        // Every candidate but the first is longer than the desired path.
        crate::text::lemma_last_pos(desired, '/');
        crate::path::law_ext_split_rebuilds_the_leaf(leaf_of(desired));
        reveal_strlit(" (restored)");
        reveal_strlit(" (restored ");
        assert(restore_suffix(k).len() >= 11);
        assert(b.len() == at + stem.len() + restore_suffix(k).len() + ext.len());
        assert((stem + ext).len() == leaf_of(desired).len());
    } else {
        lemma_suffix_distinct(j, k);
        assert(a.subrange(at + stem.len(), a.len() - ext.len()) =~= restore_suffix(j));
        assert(b.subrange(at + stem.len(), b.len() - ext.len()) =~= restore_suffix(k));
    }
}

/// If the candidates up to the `k`-th are all taken, more than `k` paths are.
proof fn lemma_some_candidate_free(taken: Seq<Seq<char>>, desired: Seq<char>, k: nat)
    requires
        forall|j: nat| j <= k ==> taken.contains(#[trigger] restore_candidate(desired, j)),
    ensures
        k < taken.len(),
{
    let tries = vstd::set_lib::set_int_range(0, k + 1int);
    vstd::set_lib::lemma_int_range(0, k + 1int);
    let f = |j: int| restore_candidate(desired, j as nat);
    assert(vstd::relations::injective_on(f, tries)) by {
        assert forall|a: int, b: int|
            tries.contains(a) && tries.contains(b) && #[trigger] f(a) == #[trigger] f(b) implies a
            == b by {
            if a < b {
                lemma_candidates_distinct(desired, a as nat, b as nat);
            } else if b < a {
                lemma_candidates_distinct(desired, b as nat, a as nat);
            }
        }
    }
    vstd::set_lib::lemma_map_size(tries, tries.map(f), f);
    assert(tries.map(f).subset_of(taken.to_set())) by {
        assert forall|x: Seq<char>| tries.map(f).contains(x) implies taken.to_set().contains(x) by {
            let j = choose|j: int| tries.contains(j) && f(j) == x;
            assert(taken.contains(restore_candidate(desired, j as nat)));
        }
    }
    vstd::set_lib::lemma_len_subset(tries.map(f), taken.to_set());
    taken.lemma_cardinality_of_set();
}

/// A free vault path to restore `desired` to: it is used as it stands when nothing
/// lives there, else " (restored)", " (restored 2)", … is inserted before the
/// extension until the name is unused. `taken` lists the existing paths.
pub fn dedup_path(taken: &[String], desired: &str) -> (r: String)
    ensures
        exists|k: nat|
            r@ == #[trigger] restore_candidate(desired@, k) && !texts(taken@).contains(r@)
                && forall|j: nat|
                j < k ==> texts(taken@).contains(#[trigger] restore_candidate(desired@, j)),
{
    if !text_in(taken, desired) {
        assert(restore_candidate(desired@, 0) == desired@);
        return owned(desired);
    }
    let parent = parent_dir(desired);
    let (stem, ext) = split_ext(leaf_name(desired));
    let mut candidate = join_path(parent, &concat3(stem, " (restored)", ext));
    let mut n: u64 = 1;
    let count: usize = taken.len();
    proof {
        assert forall|j: nat| j <= 0 implies texts(taken@).contains(
            #[trigger] restore_candidate(desired@, j),
        ) by {}
        lemma_some_candidate_free(texts(taken@), desired@, 0);
    }
    assert(candidate@ == restore_candidate(desired@, 1));
    while text_in(taken, &candidate)
        invariant
            count == taken@.len(),
            (stem@, ext@) == ext_split(leaf_of(desired@)),
            parent@ == parent_of(desired@),
            1 <= n <= count,
            candidate@ == restore_candidate(desired@, n as nat),
            forall|j: nat|
                j < n ==> texts(taken@).contains(#[trigger] restore_candidate(desired@, j)),
        decreases count - n,
    {
        proof {
            assert forall|j: nat| j <= n implies texts(taken@).contains(
                #[trigger] restore_candidate(desired@, j),
            ) by {}
            lemma_some_candidate_free(texts(taken@), desired@, n as nat);
        }
        n += 1;
        let suffix = concat3(" (restored ", &decimal(n), ")");
        candidate = join_path(parent, &concat3(stem, &suffix, ext));
        assert(suffix@ == restore_suffix(n as nat));
    }
    candidate
}

/// A path that was made for the trash reads back: when it was deleted, and what it was
/// called, whatever the name is made of; and it stands directly in the trash.
pub proof fn law_a_trashed_path_remembers_where_it_was(
    deleted_at: i64,
    tag: &str,
    orig: &str,
    dest: String,
    path: &str,
    r: Option<(i64, String)>,
)
    requires
        call_ensures(trash_dest, (deleted_at, tag, orig), dest),
        path@ == dest@,
        call_ensures(parse_trash_token, (path,), r),
        deleted_at >= 0,
        !tag@.contains('-'),
        !tag@.contains('/'),
    ensures
        r is Some && (r->0).0 == deleted_at && (r->0).1@ == orig@,
        dest@.len() > 7 && dest@.take(7) == ".trash/"@,
        forall|i: int| 7 <= i < dest@.len() ==> #[trigger] dest@[i] != '/',
{
    law_trash_token_round_trip(deleted_at, tag@, orig@);
    law_trash_path_is_a_direct_child(deleted_at, tag@, orig@);
    reveal_strlit(".trash/");
    reveal_strlit(".trash");
    crate::path::lemma_trash_dir();
    assert(dest@[0] == '.');
    crate::path::lemma_directly_in(dest@, ".trash"@);
    assert(dest@.take(7) =~= ".trash/"@) by {
        assert(dest@.take(6) == ".trash"@);
        assert forall|i: int| 0 <= i < 6 implies dest@[i] == ".trash"@[i] by {
            assert(dest@.take(6)[i] == dest@[i]);
        }
    }
    crate::text::lemma_signed_round_trip(deleted_at);
}

/// Two trashed items get different places if their tags, their times or their names differ.
pub proof fn law_trashed_items_never_collide(
    at1: i64,
    tag1: &str,
    orig1: &str,
    at2: i64,
    tag2: &str,
    orig2: &str,
    d1: String,
    d2: String,
)
    requires
        call_ensures(trash_dest, (at1, tag1, orig1), d1),
        call_ensures(trash_dest, (at2, tag2, orig2), d2),
        at1 >= 0,
        at2 >= 0,
        !tag1@.contains('-'),
        !tag2@.contains('-'),
        d1@ == d2@,
    ensures
        at1 == at2,
        tag1@ == tag2@,
        orig1@ == orig2@,
{
    law_trash_token_round_trip(at1, tag1@, orig1@);
    law_trash_token_round_trip(at2, tag2@, orig2@);
    let e = pct_encoded(orig1@);
    let num = signed_text(at1 as int);
    let n = 7 + num.len() + 1int;
    assert(d1@.subrange(n, d1@.len() - e.len() - 1) =~= tag1@);
    assert(d2@.subrange(n, d2@.len() - e.len() - 1) =~= tag2@);
}

/// The live files of a vault are counted one by one, with their sizes: a file outside the
/// trash counts, a folder or a trashed file does not.
pub proof fn law_live_files_are_counted_one_by_one(
    a: &[Entry],
    b: &[Entry],
    e: Entry,
    ra: (u64, u64),
    rb: (u64, u64),
)
    requires
        call_ensures(live_counts, (a,), ra),
        call_ensures(live_counts, (b,), rb),
        b@ == a@.push(e),
    ensures
        a@.len() == 0 ==> ra == (0u64, 0u64),
        ({
            let counts = e.1 == EntryKind::File && e.0@ != ".trash"@ && !(e.0@.len() > 6
                && e.0@.take(6) == ".trash"@ && e.0@[6] == '/');
            rb.0 == ra.0 + (if counts {
                1int
            } else {
                0
            }) && rb.1 == ra.1 + (if counts {
                e.2 as int
            } else {
                0
            })
        }),
{
    reveal(Seq::filter);
    reveal_strlit(".trash");
    crate::path::lemma_trash_dir();
    crate::path::lemma_behind_a_slash(e.0@, ".trash"@);
    assert(listing(b@).drop_last() =~= listing(a@));
    assert(listing(b@).last() == item(e));
    let fa = live_files(listing(a@));
    assert(fa.push(item(e)).drop_last() =~= fa);
}

/// The files inside a trashed folder are counted one by one, with their sizes, however deep
/// they lie.
pub proof fn law_trashed_folders_count_all_their_files(
    a: &[Entry],
    b: &[Entry],
    e: Entry,
    top: &str,
    ra: (usize, u64),
    rb: (usize, u64),
)
    requires
        call_ensures(trashed_subtree_totals, (a, top), ra),
        call_ensures(trashed_subtree_totals, (b, top), rb),
        b@ == a@.push(e),
    ensures
        a@.len() == 0 ==> ra == (0usize, 0u64),
        ({
            let counts = e.1 == EntryKind::File && e.0@.len() > top@.len() && e.0@.take(
                top@.len() as int,
            ) == top@ && e.0@[top@.len() as int] == '/';
            rb.0 == ra.0 + (if counts {
                1int
            } else {
                0
            }) && rb.1 == ra.1 + (if counts {
                e.2 as int
            } else {
                0
            })
        }),
{
    reveal(Seq::filter);
    crate::path::lemma_behind_a_slash(e.0@, top@);
    assert(listing(b@).drop_last() =~= listing(a@));
    assert(listing(b@).last() == item(e));
    let fa = files_below(listing(a@), top@);
    assert(fa.push(item(e)).drop_last() =~= fa);
}

proof fn lemma_found_has(items: Seq<Item>, part: Seq<Item>, i: int)
    requires
        0 <= i < part.len(),
        trash_item(items, part[i]) is Some,
    ensures
        trash_found(items, part).contains(trash_item(items, part[i])->0),
    decreases part.len(),
{
    let before = trash_found(items, part.drop_last());
    let all = trash_found(items, part);
    if i < part.len() - 1 {
        assert(part.drop_last()[i] == part[i]);
        lemma_found_has(items, part.drop_last(), i);
        let k = choose|k: int|
            0 <= k < before.len() && before[k] == trash_item(items, part[i])->0;
        assert(all[k] == before[k]);
    } else {
        assert(all[before.len() as int] == trash_item(items, part[i])->0);
    }
}

proof fn lemma_found_from(items: Seq<Item>, part: Seq<Item>, k: int) -> (i: int)
    requires
        0 <= k < trash_found(items, part).len(),
    ensures
        0 <= i < part.len(),
        trash_item(items, part[i]) == Some(trash_found(items, part)[k]),
    decreases part.len(),
{
    let before = trash_found(items, part.drop_last());
    if k < before.len() {
        let i = lemma_found_from(items, part.drop_last(), k);
        assert(part.drop_last()[i] == part[i]);
        i
    } else {
        part.len() - 1
    }
}

/// Everything that was put into the trash is shown there, under the name it had, with its
/// time and kind, and a file with its size.
pub proof fn law_what_was_trashed_is_shown(
    entries: &[Entry],
    r: Vec<TrashItem>,
    i: int,
    at: i64,
    tag: Seq<char>,
    orig: Seq<char>,
)
    requires
        call_ensures(trashed_items, (entries,), r),
        trash_sizes_fit(listing(entries@)),
        0 <= i < entries@.len(),
        at >= 0,
        !tag.contains('-'),
        !tag.contains('/'),
        entries@[i].0@ == trash_path(at, tag, orig),
    ensures
        exists|k: int|
            0 <= k < r@.len() && (#[trigger] r@[k]).trashed_path@ == entries@[i].0@
                && r@[k].orig_path@ == orig && r@[k].deleted_at == at && r@[k].kind == entries@[i].1
                && (entries@[i].1 == EntryKind::File ==> r@[k].size == entries@[i].2),
{
    let items = listing(entries@);
    assert(items[i] == item(entries@[i]));
    law_trash_token_round_trip(at, tag, orig);
    law_trash_path_is_a_direct_child(at, tag, orig);
    let t = trash_item(items, items[i])->0;
    lemma_found_has(items, items, i);
    crate::order::law_sorting_keeps_the_values(
        trash_found(items, items),
        trash_views(r@),
        trash_le(),
        t,
    );
    let k = choose|k: int| 0 <= k < trash_views(r@).len() && trash_views(r@)[k] == t;
    assert(r@[k]@ == t);
    assert(r@[k].trashed_path@ == entries@[i].0@);
}

/// The trash shows only what stands directly in it, each with its own name there, the most
/// recently deleted first.
pub proof fn law_the_trash_shows_nothing_else(
    entries: &[Entry],
    r: Vec<TrashItem>,
    k: int,
    j: int,
)
    requires
        call_ensures(trashed_items, (entries,), r),
        trash_sizes_fit(listing(entries@)),
        0 <= k < j < r@.len(),
    ensures
        r@[k].deleted_at >= r@[j].deleted_at,
        r@[k].trashed_path@.len() > 7 && r@[k].trashed_path@.take(7) == ".trash/"@,
        exists|i: int|
            0 <= i < entries@.len() && (#[trigger] entries@[i]).0@ == r@[k].trashed_path@
                && entries@[i].1 == r@[k].kind,
{
    let items = listing(entries@);
    let found = trash_found(items, items);
    let v = trash_views(r@);
    let p = choose|p: Seq<int>| #[trigger] crate::order::arranged(found, v, trash_le(), p);
    assert(trash_le()(v[k], v[j]));
    assert(v[k] == r@[k]@ && v[j] == r@[j]@);
    assert(v.contains(v[k]));
    crate::order::law_sorting_keeps_the_values(found, v, trash_le(), v[k]);
    let m = choose|m: int| 0 <= m < found.len() && found[m] == v[k];
    let i = lemma_found_from(items, items, m);
    assert(items[i] == item(entries@[i]));
    assert(entries@[i].0@ == r@[k].trashed_path@);
    reveal_strlit(".trash/");
    assert(trash_dir().push('/') =~= ".trash/"@);
    let t = entries@[i].0@;
    assert(t.take(7) == trash_dir().push('/'));
    if t.len() == 7 {
        assert(t.skip(7) =~= Seq::<char>::empty());
        crate::text::lemma_first_pos(t.skip(7), '-');
    }
}

/// A restored entry never overwrites: it goes back where it was if that is free, and else to
/// a free path in the same folder that differs only by a mark before the extension.
pub proof fn law_a_restored_entry_overwrites_nothing(
    taken: &[String],
    desired: &str,
    r: String,
)
    requires
        call_ensures(dedup_path, (taken, desired), r),
        crate::text::last_pos(desired@, '/') != 0,
    ensures
        !texts(taken@).contains(r@),
        !texts(taken@).contains(desired@) ==> r@ == desired@,
        texts(taken@).contains(desired@) ==> exists|at: int, mark: Seq<char>|
            #[trigger] is_marked(desired@, at, mark, r@),
{
    let k = choose|k: nat|
        r@ == #[trigger] restore_candidate(desired@, k) && !texts(taken@).contains(r@) && forall|
            j: nat,
        |
            j < k ==> texts(taken@).contains(#[trigger] restore_candidate(desired@, j));
    assert(restore_candidate(desired@, 0) == desired@);
    if texts(taken@).contains(desired@) {
        assert(k > 0);
        lemma_marked(desired@, k);
    } else if k > 0 {
        assert(texts(taken@).contains(restore_candidate(desired@, 0)));
    }
}

/// Whether `r` is `desired` with a mark that says it was restored inserted at `at`, behind
/// the last slash and before the last dot, if one stands behind that.
pub open spec fn is_marked(desired: Seq<char>, at: int, mark: Seq<char>, r: Seq<char>) -> bool {
    &&& crate::text::last_pos(desired, '/') < at <= desired.len()
    &&& r == desired.take(at) + mark + desired.skip(at)
    &&& mark.len() >= 11 && mark.take(10) == " (restored"@ && mark.last() == ')'
    &&& at < desired.len() ==> desired[at] == '.'
    &&& forall|x: int| at < x < desired.len() ==> #[trigger] desired[x] != '.'
}

proof fn lemma_marked(base: Seq<char>, k: nat)
    requires
        crate::text::last_pos(base, '/') != 0,
        k > 0,
    ensures
        exists|at: int, mark: Seq<char>|
            #[trigger] is_marked(base, at, mark, restore_candidate(base, k)),
{
    let mark = restore_suffix(k);
    let at = crate::path::lemma_before_the_extension(base, mark);
    assert(restore_candidate(base, k) == base.take(at) + mark + base.skip(at));
    reveal_strlit(" (restored)");
    reveal_strlit(" (restored ");
    reveal_strlit(" (restored");
    reveal_strlit(")");
    lemma_decimal_round_trip(k);
    assert(mark.take(10) =~= " (restored"@);
    assert(is_marked(base, at, mark, restore_candidate(base, k)));
}

} // verus!
