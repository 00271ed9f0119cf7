//! The local passphrase policy.

use vstd::prelude::*;
use crate::browse::{one_of, str_texts};
use crate::text::{
    alphanumeric, is_alphanumeric, is_digit, is_whitespace, lowercase, owned, to_chars,
    to_lowercase, whitespace,
};

verus! {

/// Fewest characters a passphrase may have.
pub const MIN_PASSPHRASE_CHARS: usize = 12;

/// Lowest strength score that is accepted.
pub const MIN_PASSPHRASE_SCORE: u32 = 7;

/// Placeholder of a passphrase field.
pub const PASSPHRASE_HINT: &'static str = "Strong passphrase";

/// Said of a passphrase that is too short.
pub const PASSPHRASE_LENGTH_MESSAGE: &'static str = "Passphrase must be at least 12 characters.";

/// Said of a passphrase that is too weak.
pub const PASSPHRASE_STRENGTH_MESSAGE: &'static str = "Use a stronger passphrase: combine several words or mix letters, numbers, and symbols.";

/// Passphrases that are refused whatever their score, in lower case.
pub open spec fn common_weak() -> Seq<Seq<char>> {
    seq![
        "password"@,
        "password1"@,
        "password12"@,
        "password123"@,
        "password1234"@,
        "123456789012"@,
        "qwerty123456"@,
        "letmein12345"@,
        "admin1234567"@,
        "filesec12345"@,
    ]
}

/// Whether five equal characters stand at position `i`.
pub open spec fn run_at(s: Seq<char>, i: int) -> bool {
    0 <= i && i + 5 <= s.len() && forall|k: int| i <= k < i + 5 ==> s[k] == s[i]
}

/// Whether some character is repeated five times in a row.
pub open spec fn long_run(s: Seq<char>) -> bool {
    exists|i: int| #[trigger] run_at(s, i)
}

/// The pieces of `s` between whitespace characters.
pub open spec fn word_pieces(s: Seq<char>) -> Seq<Seq<char>>
    decreases s.len(),
{
    if s.len() == 0 {
        seq![Seq::<char>::empty()]
    } else {
        let before = word_pieces(s.drop_last());
        if whitespace(s.last()) {
            before.push(Seq::<char>::empty())
        } else {
            before.drop_last().push(before.last().push(s.last()))
        }
    }
}

/// How many words of three or more characters `s` holds.
pub open spec fn long_words(s: Seq<char>) -> nat {
    word_pieces(s).filter(|w: Seq<char>| w.len() >= 3).len()
}

/// One point for a condition that holds.
pub open spec fn point(b: bool) -> nat {
    if b {
        1
    } else {
        0
    }
}

/// Whether some character of `s` has a property.
pub open spec fn some_char(s: Seq<char>, has: spec_fn(char) -> bool) -> bool {
    exists|i: int| 0 <= i < s.len() && has(#[trigger] s[i])
}

/// The strength score: points for length, for each class of characters used, for a
/// phrase of several words, and for variety.
pub open spec fn strength(phrase: Seq<char>, chars: Seq<char>, unique: nat) -> nat {
    let n = chars.len();
    2 * point(n >= 12) + point(n >= 16) + point(n >= 20) + point(n >= 28) + point(
        some_char(chars, |c: char| 'a' <= c <= 'z'),
    ) + point(some_char(chars, |c: char| 'A' <= c <= 'Z')) + point(
        some_char(chars, |c: char| is_digit(c)),
    ) + point(some_char(chars, |c: char| whitespace(c))) + point(
        some_char(chars, |c: char| !alphanumeric(c) && !whitespace(c)),
    ) + 2 * point(long_words(phrase) >= 4 && n >= 20) + point(unique >= 8)
}

/// Whether a passphrase long enough is too weak.
pub open spec fn too_weak(s: Seq<char>) -> bool {
    ||| common_weak().contains(lowercase(s))
    ||| s.to_set().len() < 6
    ||| long_run(s)
    ||| strength(s, s, s.to_set().len()) < 7
}

/// What the policy says of a passphrase; nothing if it accepts it.
pub open spec fn policy(s: Seq<char>) -> Option<Seq<char>> {
    if s.len() < 12 {
        Some(PASSPHRASE_LENGTH_MESSAGE@)
    } else if too_weak(s) {
        Some(PASSPHRASE_STRENGTH_MESSAGE@)
    } else {
        None
    }
}

/// Whether some character is repeated five times in a row.
pub fn has_long_repeated_run(chars: &[char]) -> (r: bool)
    ensures
        r == long_run(chars@),
{
    let mut run: usize = 0;
    let mut i: usize = 0;
    while i < chars.len()
        invariant
            i <= chars@.len(),
            run <= i,
            run < 5,
            i > 0 ==> run > 0,
            forall|k: int| i - run <= k < i ==> #[trigger] chars@[k] == chars@[i - 1],
            i - run > 0 && run > 0 ==> chars@[i - run - 1] != chars@[i - 1],
            forall|j: int| #[trigger] run_at(chars@, j) ==> j + 5 > i,
        decreases chars@.len() - i,
    {
        let same = i > 0 && chars[i] == chars[i - 1];
        let ghost old_run = run;
        if same {
            run += 1;
        } else {
            run = 1;
        }
        if run >= 5 {
            assert(run_at(chars@, i - 4));
            return true;
        }
        proof {
            assert forall|j: int| #[trigger] run_at(chars@, j) implies j + 5 > i + 1 by {
                if j + 5 == i + 1 {
                    // The run would have to be at least five long.
                    assert(chars@[i as int] == chars@[j]);
                    assert(chars@[i - 1] == chars@[j]);
                    assert(chars@[i - old_run - 1] == chars@[j]);
                }
            }
        }
        i += 1;
    }
    assert forall|j: int| !#[trigger] run_at(chars@, j) by {
        if run_at(chars@, j) {
            assert(j + 5 > i);
        }
    }
    false
}

/// How many different characters there are.
pub fn distinct_chars(chars: &[char]) -> (n: usize)
    ensures
        n == chars@.to_set().len(),
{
    let mut seen: Vec<char> = Vec::new();
    let mut i: usize = 0;
    assert(chars@.take(0).to_set() =~= seen@.to_set());
    while i < chars.len()
        invariant
            i <= chars@.len(),
            seen@.no_duplicates(),
            seen@.to_set() == chars@.take(i as int).to_set(),
        decreases chars@.len() - i,
    {
        let c = chars[i];
        let mut k: usize = 0;
        while k < seen.len() && seen[k] != c
            invariant
                k <= seen@.len(),
                forall|j: int| 0 <= j < k ==> seen@[j] != c,
            decreases seen@.len() - k,
        {
            k += 1;
        }
        let ghost before = seen@;
        if k == seen.len() {
            seen.push(c);
        }
        proof {
            let t0 = chars@.take(i as int);
            let t1 = chars@.take(i + 1);
            assert(t1 =~= t0.push(c));
            if k == before.len() {
                assert(seen@ == before.push(c));
                lemma_push_set(before, c);
            } else {
                assert(before.to_set().contains(c)) by {
                    assert(before[k as int] == c);
                }
            }
            lemma_push_set(t0, c);
            assert(seen@.to_set() =~= t1.to_set());
        }
        i += 1;
    }
    assert(chars@.take(i as int) =~= chars@);
    proof {
        seen@.unique_seq_to_set();
    }
    seen.len()
}

proof fn lemma_push_set(s: Seq<char>, c: char)
    ensures
        s.push(c).to_set() == s.to_set().insert(c),
{
    assert forall|x: char| s.to_set().insert(c).contains(x) implies s.push(c).to_set().contains(
        x,
    ) by {
        if x == c {
            assert(s.push(c)[s.len() as int] == x);
        } else {
            let k = choose|k: int| 0 <= k < s.len() && s[k] == x;
            assert(s.push(c)[k] == x);
        }
    }
    assert(s.push(c).to_set() =~= s.to_set().insert(c));
}

/// How many words of three or more characters there are.
pub fn count_long_words(chars: &[char]) -> (n: usize)
    ensures
        n == long_words(chars@),
{
    let ghost keep = |w: Seq<char>| w.len() >= 3;
    let mut done: usize = 0;
    let mut cur: usize = 0;
    let mut i: usize = 0;
    proof {
        reveal(Seq::filter);
        assert(word_pieces(chars@.take(0)) =~= seq![Seq::<char>::empty()]);
        assert(word_pieces(chars@.take(0)).drop_last() =~= Seq::<Seq<char>>::empty());
    }
    while i < chars.len()
        invariant
            i <= chars@.len(),
            done + cur <= i,
            keep == (|w: Seq<char>| w.len() >= 3),
            word_pieces(chars@.take(i as int)).len() > 0,
            word_pieces(chars@.take(i as int)).last().len() == cur,
            word_pieces(chars@.take(i as int)).drop_last().filter(keep).len() == done,
        decreases chars@.len() - i,
    {
        let ghost p0 = word_pieces(chars@.take(i as int));
        let ghost p1 = word_pieces(chars@.take(i + 1));
        proof {
            reveal(Seq::filter);
            assert(chars@.take(i + 1).drop_last() =~= chars@.take(i as int));
        }
        if is_whitespace(chars[i]) {
            assert(p1.drop_last() =~= p0);
            if cur >= 3 {
                done += 1;
            }
            cur = 0;
        } else {
            assert(p1.drop_last() =~= p0.drop_last());
            cur += 1;
        }
        i += 1;
    }
    assert(chars@.take(i as int) =~= chars@);
    proof {
        reveal(Seq::filter);
    }
    if cur >= 3 {
        done + 1
    } else {
        done
    }
}

/// The classes of characters in use: lower case, upper case, digits, whitespace and
/// symbols.
fn char_classes(chars: &[char]) -> (r: (bool, bool, bool, bool, bool))
    ensures
        r.0 == some_char(chars@, |c: char| 'a' <= c <= 'z'),
        r.1 == some_char(chars@, |c: char| 'A' <= c <= 'Z'),
        r.2 == some_char(chars@, |c: char| is_digit(c)),
        r.3 == some_char(chars@, |c: char| whitespace(c)),
        r.4 == some_char(chars@, |c: char| !alphanumeric(c) && !whitespace(c)),
{
    let (mut lower, mut upper, mut digit, mut space, mut symbol): (bool, bool, bool, bool, bool) = (
        false,
        false,
        false,
        false,
        false,
    );
    let mut i: usize = 0;
    while i < chars.len()
        invariant
            i <= chars@.len(),
            lower == exists|k: int| 0 <= k < i && 'a' <= #[trigger] chars@[k] <= 'z',
            upper == exists|k: int| 0 <= k < i && 'A' <= #[trigger] chars@[k] <= 'Z',
            digit == exists|k: int| 0 <= k < i && is_digit(#[trigger] chars@[k]),
            space == exists|k: int| 0 <= k < i && whitespace(#[trigger] chars@[k]),
            symbol == exists|k: int|
                0 <= k < i && !alphanumeric(#[trigger] chars@[k]) && !whitespace(chars@[k]),
        decreases chars@.len() - i,
    {
        let c = chars[i];
        let ghost k = i as int;
        assert(chars@[k] == c);
        if 'a' <= c && c <= 'z' {
            lower = true;
        }
        if 'A' <= c && c <= 'Z' {
            upper = true;
        }
        if '0' <= c && c <= '9' {
            digit = true;
        }
        let white = is_whitespace(c);
        if white {
            space = true;
        }
        if !is_alphanumeric(c) && !white {
            symbol = true;
        }
        i += 1;
    }
    (lower, upper, digit, space, symbol)
}

/// One point for a condition that holds.
fn points(b: bool) -> (n: u32)
    ensures
        n == point(b),
{
    if b {
        1
    } else {
        0
    }
}

/// The strength score of a passphrase, given its characters and how many of them
/// differ.
pub fn passphrase_strength_score(passphrase: &str, chars: &[char], unique: usize) -> (score: u32)
    ensures
        score == strength(passphrase@, chars@, unique as nat),
{
    let len: usize = chars.len();
    let (lower, upper, digit, space, symbol) = char_classes(chars);
    let words: usize = count_long_words(&to_chars(passphrase));
    2 * points(len >= 12) + points(len >= 16) + points(len >= 20) + points(len >= 28) + points(
        lower,
    ) + points(upper) + points(digit) + points(space) + points(symbol) + 2 * points(
        words >= 4 && len >= 20,
    ) + points(unique >= 8)
}

/// What is wrong with a passphrase, if anything.
pub fn passphrase_policy_error(passphrase: &str) -> (r: Option<String>)
    ensures
        crate::text::opt_text(r) == policy(passphrase@),
{
    let chars = to_chars(passphrase);
    if chars.len() < MIN_PASSPHRASE_CHARS {
        return Some(owned(PASSPHRASE_LENGTH_MESSAGE));
    }
    let weak = [
        "password",
        "password1",
        "password12",
        "password123",
        "password1234",
        "123456789012",
        "qwerty123456",
        "letmein12345",
        "admin1234567",
        "filesec12345",
    ];
    assert(str_texts(weak@) =~= common_weak());
    if one_of(&to_lowercase(passphrase), &weak) {
        return Some(owned(PASSPHRASE_STRENGTH_MESSAGE));
    }
    let unique: usize = distinct_chars(&chars);
    if unique < 6 || has_long_repeated_run(&chars) {
        return Some(owned(PASSPHRASE_STRENGTH_MESSAGE));
    }
    if passphrase_strength_score(passphrase, &chars, unique) < MIN_PASSPHRASE_SCORE {
        return Some(owned(PASSPHRASE_STRENGTH_MESSAGE));
    }
    None
}

/// A passphrase that the policy accepts has at least twelve characters, six of them
/// different, and none repeated five times in a row.
pub proof fn law_accepted_passphrases_are_long_and_varied(s: Seq<char>)
    requires
        policy(s) is None,
    ensures
        s.len() >= 12,
        s.to_set().len() >= 6,
        !long_run(s),
{
}

/// How many classes of characters a text uses: lower case, upper case, digits, whitespace,
/// and what is none of these nor a letter.
pub open spec fn classes_used(s: Seq<char>) -> nat {
    (if exists|i: int| 0 <= i < s.len() && 'a' <= #[trigger] s[i] <= 'z' {
        1nat
    } else {
        0
    }) + (if exists|i: int| 0 <= i < s.len() && 'A' <= #[trigger] s[i] <= 'Z' {
        1nat
    } else {
        0
    }) + (if exists|i: int| 0 <= i < s.len() && '0' <= #[trigger] s[i] <= '9' {
        1nat
    } else {
        0
    }) + (if exists|i: int| 0 <= i < s.len() && whitespace(#[trigger] s[i]) {
        1nat
    } else {
        0
    }) + (if exists|i: int|
        0 <= i < s.len() && !alphanumeric(#[trigger] s[i]) && !whitespace(s[i]) {
        1nat
    } else {
        0
    })
}

proof fn lemma_strength_classes(s: Seq<char>, unique: nat)
    ensures
        strength(s, s, unique) == 2 * point(s.len() >= 12) + point(s.len() >= 16) + point(
            s.len() >= 20,
        ) + point(s.len() >= 28) + classes_used(s) + 2 * point(
            long_words(s) >= 4 && s.len() >= 20,
        ) + point(unique >= 8),
{
    let lower = |c: char| 'a' <= c <= 'z';
    let upper = |c: char| 'A' <= c <= 'Z';
    let digit = |c: char| is_digit(c);
    let space = |c: char| whitespace(c);
    let symbol = |c: char| !alphanumeric(c) && !whitespace(c);
    assert(some_char(s, lower) <==> exists|i: int| 0 <= i < s.len() && 'a' <= #[trigger] s[i]
        <= 'z');
    assert(some_char(s, upper) <==> exists|i: int| 0 <= i < s.len() && 'A' <= #[trigger] s[i]
        <= 'Z');
    assert(some_char(s, digit) <==> exists|i: int| 0 <= i < s.len() && '0' <= #[trigger] s[i]
        <= '9');
    assert(some_char(s, space) <==> exists|i: int| 0 <= i < s.len() && whitespace(#[trigger] s[i]));
    assert(some_char(s, symbol) <==> exists|i: int|
        0 <= i < s.len() && !alphanumeric(#[trigger] s[i]) && !whitespace(s[i]));
}

/// Whether a text is strong by its length and by what it is made of: a short one mixes at
/// least four classes of characters, a longer one three, and one of one class alone is long
/// or a phrase of at least four words. It is not short or monotonous, and has no character
/// five times in a row.
pub open spec fn is_strong(s: Seq<char>) -> bool {
    &&& s.len() >= 12
    &&& s.to_set().len() >= 6
    &&& forall|i: int|
        0 <= i && i + 4 < s.len() ==> !(#[trigger] s[i] == s[i + 1] && s[i] == s[i + 2] && s[i]
            == s[i + 3] && s[i] == s[i + 4])
    &&& s.len() < 16 ==> classes_used(s) >= 4
    &&& s.len() < 20 ==> classes_used(s) >= 3
    &&& s.len() < 28 && long_words(s) < 4 ==> classes_used(s) >= 2
    &&& s.len() < 16 ==> s.to_set().len() >= 8 || classes_used(s) == 5
}

/// The policy accepts only strong passphrases.
pub proof fn lemma_policy_is_strict(s: Seq<char>)
    requires
        policy(s) is None,
    ensures
        is_strong(s),
{
    lemma_strength_classes(s, s.to_set().len());
    assert forall|i: int| 0 <= i && i + 4 < s.len() implies !(#[trigger] s[i] == s[i + 1] && s[i]
        == s[i + 2] && s[i] == s[i + 3] && s[i] == s[i + 4]) by {
        if s[i] == s[i + 1] && s[i] == s[i + 2] && s[i] == s[i + 3] && s[i] == s[i + 4] {
            assert(run_at(s, i));
        }
    }
}

/// What is accepted is strong by its length and by what it is made of.
pub proof fn law_weak_passphrases_are_refused(passphrase: &str)
    requires
        call_ensures(passphrase_policy_error, (passphrase,), None::<String>),
    ensures
        is_strong(passphrase@),
{
    lemma_policy_is_strict(passphrase@);
}

/// The passphrases that everyone tries first are refused, however they are capitalized.
pub proof fn law_common_passphrases_are_refused(passphrase: &str, r: Option<String>)
    requires
        call_ensures(passphrase_policy_error, (passphrase,), r),
        lowercase(passphrase@) == "password1234"@ || lowercase(passphrase@) == "123456789012"@
            || lowercase(passphrase@) == "qwerty123456"@ || lowercase(passphrase@)
            == "letmein12345"@ || lowercase(passphrase@) == "admin1234567"@ || lowercase(
            passphrase@,
        ) == "filesec12345"@,
    ensures
        r is Some,
{
    let w = common_weak();
    assert(w.contains(w[4]) && w.contains(w[5]) && w.contains(w[6]) && w.contains(w[7])
        && w.contains(w[8]) && w.contains(w[9]));
}

/// A strong passphrase is accepted: twelve characters, eight of them different, none five
/// times in a row, of four classes.
pub proof fn law_strong_passphrases_are_accepted(passphrase: &str, r: Option<String>)
    requires
        call_ensures(passphrase_policy_error, (passphrase,), r),
        vstd::utf8::is_ascii_chars(passphrase@),
        passphrase@.len() >= 12,
        passphrase@.to_set().len() >= 8,
        forall|i: int|
            0 <= i && i + 4 < passphrase@.len() ==> !(#[trigger] passphrase@[i] == passphrase@[i + 1]
                && passphrase@[i] == passphrase@[i + 2] && passphrase@[i] == passphrase@[i + 3]
                && passphrase@[i] == passphrase@[i + 4]),
        classes_used(passphrase@) >= 4,
    ensures
        r is None,
{
    let s = passphrase@;
    lemma_strength_classes(s, s.to_set().len());
    assert forall|i: int| !#[trigger] run_at(s, i) by {
        if run_at(s, i) {
            assert(s[i + 1] == s[i] && s[i + 2] == s[i] && s[i + 3] == s[i] && s[i + 4] == s[i]);
        }
    }
    lemma_not_common(s);
}

/// A text with whitespace or a symbol is none of the common ones.
proof fn lemma_not_common(s: Seq<char>)
    requires
        vstd::utf8::is_ascii_chars(s),
        classes_used(s) >= 4,
    ensures
        !common_weak().contains(lowercase(s)),
{
    reveal_strlit("password");
    reveal_strlit("password1");
    reveal_strlit("password12");
    reveal_strlit("password123");
    reveal_strlit("password1234");
    reveal_strlit("123456789012");
    reveal_strlit("qwerty123456");
    reveal_strlit("letmein12345");
    reveal_strlit("admin1234567");
    reveal_strlit("filesec12345");
    let i = if exists|i: int| 0 <= i < s.len() && whitespace(#[trigger] s[i]) {
        choose|i: int| 0 <= i < s.len() && whitespace(#[trigger] s[i])
    } else {
        choose|i: int| 0 <= i < s.len() && !alphanumeric(#[trigger] s[i]) && !whitespace(s[i])
    };
    let l = lowercase(s);
    assert(l[i] == s[i] && !alphanumeric(l[i]));
    if common_weak().contains(l) {
        let k = choose|k: int| 0 <= k < common_weak().len() && common_weak()[k] == l;
        let plain = |t: Seq<char>| forall|j: int| 0 <= j < t.len() ==> alphanumeric(#[trigger] t[j]);
        assert(plain("password"@));
        assert(plain("password1"@));
        assert(plain("password12"@));
        assert(plain("password123"@));
        assert(plain("password1234"@));
        assert(plain("123456789012"@));
        assert(plain("qwerty123456"@));
        assert(plain("letmein12345"@));
        assert(plain("admin1234567"@));
        assert(plain("filesec12345"@));
        assert(k == 0 || k == 1 || k == 2 || k == 3 || k == 4 || k == 5 || k == 6 || k == 7 || k
            == 8 || k == 9);
        assert(plain(l));
    }
}

/// Words are what stands between whitespace, and count if they have three characters or more:
/// a text without whitespace is one word, and those of two texts with whitespace between them
/// add up.
pub proof fn law_long_words_add_up(
    a: &[char],
    c: char,
    b: &[char],
    all: &[char],
    x: usize,
    y: usize,
    r: usize,
)
    requires
        whitespace(c),
        all@ == a@.push(c) + b@,
        call_ensures(count_long_words, (a,), x),
        call_ensures(count_long_words, (b,), y),
        call_ensures(count_long_words, (all,), r),
    ensures
        r == x + y,
        (forall|i: int| 0 <= i < a@.len() ==> !whitespace(#[trigger] a@[i])) ==> x == (
        if a@.len() >= 3 {
            1int
        } else {
            0
        }),
{
    let keep = |w: Seq<char>| w.len() >= 3;
    let (p, q) = (word_pieces(a@), word_pieces(b@));
    lemma_pieces_of_both(a@, c, b@);
    Seq::filter_distributes_over_add(p, q, keep);
    assert(long_words(all@) == long_words(a@) + long_words(b@));
    if forall|i: int| 0 <= i < a@.len() ==> !whitespace(#[trigger] a@[i]) {
        lemma_one_piece(a@);
        reveal(Seq::filter);
        assert(p.drop_last() =~= Seq::<Seq<char>>::empty());
        assert(p.last() == a@);
        assert(p.drop_last().filter(keep) =~= Seq::<Seq<char>>::empty());
    }
}

proof fn lemma_pieces_nonempty(s: Seq<char>)
    ensures
        word_pieces(s).len() >= 1,
    decreases s.len(),
{
    if s.len() > 0 {
        lemma_pieces_nonempty(s.drop_last());
    }
}

proof fn lemma_pieces_of_both(a: Seq<char>, c: char, b: Seq<char>)
    requires
        whitespace(c),
    ensures
        word_pieces(a.push(c) + b) == word_pieces(a) + word_pieces(b),
    decreases b.len(),
{
    let j = a.push(c) + b;
    if b.len() == 0 {
        assert(j =~= a.push(c));
        assert(j.drop_last() =~= a);
        assert(word_pieces(j) =~= word_pieces(a) + word_pieces(b));
    } else {
        let t = b.drop_last();
        lemma_pieces_of_both(a, c, t);
        lemma_pieces_nonempty(t);
        assert(j.drop_last() =~= a.push(c) + t);
        assert(j.last() == b.last());
        assert(word_pieces(j) =~= word_pieces(a) + word_pieces(b));
    }
}

proof fn lemma_one_piece(s: Seq<char>)
    requires
        forall|i: int| 0 <= i < s.len() ==> !whitespace(#[trigger] s[i]),
    ensures
        word_pieces(s) == seq![s],
    decreases s.len(),
{
    if s.len() == 0 {
        assert(s =~= Seq::<char>::empty());
        assert(word_pieces(s) =~= seq![s]);
    } else {
        let t = s.drop_last();
        assert forall|i: int| 0 <= i < t.len() implies !whitespace(#[trigger] t[i]) by {
            assert(t[i] == s[i]);
        }
        lemma_one_piece(t);
        assert(!whitespace(s[s.len() - 1]));
        assert(t.push(s.last()) =~= s);
        assert(word_pieces(s) =~= seq![s]);
    }
}

/// A character counts once however often it is used, and a run is five of the same in a row.
pub proof fn law_characters_are_counted_once(
    chars: &[char],
    more: &[char],
    c: char,
    n: usize,
    m: usize,
    run: bool,
    i: int,
)
    requires
        more@ == chars@.push(c),
        call_ensures(distinct_chars, (chars,), n),
        call_ensures(distinct_chars, (more,), m),
        call_ensures(has_long_repeated_run, (chars,), run),
    ensures
        chars@.contains(c) ==> m == n,
        !chars@.contains(c) ==> m == n + 1,
        0 <= i && i + 5 <= chars@.len() && chars@[i] == chars@[i + 1] && chars@[i] == chars@[i + 2]
            && chars@[i] == chars@[i + 3] && chars@[i] == chars@[i + 4] ==> run,
        run ==> exists|k: int|
            0 <= k && k + 4 < chars@.len() && (#[trigger] chars@[k]) == chars@[k + 1] && chars@[k]
                == chars@[k + 2] && chars@[k] == chars@[k + 3] && chars@[k] == chars@[k + 4],
{
    lemma_push_set(chars@, c);
    let set = chars@.to_set();
    if chars@.contains(c) {
        assert(set.contains(c));
        assert(set.insert(c) =~= set);
    } else {
        assert(!set.contains(c));
    }
    if 0 <= i && i + 5 <= chars@.len() && chars@[i] == chars@[i + 1] && chars@[i] == chars@[i + 2]
        && chars@[i] == chars@[i + 3] && chars@[i] == chars@[i + 4] {
        assert(run_at(chars@, i));
    }
    if run {
        let k = choose|k: int| #[trigger] run_at(chars@, k);
        assert(chars@[k] == chars@[k + 1] && chars@[k] == chars@[k + 2] && chars@[k] == chars@[k
            + 3] && chars@[k] == chars@[k + 4]);
    }
}

} // verus!
