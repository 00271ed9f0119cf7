//! A set of texts, kept as a list without repeats.

use vstd::prelude::*;
use crate::text::{same_text, texts};

verus! {

/// A set of texts.
pub struct TextSet {
    items: Vec<String>,
}

impl View for TextSet {
    type V = Set<Seq<char>>;

    closed spec fn view(&self) -> Set<Seq<char>> {
        texts(self.items@).to_set()
    }
}

/// Whether no text is listed twice.
pub open spec fn no_repeats(v: Seq<String>) -> bool {
    texts(v).no_duplicates()
}

/// The position of `t` in a list of texts, if it is there.
pub fn text_position(v: &[String], t: &str) -> (r: Option<usize>)
    ensures
        match r {
            Some(i) => i < v@.len() && v@[i as int]@ == t@ && forall|k: int|
                0 <= k < i ==> (#[trigger] v@[k])@ != t@,
            None => !texts(v@).contains(t@),
        },
{
    let mut i: usize = 0;
    while i < v.len()
        invariant
            i <= v@.len(),
            forall|k: int| 0 <= k < i ==> (#[trigger] v@[k])@ != t@,
        decreases v@.len() - i,
    {
        if same_text(&v[i], t) {
            return Some(i);
        }
        i += 1;
    }
    proof {
        if texts(v@).contains(t@) {
            let k = choose|k: int| 0 <= k < texts(v@).len() && texts(v@)[k] == t@;
            assert(v@[k]@ == t@);
        }
    }
    None
}

/// Whether a list of texts holds `t`.
pub fn text_in(v: &[String], t: &str) -> (r: bool)
    ensures
        r == texts(v@).contains(t@),
{
    match text_position(v, t) {
        Some(i) => {
            assert(texts(v@)[i as int] == t@);
            true
        },
        None => false,
    }
}

impl TextSet {
    #[verifier::type_invariant]
    spec fn inv(self) -> bool {
        no_repeats(self.items@)
    }

    /// The empty set.
    pub fn new() -> (s: Self)
        ensures
            s@ == Set::<Seq<char>>::empty(),
    {
        let s = TextSet { items: Vec::new() };
        assert(s@ =~= Set::<Seq<char>>::empty());
        s
    }

    /// Whether `t` is in the set.
    pub fn contains(&self, t: &str) -> (r: bool)
        ensures
            r == self@.contains(t@),
    {
        text_in(&self.items, t)
    }

    /// How many texts are in the set.
    pub fn len(&self) -> (n: usize)
        ensures
            n == self@.len(),
            self@.finite(),
    {
        proof {
            use_type_invariant(self);
            texts(self.items@).unique_seq_to_set();
        }
        self.items.len()
    }

    /// Whether the set is empty.
    pub fn is_empty(&self) -> (r: bool)
        ensures
            r == (self@ == Set::<Seq<char>>::empty()),
    {
        proof {
            if self.items@.len() == 0 {
                assert(self@ =~= Set::<Seq<char>>::empty());
            } else {
                assert(texts(self.items@)[0] == self.items@[0]@);
                assert(self@.contains(self.items@[0]@));
            }
        }
        self.items.len() == 0
    }

    /// Adds `t`.
    pub fn insert(&mut self, t: &str)
        ensures
            final(self)@ == old(self)@.insert(t@),
    {
        proof {
            use_type_invariant(&*self);
        }
        if text_in(&self.items, t) {
            assert(self@ =~= old(self)@.insert(t@));
            return;
        }
        let mut items: Vec<String> = Vec::new();
        std::mem::swap(&mut items, &mut self.items);
        let ghost before = texts(items@);
        items.push(crate::text::owned(t));
        proof {
            let after = texts(items@);
            assert(after =~= before.push(t@));
            assert(after.no_duplicates()) by {
                assert forall|i: int, j: int|
                    0 <= i < after.len() && 0 <= j < after.len() && i != j implies after[i]
                    != after[j] by {
                    if i < before.len() && j < before.len() {
                        assert(before[i] != before[j]);
                    } else if i < before.len() {
                        assert(before.contains(before[i]));
                    } else {
                        assert(before.contains(before[j]));
                    }
                }
            }
            assert(after.to_set() =~= before.to_set().insert(t@)) by {
                assert forall|x: Seq<char>| before.to_set().insert(t@).contains(
                    x,
                ) implies after.to_set().contains(x) by {
                    if x == t@ {
                        assert(after[before.len() as int] == x);
                    } else {
                        let k = choose|k: int| 0 <= k < before.len() && before[k] == x;
                        assert(after[k] == x);
                    }
                }
            }
        }
        self.items = items;
    }

    /// Takes `t` out; tells whether it was there.
    pub fn remove(&mut self, t: &str) -> (r: bool)
        ensures
            r == old(self)@.contains(t@),
            final(self)@ == old(self)@.remove(t@),
    {
        proof {
            use_type_invariant(&*self);
        }
        match text_position(&self.items, t) {
            Some(i) => {
                let mut items: Vec<String> = Vec::new();
                std::mem::swap(&mut items, &mut self.items);
                let ghost before = texts(items@);
                let _ = items.remove(i);
                proof {
                    let after = texts(items@);
                    assert(before[i as int] == t@);
                    assert(after =~= before.remove(i as int));
                    assert(after.no_duplicates()) by {
                        assert forall|a: int, b: int|
                            0 <= a < after.len() && 0 <= b < after.len() && a != b implies after[a]
                            != after[b] by {
                            let ja = if a < i { a } else { a + 1 };
                            let jb = if b < i { b } else { b + 1 };
                            assert(before[ja] != before[jb]);
                        }
                    }
                    assert(after.to_set() =~= before.to_set().remove(t@)) by {
                        assert forall|x: Seq<char>| after.to_set().contains(
                            x,
                        ) implies before.to_set().remove(t@).contains(x) by {
                            let a = choose|a: int| 0 <= a < after.len() && after[a] == x;
                            let ja = if a < i { a } else { a + 1 };
                            assert(before[ja] == x && before[ja] != before[i as int]);
                        }
                        assert forall|x: Seq<char>| before.to_set().remove(t@).contains(
                            x,
                        ) implies after.to_set().contains(x) by {
                            let j = choose|j: int| 0 <= j < before.len() && before[j] == x;
                            let a = if j < i { j } else { j - 1 };
                            assert(after[a] == x);
                        }
                    }
                }
                self.items = items;
                true
            },
            None => {
                assert(self@ =~= old(self)@.remove(t@));
                false
            },
        }
    }

    /// Empties the set.
    pub fn clear(&mut self)
        ensures
            final(self)@ == Set::<Seq<char>>::empty(),
    {
        self.items = Vec::new();
        assert(self@ =~= Set::<Seq<char>>::empty());
    }

    /// The texts of the set, each once, in no particular order.
    pub fn to_vec(&self) -> (v: Vec<String>)
        ensures
            texts(v@).to_set() == self@,
            no_repeats(v@),
    {
        proof {
            use_type_invariant(self);
        }
        crate::text::clone_texts(&self.items)
    }
}

/// What was put in is in, what was taken out is out, and nothing else changes.
pub proof fn law_a_set_changes_one_text_at_a_time(
    a: &mut TextSet,
    b: &mut TextSet,
    t: &str,
    was_in: bool,
    other: &str,
    x: TextSet,
    y: TextSet,
    found: bool,
    gone: bool,
    other_before: bool,
    other_between: bool,
    other_after: bool,
)
    requires
        call_ensures(TextSet::insert, (a, t), ()),
        x == *final(a),
        *old(b) == *final(a),
        call_ensures(TextSet::remove, (b, t), was_in),
        y == *final(b),
        call_ensures(TextSet::contains, (&x, t), found),
        call_ensures(TextSet::contains, (&y, t), gone),
        other@ != t@,
        call_ensures(TextSet::contains, (&*old(a), other), other_before),
        call_ensures(TextSet::contains, (&x, other), other_between),
        call_ensures(TextSet::contains, (&y, other), other_after),
    ensures
        found && was_in && !gone,
        other_before == other_between && other_between == other_after,
{
}

/// A new or emptied set holds nothing.
pub proof fn law_an_empty_set_holds_nothing(
    a: &mut TextSet,
    x: TextSet,
    t: &str,
    fresh: TextSet,
    r: bool,
    q: bool,
)
    requires
        call_ensures(TextSet::clear, (a,), ()),
        x == *final(a),
        call_ensures(TextSet::new, (), fresh),
        call_ensures(TextSet::contains, (&x, t), r),
        call_ensures(TextSet::contains, (&fresh, t), q),
    ensures
        !r && !q,
{
}

} // verus!
