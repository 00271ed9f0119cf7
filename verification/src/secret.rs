//! Texts that are scrubbed from memory when they are done with.

use vstd::prelude::*;
use zeroize::Zeroize;

verus! {

/// `Zeroize::zeroize` of the `zeroize` crate on a `String`: it overwrites the bytes
/// and leaves the text empty. That the old bytes are gone from memory is not stated.
#[verifier::external_body]
pub(crate) fn zeroize(s: &mut String)
    ensures
        final(s)@ == Seq::<char>::empty(),
    opens_invariants none
    no_unwind
{
    s.zeroize()
}

/// A text that is scrubbed from memory when it is dropped.
pub struct Secret {
    text: String,
}

impl View for Secret {
    type V = Seq<char>;

    closed spec fn view(&self) -> Seq<char> {
        self.text@
    }
}

impl Secret {
    /// Keeps a text.
    pub fn new(text: String) -> (r: Self)
        ensures
            r@ == text@,
    {
        Secret { text }
    }

    /// The text.
    pub fn expose(&self) -> (r: &str)
        ensures
            r@ == self@,
    {
        &self.text
    }

    /// Takes a text out of a field, leaving an empty one.
    pub fn take(s: &mut String) -> (r: Self)
        ensures
            r@ == old(s)@,
            final(s)@ == Seq::<char>::empty(),
    {
        let mut text = String::new();
        std::mem::swap(s, &mut text);
        Secret { text }
    }
}

impl Drop for Secret {
    /// Wipes the text.
    fn drop(&mut self)
        opens_invariants none
        no_unwind
    {
        zeroize(&mut self.text);
    }
}

/// The text of a secret, if there is one.
pub open spec fn opt_secret(s: Option<Secret>) -> Option<Seq<char>> {
    match s {
        Some(t) => Some(t@),
        None => None,
    }
}

/// A secret that is taken out of a field is the text that was there, and the field is left
/// empty.
pub proof fn law_a_secret_leaves_nothing_behind(s: &mut String, secret: Secret, shown: &str)
    requires
        call_ensures(Secret::take, (s,), secret),
        call_ensures(Secret::expose, (&secret,), shown),
    ensures
        shown@ == old(s)@,
        final(s)@.len() == 0,
{
}

} // verus!
