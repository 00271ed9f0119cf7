//! The contact book: finding a contact, and telling what a public key is to the
//! user before it is saved.

use vstd::prelude::*;
use crate::fingerprint::same_fpr;
use crate::text::{concat3, same_text};

verus! {

/// Whether a contact's safety number was compared.
#[derive(Clone, Copy, Debug, PartialEq, Eq, Structural)]
pub enum Trust {
    Unverified,
    Verified,
}

/// What the screens show of a public identity.
pub struct PublicKey {
    pub fpr: [u8; 32],
    /// The name as its owner wrote it.
    pub name: String,
    /// The name made safe to show.
    pub display_name: String,
    pub safety_number: String,
    /// Whether it has post-quantum keys.
    pub hybrid: bool,
}

impl PublicKey {
    /// A copy.
    pub fn copy(&self) -> (r: Self)
        ensures
            r == *self,
    {
        PublicKey {
            fpr: self.fpr,
            name: self.name.clone(),
            display_name: self.display_name.clone(),
            safety_number: self.safety_number.clone(),
            hybrid: self.hybrid,
        }
    }
}

/// One entry of the contact book.
pub struct Contact {
    pub key: PublicKey,
    pub trust: Trust,
    /// When the safety number was compared.
    pub verified_at: Option<i64>,
}

/// The contact book.
pub struct ContactBook {
    pub contacts: Vec<Contact>,
}

/// The first contact with a fingerprint, or -1.
pub open spec fn contact_pos(contacts: Seq<Contact>, fpr: Seq<u8>) -> int
    decreases contacts.len(),
{
    if contacts.len() == 0 {
        -1
    } else if contact_pos(contacts.drop_last(), fpr) >= 0 {
        contact_pos(contacts.drop_last(), fpr)
    } else if contacts.last().key.fpr@ == fpr {
        contacts.len() - 1
    } else {
        -1
    }
}

pub proof fn lemma_contact_pos(contacts: Seq<Contact>, fpr: Seq<u8>)
    ensures
        -1 <= contact_pos(contacts, fpr) < contacts.len(),
        contact_pos(contacts, fpr) >= 0 ==> contacts[contact_pos(contacts, fpr)].key.fpr@ == fpr
            && forall|i: int|
            0 <= i < contact_pos(contacts, fpr) ==> (#[trigger] contacts[i]).key.fpr@ != fpr,
        contact_pos(contacts, fpr) < 0 ==> forall|i: int|
            0 <= i < contacts.len() ==> (#[trigger] contacts[i]).key.fpr@ != fpr,
    decreases contacts.len(),
{
    if contacts.len() > 0 {
        let t = contacts.drop_last();
        lemma_contact_pos(t, fpr);
        assert forall|i: int| 0 <= i < t.len() implies #[trigger] contacts[i] == t[i] by {}
        if contact_pos(t, fpr) < 0 && contacts.last().key.fpr@ != fpr {
            assert forall|i: int| 0 <= i < contacts.len() implies (#[trigger] contacts[i]).key.fpr@
                != fpr by {
                if i < t.len() {
                    assert(contacts[i] == t[i]);
                }
            }
        }
    }
}

impl ContactBook {
    /// An empty book.
    pub fn new() -> (b: Self)
        ensures
            b.contacts@.len() == 0,
    {
        ContactBook { contacts: Vec::new() }
    }

    /// A copy.
    pub fn copy(&self) -> (b: Self)
        ensures
            b.contacts@ == self.contacts@,
    {
        let mut contacts: Vec<Contact> = Vec::new();
        let mut i: usize = 0;
        while i < self.contacts.len()
            invariant
                i <= self.contacts@.len(),
                contacts@ == self.contacts@.take(i as int),
            decreases self.contacts@.len() - i,
        {
            let c = &self.contacts[i];
            contacts.push(
                Contact { key: c.key.copy(), trust: c.trust, verified_at: c.verified_at },
            );
            assert(contacts@ =~= self.contacts@.take(i + 1));
            i += 1;
        }
        assert(self.contacts@.take(i as int) =~= self.contacts@);
        ContactBook { contacts }
    }

    /// The position of the contact with a fingerprint.
    pub fn find(&self, fpr: &[u8; 32]) -> (r: Option<usize>)
        ensures
            match r {
                Some(k) => k == contact_pos(self.contacts@, fpr@) && k < self.contacts@.len(),
                None => contact_pos(self.contacts@, fpr@) == -1,
            },
    {
        proof {
            lemma_contact_pos(self.contacts@, fpr@);
        }
        let mut i: usize = 0;
        while i < self.contacts.len()
            invariant
                i <= self.contacts@.len(),
                forall|k: int| 0 <= k < i ==> (#[trigger] self.contacts@[k]).key.fpr@ != fpr@,
            decreases self.contacts@.len() - i,
        {
            if same_fpr(&self.contacts[i].key.fpr, fpr) {
                proof {
                    lemma_contact_pos(self.contacts@, fpr@);
                }
                return Some(i);
            }
            i += 1;
        }
        None
    }
}

/// What a key staged for the contact book is.
pub enum PreviewStatus {
    /// A key that is not in the book.
    Brandnew,
    /// A key that is in the book.
    Existing { verified: bool },
    /// A key that is in the book under another name.
    Renamed { previous: String, verified: bool },
    /// The user's own key.
    SelfKey,
}

/// What a key is to the owner of a contact book. A name change only counts when both
/// names are present.
pub open spec fn status_of(me: Seq<u8>, contacts: Seq<Contact>, key: PublicKey) -> PreviewStatus {
    let k = contact_pos(contacts, key.fpr@);
    if key.fpr@ == me {
        PreviewStatus::SelfKey
    } else if k < 0 {
        PreviewStatus::Brandnew
    } else {
        let c = contacts[k];
        let verified = c.trust == Trust::Verified;
        if c.key.name@ == key.name@ || key.name@.len() == 0 || c.key.name@.len() == 0 {
            PreviewStatus::Existing { verified }
        } else {
            PreviewStatus::Renamed { previous: c.key.name, verified }
        }
    }
}

/// A key staged for the contact book.
pub struct ContactPreview {
    pub key: PublicKey,
    pub status: PreviewStatus,
}

/// Classifies a parsed key: is it the user's own, already a contact (possibly under a
/// different name), or brand new?
pub fn build_contact_preview(me: &PublicKey, book: &ContactBook, key: PublicKey) -> (p: ContactPreview)
    ensures
        p.key == key,
        p.status == status_of(me.fpr@, book.contacts@, key),
{
    let status = if same_fpr(&key.fpr, &me.fpr) {
        PreviewStatus::SelfKey
    } else {
        match book.find(&key.fpr) {
            None => PreviewStatus::Brandnew,
            Some(k) => {
                let c = &book.contacts[k];
                let verified = c.trust == Trust::Verified;
                if same_text(&c.key.name, &key.name) || key.name.as_str().is_empty()
                    || c.key.name.as_str().is_empty() {
                    PreviewStatus::Existing { verified }
                } else {
                    PreviewStatus::Renamed { previous: c.key.name.clone(), verified }
                }
            },
        }
    };
    ContactPreview { key, status }
}

/// What saving a key did to the contact book.
pub enum UpsertOutcome {
    Added,
    Unchanged,
    Renamed { previous: String, was_verified: bool },
}

/// What is said after a key called `name` was saved.
pub open spec fn import_text(outcome: UpsertOutcome, name: Seq<char>) -> Seq<char> {
    match outcome {
        UpsertOutcome::Added => "Added \""@ + name
            + "\". Verify their safety number before trusting."@,
        UpsertOutcome::Unchanged => "\""@ + name + "\" is already a contact — nothing changed."@,
        UpsertOutcome::Renamed { previous, was_verified } => if was_verified {
            "Renamed verified contact \""@ + previous@ + "\" → \""@ + name
                + "\" (keys unchanged; still verified)."@
        } else {
            "Updated contact name \""@ + previous@ + "\" → \""@ + name + "\"."@
        },
    }
}

/// What is said after a key was saved: a fresh add, a re-import and a rename read
/// differently, so that a re-import never looks like new trust.
pub fn import_message(outcome: &UpsertOutcome, name: &str) -> (r: String)
    ensures
        r@ == import_text(*outcome, name@),
{
    match outcome {
        UpsertOutcome::Added => concat3(
            "Added \"",
            name,
            "\". Verify their safety number before trusting.",
        ),
        UpsertOutcome::Unchanged => concat3(
            "\"",
            name,
            "\" is already a contact — nothing changed.",
        ),
        UpsertOutcome::Renamed { previous, was_verified } => {
            if *was_verified {
                let mut r = concat3("Renamed verified contact \"", previous, "\" → \"");
                r.append(name);
                r.append("\" (keys unchanged; still verified).");
                r
            } else {
                let mut r = concat3("Updated contact name \"", previous, "\" → \"");
                r.append(name);
                r.append("\".");
                r
            }
        },
    }
}

/// What is said after a contact's trust was changed.
pub fn trust_message(trust: Trust) -> (r: &'static str)
    ensures
        r@ == (match trust {
            Trust::Verified => "Marked as verified."@,
            Trust::Unverified => "Marked as unverified."@,
        }),
{
    match trust {
        Trust::Verified => "Marked as verified.",
        Trust::Unverified => "Marked as unverified.",
    }
}

/// Who a signed container came from, as far as the contact book knows.
pub struct SenderInfo {
    pub name: Option<String>,
    pub verified: bool,
}

/// Looks a sender up in the contact book.
pub fn sender_info(book: &ContactBook, fpr: &[u8; 32]) -> (r: SenderInfo)
    ensures
        ({
            let k = contact_pos(book.contacts@, fpr@);
            if k >= 0 {
                r.name == Some(book.contacts@[k].key.name) && r.verified
                    == (book.contacts@[k].trust == Trust::Verified)
            } else {
                r.name is None && !r.verified
            }
        }),
{
    match book.find(fpr) {
        Some(k) => SenderInfo {
            name: Some(book.contacts[k].key.name.clone()),
            verified: book.contacts[k].trust == Trust::Verified,
        },
        None => SenderInfo { name: None, verified: false },
    }
}

/// The user's own key is never offered as a contact, and a key is shown as verified
/// only if a contact with exactly that fingerprint is.
pub proof fn law_preview_never_invents_trust(me: Seq<u8>, contacts: Seq<Contact>, key: PublicKey)
    ensures
        key.fpr@ == me <==> status_of(me, contacts, key) is SelfKey,
        ({
            let s = status_of(me, contacts, key);
            let shown_verified = match s {
                PreviewStatus::Existing { verified } => verified,
                PreviewStatus::Renamed { previous, verified } => verified,
                _ => false,
            };
            shown_verified ==> exists|i: int|
                0 <= i < contacts.len() && (#[trigger] contacts[i]).key.fpr@ == key.fpr@
                    && contacts[i].trust == Trust::Verified
        }),
{
    lemma_contact_pos(contacts, key.fpr@);
}

/// A key that is staged is told for what it is: the user's own, one that is in the book, one
/// that is there under another name, or a new one; and the key itself is not changed.
pub proof fn law_a_key_is_told_for_what_it_is(
    me: PublicKey,
    book: ContactBook,
    key: PublicKey,
    p: ContactPreview,
    k: int,
)
    requires
        call_ensures(build_contact_preview, (&me, &book, key), p),
    ensures
        p.key == key,
        key.fpr@ == me.fpr@ <==> p.status is SelfKey,
        key.fpr@ != me.fpr@ && (forall|i: int|
            0 <= i < book.contacts@.len() ==> (#[trigger] book.contacts@[i]).key.fpr@ != key.fpr@)
            ==> p.status is Brandnew,
        key.fpr@ != me.fpr@ && 0 <= k < book.contacts@.len() && book.contacts@[k].key.fpr@
            == key.fpr@ && (forall|i: int|
            0 <= i < k ==> (#[trigger] book.contacts@[i]).key.fpr@ != key.fpr@) ==> {
            let c = book.contacts@[k];
            let renamed = c.key.name@ != key.name@ && c.key.name@.len() > 0 && key.name@.len() > 0;
            &&& renamed ==> p.status == (PreviewStatus::Renamed {
                previous: c.key.name,
                verified: c.trust == Trust::Verified,
            })
            &&& !renamed ==> p.status == (PreviewStatus::Existing {
                verified: c.trust == Trust::Verified,
            })
        },
{
    lemma_contact_pos(book.contacts@, key.fpr@);
    let j = contact_pos(book.contacts@, key.fpr@);
    if 0 <= k < book.contacts@.len() && book.contacts@[k].key.fpr@ == key.fpr@ && (forall|i: int|
        0 <= i < k ==> (#[trigger] book.contacts@[i]).key.fpr@ != key.fpr@) {
        if j < 0 || j > k {
            assert(book.contacts@[k].key.fpr@ != key.fpr@);
        }
    }
}

/// A sender is looked up by its fingerprint: who it is, and whether it is verified, is what
/// the book says of it; an unknown one has no name and is not verified.
pub proof fn law_a_sender_is_known_by_its_fingerprint(
    book: ContactBook,
    fpr: &[u8; 32],
    r: SenderInfo,
    found: Option<usize>,
    k: int,
)
    requires
        call_ensures(sender_info, (&book, fpr), r),
        call_ensures(ContactBook::find, (&book, fpr), found),
    ensures
        (forall|i: int|
            0 <= i < book.contacts@.len() ==> (#[trigger] book.contacts@[i]).key.fpr@ != fpr@)
            ==> r.name is None && !r.verified && found is None,
        0 <= k < book.contacts@.len() && book.contacts@[k].key.fpr@ == fpr@ && (forall|i: int|
            0 <= i < k ==> (#[trigger] book.contacts@[i]).key.fpr@ != fpr@) ==> r.name == Some(
            book.contacts@[k].key.name,
        ) && (r.verified <==> book.contacts@[k].trust == Trust::Verified) && found == Some(
            k as usize,
        ),
{
    lemma_contact_pos(book.contacts@, fpr@);
    let j = contact_pos(book.contacts@, fpr@);
    if 0 <= k < book.contacts@.len() && book.contacts@[k].key.fpr@ == fpr@ && (forall|i: int|
        0 <= i < k ==> (#[trigger] book.contacts@[i]).key.fpr@ != fpr@) {
        if j < 0 || j > k {
            assert(book.contacts@[k].key.fpr@ != fpr@);
        }
    }
}

/// What is said after a key was saved names the contact, and the name it had before; only a
/// fresh contact is asked to be verified.
pub proof fn law_a_saved_key_is_told_by_name(outcome: UpsertOutcome, name: &str, r: String)
    requires
        call_ensures(import_message, (&outcome, name), r),
    ensures
        crate::text::contains_text(r@, name@),
        outcome is Renamed ==> crate::text::contains_text(r@, outcome->previous@),
        outcome is Added ==> crate::text::contains_text(r@, "Verify their safety number"@),
{
    match outcome {
        UpsertOutcome::Added => {
            let tail = "\". Verify their safety number before trusting."@;
            crate::report::lemma_holds("Added \""@, name@, tail);
            reveal_strlit("\". Verify their safety number before trusting.");
            reveal_strlit("Verify their safety number");
            assert(tail =~= tail.take(3) + "Verify their safety number"@ + tail.skip(29));
            assert(r@ =~= "Added \""@ + name@ + tail.take(3) + "Verify their safety number"@
                + tail.skip(29));
            crate::report::lemma_holds(
                "Added \""@ + name@ + tail.take(3),
                "Verify their safety number"@,
                tail.skip(29),
            );
        },
        UpsertOutcome::Unchanged => {
            crate::report::lemma_holds("\""@, name@, "\" is already a contact — nothing changed."@);
        },
        UpsertOutcome::Renamed { previous, was_verified } => {
            let (front, back) = if was_verified {
                ("Renamed verified contact \""@, "\" (keys unchanged; still verified)."@)
            } else {
                ("Updated contact name \""@, "\"."@)
            };
            let mid = "\" → \""@;
            assert(r@ =~= front + previous@ + (mid + name@ + back));
            crate::report::lemma_holds(front, previous@, mid + name@ + back);
            crate::report::lemma_holds(front + previous@ + mid, name@, back);
        },
    }
}

} // verus!
