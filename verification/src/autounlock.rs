//! Optional automatic unlock, backed by the OS keychain. What is kept there is a
//! random device token, never the passphrase.
//!
//! The keychain itself is outside: each function takes what the keychain did and
//! gives what that means.

use vstd::prelude::*;
use crate::text::{concat2, owned};

verus! {

/// The keychain service under which device tokens are kept.
pub const SERVICE: &'static str = "dev.FileSec.FileSec";

/// The keychain service under which rollback anchors are kept.
pub const ANCHOR_SERVICE: &'static str = "dev.FileSec.FileSec.StateAnchors";

/// Said by a build that cannot reach the keychain.
pub const NO_SUPPORT: &'static str =
    "this build has no OS-keychain support — rebuild FileSec with `--features keyring`";

/// Said where the keychain does not keep secrets on the device.
pub const BINDING_WARNING: &'static str =
    "On this system the device token is kept in the Secret Service (GNOME Keyring / KWallet), which gives no guarantee it stays on this device and may be readable whenever you are logged in. Only enable auto-unlock on a trusted personal machine.";

/// A warning to show with automatic unlock: only where it is supported, and secrets
/// are not bound to the device.
pub fn device_binding_warning(supported: bool, device_bound: bool) -> (r: Option<&'static str>)
    ensures
        match r {
            Some(w) => supported && !device_bound && w@ == BINDING_WARNING@,
            None => !(supported && !device_bound),
        },
{
    if supported && !device_bound {
        Some(BINDING_WARNING)
    } else {
        None
    }
}

/// What went wrong with the keychain.
#[derive(Debug)]
pub struct AutoUnlockError(pub String);

impl AutoUnlockError {
    /// An error with a message.
    pub fn new(msg: String) -> (e: Self)
        ensures
            e.0 == msg,
    {
        AutoUnlockError(msg)
    }

    /// The message.
    pub fn message(&self) -> (m: &str)
        ensures
            m@ == self.0@,
    {
        &self.0
    }
}

/// What the keychain did with a secret to keep or to drop.
pub enum Changed {
    /// This build cannot reach a keychain.
    Unsupported,
    /// The keychain could not be opened.
    Unavailable(String),
    Done,
    /// There was nothing under that name.
    NoEntry(String),
    Failed(String),
}

/// What the keychain gave.
pub enum Fetched {
    /// This build cannot reach a keychain.
    Unsupported,
    /// The keychain could not be opened.
    Unavailable(String),
    Secret(Vec<u8>),
    NoEntry,
    Failed(String),
}

/// Why a secret was not kept, if it was not.
pub open spec fn keep_fault(r: Changed, prefix: Seq<char>) -> Option<Seq<char>> {
    match r {
        Changed::Unsupported => Some(NO_SUPPORT@),
        Changed::Unavailable(e) => Some("the OS keychain is unavailable: "@ + e@),
        Changed::Done => None,
        Changed::NoEntry(e) => Some(prefix + e@),
        Changed::Failed(e) => Some(prefix + e@),
    }
}

/// What keeping a secret came to.
fn kept(r: Changed, prefix: &str) -> (out: Result<(), AutoUnlockError>)
    ensures
        match out {
            Ok(_) => keep_fault(r, prefix@) is None,
            Err(e) => keep_fault(r, prefix@) == Some(e.0@),
        },
{
    match r {
        Changed::Unsupported => Err(AutoUnlockError::new(owned(NO_SUPPORT))),
        Changed::Unavailable(e) => Err(
            AutoUnlockError::new(concat2("the OS keychain is unavailable: ", &e)),
        ),
        Changed::Done => Ok(()),
        Changed::NoEntry(e) => Err(AutoUnlockError::new(concat2(prefix, &e))),
        Changed::Failed(e) => Err(AutoUnlockError::new(concat2(prefix, &e))),
    }
}

/// What saving the device token came to.
pub fn save_device_token(reply: Changed) -> (r: Result<(), AutoUnlockError>)
    ensures
        match r {
            Ok(_) => keep_fault(reply, "could not save to the OS keychain: "@) is None,
            Err(e) => keep_fault(reply, "could not save to the OS keychain: "@) == Some(e.0@),
        },
{
    kept(reply, "could not save to the OS keychain: ")
}

/// What saving the rollback anchors came to.
pub fn save_state_anchors(reply: Changed) -> (r: Result<(), AutoUnlockError>)
    ensures
        match r {
            Ok(_) => keep_fault(
                reply,
                "could not save rollback anchors to the OS keychain: "@,
            ) is None,
            Err(e) => keep_fault(reply, "could not save rollback anchors to the OS keychain: "@)
                == Some(e.0@),
        },
{
    kept(reply, "could not save rollback anchors to the OS keychain: ")
}

/// Why the device token was not dropped, if it was not: one that is missing counts as
/// dropped.
pub open spec fn clear_fault(r: Changed) -> Option<Seq<char>> {
    match r {
        Changed::NoEntry(_) => None,
        _ => keep_fault(r, "could not update the OS keychain: "@),
    }
}

/// What dropping the device token came to.
pub fn clear_device_token(reply: Changed) -> (r: Result<(), AutoUnlockError>)
    ensures
        match r {
            Ok(_) => clear_fault(reply) is None,
            Err(e) => clear_fault(reply) == Some(e.0@),
        },
{
    match reply {
        Changed::NoEntry(_) => Ok(()),
        other => kept(other, "could not update the OS keychain: "),
    }
}

/// Why no answer could be had from the keychain, if none could.
pub open spec fn fetch_fault(r: Fetched, prefix: Seq<char>) -> Option<Seq<char>> {
    match r {
        Fetched::Unavailable(e) => Some("the OS keychain is unavailable: "@ + e@),
        Fetched::Failed(e) => Some(prefix + e@),
        _ => None,
    }
}

/// What loading the device token came to. A build without a keychain has none saved.
pub fn load_device_token(reply: Fetched) -> (r: Result<Option<Vec<u8>>, AutoUnlockError>)
    ensures
        match r {
            Ok(Some(b)) => reply == Fetched::Secret(b),
            Ok(None) => reply is NoEntry || reply is Unsupported,
            Err(e) => fetch_fault(reply, "could not read the OS keychain: "@) == Some(e.0@),
        },
{
    match reply {
        Fetched::Unsupported => Ok(None),
        Fetched::Unavailable(e) => Err(
            AutoUnlockError::new(concat2("the OS keychain is unavailable: ", &e)),
        ),
        Fetched::Secret(b) => Ok(Some(b)),
        Fetched::NoEntry => Ok(None),
        Fetched::Failed(e) => Err(
            AutoUnlockError::new(concat2("could not read the OS keychain: ", &e)),
        ),
    }
}

/// What loading the rollback anchors came to. A build without a keychain says so.
pub fn load_state_anchors(reply: Fetched) -> (r: Result<Option<Vec<u8>>, AutoUnlockError>)
    ensures
        match r {
            Ok(Some(b)) => reply == Fetched::Secret(b),
            Ok(None) => reply is NoEntry,
            Err(e) => if reply is Unsupported {
                e.0@ == NO_SUPPORT@
            } else {
                fetch_fault(reply, "could not read rollback anchors from the OS keychain: "@)
                    == Some(e.0@)
            },
        },
{
    match reply {
        Fetched::Unsupported => Err(AutoUnlockError::new(owned(NO_SUPPORT))),
        Fetched::Unavailable(e) => Err(
            AutoUnlockError::new(concat2("the OS keychain is unavailable: ", &e)),
        ),
        Fetched::Secret(b) => Ok(Some(b)),
        Fetched::NoEntry => Ok(None),
        Fetched::Failed(e) => Err(
            AutoUnlockError::new(
                concat2("could not read rollback anchors from the OS keychain: ", &e),
            ),
        ),
    }
}

/// Whether the keychain holds a device token; a keychain that fails holds none.
pub fn is_saved(reply: Fetched) -> (r: bool)
    ensures
        r == reply is Secret,
{
    match load_device_token(reply) {
        Ok(Some(_)) => true,
        _ => false,
    }
}

// ---------------------------------------------------------------------------
// Laws
// ---------------------------------------------------------------------------

/// A secret counts as saved only if the keychain took it; a token counts as dropped also if
/// there was none. Every other reply is an error that ends with what the keychain said.
pub proof fn law_the_keychains_word_is_taken(
    reply: Changed,
    saved: Result<(), AutoUnlockError>,
    anchored: Result<(), AutoUnlockError>,
    dropped: Result<(), AutoUnlockError>,
)
    requires
        call_ensures(save_device_token, (reply,), saved),
        call_ensures(save_state_anchors, (reply,), anchored),
        call_ensures(clear_device_token, (reply,), dropped),
    ensures
        saved is Ok <==> reply is Done,
        anchored is Ok <==> reply is Done,
        dropped is Ok <==> reply is Done || reply is NoEntry,
        reply is Failed ==> ends_with(saved->Err_0.0@, reply->Failed_0@) && ends_with(
            anchored->Err_0.0@,
            reply->Failed_0@,
        ) && ends_with(dropped->Err_0.0@, reply->Failed_0@),
        reply is Unavailable ==> ends_with(saved->Err_0.0@, reply->Unavailable_0@) && ends_with(
            dropped->Err_0.0@,
            reply->Unavailable_0@,
        ),
{
    if let Changed::Failed(e) = reply {
        lemma_ends_with("could not save to the OS keychain: "@, e@);
        lemma_ends_with("could not save rollback anchors to the OS keychain: "@, e@);
        lemma_ends_with("could not update the OS keychain: "@, e@);
    }
    if let Changed::Unavailable(e) = reply {
        lemma_ends_with("the OS keychain is unavailable: "@, e@);
    }
}

/// Whether `s` ends with `tail`.
pub open spec fn ends_with(s: Seq<char>, tail: Seq<char>) -> bool {
    s.len() >= tail.len() && s.skip(s.len() - tail.len()) == tail
}

proof fn lemma_ends_with(head: Seq<char>, tail: Seq<char>)
    ensures
        ends_with(head + tail, tail),
{
    assert((head + tail).skip(head.len() as int) =~= tail);
}

/// What the keychain keeps is what is loaded, byte for byte, and a token is saved only if one
/// can be loaded. Where it cannot be reached, a token counts as missing, but anchors never
/// do: without them a rollback would pass unseen.
pub proof fn law_what_was_saved_is_loaded(
    reply: Fetched,
    token: Result<Option<Vec<u8>>, AutoUnlockError>,
    anchors: Result<Option<Vec<u8>>, AutoUnlockError>,
    saved: bool,
)
    requires
        call_ensures(load_device_token, (reply,), token),
        call_ensures(load_state_anchors, (reply,), anchors),
        call_ensures(is_saved, (reply,), saved),
    ensures
        saved <==> token is Ok && token->Ok_0 is Some,
        reply is Secret ==> token is Ok && anchors is Ok && token->Ok_0 == Some(
            reply->Secret_0,
        ) && anchors->Ok_0 == Some(reply->Secret_0),
        !(reply is Secret) ==> !saved && !(anchors is Ok && anchors->Ok_0 is Some),
        reply is NoEntry ==> token is Ok && anchors is Ok,
        reply is Unsupported ==> token is Ok && anchors is Err,
        reply is Unavailable || reply is Failed ==> token is Err && anchors is Err,
{
}

/// The user is warned exactly where a token could be kept that is not bound to the device.
pub proof fn law_unbound_tokens_are_warned_of(
    supported: bool,
    device_bound: bool,
    r: Option<&'static str>,
)
    requires
        call_ensures(device_binding_warning, (supported, device_bound), r),
    ensures
        r is Some <==> supported && !device_bound,
{
}

} // verus!
