//! Hardware security keys: how a ceremony with one is set up, and what its answers
//! mean. The key itself is outside.

use vstd::prelude::*;
use crate::text::{concat2, opt_text, owned};

verus! {

/// The relying party that credentials are bound to.
pub const RP_ID: &'static str = "filesec.local";

/// What the identity screen says of security keys.
pub const PASSKEY_ALT_UNLOCK_DESC: &'static str =
    "Unlock with a hardware security key (FIDO2) as an alternative to your passphrase — either one opens your keystore. This is a second way in, not a second factor. Your passphrase always keeps working, so a lost key is never a lockout. Enrolling and unlocking require user verification (your key's PIN or biometric).";

/// What went wrong with a security key.
#[derive(Debug)]
pub struct PasskeyError(pub String);

impl PasskeyError {
    /// An error with a message.
    pub fn new(msg: String) -> (e: Self)
        ensures
            e.0 == msg,
    {
        PasskeyError(msg)
    }

    /// The message.
    pub fn message(&self) -> (m: &str)
        ensures
            m@ == self.0@,
    {
        &self.0
    }
}

/// The hardware security-key backend.
pub struct HardwareKey;

/// How the user is verified in a ceremony.
pub struct Ceremony {
    pub pin: Option<String>,
    /// Whether the key is asked to verify the user itself; nothing, if the PIN does.
    pub uv: Option<bool>,
}

impl HardwareKey {
    /// How the user is verified: by the PIN if there is one, else by the key itself.
    /// Every ceremony verifies the user.
    pub fn ceremony(&self, pin: Option<&str>) -> (c: Ceremony)
        ensures
            verifies_user(c),
            match pin {
                Some(p) => opt_text(c.pin) == Some(p@) && c.uv is None,
                None => c.pin is None && c.uv == Some(true),
            },
    {
        match pin {
            Some(p) => Ceremony { pin: Some(owned(p)), uv: None },
            None => Ceremony { pin: None, uv: Some(true) },
        }
    }
}

/// Whether a ceremony verifies the user.
pub open spec fn verifies_user(c: Ceremony) -> bool {
    c.pin is Some || c.uv == Some(true)
}

/// What can go wrong with a security key.
pub enum KeyFailure {
    /// This build cannot talk to one.
    Unsupported,
    NoDevice(String),
    NoRandom,
    Create(String),
    EmptyCredential,
    Authenticate(String),
    NoAssertion,
    NoSecret,
}

/// What a failure says.
pub open spec fn key_failure_text(f: KeyFailure) -> Seq<char> {
    match f {
        KeyFailure::Unsupported =>
            "this build has no passkey support — rebuild FileSec with `--features passkey`"@,
        KeyFailure::NoDevice(e) => "no security key found: "@ + e@,
        KeyFailure::NoRandom => "secure random number generation failed"@,
        KeyFailure::Create(e) => "could not create a passkey: "@ + e@,
        KeyFailure::EmptyCredential => "the security key returned an empty credential id"@,
        KeyFailure::Authenticate(e) => "authentication failed: "@ + e@,
        KeyFailure::NoAssertion => "the security key returned no assertion"@,
        KeyFailure::NoSecret =>
            "the security key did not return an hmac-secret — it may not support that extension"@,
    }
}

/// The error of a failure.
pub fn key_error(f: &KeyFailure) -> (e: PasskeyError)
    ensures
        e.0@ == key_failure_text(*f),
{
    PasskeyError::new(
        match f {
            KeyFailure::Unsupported => owned(
                "this build has no passkey support — rebuild FileSec with `--features passkey`",
            ),
            KeyFailure::NoDevice(e) => concat2("no security key found: ", e),
            KeyFailure::NoRandom => owned("secure random number generation failed"),
            KeyFailure::Create(e) => concat2("could not create a passkey: ", e),
            KeyFailure::EmptyCredential => owned(
                "the security key returned an empty credential id",
            ),
            KeyFailure::Authenticate(e) => concat2("authentication failed: ", e),
            KeyFailure::NoAssertion => owned("the security key returned no assertion"),
            KeyFailure::NoSecret => owned(
                "the security key did not return an hmac-secret — it may not support that extension",
            ),
        },
    )
}

/// The first secret among the extensions of an assertion, or -1. An extension without
/// a secret is `None`.
pub open spec fn first_secret(exts: Seq<Option<[u8; 32]>>) -> int
    decreases exts.len(),
{
    if exts.len() == 0 {
        -1
    } else if first_secret(exts.drop_last()) >= 0 {
        first_secret(exts.drop_last())
    } else if exts.last() is Some {
        exts.len() - 1
    } else {
        -1
    }
}

proof fn lemma_first_secret(exts: Seq<Option<[u8; 32]>>, k: int)
    requires
        0 <= k <= exts.len(),
        forall|i: int| 0 <= i < k ==> #[trigger] exts[i] is None,
        k < exts.len() ==> exts[k] is Some,
    ensures
        first_secret(exts) == (if k < exts.len() {
            k
        } else {
            -1
        }),
    decreases exts.len(),
{
    if exts.len() > 0 {
        let t = exts.drop_last();
        if k < t.len() {
            assert(t[k] == exts[k]);
            lemma_first_secret(t, k);
        } else {
            lemma_first_secret(t, t.len() as int);
        }
    }
}

/// The secret that a key derived: the first among the extensions of its first
/// assertion.
pub fn derive_hmac_secret(assertions: &[Vec<Option<[u8; 32]>>]) -> (r: Result<[u8; 32], KeyFailure>)
    ensures
        if assertions@.len() == 0 {
            r is Err && r->Err_0 is NoAssertion
        } else {
            let exts = assertions@[0]@;
            if first_secret(exts) >= 0 {
                r is Ok && Some(r->Ok_0) == exts[first_secret(exts)]
            } else {
                r is Err && r->Err_0 is NoSecret
            }
        },
{
    if assertions.len() == 0 {
        return Err(KeyFailure::NoAssertion);
    }
    let exts = &assertions[0];
    let mut i: usize = 0;
    while i < exts.len()
        invariant
            i <= exts@.len(),
            assertions@.len() > 0,
            exts@ == assertions@[0]@,
            forall|k: int| 0 <= k < i ==> #[trigger] exts@[k] is None,
        decreases exts@.len() - i,
    {
        match exts[i] {
            Some(output) => {
                proof {
                    lemma_first_secret(exts@, i as int);
                }
                return Ok(output);
            },
            None => {},
        }
        i += 1;
    }
    proof {
        lemma_first_secret(exts@, i as int);
    }
    Err(KeyFailure::NoSecret)
}

/// What is stored of a newly enrolled key, and the secret it derived.
pub struct PasskeyEnrollment {
    pub credential_id: Vec<u8>,
    pub rp_id: String,
    pub hmac_salt: [u8; 32],
    pub label: String,
    pub added_at: i64,
    pub hmac_output: [u8; 32],
}

/// Whether a new credential can be used.
pub fn check_credential(credential_id: &[u8]) -> (r: Option<KeyFailure>)
    ensures
        match r {
            Some(f) => credential_id@.len() == 0 && f is EmptyCredential,
            None => credential_id@.len() > 0,
        },
{
    if credential_id.len() == 0 {
        Some(KeyFailure::EmptyCredential)
    } else {
        None
    }
}

/// The enrolment of a key.
pub fn enroll(
    credential_id: Vec<u8>,
    hmac_salt: [u8; 32],
    label: &str,
    now: i64,
    hmac_output: [u8; 32],
) -> (r: Result<PasskeyEnrollment, KeyFailure>)
    ensures
        if credential_id@.len() == 0 {
            r is Err && r->Err_0 is EmptyCredential
        } else {
            &&& r is Ok
            &&& r->Ok_0.credential_id == credential_id
            &&& r->Ok_0.rp_id@ == RP_ID@
            &&& r->Ok_0.hmac_salt == hmac_salt
            &&& r->Ok_0.label@ == label@
            &&& r->Ok_0.added_at == now
            &&& r->Ok_0.hmac_output == hmac_output
        },
{
    match check_credential(&credential_id) {
        Some(f) => Err(f),
        None => Ok(
            PasskeyEnrollment {
                credential_id,
                rp_id: owned(RP_ID),
                hmac_salt,
                label: owned(label),
                added_at: now,
                hmac_output,
            },
        ),
    }
}

// ---------------------------------------------------------------------------
// Laws
// ---------------------------------------------------------------------------

/// No ceremony goes without verifying the user: a PIN that was typed is the one used, and
/// without one the key itself must verify.
pub proof fn law_every_ceremony_verifies_the_user(k: HardwareKey, pin: &str, a: Ceremony, b: Ceremony)
    requires
        call_ensures(HardwareKey::ceremony, (&k, Some(pin)), a),
        call_ensures(HardwareKey::ceremony, (&k, None::<&str>), b),
    ensures
        a.pin is Some && a.pin->0@ == pin@,
        b.pin is None && b.uv is Some && b.uv->0,
{
}

/// The secret is the first one in the first assertion; without an assertion, or a secret in
/// it, there is an error and no secret.
pub proof fn law_the_first_secret_is_taken(
    assertions: &[Vec<Option<[u8; 32]>>],
    at: int,
    r: Result<[u8; 32], KeyFailure>,
)
    requires
        call_ensures(derive_hmac_secret, (assertions,), r),
        assertions@.len() > 0 ==> 0 <= at <= assertions@[0]@.len() && (forall|i: int|
            0 <= i < at ==> (#[trigger] assertions@[0]@[i]) is None) && (at
            < assertions@[0]@.len() ==> assertions@[0]@[at] is Some),
    ensures
        assertions@.len() == 0 ==> r is Err && r->Err_0 is NoAssertion,
        assertions@.len() > 0 && at < assertions@[0]@.len() ==> r is Ok && r->Ok_0
            == assertions@[0]@[at]->0,
        assertions@.len() > 0 && at == assertions@[0]@.len() ==> r is Err && r->Err_0 is NoSecret,
{
    if assertions@.len() > 0 {
        lemma_first_secret(assertions@[0]@, at);
    }
}

/// An enrolment keeps what the key gave and what was asked of it, and is bound to this
/// application; a key that gave no credential is not enrolled.
pub proof fn law_an_enrolment_keeps_what_the_key_gave(
    credential_id: Vec<u8>,
    hmac_salt: [u8; 32],
    label: &str,
    now: i64,
    hmac_output: [u8; 32],
    r: Result<PasskeyEnrollment, KeyFailure>,
)
    requires
        call_ensures(enroll, (credential_id, hmac_salt, label, now, hmac_output), r),
    ensures
        r is Ok <==> credential_id@.len() > 0,
        r is Ok ==> r->Ok_0.credential_id == credential_id && r->Ok_0.hmac_salt == hmac_salt
            && r->Ok_0.hmac_output == hmac_output && r->Ok_0.label@ == label@ && r->Ok_0.added_at
            == now && r->Ok_0.rp_id@ == "filesec.local"@,
{
}

/// What the key said is passed on.
pub proof fn law_the_keys_words_are_passed_on(f: KeyFailure, said: Seq<char>, e: PasskeyError)
    requires
        call_ensures(key_error, (&f,), e),
        f is NoDevice && f->NoDevice_0@ == said || f is Create && f->Create_0@ == said || f
            is Authenticate && f->Authenticate_0@ == said,
    ensures
        crate::text::contains_text(e.0@, said),
{
    match f {
        KeyFailure::NoDevice(n) => {
            crate::report::lemma_holds("no security key found: "@, n@, Seq::empty());
        },
        KeyFailure::Create(n) => {
            crate::report::lemma_holds("could not create a passkey: "@, n@, Seq::empty());
        },
        KeyFailure::Authenticate(n) => {
            crate::report::lemma_holds("authentication failed: "@, n@, Seq::empty());
        },
        _ => {},
    }
}

} // verus!
