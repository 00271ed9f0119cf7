//! The forms of the screens before and around a session: what each asks for, when
//! it is complete, and what it hands to the work that follows.

use vstd::prelude::*;
use crate::passphrase::{passphrase_policy_error, policy};
use crate::secret::{opt_secret, zeroize, Secret};
use crate::store::LEGACY_MESSAGE;
use crate::text::{contains, contains_text, opt_text, owned, same_text, trim, trimmed};

verus! {

/// An error text, if the form shows one.
pub open spec fn shows(error: Option<String>, msg: Seq<char>) -> bool {
    opt_text(error) == Some(msg)
}

// ---------------------------------------------------------------------------
// Creating or restoring an identity
// ---------------------------------------------------------------------------

/// The create-identity screen.
pub struct FirstRun {
    pub name: String,
    pub pass: String,
    pub pass2: String,
    pub error: Option<String>,
    /// When set, the restore-from-backup sub-form is shown instead.
    pub restore: Option<RestoreForm>,
}

/// The restore-from-backup form shown on the first-run screen.
pub struct RestoreForm {
    /// The chosen backup file.
    pub path: String,
    pub backup_pass: String,
    pub new_pass: String,
    pub new_pass2: String,
    pub error: Option<String>,
}

/// What is wrong with a create-identity form, if anything.
pub open spec fn create_fault(f: FirstRun) -> Option<Seq<char>> {
    if trimmed(f.name@).len() == 0 {
        Some("Please enter a display name."@)
    } else if policy(f.pass@) is Some {
        policy(f.pass@)
    } else if f.pass@ != f.pass2@ {
        Some("Passphrases do not match."@)
    } else {
        None
    }
}

/// What is wrong with a restore form, if anything.
pub open spec fn restore_fault(r: RestoreForm) -> Option<Seq<char>> {
    if r.backup_pass@.len() == 0 {
        Some("Enter the backup's passphrase."@)
    } else if policy(r.new_pass@) is Some {
        policy(r.new_pass@)
    } else if r.new_pass@ != r.new_pass2@ {
        Some("New passphrases do not match."@)
    } else {
        None
    }
}

/// What a complete restore form asks for.
pub struct RestoreRequest {
    pub path: String,
    pub backup_pass: Secret,
    pub new_pass: Secret,
}

/// What confirming the create-identity form comes to.
pub open spec fn create_asked(a: FirstRun, b: FirstRun, r: Option<(String, Secret)>) -> bool {
    &&& (b.name == a.name)
    &&& (b.restore == a.restore)
    &&& (match create_fault(a) {
        Some(e) => {
            &&& r is None
            &&& shows(b.error, e)
            &&& b.pass == a.pass
            &&& b.pass2 == a.pass2
        },
        None => {
            &&& r is Some
            &&& (r->0).0@ == trimmed(a.name@)
            &&& (r->0).1@ == a.pass@
            &&& b.error is None
            &&& b.pass@.len() == 0
            &&& b.pass2@.len() == 0
        },
    })
}

impl FirstRun {
    /// An empty form.
    pub fn new() -> (f: Self)
        ensures
            f.name@.len() == 0 && f.pass@.len() == 0 && f.pass2@.len() == 0,
            f.error is None && f.restore is None,
    {
        FirstRun {
            name: String::new(),
            pass: String::new(),
            pass2: String::new(),
            error: None,
            restore: None,
        }
    }

    /// Hands out the name and the passphrase of a complete form, or shows what is
    /// wrong. A passphrase that is handed out is no longer in the form.
    pub fn request_create(&mut self) -> (r: Option<(String, Secret)>)
        ensures
            create_asked(*old(self), *final(self), r),
    {
        let name = trim(&self.name);
        if name.as_str().is_empty() {
            self.error = Some(owned("Please enter a display name."));
            return None;
        }
        match passphrase_policy_error(&self.pass) {
            Some(e) => {
                self.error = Some(e);
                return None;
            },
            None => {},
        }
        if !same_text(&self.pass, &self.pass2) {
            self.error = Some(owned("Passphrases do not match."));
            return None;
        }
        self.error = None;
        zeroize(&mut self.pass2);
        let pass = Secret::take(&mut self.pass);
        Some((name, pass))
    }

    /// Opens the restore sub-form for a backup file that was picked.
    pub fn begin_restore(&mut self, path: String)
        ensures
            final(self).error is None,
            final(self).restore is Some,
            ({
                let r = final(self).restore->0;
                r.path == path && r.backup_pass@.len() == 0 && r.new_pass@.len() == 0
                    && r.new_pass2@.len() == 0 && r.error is None
            }),
            *final(self) == (FirstRun {
                error: None,
                restore: final(self).restore,
                ..*old(self)
            }),
    {
        self.error = None;
        self.restore = Some(
            RestoreForm {
                path,
                backup_pass: String::new(),
                new_pass: String::new(),
                new_pass2: String::new(),
                error: None,
            },
        );
    }

    /// Closes the restore sub-form.
    pub fn cancel_restore(&mut self)
        ensures
            *final(self) == (FirstRun { restore: None, ..*old(self) }),
    {
        self.restore = None;
    }

    /// Wipes the passphrases.
    pub fn scrub(&mut self)
        ensures
            final(self).pass@.len() == 0 && final(self).pass2@.len() == 0,
            *final(self) == (FirstRun {
                pass: final(self).pass,
                pass2: final(self).pass2,
                ..*old(self)
            }),
        opens_invariants none
        no_unwind
    {
        zeroize(&mut self.pass);
        zeroize(&mut self.pass2);
    }

    /// Shows a failure in whichever card is showing.
    pub fn fail(&mut self, msg: String)
        ensures
            match old(self).restore {
                Some(r) => *final(self) == (FirstRun {
                    restore: Some(RestoreForm { error: Some(msg), ..r }),
                    ..*old(self)
                }),
                None => *final(self) == (FirstRun { error: Some(msg), ..*old(self) }),
            },
    {
        match self.restore.take() {
            Some(mut r) => {
                r.error = Some(msg);
                self.restore = Some(r);
            },
            None => {
                self.error = Some(msg);
            },
        }
    }
}

/// What confirming the restore form comes to.
pub open spec fn restore_asked(a: RestoreForm, b: RestoreForm, r: Option<RestoreRequest>) -> bool {
    &&& (b.path == a.path)
    &&& (match restore_fault(a) {
        Some(e) => {
            &&& r is None
            &&& shows(b.error, e)
            &&& b.backup_pass == a.backup_pass
            &&& b.new_pass == a.new_pass
            &&& b.new_pass2 == a.new_pass2
        },
        None => {
            &&& r is Some
            &&& r->0.path@ == a.path@
            &&& r->0.backup_pass@ == a.backup_pass@
            &&& r->0.new_pass@ == a.new_pass@
            &&& b.error is None
            &&& b.backup_pass@.len() == 0
            &&& b.new_pass@.len() == 0
            &&& b.new_pass2@.len() == 0
        },
    })
}

impl RestoreForm {
    /// Wipes the passphrases.
    pub fn scrub(&mut self)
        ensures
            final(self).backup_pass@.len() == 0,
            final(self).new_pass@.len() == 0,
            final(self).new_pass2@.len() == 0,
            final(self).path == old(self).path,
            final(self).error == old(self).error,
        opens_invariants none
        no_unwind
    {
        zeroize(&mut self.backup_pass);
        zeroize(&mut self.new_pass);
        zeroize(&mut self.new_pass2);
    }

    /// Hands out what a complete form asks for, or shows what is wrong.
    pub fn request_restore(&mut self) -> (r: Option<RestoreRequest>)
        ensures
            restore_asked(*old(self), *final(self), r),
    {
        if self.backup_pass.as_str().is_empty() {
            self.error = Some(owned("Enter the backup's passphrase."));
            return None;
        }
        match passphrase_policy_error(&self.new_pass) {
            Some(e) => {
                self.error = Some(e);
                return None;
            },
            None => {},
        }
        if !same_text(&self.new_pass, &self.new_pass2) {
            self.error = Some(owned("New passphrases do not match."));
            return None;
        }
        self.error = None;
        zeroize(&mut self.new_pass2);
        let path = owned(&self.path);
        let backup_pass = Secret::take(&mut self.backup_pass);
        let new_pass = Secret::take(&mut self.new_pass);
        Some(RestoreRequest { path, backup_pass, new_pass })
    }
}

impl Drop for FirstRun {
    /// Wipes the passphrases.
    fn drop(&mut self)
        opens_invariants none
        no_unwind
    {
        self.scrub();
    }
}

impl Drop for RestoreForm {
    /// Wipes the passphrases.
    fn drop(&mut self)
        opens_invariants none
        no_unwind
    {
        self.scrub();
    }
}

// ---------------------------------------------------------------------------
// Unlocking
// ---------------------------------------------------------------------------

/// The unlock screen.
pub struct Unlock {
    pub pass: String,
    pub pin: String,
    pub has_passkeys: bool,
    pub has_saved: bool,
    pub legacy_recovery: bool,
    pub error: Option<String>,
}

/// What was found when the keystore was loaded.
pub enum KeystoreProbe {
    Loaded { has_passkeys: bool },
    Failed(String),
}

/// What was found in the store.
pub struct StoreProbe {
    pub keystore: KeystoreProbe,
    /// Whether an explicit recovery was begun and not finished.
    pub recovery_pending: bool,
    /// Whether the OS keychain holds an unlock token for this store.
    pub has_saved: bool,
}

/// Whether a failure says that only an explicit recovery can go on.
pub open spec fn asks_for_recovery(e: Seq<char>) -> bool {
    contains_text(e, LEGACY_MESSAGE@)
}

/// Whether the unlock screen offers the security key, and whether it recovers.
pub open spec fn unlock_offers(p: StoreProbe) -> (bool, bool) {
    match p.keystore {
        KeystoreProbe::Loaded { has_passkeys } => (has_passkeys, p.recovery_pending),
        KeystoreProbe::Failed(e) => (false, asks_for_recovery(e@)),
    }
}

impl Unlock {
    /// The unlock screen when nothing is known of the store.
    pub fn blank() -> (u: Self)
        ensures
            u.pass@.len() == 0 && u.pin@.len() == 0 && u.error is None,
            !u.has_passkeys && !u.has_saved && !u.legacy_recovery,
    {
        Unlock {
            pass: String::new(),
            pin: String::new(),
            has_passkeys: false,
            has_saved: false,
            legacy_recovery: false,
            error: None,
        }
    }

    /// The unlock screen for a store.
    pub fn for_store(probe: &StoreProbe) -> (u: Self)
        ensures
            u.pass@.len() == 0 && u.pin@.len() == 0 && u.error is None,
            u.has_passkeys == unlock_offers(*probe).0,
            u.legacy_recovery == unlock_offers(*probe).1,
            u.has_saved == probe.has_saved,
    {
        let (has_passkeys, legacy_recovery) = match &probe.keystore {
            KeystoreProbe::Loaded { has_passkeys } => (*has_passkeys, probe.recovery_pending),
            KeystoreProbe::Failed(e) => (false, contains(e, LEGACY_MESSAGE)),
        };
        Unlock {
            pass: String::new(),
            pin: String::new(),
            has_passkeys,
            has_saved: probe.has_saved,
            legacy_recovery,
            error: None,
        }
    }

    /// Hands out the passphrase, and whether to recover legacy state.
    pub fn request_unlock(&mut self) -> (r: (Secret, bool))
        ensures
            r.0@ == old(self).pass@,
            r.1 == old(self).legacy_recovery,
            final(self).pass@.len() == 0,
            *final(self) == (Unlock { pass: final(self).pass, error: None, ..*old(self) }),
    {
        self.error = None;
        let pass = Secret::take(&mut self.pass);
        (pass, self.legacy_recovery)
    }

    /// The PIN to hand to the security key, if one was typed.
    pub fn request_passkey(&mut self) -> (r: Option<Secret>)
        ensures
            opt_secret(r) == typed_pin(old(self).pin@),
            *final(self) == (Unlock { error: None, ..*old(self) }),
    {
        self.error = None;
        pin_of(&self.pin)
    }

    /// Wipes the passphrase and the PIN.
    pub fn scrub(&mut self)
        ensures
            final(self).pass@.len() == 0,
            final(self).pin@.len() == 0,
            *final(self) == (Unlock {
                pass: final(self).pass,
                pin: final(self).pin,
                ..*old(self)
            }),
        opens_invariants none
        no_unwind
    {
        zeroize(&mut self.pass);
        zeroize(&mut self.pin);
    }
}

impl Drop for Unlock {
    /// Wipes the passphrase and the PIN.
    fn drop(&mut self)
        opens_invariants none
        no_unwind
    {
        self.scrub();
    }
}

/// The PIN that was typed: none, if only blanks were.
pub open spec fn typed_pin(s: Seq<char>) -> Option<Seq<char>> {
    if trimmed(s).len() == 0 {
        None
    } else {
        Some(trimmed(s))
    }
}

/// The PIN that was typed.
fn pin_of(s: &str) -> (r: Option<Secret>)
    ensures
        opt_secret(r) == typed_pin(s@),
{
    let pin = trim(s);
    if pin.as_str().is_empty() {
        None
    } else {
        Some(Secret::new(pin))
    }
}

// ---------------------------------------------------------------------------
// Forms of the identity screen
// ---------------------------------------------------------------------------

/// The enroll-a-security-key form.
pub struct PasskeyEnrollForm {
    pub label: String,
    pub pass: String,
    pub pin: String,
    pub error: Option<String>,
}

/// What a complete enrolment form asks for.
pub struct EnrollRequest {
    pub label: String,
    pub pass: Secret,
    pub pin: Option<Secret>,
}

/// What is wrong with an enrolment form, if anything.
pub open spec fn enroll_fault(f: PasskeyEnrollForm) -> Option<Seq<char>> {
    if trimmed(f.label@).len() == 0 {
        Some("Give this key a name so you can recognize it."@)
    } else if f.pass@.len() == 0 {
        Some("Enter your passphrase to authorize this change."@)
    } else {
        None
    }
}

/// What confirming the enrolment form comes to.
pub open spec fn enroll_asked(a: PasskeyEnrollForm, b: PasskeyEnrollForm, r: Option<EnrollRequest>) -> bool {
    match enroll_fault(a) {
        Some(e) => {
            &&& r is None
            &&& shows(b.error, e)
            &&& b == (PasskeyEnrollForm {
                error: b.error,
                ..a
            })
        },
        None => {
            &&& r is Some
            &&& r->0.label@ == trimmed(a.label@)
            &&& r->0.pass@ == a.pass@
            &&& opt_secret(r->0.pin) == typed_pin(a.pin@)
            &&& b.pass@.len() == 0
            &&& b == (PasskeyEnrollForm {
                error: None,
                pass: b.pass,
                ..a
            })
        },
    }
}

impl PasskeyEnrollForm {
    /// An empty form.
    pub fn new() -> (f: Self)
        ensures
            f.label@.len() == 0 && f.pass@.len() == 0 && f.pin@.len() == 0 && f.error is None,
    {
        PasskeyEnrollForm {
            label: String::new(),
            pass: String::new(),
            pin: String::new(),
            error: None,
        }
    }

    /// Hands out what a complete form asks for, or shows what is wrong.
    pub fn request(&mut self) -> (r: Option<EnrollRequest>)
        ensures
            enroll_asked(*old(self), *final(self), r),
    {
        let label = trim(&self.label);
        if label.as_str().is_empty() {
            self.error = Some(owned("Give this key a name so you can recognize it."));
            return None;
        }
        if self.pass.as_str().is_empty() {
            self.error = Some(owned("Enter your passphrase to authorize this change."));
            return None;
        }
        self.error = None;
        let pin = pin_of(&self.pin);
        let pass = Secret::take(&mut self.pass);
        Some(EnrollRequest { label, pass, pin })
    }

    /// Wipes the passphrase and the PIN.
    pub fn scrub(&mut self)
        ensures
            final(self).pass@.len() == 0 && final(self).pin@.len() == 0,
            final(self).label == old(self).label && final(self).error == old(self).error,
        opens_invariants none
        no_unwind
    {
        zeroize(&mut self.pass);
        zeroize(&mut self.pin);
    }
}

impl Drop for PasskeyEnrollForm {
    /// Wipes the passphrase and the PIN.
    fn drop(&mut self)
        opens_invariants none
        no_unwind
    {
        self.scrub();
    }
}

/// A form that asks for the passphrase alone.
pub struct ConfirmForm {
    pub pass: String,
    pub error: Option<String>,
}

/// What confirming a form that asks for the passphrase comes to.
pub open spec fn confirm_asked(a: ConfirmForm, b: ConfirmForm, r: Option<Secret>) -> bool {
    if a.pass@.len() == 0 {
        &&& r is None
        &&& shows(b.error, "Enter your passphrase to confirm."@)
        &&& b.pass == a.pass
    } else {
        &&& opt_secret(r) == Some(a.pass@)
        &&& b.error is None
        &&& b.pass@.len() == 0
    }
}

impl ConfirmForm {
    /// An empty form.
    pub fn new() -> (f: Self)
        ensures
            f.pass@.len() == 0 && f.error is None,
    {
        ConfirmForm { pass: String::new(), error: None }
    }

    /// Hands out the passphrase, or asks for it.
    pub fn request(&mut self) -> (r: Option<Secret>)
        ensures
            confirm_asked(*old(self), *final(self), r),
    {
        if self.pass.as_str().is_empty() {
            self.error = Some(owned("Enter your passphrase to confirm."));
            return None;
        }
        self.error = None;
        Some(Secret::take(&mut self.pass))
    }

    /// Wipes the passphrase.
    pub fn scrub(&mut self)
        ensures
            final(self).pass@.len() == 0,
            final(self).error == old(self).error,
        opens_invariants none
        no_unwind
    {
        zeroize(&mut self.pass);
    }
}

impl Drop for ConfirmForm {
    /// Wipes the passphrase.
    fn drop(&mut self)
        opens_invariants none
        no_unwind
    {
        self.scrub();
    }
}

/// The export-an-identity-backup form.
pub struct ExportIdentityForm {
    pub pass: String,
    pub pass2: String,
    pub error: Option<String>,
}

/// What is wrong with an identity export form, if anything.
pub open spec fn backup_fault(f: ExportIdentityForm) -> Option<Seq<char>> {
    if policy(f.pass@) is Some {
        policy(f.pass@)
    } else if f.pass@ != f.pass2@ {
        Some("Passphrases do not match."@)
    } else {
        None
    }
}

/// What confirming the identity backup form comes to.
pub open spec fn backup_asked(a: ExportIdentityForm, b: ExportIdentityForm, r: Option<Secret>) -> bool {
    match backup_fault(a) {
        Some(e) => {
            &&& r is None
            &&& shows(b.error, e)
            &&& b.pass == a.pass
            &&& b.pass2 == a.pass2
        },
        None => {
            &&& opt_secret(r) == Some(a.pass@)
            &&& b.error is None
            &&& b.pass@.len() == 0
            &&& b.pass2@.len() == 0
        },
    }
}

impl ExportIdentityForm {
    /// An empty form.
    pub fn new() -> (f: Self)
        ensures
            f.pass@.len() == 0 && f.pass2@.len() == 0 && f.error is None,
    {
        ExportIdentityForm { pass: String::new(), pass2: String::new(), error: None }
    }

    /// Hands out the passphrase of a complete form, or shows what is wrong.
    pub fn request(&mut self) -> (r: Option<Secret>)
        ensures
            backup_asked(*old(self), *final(self), r),
    {
        match passphrase_policy_error(&self.pass) {
            Some(e) => {
                self.error = Some(e);
                return None;
            },
            None => {},
        }
        if !same_text(&self.pass, &self.pass2) {
            self.error = Some(owned("Passphrases do not match."));
            return None;
        }
        self.error = None;
        zeroize(&mut self.pass2);
        Some(Secret::take(&mut self.pass))
    }

    /// Wipes the passphrases.
    pub fn scrub(&mut self)
        ensures
            final(self).pass@.len() == 0 && final(self).pass2@.len() == 0,
            final(self).error == old(self).error,
        opens_invariants none
        no_unwind
    {
        zeroize(&mut self.pass);
        zeroize(&mut self.pass2);
    }
}

impl Drop for ExportIdentityForm {
    /// Wipes the passphrases.
    fn drop(&mut self)
        opens_invariants none
        no_unwind
    {
        self.scrub();
    }
}

/// An identity is created only under a passphrase that meets the policy, typed twice
/// alike, and under a name that is not blank.
pub proof fn law_created_identities_have_good_passphrases(f: FirstRun)
    ensures
        create_fault(f) is None <==> trimmed(f.name@).len() > 0 && policy(f.pass@) is None
            && f.pass@ == f.pass2@,
{
}

/// An identity is created as it was typed: under the name without the blanks around it, and
/// with the passphrase that was typed twice, which is a strong one. Afterwards the form holds
/// neither passphrase.
pub proof fn law_an_identity_is_created_as_typed(
    a: FirstRun,
    b: FirstRun,
    name: String,
    pass: Secret,
)
    requires
        create_asked(a, b, Some((name, pass))),
    ensures
        name@ == trimmed(a.name@) && name@.len() > 0,
        pass@ == a.pass@ && pass@ == a.pass2@,
        crate::passphrase::is_strong(pass@),
        b.pass@.len() == 0 && b.pass2@.len() == 0,
{
    crate::passphrase::lemma_policy_is_strict(a.pass@);
}

/// An identity is not created without a name, with two different passphrases, or with a weak
/// one; the form says so and keeps what was typed.
pub proof fn law_a_bad_form_creates_nothing(a: FirstRun, b: FirstRun, r: Option<(String, Secret)>)
    requires
        create_asked(a, b, r),
        trimmed(a.name@).len() == 0 || a.pass@ != a.pass2@ || !crate::passphrase::is_strong(a.pass@),
    ensures
        r is None,
        b.error is Some,
        b.name == a.name && b.pass == a.pass && b.pass2 == a.pass2,
{
    if policy(a.pass@) is None {
        crate::passphrase::lemma_policy_is_strict(a.pass@);
    }
}

/// A complete form creates the identity.
pub proof fn law_a_complete_form_creates_the_identity(
    a: FirstRun,
    b: FirstRun,
    r: Option<(String, Secret)>,
)
    requires
        create_asked(a, b, r),
        trimmed(a.name@).len() > 0,
        policy(a.pass@) is None,
        a.pass@ == a.pass2@,
    ensures
        r is Some,
        b.error is None,
{
}

/// A backup is restored from the file that was picked, with its own passphrase, under a new
/// one that is strong and was typed twice.
pub proof fn law_a_backup_is_restored_as_typed(a: RestoreForm, b: RestoreForm, r: Option<RestoreRequest>)
    requires
        restore_asked(a, b, r),
    ensures
        r is Some ==> r->0.path@ == a.path@ && r->0.backup_pass@ == a.backup_pass@
            && r->0.backup_pass@.len() > 0 && r->0.new_pass@ == a.new_pass@ && r->0.new_pass@
            == a.new_pass2@ && crate::passphrase::is_strong(r->0.new_pass@) && b.backup_pass@.len()
            == 0 && b.new_pass@.len() == 0 && b.new_pass2@.len() == 0,
        r is None ==> b.error is Some && b.backup_pass == a.backup_pass && b.new_pass == a.new_pass,
        a.backup_pass@.len() > 0 && policy(a.new_pass@) is None && a.new_pass@ == a.new_pass2@
            ==> r is Some,
{
    if r is Some {
        crate::passphrase::lemma_policy_is_strict(a.new_pass@);
    }
}

/// An exported identity is sealed with a strong passphrase that was typed twice.
pub proof fn law_a_backup_is_sealed_as_typed(
    a: ExportIdentityForm,
    b: ExportIdentityForm,
    r: Option<Secret>,
)
    requires
        backup_asked(a, b, r),
    ensures
        r is Some ==> r->0@ == a.pass@ && r->0@ == a.pass2@ && crate::passphrase::is_strong(r->0@),
        policy(a.pass@) is None && a.pass@ == a.pass2@ ==> r is Some,
        r is None ==> b.error is Some,
{
    if policy(a.pass@) is None {
        crate::passphrase::lemma_policy_is_strict(a.pass@);
    }
}

/// A security key is enrolled under the name that was typed, with the passphrase that
/// authorizes it, and a PIN if one was typed; without a name or a passphrase it is not.
pub proof fn law_a_key_is_enrolled_as_typed(
    a: PasskeyEnrollForm,
    b: PasskeyEnrollForm,
    r: Option<EnrollRequest>,
)
    requires
        enroll_asked(a, b, r),
    ensures
        r is Some <==> trimmed(a.label@).len() > 0 && a.pass@.len() > 0,
        r is Some ==> r->0.label@ == trimmed(a.label@) && r->0.pass@ == a.pass@ && (r->0.pin is Some
            <==> trimmed(a.pin@).len() > 0) && (r->0.pin is Some ==> r->0.pin->0@ == trimmed(
            a.pin@,
        )) && b.pass@.len() == 0,
        r is None ==> b.error is Some && b.pass == a.pass,
{
}

/// A confirmation hands out exactly the passphrase that was typed, once.
pub proof fn law_a_confirmation_hands_out_the_passphrase(
    a: ConfirmForm,
    b: ConfirmForm,
    r: Option<Secret>,
)
    requires
        confirm_asked(a, b, r),
    ensures
        r is Some <==> a.pass@.len() > 0,
        r is Some ==> r->0@ == a.pass@ && b.pass@.len() == 0 && b.error is None,
        r is None ==> b.error is Some,
{
}

/// The unlock screen offers what the store has: a security key if one is enrolled, the saved
/// token if there is one, and recovery only where it was begun or where the keystore asks
/// for it.
pub proof fn law_the_unlock_screen_offers_what_the_store_has(probe: StoreProbe, u: Unlock)
    requires
        call_ensures(Unlock::for_store, (&probe,), u),
    ensures
        u.has_passkeys <==> probe.keystore is Loaded && probe.keystore->has_passkeys,
        u.has_saved == probe.has_saved,
        probe.keystore is Loaded ==> u.legacy_recovery == probe.recovery_pending,
        probe.keystore is Failed ==> (u.legacy_recovery <==> contains_text(
            probe.keystore->Failed_0@,
            "legacy state requires explicit recovery"@,
        )),
        u.pass@.len() == 0 && u.pin@.len() == 0,
{
}

/// Unlocking hands out the passphrase as it was typed and leaves none behind; a PIN is handed
/// to the key without the whitespace round it, and a blank one not at all.
pub proof fn law_unlocking_hands_out_what_was_typed(
    a: &mut Unlock,
    r: (Secret, bool),
    b: &mut Unlock,
    pin: Option<Secret>,
)
    requires
        call_ensures(Unlock::request_unlock, (a,), r),
        call_ensures(Unlock::request_passkey, (b,), pin),
    ensures
        r.0@ == old(a).pass@ && r.1 == old(a).legacy_recovery,
        final(a).pass@.len() == 0 && final(a).error is None,
        final(a).legacy_recovery == old(a).legacy_recovery,
        pin is Some <==> trimmed(old(b).pin@).len() > 0,
        pin is Some ==> pin->0@ == trimmed(old(b).pin@),
{
}

/// A failure is shown where the user is: in the form of the backup if one is being restored,
/// else in that of the new identity. What was typed stays.
pub proof fn law_a_failure_is_shown_where_the_user_is(
    a: &mut FirstRun,
    msg: String,
)
    requires
        call_ensures(FirstRun::fail, (a, msg), ()),
    ensures
        old(a).restore is Some ==> final(a).restore is Some && final(a).restore->0.error == Some(
            msg,
        ) && final(a).error == old(a).error,
        old(a).restore is None ==> final(a).error == Some(msg) && final(a).restore is None,
        final(a).name == old(a).name && final(a).pass == old(a).pass,
{
}

/// A scrubbed form holds no secret.
pub proof fn law_a_scrubbed_form_holds_no_secret(
    a: &mut FirstRun,
    b: &mut RestoreForm,
    c: &mut Unlock,
    d: &mut PasskeyEnrollForm,
    e: &mut ConfirmForm,
    f: &mut ExportIdentityForm,
)
    requires
        call_ensures(FirstRun::scrub, (a,), ()),
        call_ensures(RestoreForm::scrub, (b,), ()),
        call_ensures(Unlock::scrub, (c,), ()),
        call_ensures(PasskeyEnrollForm::scrub, (d,), ()),
        call_ensures(ConfirmForm::scrub, (e,), ()),
        call_ensures(ExportIdentityForm::scrub, (f,), ()),
    ensures
        final(a).pass@.len() == 0 && final(a).pass2@.len() == 0,
        final(b).backup_pass@.len() == 0 && final(b).new_pass@.len() == 0 && final(b).new_pass2@.len() == 0,
        final(c).pass@.len() == 0 && final(c).pin@.len() == 0,
        final(d).pass@.len() == 0 && final(d).pin@.len() == 0,
        final(e).pass@.len() == 0,
        final(f).pass@.len() == 0 && final(f).pass2@.len() == 0,
{
}

/// A backup is restored from the file that was picked, and the form starts without a secret.
pub proof fn law_a_restore_is_about_the_picked_file(a: &mut FirstRun, path: String, b: &mut FirstRun)
    requires
        call_ensures(FirstRun::begin_restore, (a, path), ()),
        *old(b) == *final(a),
        call_ensures(FirstRun::cancel_restore, (b,), ()),
    ensures
        final(a).restore is Some && final(a).restore->0.path == path,
        final(a).restore->0.backup_pass@.len() == 0 && final(a).restore->0.new_pass@.len() == 0,
        final(b).restore is None,
        final(b).name == old(a).name,
{
}

} // verus!
