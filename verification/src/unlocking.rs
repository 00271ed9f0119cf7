//! The order of the steps that open a keystore, by passphrase, by security key or
//! from the OS keychain, and of those that set the latter two up.
//!
//! The steps themselves are outside work. Each machine takes the stage that was
//! carried out and how it went, and gives the next one.

use vstd::prelude::*;
use crate::forms::asks_for_recovery;
use crate::report::{JobReport, Outcome};
use crate::store::LEGACY_MESSAGE;
use crate::text::{concat2, concat3, concat4, contains, contains_text, owned};

verus! {

// ---------------------------------------------------------------------------
// By passphrase
// ---------------------------------------------------------------------------

/// The stages of unlocking with the passphrase.
pub enum UnlockStep {
    /// Note on disk that an explicit recovery is under way.
    WriteMarker,
    LoadKeystore,
    RecoverKeystore,
    /// Open the keystore with the passphrase.
    OpenKeystore,
    LoadContacts,
    RecoverContacts,
    LoadRegistry,
    RecoverRegistry,
    /// Open a vault, to see that it can be.
    CheckVault(usize),
    RecoverVault(usize),
    /// Wipe what a crash may have left behind.
    Clean,
    RemoveMarker,
    Done,
    Failed(String),
}

/// The first stage.
pub fn unlock_start(legacy: bool) -> (r: UnlockStep)
    ensures
        r == (if legacy {
            UnlockStep::WriteMarker
        } else {
            UnlockStep::LoadKeystore
        }),
{
    if legacy {
        UnlockStep::WriteMarker
    } else {
        UnlockStep::LoadKeystore
    }
}

/// The stage after the vaults before `i` are in order.
pub open spec fn vault_stage(i: int, vaults: nat) -> UnlockStep {
    if i < vaults {
        UnlockStep::CheckVault(i as usize)
    } else {
        UnlockStep::Clean
    }
}

/// Whether `r` is the stage after one that went as `failure` says. `legacy` tells
/// whether the user asked for the recovery of legacy state; `vaults` are the names in
/// the registry.
pub open spec fn unlock_after(
    step: UnlockStep,
    legacy: bool,
    vaults: Seq<Seq<char>>,
    failure: Option<String>,
    r: UnlockStep,
) -> bool {
    match (step, failure) {
        (UnlockStep::WriteMarker, _) => r is LoadKeystore,
        (UnlockStep::LoadKeystore, None) => r is OpenKeystore,
        (UnlockStep::LoadKeystore, Some(e)) => if legacy && asks_for_recovery(e@) {
            r is RecoverKeystore
        } else {
            r == UnlockStep::Failed(e)
        },
        (UnlockStep::RecoverKeystore, None) => r is OpenKeystore,
        (UnlockStep::OpenKeystore, None) => r is LoadContacts,
        (UnlockStep::LoadContacts, None) | (UnlockStep::RecoverContacts, None) => r is LoadRegistry,
        (UnlockStep::LoadContacts, Some(e)) => if legacy && contains_text(e@, "legacy"@) {
            r is RecoverContacts
        } else {
            r == UnlockStep::Failed(e)
        },
        (UnlockStep::LoadRegistry, None) | (UnlockStep::RecoverRegistry, None) => r == (if legacy {
            vault_stage(0, vaults.len())
        } else {
            UnlockStep::Clean
        }),
        (UnlockStep::LoadRegistry, Some(e)) => if legacy && contains_text(e@, "legacy"@) {
            r is RecoverRegistry
        } else {
            r == UnlockStep::Failed(e)
        },
        (UnlockStep::CheckVault(i), None) | (UnlockStep::RecoverVault(i), None) => r == vault_stage(
            i + 1,
            vaults.len(),
        ),
        (UnlockStep::CheckVault(i), Some(e)) => if contains_text(e@, "legacy"@) {
            r == UnlockStep::RecoverVault(i)
        } else {
            r is Failed && r->Failed_0@ == "Could not validate vault \""@ + vaults[i as int]
                + "\": "@ + e@
        },
        (UnlockStep::RecoverVault(i), Some(e)) => r is Failed && r->Failed_0@
            == "Could not recover vault \""@ + vaults[i as int] + "\": "@ + e@,
        (UnlockStep::RecoverKeystore, Some(e)) => r == UnlockStep::Failed(e),
        (UnlockStep::OpenKeystore, Some(e)) => r == UnlockStep::Failed(e),
        (UnlockStep::RecoverContacts, Some(e)) => r == UnlockStep::Failed(e),
        (UnlockStep::RecoverRegistry, Some(e)) => r == UnlockStep::Failed(e),
        (UnlockStep::Clean, _) => r == (if legacy {
            UnlockStep::RemoveMarker
        } else {
            UnlockStep::Done
        }),
        (UnlockStep::RemoveMarker, _) => r is Done,
        (UnlockStep::Done, _) => r is Done,
        (UnlockStep::Failed(e), _) => r == UnlockStep::Failed(e),
    }
}

/// Whether a stage speaks of a vault of the registry, if it speaks of one.
pub open spec fn in_registry(step: UnlockStep, vaults: nat) -> bool {
    match step {
        UnlockStep::CheckVault(i) | UnlockStep::RecoverVault(i) => i < vaults,
        _ => true,
    }
}

/// The stage after vault `i - 1`.
fn stage_of_vault(i: usize, vaults: &[String]) -> (r: UnlockStep)
    ensures
        r == vault_stage(i as int, vaults@.len()),
{
    if i < vaults.len() {
        UnlockStep::CheckVault(i)
    } else {
        UnlockStep::Clean
    }
}

/// The next stage of unlocking with the passphrase.
pub fn unlock_next(
    step: UnlockStep,
    legacy: bool,
    vaults: &[String],
    failure: Option<String>,
) -> (r: UnlockStep)
    requires
        in_registry(step, vaults@.len()),
    ensures
        unlock_after(step, legacy, crate::text::texts(vaults@), failure, r),
        in_registry(r, vaults@.len()),
{
    let _n: usize = vaults.len();
    match step {
        UnlockStep::WriteMarker => UnlockStep::LoadKeystore,
        UnlockStep::LoadKeystore => match failure {
            None => UnlockStep::OpenKeystore,
            Some(e) => if legacy && contains(&e, LEGACY_MESSAGE) {
                UnlockStep::RecoverKeystore
            } else {
                UnlockStep::Failed(e)
            },
        },
        UnlockStep::RecoverKeystore => match failure {
            None => UnlockStep::OpenKeystore,
            Some(e) => UnlockStep::Failed(e),
        },
        UnlockStep::OpenKeystore => match failure {
            None => UnlockStep::LoadContacts,
            Some(e) => UnlockStep::Failed(e),
        },
        UnlockStep::LoadContacts => match failure {
            None => UnlockStep::LoadRegistry,
            Some(e) => if legacy && contains(&e, "legacy") {
                UnlockStep::RecoverContacts
            } else {
                UnlockStep::Failed(e)
            },
        },
        UnlockStep::RecoverContacts => match failure {
            None => UnlockStep::LoadRegistry,
            Some(e) => UnlockStep::Failed(e),
        },
        UnlockStep::LoadRegistry => match failure {
            None => if legacy {
                stage_of_vault(0, vaults)
            } else {
                UnlockStep::Clean
            },
            Some(e) => if legacy && contains(&e, "legacy") {
                UnlockStep::RecoverRegistry
            } else {
                UnlockStep::Failed(e)
            },
        },
        UnlockStep::RecoverRegistry => match failure {
            None => if legacy {
                stage_of_vault(0, vaults)
            } else {
                UnlockStep::Clean
            },
            Some(e) => UnlockStep::Failed(e),
        },
        UnlockStep::CheckVault(i) => match failure {
            None => stage_of_vault(i + 1, vaults),
            Some(e) => if contains(&e, "legacy") {
                UnlockStep::RecoverVault(i)
            } else {
                assert(crate::text::texts(vaults@)[i as int] == vaults@[i as int]@);
                UnlockStep::Failed(concat4("Could not validate vault \"", &vaults[i], "\": ", &e))
            },
        },
        UnlockStep::RecoverVault(i) => match failure {
            None => stage_of_vault(i + 1, vaults),
            Some(e) => {
                assert(crate::text::texts(vaults@)[i as int] == vaults@[i as int]@);
                UnlockStep::Failed(concat4("Could not recover vault \"", &vaults[i], "\": ", &e))
            },
        },
        UnlockStep::Clean => if legacy {
            UnlockStep::RemoveMarker
        } else {
            UnlockStep::Done
        },
        UnlockStep::RemoveMarker => UnlockStep::Done,
        UnlockStep::Done => UnlockStep::Done,
        UnlockStep::Failed(e) => UnlockStep::Failed(e),
    }
}

/// Whether a stage rewrites legacy state.
pub open spec fn recovers(step: UnlockStep) -> bool {
    step is WriteMarker || step is RecoverKeystore || step is RecoverContacts
        || step is RecoverRegistry || step is RecoverVault || step is CheckVault
}

/// Legacy state is only ever recovered when the user asked for it.
pub proof fn law_recovery_is_explicit(
    step: UnlockStep,
    vaults: Seq<Seq<char>>,
    failure: Option<String>,
    r: UnlockStep,
)
    requires
        !recovers(step),
        unlock_after(step, false, vaults, failure, r),
    ensures
        !recovers(r),
{
}

/// How many stages may still come.
pub open spec fn stages_left(step: UnlockStep, vaults: nat) -> nat {
    match step {
        UnlockStep::WriteMarker => 2 * vaults + 10,
        UnlockStep::LoadKeystore => 2 * vaults + 9,
        UnlockStep::RecoverKeystore => 2 * vaults + 8,
        UnlockStep::OpenKeystore => 2 * vaults + 7,
        UnlockStep::LoadContacts => 2 * vaults + 6,
        UnlockStep::RecoverContacts => 2 * vaults + 5,
        UnlockStep::LoadRegistry => 2 * vaults + 4,
        UnlockStep::RecoverRegistry => 2 * vaults + 3,
        UnlockStep::CheckVault(i) => (2 * (vaults - i) + 2) as nat,
        UnlockStep::RecoverVault(i) => (2 * (vaults - i) + 1) as nat,
        UnlockStep::Clean => 2,
        UnlockStep::RemoveMarker => 1,
        UnlockStep::Done | UnlockStep::Failed(_) => 0,
    }
}

/// Unlocking comes to an end: every stage brings it closer.
pub proof fn law_unlocking_ends(
    step: UnlockStep,
    legacy: bool,
    vaults: Seq<Seq<char>>,
    failure: Option<String>,
    r: UnlockStep,
)
    requires
        in_registry(step, vaults.len()),
        vaults.len() <= usize::MAX,
        unlock_after(step, legacy, vaults, failure, r),
    ensures
        !(step is Done || step is Failed) ==> stages_left(r, vaults.len()) < stages_left(
            step,
            vaults.len(),
        ),
{
}

/// Nothing is unlocked but by opening the keystore: a run that has not opened it
/// cannot reach the stages that follow without passing [`UnlockStep::OpenKeystore`].
pub proof fn law_unlocking_opens_the_keystore(
    step: UnlockStep,
    legacy: bool,
    vaults: Seq<Seq<char>>,
    failure: Option<String>,
    r: UnlockStep,
)
    requires
        unlock_after(step, legacy, vaults, failure, r),
        step is WriteMarker || step is LoadKeystore || step is RecoverKeystore || (
        step is OpenKeystore && failure is Some),
    ensures
        r is LoadKeystore || r is RecoverKeystore || r is OpenKeystore || r is Failed,
{
}

// ---------------------------------------------------------------------------
// By security key
// ---------------------------------------------------------------------------

/// The stages of unlocking with a security key, once the keystore is loaded.
pub enum PasskeyStep {
    /// Ask the key for slot `index`, and open the keystore with what it gives.
    TrySlot { index: usize, last_err: String },
    LoadContacts,
    LoadRegistry,
    Clean,
    Done,
    Failed(String),
}

/// How a stage went.
pub enum SlotReply {
    Went,
    /// The slot is malformed: it is passed over.
    Malformed,
    Failed(String),
}

/// The stage after the slots before `index` did not open the keystore.
pub open spec fn slot_stage(index: int, slots: nat, last_err: String) -> PasskeyStep {
    if index < slots {
        PasskeyStep::TrySlot { index: index as usize, last_err }
    } else {
        PasskeyStep::Failed(last_err)
    }
}

/// The first stage.
pub fn passkey_start(slots: usize) -> (r: PasskeyStep)
    ensures
        if slots == 0 {
            r is Failed && r->Failed_0@ == "No security keys are enrolled."@
        } else {
            r is TrySlot && r->index == 0 && r->last_err@
                == "Your security key did not match any enrolled passkey."@
        },
{
    if slots == 0 {
        PasskeyStep::Failed(owned("No security keys are enrolled."))
    } else {
        PasskeyStep::TrySlot {
            index: 0,
            last_err: owned("Your security key did not match any enrolled passkey."),
        }
    }
}

/// The stage after one that went as `reply` says, with `slots` keys enrolled.
pub open spec fn passkey_after(step: PasskeyStep, slots: nat, reply: SlotReply) -> PasskeyStep {
    match (step, reply) {
        (PasskeyStep::TrySlot { index, last_err }, SlotReply::Went) => PasskeyStep::LoadContacts,
        (PasskeyStep::TrySlot { index, last_err }, SlotReply::Malformed) => slot_stage(
            index + 1,
            slots,
            last_err,
        ),
        (PasskeyStep::TrySlot { index, last_err }, SlotReply::Failed(e)) => slot_stage(
            index + 1,
            slots,
            e,
        ),
        (PasskeyStep::LoadContacts, SlotReply::Failed(e)) => PasskeyStep::Failed(e),
        (PasskeyStep::LoadContacts, _) => PasskeyStep::LoadRegistry,
        (PasskeyStep::LoadRegistry, SlotReply::Failed(e)) => PasskeyStep::Failed(e),
        (PasskeyStep::LoadRegistry, _) => PasskeyStep::Clean,
        (PasskeyStep::Clean, _) => PasskeyStep::Done,
        (PasskeyStep::Done, _) => PasskeyStep::Done,
        (PasskeyStep::Failed(e), _) => PasskeyStep::Failed(e),
    }
}

/// The next stage of unlocking with a security key.
pub fn passkey_next(step: PasskeyStep, slots: usize, reply: SlotReply) -> (r: PasskeyStep)
    ensures
        r == passkey_after(step, slots as nat, reply),
{
    match step {
        PasskeyStep::TrySlot { index, last_err } => {
            let last = match reply {
                SlotReply::Went => return PasskeyStep::LoadContacts,
                SlotReply::Malformed => last_err,
                SlotReply::Failed(e) => e,
            };
            if index < slots && index + 1 < slots {
                PasskeyStep::TrySlot { index: index + 1, last_err: last }
            } else {
                PasskeyStep::Failed(last)
            }
        },
        PasskeyStep::LoadContacts => match reply {
            SlotReply::Failed(e) => PasskeyStep::Failed(e),
            _ => PasskeyStep::LoadRegistry,
        },
        PasskeyStep::LoadRegistry => match reply {
            SlotReply::Failed(e) => PasskeyStep::Failed(e),
            _ => PasskeyStep::Clean,
        },
        PasskeyStep::Clean => PasskeyStep::Done,
        PasskeyStep::Done => PasskeyStep::Done,
        PasskeyStep::Failed(e) => PasskeyStep::Failed(e),
    }
}

/// The stage after the replies of several slots.
pub open spec fn passkey_run(step: PasskeyStep, slots: nat, replies: Seq<SlotReply>) -> PasskeyStep
    decreases replies.len(),
{
    if replies.len() == 0 {
        step
    } else {
        passkey_run(passkey_after(step, slots, replies[0]), slots, replies.skip(1))
    }
}

/// The last failure among replies, or an earlier one.
pub open spec fn last_failure(replies: Seq<SlotReply>, before: String) -> String
    decreases replies.len(),
{
    if replies.len() == 0 {
        before
    } else {
        last_failure(
            replies.skip(1),
            match replies[0] {
                SlotReply::Failed(e) => e,
                _ => before,
            },
        )
    }
}

/// Every enrolled slot gets its turn: if none of the slots from `index` on opens the
/// keystore, unlocking fails after the last, with the last failure.
pub proof fn law_every_slot_is_tried(
    index: usize,
    slots: usize,
    last_err: String,
    replies: Seq<SlotReply>,
)
    requires
        index < slots,
        replies.len() <= slots - index,
        forall|k: int| 0 <= k < replies.len() ==> !(#[trigger] replies[k] is Went),
    ensures
        ({
            let end = passkey_run(
                PasskeyStep::TrySlot { index, last_err },
                slots as nat,
                replies,
            );
            if replies.len() == slots - index {
                end == PasskeyStep::Failed(last_failure(replies, last_err))
            } else {
                end == (PasskeyStep::TrySlot {
                    index: (index + replies.len()) as usize,
                    last_err: last_failure(replies, last_err),
                })
            }
        }),
    decreases replies.len(),
{
    if replies.len() > 0 {
        let rest = replies.skip(1);
        assert(!(replies[0] is Went));
        let e = match replies[0] {
            SlotReply::Failed(e) => e,
            _ => last_err,
        };
        assert forall|k: int| 0 <= k < rest.len() implies !(#[trigger] rest[k] is Went) by {
            assert(rest[k] == replies[k + 1]);
        }
        if index + 1 < slots {
            law_every_slot_is_tried((index + 1) as usize, slots, e, rest);
        } else {
            assert(rest.len() == 0);
            reveal_with_fuel(passkey_run, 2);
            reveal_with_fuel(last_failure, 2);
        }
    }
}

// ---------------------------------------------------------------------------
// From the OS keychain
// ---------------------------------------------------------------------------

/// The stages of unlocking from the OS keychain.
pub enum KeyringStep {
    LoadToken,
    LoadKeystore,
    OpenKeystore,
    /// Drop a token that no longer works.
    ClearToken,
    LoadContacts,
    LoadRegistry,
    Clean,
    Done,
    Failed(String),
}

/// How a stage went.
pub enum KeyringReply {
    Went,
    /// There was nothing to load.
    Missing,
    Failed(String),
}

/// Whether `r` is the stage after one that went as `reply` says.
pub open spec fn keyring_after(step: KeyringStep, reply: KeyringReply, r: KeyringStep) -> bool {
    match (step, reply) {
        (KeyringStep::LoadToken, KeyringReply::Missing) => r is Failed && r->Failed_0@
            == "This device has no saved unlock. Enter your passphrase."@,
        (KeyringStep::OpenKeystore, KeyringReply::Failed(_)) => r is ClearToken,
        (KeyringStep::ClearToken, _) => r is Failed && r->Failed_0@
            == "This device's saved unlock no longer works and was removed. Enter your passphrase."@,
        (KeyringStep::Clean, _) => r is Done,
        (KeyringStep::Done, _) => r is Done,
        (KeyringStep::Failed(e), _) => r == KeyringStep::Failed(e),
        (_, KeyringReply::Failed(e)) => r == KeyringStep::Failed(e),
        (KeyringStep::LoadToken, _) => r is LoadKeystore,
        (KeyringStep::LoadKeystore, _) => r is OpenKeystore,
        (KeyringStep::OpenKeystore, _) => r is LoadContacts,
        (KeyringStep::LoadContacts, _) => r is LoadRegistry,
        (KeyringStep::LoadRegistry, _) => r is Clean,
    }
}

/// The next stage of unlocking from the OS keychain.
pub fn keyring_next(step: KeyringStep, reply: KeyringReply) -> (r: KeyringStep)
    ensures
        keyring_after(step, reply, r),
{
    match step {
        KeyringStep::LoadToken => match reply {
            KeyringReply::Went => KeyringStep::LoadKeystore,
            KeyringReply::Missing => KeyringStep::Failed(
                owned("This device has no saved unlock. Enter your passphrase."),
            ),
            KeyringReply::Failed(e) => KeyringStep::Failed(e),
        },
        KeyringStep::LoadKeystore => match reply {
            KeyringReply::Failed(e) => KeyringStep::Failed(e),
            _ => KeyringStep::OpenKeystore,
        },
        KeyringStep::OpenKeystore => match reply {
            KeyringReply::Failed(_) => KeyringStep::ClearToken,
            _ => KeyringStep::LoadContacts,
        },
        KeyringStep::ClearToken => KeyringStep::Failed(
            owned(
                "This device's saved unlock no longer works and was removed. Enter your passphrase.",
            ),
        ),
        KeyringStep::LoadContacts => match reply {
            KeyringReply::Failed(e) => KeyringStep::Failed(e),
            _ => KeyringStep::LoadRegistry,
        },
        KeyringStep::LoadRegistry => match reply {
            KeyringReply::Failed(e) => KeyringStep::Failed(e),
            _ => KeyringStep::Clean,
        },
        KeyringStep::Clean => KeyringStep::Done,
        KeyringStep::Done => KeyringStep::Done,
        KeyringStep::Failed(e) => KeyringStep::Failed(e),
    }
}

// ---------------------------------------------------------------------------
// Setting automatic unlock up and off
// ---------------------------------------------------------------------------

/// The stages of setting automatic unlock up.
pub enum EnableStep {
    LoadKeystore,
    /// See that the passphrase opens the keystore.
    CheckPassphrase,
    MakeToken,
    /// Add the token's slot to the keystore, in memory.
    AddSlot,
    SaveKeystore,
    /// Hand the token to the OS keychain.
    SaveToken,
    /// Take the slot out again, in memory: the keychain refused the token.
    RemoveSlot(String),
    SaveUndone(String),
    Done,
    Failed(String),
}

/// Whether `r` is the stage after one that went as `failure` says.
pub open spec fn enable_after(step: EnableStep, failure: Option<String>, r: EnableStep) -> bool {
    match (step, failure) {
        (EnableStep::CheckPassphrase, Some(_)) => r is Failed && r->Failed_0@
            == "That passphrase is incorrect."@,
        (EnableStep::MakeToken, Some(_)) => r is Failed && r->Failed_0@
            == "Secure random generation failed."@,
        (EnableStep::SaveToken, Some(e)) => r == EnableStep::RemoveSlot(e),
        (EnableStep::RemoveSlot(e), None) => r == EnableStep::SaveUndone(e),
        (EnableStep::RemoveSlot(e), Some(_)) => r == EnableStep::Failed(e),
        (EnableStep::SaveUndone(e), _) => r == EnableStep::Failed(e),
        (EnableStep::Done, _) => r is Done,
        (EnableStep::Failed(e), _) => r == EnableStep::Failed(e),
        (_, Some(e)) => r == EnableStep::Failed(e),
        (EnableStep::LoadKeystore, None) => r is CheckPassphrase,
        (EnableStep::CheckPassphrase, None) => r is MakeToken,
        (EnableStep::MakeToken, None) => r is AddSlot,
        (EnableStep::AddSlot, None) => r is SaveKeystore,
        (EnableStep::SaveKeystore, None) => r is SaveToken,
        (EnableStep::SaveToken, None) => r is Done,
    }
}

/// The next stage of setting automatic unlock up.
pub fn enable_next(step: EnableStep, failure: Option<String>) -> (r: EnableStep)
    ensures
        enable_after(step, failure, r),
{
    match (step, failure) {
        (EnableStep::LoadKeystore, None) => EnableStep::CheckPassphrase,
        (EnableStep::LoadKeystore, Some(e)) => EnableStep::Failed(e),
        (EnableStep::CheckPassphrase, None) => EnableStep::MakeToken,
        (EnableStep::CheckPassphrase, Some(_)) => EnableStep::Failed(
            owned("That passphrase is incorrect."),
        ),
        (EnableStep::MakeToken, None) => EnableStep::AddSlot,
        (EnableStep::MakeToken, Some(_)) => EnableStep::Failed(
            owned("Secure random generation failed."),
        ),
        (EnableStep::AddSlot, None) => EnableStep::SaveKeystore,
        (EnableStep::AddSlot, Some(e)) => EnableStep::Failed(e),
        (EnableStep::SaveKeystore, None) => EnableStep::SaveToken,
        (EnableStep::SaveKeystore, Some(e)) => EnableStep::Failed(e),
        (EnableStep::SaveToken, None) => EnableStep::Done,
        (EnableStep::SaveToken, Some(e)) => EnableStep::RemoveSlot(e),
        (EnableStep::RemoveSlot(e), None) => EnableStep::SaveUndone(e),
        (EnableStep::RemoveSlot(e), Some(_)) => EnableStep::Failed(e),
        (EnableStep::SaveUndone(e), _) => EnableStep::Failed(e),
        (EnableStep::Done, _) => EnableStep::Done,
        (EnableStep::Failed(e), _) => EnableStep::Failed(e),
    }
}

/// What the keystore on disk and the keychain hold of automatic unlock.
pub struct DeviceState {
    /// The keystore in memory has the slot.
    pub slot_in_memory: bool,
    /// The keystore on disk has the slot.
    pub slot_on_disk: bool,
    /// The keychain has the token.
    pub token: bool,
}

/// The device after a stage was carried out and went as `ok` says.
pub open spec fn enabled_device(step: EnableStep, ok: bool, d: DeviceState) -> DeviceState {
    if !ok {
        d
    } else {
        match step {
            EnableStep::AddSlot => DeviceState { slot_in_memory: true, ..d },
            EnableStep::RemoveSlot(_) => DeviceState { slot_in_memory: false, ..d },
            EnableStep::SaveKeystore | EnableStep::SaveUndone(_) => DeviceState {
                slot_on_disk: d.slot_in_memory,
                ..d
            },
            EnableStep::SaveToken => DeviceState { token: true, ..d },
            _ => d,
        }
    }
}

/// What holds of the device when a stage is reached from a device without automatic
/// unlock.
pub open spec fn enable_ready(step: EnableStep, d: DeviceState) -> bool {
    match step {
        EnableStep::SaveKeystore => d.slot_in_memory && !d.slot_on_disk && !d.token,
        EnableStep::SaveToken | EnableStep::RemoveSlot(_) => d.slot_in_memory && d.slot_on_disk
            && !d.token,
        EnableStep::SaveUndone(_) => !d.slot_in_memory && d.slot_on_disk && !d.token,
        EnableStep::Done => d.slot_on_disk && d.token,
        EnableStep::Failed(_) => !d.token,
        _ => !d.slot_in_memory && !d.slot_on_disk && !d.token,
    }
}

/// Setting automatic unlock up leaves the keystore and the keychain in agreement: at
/// the end both hold their part, and when the keychain refuses the token, the slot is
/// taken off the disk again if that can be done at all.
pub proof fn law_enabling_leaves_nothing_dangling(
    step: EnableStep,
    failure: Option<String>,
    r: EnableStep,
    d: DeviceState,
)
    requires
        enable_after(step, failure, r),
        enable_ready(step, d),
    ensures
        enable_ready(r, enabled_device(step, failure is None, d)),
        step is SaveUndone && failure is None ==> !enabled_device(step, true, d).slot_on_disk,
{
}

/// The stages of turning automatic unlock off.
pub enum DisableStep {
    LoadKeystore,
    RemoveSlot,
    SaveKeystore,
    ClearToken,
    Done,
    Failed(String),
}

/// The stage after one that went as `failure` says; `has_slot` tells whether the
/// keystore has a slot to remove.
pub open spec fn disable_after(step: DisableStep, has_slot: bool, failure: Option<String>) -> DisableStep {
    match (step, failure) {
        (DisableStep::Done, _) => DisableStep::Done,
        (DisableStep::Failed(e), _) => DisableStep::Failed(e),
        (_, Some(e)) => DisableStep::Failed(e),
        (DisableStep::LoadKeystore, None) => if has_slot {
            DisableStep::RemoveSlot
        } else {
            DisableStep::ClearToken
        },
        (DisableStep::RemoveSlot, None) => DisableStep::SaveKeystore,
        (DisableStep::SaveKeystore, None) => DisableStep::ClearToken,
        (DisableStep::ClearToken, None) => DisableStep::Done,
    }
}

/// The next stage of turning automatic unlock off.
pub fn disable_next(step: DisableStep, has_slot: bool, failure: Option<String>) -> (r: DisableStep)
    ensures
        r == disable_after(step, has_slot, failure),
{
    match (step, failure) {
        (DisableStep::Done, _) => DisableStep::Done,
        (DisableStep::Failed(e), _) => DisableStep::Failed(e),
        (_, Some(e)) => DisableStep::Failed(e),
        (DisableStep::LoadKeystore, None) => if has_slot {
            DisableStep::RemoveSlot
        } else {
            DisableStep::ClearToken
        },
        (DisableStep::RemoveSlot, None) => DisableStep::SaveKeystore,
        (DisableStep::SaveKeystore, None) => DisableStep::ClearToken,
        (DisableStep::ClearToken, None) => DisableStep::Done,
    }
}

// ---------------------------------------------------------------------------
// Identities
// ---------------------------------------------------------------------------

/// A failure of creating an identity: it is shown on the first-run screen.
pub fn first_run_failed(e: String) -> (r: JobReport)
    ensures
        r.outcome == Outcome::FirstRunFailed(e),
        r.toast is None,
{
    JobReport { outcome: Outcome::FirstRunFailed(e), toast: None }
}

/// A failure of unlocking: it is shown on the unlock screen.
pub fn unlock_failed(e: String) -> (r: JobReport)
    ensures
        r.outcome == Outcome::UnlockFailed(e),
        r.toast is None,
{
    JobReport { outcome: Outcome::UnlockFailed(e), toast: None }
}

/// What went wrong in restoring an identity.
pub enum RestoreFailure {
    /// The backup could not be read.
    Unread(String),
    WrongPassphrase,
    /// The file is no backup.
    Invalid(String),
    /// The new keystore could not be made or saved.
    Unsaved(String),
}

/// What is shown when an identity could not be restored.
pub open spec fn restore_text(f: RestoreFailure) -> Seq<char> {
    match f {
        RestoreFailure::Unread(e) => "Could not read backup: "@ + e@,
        RestoreFailure::WrongPassphrase => "The backup passphrase is incorrect."@,
        RestoreFailure::Invalid(e) => "This file isn't a valid FileSec identity backup ("@ + e@
            + ")."@,
        RestoreFailure::Unsaved(e) => e@,
    }
}

/// A failure of restoring an identity.
pub fn restore_failed(f: RestoreFailure) -> (r: JobReport)
    ensures
        r.outcome is FirstRunFailed,
        r.outcome->FirstRunFailed_0@ == restore_text(f),
        r.toast is None,
{
    first_run_failed(
        match f {
            RestoreFailure::Unread(e) => concat2("Could not read backup: ", &e),
            RestoreFailure::WrongPassphrase => owned("The backup passphrase is incorrect."),
            RestoreFailure::Invalid(e) => concat3(
                "This file isn't a valid FileSec identity backup (",
                &e,
                ").",
            ),
            RestoreFailure::Unsaved(e) => e,
        },
    )
}

/// What went wrong in upgrading an identity.
pub enum UpgradeFailure {
    Upgrade(String),
    Contacts(String),
    Vaults(String),
}

/// A failure of upgrading an identity; past the upgrade itself a restart completes it.
pub fn upgrade_failed(f: UpgradeFailure) -> (r: JobReport)
    ensures
        r.outcome is Noop,
        r.toast is Some,
        (r.toast->0).1,
        (r.toast->0).0@ == (match f {
            UpgradeFailure::Upgrade(e) => e@,
            UpgradeFailure::Contacts(e) =>
                "Upgraded — please restart the app. (reloading contacts failed: "@ + e@ + ")"@,
            UpgradeFailure::Vaults(e) =>
                "Upgraded — please restart the app. (reloading vaults failed: "@ + e@ + ")"@,
        }),
{
    JobReport::err(
        match f {
            UpgradeFailure::Upgrade(e) => e,
            UpgradeFailure::Contacts(e) => concat3(
                "Upgraded — please restart the app. (reloading contacts failed: ",
                &e,
                ")",
            ),
            UpgradeFailure::Vaults(e) => concat3(
                "Upgraded — please restart the app. (reloading vaults failed: ",
                &e,
                ")",
            ),
        },
    )
}

/// A failure of enrolling a security key.
pub fn enroll_failed(e: &str) -> (r: JobReport)
    ensures
        r.outcome is Noop,
        r.toast is Some,
        (r.toast->0).0@ == "Could not enroll the security key: "@ + e@,
        (r.toast->0).1,
{
    JobReport::err(concat2("Could not enroll the security key: ", e))
}

// ---------------------------------------------------------------------------
// Laws
// ---------------------------------------------------------------------------

/// The right passphrase unlocks: the keystore is loaded and opened, then the contacts and
/// the registry are read, then leftovers are cleaned up, and the session is there.
pub proof fn law_a_right_passphrase_unlocks(vaults: &[String], start: UnlockStep, s: Seq<UnlockStep>)
    requires
        call_ensures(unlock_start, (false,), start),
        s.len() == 6,
        s[0] == start,
        call_ensures(unlock_next, (s[0], false, vaults, None::<String>), s[1]),
        call_ensures(unlock_next, (s[1], false, vaults, None::<String>), s[2]),
        call_ensures(unlock_next, (s[2], false, vaults, None::<String>), s[3]),
        call_ensures(unlock_next, (s[3], false, vaults, None::<String>), s[4]),
        call_ensures(unlock_next, (s[4], false, vaults, None::<String>), s[5]),
    ensures
        s[0] is LoadKeystore,
        s[1] is OpenKeystore,
        s[2] is LoadContacts,
        s[3] is LoadRegistry,
        s[4] is Clean,
        s[5] is Done,
{
}

/// A wrong passphrase, or anything else that fails while unlocking, is reported as it is and
/// unlocks nothing: without recovery no failure is passed over.
pub proof fn law_a_failure_to_unlock_is_reported(
    step: UnlockStep,
    vaults: &[String],
    e: String,
    r: UnlockStep,
)
    requires
        step is LoadKeystore || step is OpenKeystore || step is LoadContacts
            || step is LoadRegistry,
        call_ensures(unlock_next, (step, false, vaults, Some(e)), r),
    ensures
        r == UnlockStep::Failed(e),
{
}

/// A recovery first leaves its mark, then brings over what is legacy, part by part: the
/// keystore, the contacts, the registry; and it takes the mark away at the end.
pub proof fn law_a_recovery_brings_everything_over(
    vaults: &[String],
    start: UnlockStep,
    s: Seq<UnlockStep>,
    e: Seq<String>,
)
    requires
        call_ensures(unlock_start, (true,), start),
        s.len() == 11,
        e.len() == 3,
        contains_text(e[0]@, "legacy state requires explicit recovery"@),
        contains_text(e[1]@, "legacy"@),
        contains_text(e[2]@, "legacy"@),
        vaults@.len() > 0,
        s[0] == start,
        call_ensures(unlock_next, (s[0], true, vaults, None::<String>), s[1]),
        call_ensures(unlock_next, (s[1], true, vaults, Some(e[0])), s[2]),
        call_ensures(unlock_next, (s[2], true, vaults, None::<String>), s[3]),
        call_ensures(unlock_next, (s[3], true, vaults, None::<String>), s[4]),
        call_ensures(unlock_next, (s[4], true, vaults, Some(e[1])), s[5]),
        call_ensures(unlock_next, (s[5], true, vaults, None::<String>), s[6]),
        call_ensures(unlock_next, (s[6], true, vaults, Some(e[2])), s[7]),
        call_ensures(unlock_next, (s[7], true, vaults, None::<String>), s[8]),
        call_ensures(unlock_next, (UnlockStep::Clean, true, vaults, None::<String>), s[9]),
        call_ensures(unlock_next, (s[9], true, vaults, None::<String>), s[10]),
    ensures
        s[0] is WriteMarker,
        s[1] is LoadKeystore,
        s[2] is RecoverKeystore,
        s[3] is OpenKeystore,
        s[4] is LoadContacts,
        s[5] is RecoverContacts,
        s[6] is LoadRegistry,
        s[7] is RecoverRegistry,
        s[8] == UnlockStep::CheckVault(0),
        s[9] is RemoveMarker,
        s[10] is Done,
{
}

/// A recovery checks every vault of the registry in turn, and recovers each that is legacy
/// before it goes on to the next; a vault that is neither sound nor legacy ends it.
pub proof fn law_a_recovery_leaves_no_vault_out(
    vaults: &[String],
    i: usize,
    e: String,
    sound: UnlockStep,
    broken: UnlockStep,
    recovered: UnlockStep,
)
    requires
        i < vaults@.len(),
        call_ensures(
            unlock_next,
            (UnlockStep::CheckVault(i), true, vaults, None::<String>),
            sound,
        ),
        call_ensures(unlock_next, (UnlockStep::CheckVault(i), true, vaults, Some(e)), broken),
        call_ensures(
            unlock_next,
            (UnlockStep::RecoverVault(i), true, vaults, None::<String>),
            recovered,
        ),
    ensures
        i + 1 < vaults@.len() ==> sound == UnlockStep::CheckVault((i + 1) as usize) && recovered
            == UnlockStep::CheckVault((i + 1) as usize),
        i + 1 == vaults@.len() ==> sound is Clean && recovered is Clean,
        contains_text(e@, "legacy"@) ==> broken == UnlockStep::RecoverVault(i),
        !contains_text(e@, "legacy"@) ==> broken is Failed,
{
}

/// A security key that fits one of the slots unlocks; one that does not is tried on the next
/// slot, and only when none is left is it refused, with the last reason.
pub proof fn law_a_fitting_key_unlocks(
    slots: usize,
    index: usize,
    last_err: String,
    e: String,
    s: Seq<PasskeyStep>,
    next: PasskeyStep,
)
    requires
        index < slots,
        s.len() == 5,
        s[0] == (PasskeyStep::TrySlot { index, last_err }),
        call_ensures(passkey_next, (s[0], slots, SlotReply::Went), s[1]),
        call_ensures(passkey_next, (s[1], slots, SlotReply::Went), s[2]),
        call_ensures(passkey_next, (s[2], slots, SlotReply::Went), s[3]),
        call_ensures(passkey_next, (s[3], slots, SlotReply::Went), s[4]),
        call_ensures(passkey_next, (s[0], slots, SlotReply::Failed(e)), next),
    ensures
        s[1] is LoadContacts,
        s[2] is LoadRegistry,
        s[3] is Clean,
        s[4] is Done,
        index + 1 < slots ==> next == (PasskeyStep::TrySlot {
            index: (index + 1) as usize,
            last_err: e,
        }),
        index + 1 == slots ==> next == PasskeyStep::Failed(e),
{
}

/// The first slot is tried first, if there is one.
pub proof fn law_keys_are_tried_from_the_first_slot(slots: usize, r: PasskeyStep)
    requires
        call_ensures(passkey_start, (slots,), r),
    ensures
        slots == 0 <==> r is Failed,
        slots > 0 ==> r is TrySlot && r->index == 0,
{
}

/// The token of this device unlocks, if it is there and opens the keystore; one that opens
/// nothing any more is dropped, and the user is told. A failure before that drops nothing.
pub proof fn law_a_saved_token_unlocks_or_is_dropped(
    e: String,
    s: Seq<KeyringStep>,
    missing: KeyringStep,
    stale: KeyringStep,
    dropped: KeyringStep,
    unread: KeyringStep,
)
    requires
        s.len() == 7,
        s[0] is LoadToken,
        call_ensures(keyring_next, (s[0], KeyringReply::Went), s[1]),
        call_ensures(keyring_next, (s[1], KeyringReply::Went), s[2]),
        call_ensures(keyring_next, (s[2], KeyringReply::Went), s[3]),
        call_ensures(keyring_next, (s[3], KeyringReply::Went), s[4]),
        call_ensures(keyring_next, (s[4], KeyringReply::Went), s[5]),
        call_ensures(keyring_next, (s[5], KeyringReply::Went), s[6]),
        call_ensures(keyring_next, (s[0], KeyringReply::Missing), missing),
        call_ensures(keyring_next, (s[2], KeyringReply::Failed(e)), stale),
        call_ensures(keyring_next, (stale, KeyringReply::Went), dropped),
        call_ensures(keyring_next, (s[1], KeyringReply::Failed(e)), unread),
    ensures
        s[1] is LoadKeystore,
        s[2] is OpenKeystore,
        s[3] is LoadContacts,
        s[4] is LoadRegistry,
        s[5] is Clean,
        s[6] is Done,
        missing is Failed,
        stale is ClearToken,
        dropped is Failed,
        unread == KeyringStep::Failed(e),
{
}

/// Remembering the unlock on this device checks the passphrase before anything changes, and
/// is done only when both the slot and the token are saved; where the token cannot be, the
/// slot is taken back and that is saved, and the failure is reported.
pub proof fn law_a_device_is_remembered_in_order(
    e: String,
    s: Seq<EnableStep>,
    wrong: EnableStep,
    undo: Seq<EnableStep>,
)
    requires
        s.len() == 7,
        s[0] is LoadKeystore,
        call_ensures(enable_next, (s[0], None::<String>), s[1]),
        call_ensures(enable_next, (s[1], None::<String>), s[2]),
        call_ensures(enable_next, (s[2], None::<String>), s[3]),
        call_ensures(enable_next, (s[3], None::<String>), s[4]),
        call_ensures(enable_next, (s[4], None::<String>), s[5]),
        call_ensures(enable_next, (s[5], None::<String>), s[6]),
        call_ensures(enable_next, (s[1], Some(e)), wrong),
        undo.len() == 3,
        call_ensures(enable_next, (s[5], Some(e)), undo[0]),
        call_ensures(enable_next, (undo[0], None::<String>), undo[1]),
        call_ensures(enable_next, (undo[1], None::<String>), undo[2]),
    ensures
        s[1] is CheckPassphrase,
        s[2] is MakeToken,
        s[3] is AddSlot,
        s[4] is SaveKeystore,
        s[5] is SaveToken,
        s[6] is Done,
        wrong is Failed,
        undo[0] is RemoveSlot,
        undo[1] is SaveUndone,
        undo[2] == EnableStep::Failed(e),
{
}

/// Forgetting this device takes the slot out of the keystore and saves that before the token
/// goes; without a slot only the token goes. What fails is reported.
pub proof fn law_a_device_is_forgotten_in_order(
    has_slot: bool,
    e: String,
    s: Seq<DisableStep>,
    step: DisableStep,
    failed: DisableStep,
)
    requires
        s.len() == 5,
        s[0] is LoadKeystore,
        call_ensures(disable_next, (s[0], has_slot, None::<String>), s[1]),
        call_ensures(disable_next, (DisableStep::RemoveSlot, has_slot, None::<String>), s[2]),
        call_ensures(disable_next, (DisableStep::SaveKeystore, has_slot, None::<String>), s[3]),
        call_ensures(disable_next, (DisableStep::ClearToken, has_slot, None::<String>), s[4]),
        !(step is Done || step is Failed),
        call_ensures(disable_next, (step, has_slot, Some(e)), failed),
    ensures
        has_slot ==> s[1] is RemoveSlot,
        !has_slot ==> s[1] is ClearToken,
        s[2] is SaveKeystore,
        s[3] is ClearToken,
        s[4] is Done,
        failed == DisableStep::Failed(e),
{
}

/// A failure is shown where the user tried, with what went wrong, and changes nothing else.
pub proof fn law_failures_are_shown_where_they_happened(
    first: String,
    a: JobReport,
    unlock: String,
    b: JobReport,
    f: RestoreFailure,
    said: Seq<char>,
    c: JobReport,
    key: &str,
    d: JobReport,
)
    requires
        call_ensures(first_run_failed, (first,), a),
        call_ensures(unlock_failed, (unlock,), b),
        call_ensures(restore_failed, (f,), c),
        call_ensures(enroll_failed, (key,), d),
        f is WrongPassphrase || f is Unread && f->Unread_0@ == said || f is Invalid && f->Invalid_0@
            == said || f is Unsaved && f->Unsaved_0@ == said,
    ensures
        a.outcome == Outcome::FirstRunFailed(first) && b.outcome == Outcome::UnlockFailed(unlock),
        c.outcome is FirstRunFailed,
        !(f is WrongPassphrase) ==> crate::text::contains_text(c.outcome->FirstRunFailed_0@, said),
        d.outcome is Noop && d.toast is Some && crate::text::contains_text((d.toast->0).0@, key@),
{
    crate::report::lemma_holds("Could not enroll the security key: "@, key@, Seq::empty());
    match f {
        RestoreFailure::Unread(e) => {
            crate::report::lemma_holds("Could not read backup: "@, e@, Seq::empty());
        },
        RestoreFailure::Invalid(e) => {
            crate::report::lemma_holds(
                "This file isn't a valid FileSec identity backup ("@,
                e@,
                ")."@,
            );
        },
        RestoreFailure::Unsaved(e) => {
            crate::report::lemma_holds(Seq::empty(), e@, Seq::empty());
            assert(Seq::<char>::empty() + e@ =~= e@);
        },
        RestoreFailure::WrongPassphrase => {},
    }
}

} // verus!
