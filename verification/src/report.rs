//! What background work reports back to the screens.

use vstd::prelude::*;
use crate::browse::Entry;
use crate::contacts::ContactBook;
use crate::session::{ActiveView, Checkout, ImportData, PasskeyInfo, SessionInit, TextEditor};
use crate::store::Registry;
use crate::text::{concat2, concat3, owned};

verus! {

/// What a finished job changes.
pub enum Outcome {
    Noop,
    Unlocked(SessionInit),
    FirstRunFailed(String),
    UnlockFailed(String),
    Created { registry: Registry, id: String, entries: Vec<Entry> },
    SetOpen { id: String, entries: Vec<Entry> },
    ReplaceOpen { id: String, entries: Vec<Entry>, registry: Registry },
    CreatedTextFile {
        id: String,
        entries: Vec<Entry>,
        registry: Registry,
        path: String,
        leaf: String,
    },
    OpenTextEditor(TextEditor),
    SavedTextFile { id: String, entries: Vec<Entry>, registry: Registry },
    Deleted { registry: Registry, closed_id: String },
    StartCheckout(Checkout),
    EndCheckout { replace: Option<(String, Vec<Entry>, Registry)> },
    StartView(ActiveView),
    Imported(ImportData),
    Contacts(ContactBook),
    PasskeysUpdated(Vec<PasskeyInfo>),
    AutoUnlockChanged(bool),
    ExportIdentityDone,
}

/// What a finished job changes, and the toast it raises.
pub struct JobReport {
    pub outcome: Outcome,
    pub toast: Option<(String, bool)>,
}

impl JobReport {
    /// Success; an empty message raises no toast.
    pub fn ok(outcome: Outcome, msg: String) -> (r: Self)
        ensures
            r.outcome == outcome,
            r.toast == (if msg@.len() == 0 {
                None
            } else {
                Some((msg, false))
            }),
    {
        let toast = if msg.as_str().is_empty() {
            None
        } else {
            Some((msg, false))
        };
        JobReport { outcome, toast }
    }

    /// A failure that changes nothing.
    pub fn err(msg: String) -> (r: Self)
        ensures
            r.outcome is Noop,
            r.toast == Some((msg, true)),
    {
        JobReport { outcome: Outcome::Noop, toast: Some((msg, true)) }
    }
}

// ---------------------------------------------------------------------------
// What is said of finished work
// ---------------------------------------------------------------------------

/// Work that has been done.
pub enum Finished {
    IdentityCreated,
    IdentityRestored,
    Unlocked,
    Recovered,
    UnlockedWithKey,
    UnlockedFromDevice,
    KeyEnrolled,
    KeyRemoved,
    AutoUnlockOn,
    AutoUnlockOff,
    Upgraded,
    VaultCreated(String),
    VaultOpened(String),
    VaultDeleted,
    FolderCreated(String),
    TextSaved(String),
    Trashed(String),
    Restored(String),
    Purged,
    TrashEmptied,
    Renamed(String),
    SavedAs(String),
    CheckedIn,
    EditDiscarded,
    ContactRemoved,
    KeyCopied,
    KeySaved(String),
    BackupSaved(String),
}

/// What is said of finished work.
pub open spec fn finished_text(f: Finished) -> Seq<char> {
    match f {
        Finished::IdentityCreated => "Identity created. Your keys are protected by your passphrase."@,
        Finished::IdentityRestored => "Identity restored. It's now protected by your new passphrase on this device."@,
        Finished::Unlocked => "Unlocked."@,
        Finished::Recovered => "Legacy local state recovered and upgraded with rollback protection."@,
        Finished::UnlockedWithKey => "Unlocked with your security key."@,
        Finished::UnlockedFromDevice => "Unlocked from this device."@,
        Finished::KeyEnrolled => "Security key enrolled. You can now unlock with it."@,
        Finished::KeyRemoved => "Security key removed."@,
        Finished::AutoUnlockOn => "This device will now unlock automatically. Your passphrase still works."@,
        Finished::AutoUnlockOff => "This device will no longer unlock automatically."@,
        Finished::Upgraded => "Upgraded to post-quantum. Your safety number changed — re-share your public key so contacts can re-verify it. Re-enroll any security keys."@,
        Finished::VaultCreated(n) => "Created vault \""@ + n@ + "\"."@,
        Finished::VaultOpened(n) => "Opened \""@ + n@ + "\"."@,
        Finished::VaultDeleted => "Vault deleted."@,
        Finished::FolderCreated(n) => "Created folder \""@ + n@ + "\"."@,
        Finished::TextSaved(n) => "Saved “"@ + n@ + "”."@,
        Finished::Trashed(n) => "Moved “"@ + n@ + "” to Trash."@,
        Finished::Restored(n) => "Restored “"@ + n@ + "”."@,
        Finished::Purged => "Deleted permanently."@,
        Finished::TrashEmptied => "Trash emptied."@,
        Finished::Renamed(n) => "Renamed to “"@ + n@ + "”."@,
        Finished::SavedAs(n) => "Saved to "@ + n@,
        Finished::CheckedIn => "Checked in."@,
        Finished::EditDiscarded => "Edit discarded."@,
        Finished::ContactRemoved => "Contact removed."@,
        Finished::KeyCopied => "Public key copied to clipboard."@,
        Finished::KeySaved(n) => "Public key saved to "@ + n@,
        Finished::BackupSaved(n) => "Identity backup saved to "@ + n@,
    }
}

/// What is said of finished work.
pub fn finished_message(f: &Finished) -> (r: String)
    ensures
        r@ == finished_text(*f),
{
    match f {
        Finished::IdentityCreated => owned("Identity created. Your keys are protected by your passphrase."),
        Finished::IdentityRestored => owned("Identity restored. It's now protected by your new passphrase on this device."),
        Finished::Unlocked => owned("Unlocked."),
        Finished::Recovered => owned("Legacy local state recovered and upgraded with rollback protection."),
        Finished::UnlockedWithKey => owned("Unlocked with your security key."),
        Finished::UnlockedFromDevice => owned("Unlocked from this device."),
        Finished::KeyEnrolled => owned("Security key enrolled. You can now unlock with it."),
        Finished::KeyRemoved => owned("Security key removed."),
        Finished::AutoUnlockOn => owned("This device will now unlock automatically. Your passphrase still works."),
        Finished::AutoUnlockOff => owned("This device will no longer unlock automatically."),
        Finished::Upgraded => owned("Upgraded to post-quantum. Your safety number changed — re-share your public key so contacts can re-verify it. Re-enroll any security keys."),
        Finished::VaultCreated(n) => concat3("Created vault \"", n, "\"."),
        Finished::VaultOpened(n) => concat3("Opened \"", n, "\"."),
        Finished::VaultDeleted => owned("Vault deleted."),
        Finished::FolderCreated(n) => concat3("Created folder \"", n, "\"."),
        Finished::TextSaved(n) => concat3("Saved “", n, "”."),
        Finished::Trashed(n) => concat3("Moved “", n, "” to Trash."),
        Finished::Restored(n) => concat3("Restored “", n, "”."),
        Finished::Purged => owned("Deleted permanently."),
        Finished::TrashEmptied => owned("Trash emptied."),
        Finished::Renamed(n) => concat3("Renamed to “", n, "”."),
        Finished::SavedAs(n) => concat2("Saved to ", n),
        Finished::CheckedIn => owned("Checked in."),
        Finished::EditDiscarded => owned("Edit discarded."),
        Finished::ContactRemoved => owned("Contact removed."),
        Finished::KeyCopied => owned("Public key copied to clipboard."),
        Finished::KeySaved(n) => concat2("Public key saved to ", n),
        Finished::BackupSaved(n) => concat2("Identity backup saved to ", n),
    }
}

/// The report of a change to the open vault, once it has been saved and opened again.
pub fn finalize_after_save(
    saved: Result<(String, Vec<Entry>, Registry), String>,
    msg: String,
) -> (r: JobReport)
    ensures
        match saved {
            Ok((id, entries, registry)) => {
                &&& r.outcome == (Outcome::ReplaceOpen { id, entries, registry })
                &&& r.toast == (if msg@.len() == 0 {
                    None
                } else {
                    Some((msg, false))
                })
            },
            Err(e) => r.outcome is Noop && r.toast == Some((e, true)),
        },
{
    match saved {
        Ok((id, entries, registry)) => JobReport::ok(
            Outcome::ReplaceOpen { id, entries, registry },
            msg,
        ),
        Err(e) => JobReport::err(e),
    }
}

// ---------------------------------------------------------------------------
// Laws
// ---------------------------------------------------------------------------

/// A failed save changes nothing on the screens and is told as a failure; a good one shows
/// the vault as it was read back.
pub proof fn law_a_failed_save_changes_nothing(
    saved: Result<(String, Vec<Entry>, Registry), String>,
    msg: String,
    r: JobReport,
)
    requires
        call_ensures(finalize_after_save, (saved, msg), r),
    ensures
        saved is Err ==> r.outcome is Noop && r.toast == Some((saved->Err_0, true)),
        saved is Ok ==> r.outcome is ReplaceOpen && r.outcome->ReplaceOpen_id == saved->Ok_0.0
            && r.outcome->ReplaceOpen_entries == saved->Ok_0.1 && r.outcome->ReplaceOpen_registry
            == saved->Ok_0.2,
        saved is Ok && msg@.len() > 0 ==> r.toast == Some((msg, false)),
        saved is Ok && msg@.len() == 0 ==> r.toast is None,
{
}

/// A failure is reported as one and changes nothing; a success is never shown as a failure.
pub proof fn law_reports_tell_success_from_failure(
    outcome: Outcome,
    msg: String,
    good: JobReport,
    bad: JobReport,
)
    requires
        call_ensures(JobReport::ok, (outcome, msg), good),
        call_ensures(JobReport::err, (msg,), bad),
    ensures
        good.outcome == outcome,
        good.toast is Some <==> msg@.len() > 0,
        good.toast is Some ==> good.toast == Some((msg, false)),
        bad.outcome is Noop,
        bad.toast == Some((msg, true)),
{
}

/// What is said of finished work with a name holds that name.
pub proof fn law_finished_work_is_named(f: Finished, name: Seq<char>, r: String)
    requires
        call_ensures(finished_message, (&f,), r),
        f is VaultCreated && f->VaultCreated_0@ == name || f is VaultOpened && f->VaultOpened_0@
            == name || f is FolderCreated && f->FolderCreated_0@ == name || f is TextSaved
            && f->TextSaved_0@ == name || f is Trashed && f->Trashed_0@ == name || f is Restored
            && f->Restored_0@ == name || f is Renamed && f->Renamed_0@ == name || f is SavedAs
            && f->SavedAs_0@ == name || f is KeySaved && f->KeySaved_0@ == name || f is BackupSaved
            && f->BackupSaved_0@ == name,
    ensures
        crate::text::contains_text(r@, name),
{
    match f {
        Finished::VaultCreated(n) => lemma_holds("Created vault \""@, n@, "\"."@),
        Finished::VaultOpened(n) => lemma_holds("Opened \""@, n@, "\"."@),
        Finished::FolderCreated(n) => lemma_holds("Created folder \""@, n@, "\"."@),
        Finished::TextSaved(n) => lemma_holds("Saved “"@, n@, "”."@),
        Finished::Trashed(n) => lemma_holds("Moved “"@, n@, "” to Trash."@),
        Finished::Restored(n) => lemma_holds("Restored “"@, n@, "”."@),
        Finished::Renamed(n) => lemma_holds("Renamed to “"@, n@, "”."@),
        Finished::SavedAs(n) => lemma_holds("Saved to "@, n@, Seq::empty()),
        Finished::KeySaved(n) => lemma_holds("Public key saved to "@, n@, Seq::empty()),
        Finished::BackupSaved(n) => lemma_holds("Identity backup saved to "@, n@, Seq::empty()),
        _ => {},
    }
}

/// A text holds what stands between two others.
pub proof fn lemma_holds(front: Seq<char>, name: Seq<char>, back: Seq<char>)
    ensures
        crate::text::contains_text(front + name + back, name),
        back.len() == 0 ==> front + name + back == front + name,
{
    let all = front + name + back;
    assert(all.subrange(front.len() as int, (front.len() + name.len()) as int) =~= name);
    assert(crate::text::occurs_at(all, name, front.len() as int));
    if back.len() == 0 {
        assert(front + name + back =~= front + name);
    }
}

} // verus!
