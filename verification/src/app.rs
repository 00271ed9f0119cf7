//! The application as a state machine: which screen is shown, what each of the
//! user's steps changes, what outside work it asks for, and what the reports of that
//! work change.

use vstd::prelude::*;

use crate::browse::{row_views, Entry, EntryKind, Row, RowView, SortMode};
use crate::contacts::{PublicKey, Trust};
use crate::fingerprint::fingerprint_of;

use crate::forms::{
    backup_asked, confirm_asked, create_asked, enroll_asked, restore_asked, typed_pin,
    unlock_offers, EnrollRequest, FirstRun, RestoreForm, RestoreRequest, StoreProbe, Unlock,
};
use crate::net::{ListenConfig, NetCommand, NetEvent, SendConfig};
use crate::report::{JobReport, Outcome};
use crate::requests::{
    create_vault_asked, edit_fault, extract_asked, move_asked, new_file_asked, new_folder_asked,
    rename_asked, request_quick_edit, request_restore, restore_trashed_asked, save_text_asked,
    trash_selected_asked, MoveRequest, NewEntry, RenameRequest, SaveRequest,
};
use crate::secret::{opt_secret, Secret};
use crate::select::{anchor_after, resolve_single_click, selection_after, RowClick};
use crate::session::{
    add_passkey_begun, all_selected, auto_unlock_begun, browse_reset, entered_dir, export_begun,
    export_identity_begun, fresh, imported, include_self_toggled, migrate_begun, move_begun,
    move_dest_set, navigated, new_file_toggled, new_folder_toggled, new_vault_toggled,
    recipient_toggled, rename_begun, rename_ended, selection_cleared, sender_staged, staged,
    suite_set, trash_shown, vault_closed, verify_begun, ActiveView, Nav, OpenVault, Session,
    SuiteId, TextEditor,
};
use crate::sharing::{
    add_contact_asked, export_asked, migrate_asked, paste_asked, request_fingerprint,
    save_as_asked, temp_copy, ExportRequest, TempRequest,
};
use crate::store::with_vault;
use crate::text::{opt_text, owned, same_text};
use crate::text_set::TextSet;

use crate::transfer::{
    build_listen_config, build_send_config, commanded, event_toast, listen_asked, send_asked,
    transfer_after, ActiveKind, ActiveTransfer, TransferState,
};

verus! {

// ---------------------------------------------------------------------------
// The state
// ---------------------------------------------------------------------------

/// A short message.
pub struct Toast {
    pub msg: String,
    pub error: bool,
}

/// Which screen is shown.
pub enum State {
    /// The store could not be found: nothing can be done.
    Fatal(String),
    FirstRun(FirstRun),
    Unlock(Unlock),
    Unlocked(Session),
}

/// The application.
pub struct App {
    pub state: State,
    pub toast: Option<Toast>,
    /// Whether to try the OS keychain once, unasked.
    pub auto_unlock_pending: bool,
}

/// The user's steps.
pub enum Action {
    CreateIdentity,
    Unlock,
    Lock,
    Nav(Nav),
    ToggleNewVault(bool),
    CreateVault,
    OpenVault(String),
    CloseVault,
    DeleteVault(String),
    ImportContainer,
    AddFiles,
    AddFolder,
    DropPaths(Vec<String>),
    NewFolder,
    ToggleNewFolder(bool),
    ToggleNewFile(bool),
    NewFile,
    QuickEdit(String),
    SaveTextFile,
    CloseTextEditor,
    EnterDir(String),
    Trash(String),
    SaveEntryAs(String),
    ViewFile(String),
    CheckOut(String),
    CheckIn,
    Discard,
    ExtractAll,
    SelectAllVisible,
    ClearSelection,
    TrashSelected,
    ExtractSelected,
    SetSort(SortMode),
    BeginRename(String),
    ConfirmRename,
    CancelRename,
    BeginMove(Vec<String>),
    SetMoveDest(String),
    ConfirmMove,
    CancelMove,
    ShowTrash(bool),
    RestoreTrashed(String),
    PurgeTrashed(String),
    PromptEmptyTrash(bool),
    EmptyTrash,
    BeginExport(String),
    CancelExport,
    DoExport,
    ToggleRecipient(String),
    ToggleIncludeSelf,
    SetExportSuite(SuiteId),
    BeginMigrate,
    CancelMigrate,
    DoMigrate,
    PreviewContactPaste,
    PreviewContactFile,
    ConfirmAddContact,
    CancelPreview,
    BeginVerify(String),
    CopyVerifySafetyNumber,
    ConfirmVerify(String),
    CancelVerify,
    SetTrust(String, Trust),
    RemoveContact(String),
    AddSenderToContacts,
    CopyPubKey,
    SavePubKey,
    BeginExportIdentity,
    CancelExportIdentity,
    DoExportIdentity,
    BeginRestore,
    CancelRestore,
    DoRestore,
    DismissImportInfo,
    DismissToast,
    UnlockWithPasskey,
    BeginAddPasskey,
    CancelAddPasskey,
    AddPasskey,
    RemovePasskey(usize),
    UnlockWithKeyring,
    BeginEnableAutoUnlock,
    CancelEnableAutoUnlock,
    ConfirmEnableAutoUnlock,
    DisableAutoUnlock,
    StartListen,
    StopTransfer,
    StartSend,
    AcceptIncoming,
    RejectIncoming,
    CancelTransfer,
}

/// The outside work that a step asks for.
pub enum Effect {
    Nothing,
    /// Look at the store, then go to the unlock screen with [`App::lock`].
    Lock,
    /// Wipe these copies.
    WipeViews(Vec<ActiveView>),
    /// Put a text on the clipboard.
    CopyText(String),
    /// Put the user's public key on the clipboard.
    CopyPublicKey,
    /// Let the user pick an identity backup, then [`App::backup_picked`].
    PickBackup,
    CreateIdentity { name: String, pass: Secret },
    RestoreIdentity(RestoreRequest),
    Unlock { pass: Secret, legacy: bool },
    UnlockWithPasskey { pin: Option<Secret> },
    UnlockWithKeyring,
    AddPasskey(EnrollRequest),
    RemovePasskey(usize),
    EnableAutoUnlock { pass: Secret },
    DisableAutoUnlock,
    CreateVault { name: String },
    OpenVault(String),
    DeleteVault(String),
    /// Let the user pick files to add to a folder of the open vault.
    PickFiles,
    /// Let the user pick a folder to add.
    PickFolder,
    AddPaths(Vec<String>),
    NewFolder(NewEntry),
    NewFile(NewEntry),
    /// Read an entry for the editor.
    ReadText { path: String },
    SaveText(SaveRequest),
    /// Move these paths to the trash.
    TrashPaths(Vec<String>),
    /// Move this entry to the trash.
    TrashEntry(String),
    Restore { from: String, to: String },
    Purge(String),
    EmptyTrash,
    Rename(RenameRequest),
    Move(MoveRequest),
    Extract(Vec<String>),
    ExtractAll,
    SaveAs { path: String, suggested: String },
    View { path: String, request: TempRequest },
    CheckOut { path: String, request: TempRequest },
    CheckIn,
    Discard,
    /// Let the user pick a container to import.
    PickContainer,
    /// Let the user pick where to export to; then [`App::export_started`].
    Export(ExportRequest),
    Migrate { pass: Secret },
    /// Parse a pasted key, then [`App::key_parsed`].
    ParseKey(String),
    /// Let the user pick a key file, then [`App::key_parsed`].
    PickKey,
    AddContact(PublicKey),
    SetTrust { fpr: [u8; 32], trust: Trust },
    RemoveContact { fpr: [u8; 32] },
    SavePublicKey,
    /// Let the user pick where to save the identity backup.
    ExportIdentity { pass: Secret },
    StartListener(ListenConfig),
    StartSender(SendConfig),
    StopTransfer,
    Command(NetCommand),
}

// ---------------------------------------------------------------------------
// What a step changes and asks for
// ---------------------------------------------------------------------------

/// Whether the session changed as `rel` says and nothing else did; without a session
/// nothing changed.
pub open spec fn on_session(a: App, b: App, rel: spec_fn(Session, Session) -> bool) -> bool {
    match (a.state, b.state) {
        (State::Unlocked(s), State::Unlocked(t)) => rel(s, t) && b == (App { state: b.state, ..a }),
        (State::Unlocked(_), _) => false,
        _ => b == a,
    }
}

/// Whether a toast says a text.
pub open spec fn says(toast: Option<Toast>, msg: Seq<char>, error: bool) -> bool {
    toast is Some && toast->0.msg@ == msg && toast->0.error == error
}

/// Whether only the toast changed, to an error.
pub open spec fn only_refused(a: App, b: App, msg: Seq<char>) -> bool {
    says(b.toast, msg, true) && b == (App { toast: b.toast, ..a })
}

/// Whether a refusal was turned into a toast, and a request into the work it asks
/// for.
pub open spec fn settled<T>(
    before: Option<Toast>,
    after: Option<Toast>,
    e: Effect,
    r: Result<Option<T>, String>,
    work: spec_fn(T) -> Effect,
) -> bool {
    match r {
        Err(m) => after == Some(Toast { msg: m, error: true }) && e is Nothing,
        Ok(None) => after == before && e is Nothing,
        Ok(Some(t)) => after == before && e == work(t),
    }
}

/// Whether a file is checked out. Leaving the vault would orphan its temp file, so
/// that is blocked meanwhile.
pub open spec fn has_checkout(a: App) -> bool {
    a.state is Unlocked && a.state->Unlocked_0.checkout is Some
}

/// What is said when leaving the vault is blocked.
pub open spec fn finish_edit() -> Seq<char> {
    "Check in or discard your edit first."@
}

/// Whether something that needs an open vault asked for `work`; it changes nothing.
pub open spec fn with_open(a: App, b: App, e: Effect, work: Effect) -> bool {
    b == a && e == (if a.state is Unlocked && a.state->Unlocked_0.open is Some {
        work
    } else {
        Effect::Nothing
    })
}

/// Whether something that needs a session asked for `work`; it changes nothing.
pub open spec fn with_session(a: App, b: App, e: Effect, work: Effect) -> bool {
    b == a && e == (if a.state is Unlocked {
        work
    } else {
        Effect::Nothing
    })
}

/// Steps that leave a screen: they are blocked while a file is checked out, and the
/// copies in view are wiped.
pub open spec fn left_screen(
    a: App,
    b: App,
    e: Effect,
    rel: spec_fn(Session, Session) -> bool,
) -> bool {
    if has_checkout(a) {
        only_refused(a, b, finish_edit()) && e is Nothing
    } else {
        &&& on_session(a, b, rel)
        &&& e == (if a.state is Unlocked {
            Effect::WipeViews(a.state->Unlocked_0.views)
        } else {
            Effect::Nothing
        })
    }
}

/// A step that names a contact by fingerprint.
pub open spec fn with_fingerprint(
    a: App,
    b: App,
    e: Effect,
    fpr_hex: Seq<char>,
    asks: spec_fn(Effect, Seq<u8>) -> bool,
) -> bool {
    if fingerprint_of(fpr_hex) is None {
        only_refused(a, b, "Bad fingerprint."@) && e is Nothing
    } else if a.state is Unlocked {
        b == a && asks(e, fingerprint_of(fpr_hex)->0)
    } else {
        b == a && e is Nothing
    }
}

/// What a step that only concerns the session's dialogs changes.
pub open spec fn dialog_step(action: Action, s: Session, t: Session) -> bool {
    match action {
        Action::DismissImportInfo => t == (Session { last_import: None, ..s }),
        Action::ToggleNewVault(on) => new_vault_toggled(s, t, on),
        Action::ToggleNewFolder(on) => new_folder_toggled(s, t, on),
        Action::ToggleNewFile(on) => new_file_toggled(s, t, on),
        Action::EnterDir(dir) => entered_dir(s, t, dir),
        Action::CloseTextEditor => t == (Session { text_editor: None, ..s }),
        Action::SelectAllVisible => all_selected(s, t),
        Action::ClearSelection => selection_cleared(s, t),
        Action::SetSort(mode) => t == (Session { sort: mode, ..s }),
        Action::ShowTrash(on) => trash_shown(s, t, on),
        Action::PromptEmptyTrash(on) => t == (Session { confirm_empty_trash: on, ..s }),
        Action::BeginRename(path) => rename_begun(s, t, path),
        Action::CancelRename => rename_ended(s, t),
        Action::BeginMove(paths) => move_begun(s, t, paths),
        Action::SetMoveDest(dest) => move_dest_set(s, t, dest),
        Action::CancelMove => t == (Session { move_form: None, ..s }),
        Action::CancelExport => t == (Session { export: None, ..s }),
        Action::BeginExport(id) => export_begun(s, t, id),
        Action::ToggleRecipient(fpr) => recipient_toggled(s, t, fpr@),
        Action::ToggleIncludeSelf => include_self_toggled(s, t),
        Action::SetExportSuite(suite) => suite_set(s, t, suite),
        Action::BeginMigrate => migrate_begun(s, t),
        Action::CancelMigrate => t == (Session { migrate: None, ..s }),
        Action::CancelPreview => t == (Session { contact_preview: None, ..s }),
        Action::BeginAddPasskey => add_passkey_begun(s, t),
        Action::CancelAddPasskey => t == (Session { add_passkey: None, ..s }),
        Action::BeginEnableAutoUnlock => auto_unlock_begun(s, t),
        Action::CancelEnableAutoUnlock => t == (Session { auto_unlock_form: None, ..s }),
        Action::BeginExportIdentity => export_identity_begun(s, t),
        Action::CancelExportIdentity => t == (Session { export_identity: None, ..s }),
        Action::CancelVerify => t == (Session { verify: None, ..s }),
        Action::AddSenderToContacts => sender_staged(s, t),
        _ => false,
    }
}

/// Whether a step only concerns the session's dialogs.
pub open spec fn is_dialog_step(action: Action) -> bool {
    match action {
        Action::DismissImportInfo
        | Action::ToggleNewVault(_)
        | Action::ToggleNewFolder(_)
        | Action::ToggleNewFile(_)
        | Action::EnterDir(_)
        | Action::CloseTextEditor
        | Action::SelectAllVisible
        | Action::ClearSelection
        | Action::SetSort(_)
        | Action::ShowTrash(_)
        | Action::PromptEmptyTrash(_)
        | Action::BeginRename(_)
        | Action::CancelRename
        | Action::BeginMove(_)
        | Action::SetMoveDest(_)
        | Action::CancelMove
        | Action::CancelExport
        | Action::BeginExport(_)
        | Action::ToggleRecipient(_)
        | Action::ToggleIncludeSelf
        | Action::SetExportSuite(_)
        | Action::BeginMigrate
        | Action::CancelMigrate
        | Action::CancelPreview
        | Action::BeginAddPasskey
        | Action::CancelAddPasskey
        | Action::BeginEnableAutoUnlock
        | Action::CancelEnableAutoUnlock
        | Action::BeginExportIdentity
        | Action::CancelExportIdentity
        | Action::CancelVerify
        | Action::AddSenderToContacts => true,
        _ => false,
    }
}

impl Session {
    /// Carries out a step that only concerns the session's dialogs.
    pub fn dialog(&mut self, action: Action)
        requires
            is_dialog_step(action),
        ensures
            dialog_step(action, *old(self), *final(self)),
    {
        match action {
            Action::DismissImportInfo => {
                self.last_import = None;
            },
            Action::ToggleNewVault(on) => self.toggle_new_vault(on),
            Action::ToggleNewFolder(on) => self.toggle_new_folder(on),
            Action::ToggleNewFile(on) => self.toggle_new_file(on),
            Action::EnterDir(dir) => self.enter_dir(dir),
            Action::CloseTextEditor => self.close_text_editor(),
            Action::SelectAllVisible => self.select_all_visible(),
            Action::ClearSelection => self.clear_selection(),
            Action::SetSort(mode) => {
                self.sort = mode;
            },
            Action::ShowTrash(on) => self.show_trash(on),
            Action::PromptEmptyTrash(on) => {
                self.confirm_empty_trash = on;
            },
            Action::BeginRename(path) => self.begin_rename(path),
            Action::CancelRename => self.cancel_rename(),
            Action::BeginMove(paths) => self.begin_move(paths),
            Action::SetMoveDest(dest) => self.set_move_dest(dest),
            Action::CancelMove => {
                self.move_form = None;
            },
            Action::CancelExport => {
                self.export = None;
            },
            Action::BeginExport(id) => self.begin_export(id),
            Action::ToggleRecipient(fpr) => self.toggle_recipient(&fpr),
            Action::ToggleIncludeSelf => self.toggle_include_self(),
            Action::SetExportSuite(suite) => self.set_export_suite(suite),
            Action::BeginMigrate => self.begin_migrate(),
            Action::CancelMigrate => self.cancel_migrate(),
            Action::CancelPreview => {
                self.contact_preview = None;
            },
            Action::BeginAddPasskey => self.begin_add_passkey(),
            Action::CancelAddPasskey => self.cancel_add_passkey(),
            Action::BeginEnableAutoUnlock => self.begin_auto_unlock(),
            Action::CancelEnableAutoUnlock => self.cancel_auto_unlock(),
            Action::BeginExportIdentity => self.begin_export_identity(),
            Action::CancelExportIdentity => self.cancel_export_identity(),
            Action::CancelVerify => {
                self.verify = None;
            },
            Action::AddSenderToContacts => self.stage_sender(),
            _ => {},
        }
    }
}

// ---------------------------------------------------------------------------
// Starting, locking, and the one unasked step
// ---------------------------------------------------------------------------

/// What looking for the store found.
pub enum Found {
    /// A store without an identity.
    NoIdentity,
    Identity(StoreProbe),
    /// No store.
    Failed(String),
}

/// Whether `u` is the unlock screen for what was found in the store.
pub open spec fn unlock_for(u: Unlock, p: StoreProbe) -> bool {
    &&& u.pass@.len() == 0 && u.pin@.len() == 0 && u.error is None
    &&& u.has_passkeys == unlock_offers(p).0
    &&& u.legacy_recovery == unlock_offers(p).1
    &&& u.has_saved == p.has_saved
}

/// An empty create-identity screen.
pub open spec fn blank_first_run(f: FirstRun) -> bool {
    &&& f.name@.len() == 0 && f.pass@.len() == 0 && f.pass2@.len() == 0
    &&& f.error is None && f.restore is None
}

impl App {
    /// The application at launch. `auto_supported` tells whether this build can read
    /// the OS keychain: only then, and only now, is it tried unasked.
    pub fn new(found: Found, auto_supported: bool) -> (a: Self)
        ensures
            a.toast is None,
            match found {
                Found::Failed(e) => a.state == State::Fatal(e) && !a.auto_unlock_pending,
                Found::NoIdentity => a.state is FirstRun && blank_first_run(a.state->FirstRun_0)
                    && !a.auto_unlock_pending,
                Found::Identity(p) => a.state is Unlock && unlock_for(a.state->Unlock_0, p)
                    && a.auto_unlock_pending == (p.has_saved && auto_supported),
            },
    {
        match found {
            Found::Failed(e) => App {
                state: State::Fatal(e),
                toast: None,
                auto_unlock_pending: false,
            },
            Found::NoIdentity => App {
                state: State::FirstRun(FirstRun::new()),
                toast: None,
                auto_unlock_pending: false,
            },
            Found::Identity(p) => App {
                state: State::Unlock(Unlock::for_store(&p)),
                toast: None,
                auto_unlock_pending: p.has_saved && auto_supported,
            },
        }
    }

    /// Goes to the unlock screen, for what was found in the store.
    pub fn lock(&mut self, probe: Option<StoreProbe>) -> (v: Vec<ActiveView>)
        ensures
            final(self).toast is None,
            final(self).auto_unlock_pending == old(self).auto_unlock_pending,
            final(self).state is Unlock,
            match probe {
                Some(p) => unlock_for(final(self).state->Unlock_0, p),
                None => {
                    let u = final(self).state->Unlock_0;
                    u.pass@.len() == 0 && u.pin@.len() == 0 && u.error is None && !u.has_passkeys
                        && !u.has_saved && !u.legacy_recovery
                },
            },
            match old(self).state {
                State::Unlocked(s) => v == s.views,
                _ => v@.len() == 0,
            },
    {
        let v = match &mut self.state {
            State::Unlocked(s) => s.take_views(),
            _ => Vec::new(),
        };
        self.state = match probe {
            Some(p) => State::Unlock(Unlock::for_store(&p)),
            None => State::Unlock(Unlock::blank()),
        };
        self.toast = None;
        v
    }

    /// Whether a file is checked out for editing.
    pub fn checkout_active(&self) -> (r: bool)
        ensures
            r == has_checkout(*self),
    {
        match &self.state {
            State::Unlocked(s) => s.checkout.is_some(),
            _ => false,
        }
    }

    /// Shows a message.
    pub fn set_toast(&mut self, msg: String, error: bool)
        ensures
            *final(self) == (App { toast: Some(Toast { msg, error }), ..*old(self) }),
    {
        self.toast = Some(Toast { msg, error });
    }

    /// What to carry out in this frame, given what the user did. While a job runs only
    /// the toast can be dismissed. The keychain is tried unasked once, when nothing
    /// runs and the user did nothing.
    pub fn next_action(&mut self, busy: bool, action: Option<Action>) -> (r: Option<Action>)
        ensures
            ({
                let fire = old(self).auto_unlock_pending && !busy && action is None;
                let chosen = if fire && old(self).state is Unlock {
                    Some(Action::UnlockWithKeyring)
                } else {
                    action
                };
                &&& final(self).state == old(self).state
                &&& final(self).auto_unlock_pending == (old(self).auto_unlock_pending && !fire)
                &&& final(self).toast == (if chosen is Some && chosen->0 is DismissToast {
                    None
                } else {
                    old(self).toast
                })
                &&& r == (if busy || chosen is None || chosen->0 is DismissToast {
                    None
                } else {
                    chosen
                })
            }),
    {
        let mut chosen = action;
        if self.auto_unlock_pending && !busy && chosen.is_none() {
            self.auto_unlock_pending = false;
            match &self.state {
                State::Unlock(_) => {
                    chosen = Some(Action::UnlockWithKeyring);
                },
                _ => {},
            }
        }
        match chosen {
            None => None,
            Some(Action::DismissToast) => {
                self.toast = None;
                None
            },
            Some(a) => if busy {
                None
            } else {
                Some(a)
            },
        }
    }
}

// ---------------------------------------------------------------------------
// Dispatch
// ---------------------------------------------------------------------------

/// Steps that a screen before the session offers.
pub open spec fn entry_acted(a: App, action: Action, b: App, e: Effect) -> bool {
    match action {
        Action::CreateIdentity => match (a.state, b.state) {
            (State::FirstRun(f), State::FirstRun(g)) => b == (App { state: b.state, ..a })
                && exists|r: Option<(String, Secret)>| #[trigger]
                create_asked(f, g, r) && e == (match r {
                    Some((name, pass)) => Effect::CreateIdentity { name, pass },
                    None => Effect::Nothing,
                }),
            (State::FirstRun(_), _) => false,
            _ => b == a && e is Nothing,
        },
        Action::BeginRestore => b == a && e == (if a.state is FirstRun {
            Effect::PickBackup
        } else {
            Effect::Nothing
        }),
        Action::CancelRestore => e is Nothing && match (a.state, b.state) {
            (State::FirstRun(f), State::FirstRun(g)) => g == (FirstRun { restore: None, ..f }) && b
                == (App { state: b.state, ..a }),
            (State::FirstRun(_), _) => false,
            _ => b == a,
        },
        Action::DoRestore => match (a.state, b.state) {
            (State::FirstRun(f), State::FirstRun(g)) => b == (App { state: b.state, ..a })
                && match f.restore {
                Some(form) => g.restore is Some && g == (FirstRun { restore: g.restore, ..f })
                    && exists|r: Option<RestoreRequest>| #[trigger]
                    restore_asked(form, g.restore->0, r) && e == (match r {
                        Some(q) => Effect::RestoreIdentity(q),
                        None => Effect::Nothing,
                    }),
                None => g == f && e is Nothing,
            },
            (State::FirstRun(_), _) => false,
            _ => b == a && e is Nothing,
        },
        Action::Unlock => match (a.state, b.state) {
            (State::Unlock(u), State::Unlock(v)) => {
                &&& b == (App { state: b.state, ..a })
                &&& v.pass@.len() == 0 && v == (Unlock { pass: v.pass, error: None, ..u })
                &&& e is Unlock && e->Unlock_pass@ == u.pass@ && e->legacy == u.legacy_recovery
            },
            (State::Unlock(_), _) => false,
            _ => b == a && e is Nothing,
        },
        Action::UnlockWithPasskey => match (a.state, b.state) {
            (State::Unlock(u), State::Unlock(v)) => {
                &&& b == (App { state: b.state, ..a })
                &&& v == (Unlock { error: None, ..u })
                &&& e is UnlockWithPasskey && opt_secret(e->pin) == typed_pin(u.pin@)
            },
            (State::Unlock(_), _) => false,
            _ => b == a && e is Nothing,
        },
        Action::UnlockWithKeyring => e is UnlockWithKeyring && match (a.state, b.state) {
            (State::Unlock(u), State::Unlock(v)) => b == (App { state: b.state, ..a }) && v == (
            Unlock { error: None, ..u }),
            (State::Unlock(_), _) => false,
            _ => b == a,
        },
        _ => false,
    }
}

/// Steps that change the open vault or take files out of it.
pub open spec fn vault_acted(a: App, action: Action, b: App, e: Effect) -> bool {
    let quiet = b == (App { state: b.state, toast: b.toast, ..a });
    match (a.state, b.state) {
        (State::Unlocked(s), State::Unlocked(t)) => quiet && match action {
            Action::CreateVault => t == s && exists|r: Result<String, String>| #[trigger]
                create_vault_asked(s, r) && match r {
                    Ok(name) => b.toast == a.toast && e == (Effect::CreateVault { name }),
                    Err(m) => b.toast == Some(Toast { msg: m, error: true }) && e is Nothing,
                },
            Action::NewFolder => exists|r: Result<Option<NewEntry>, String>| #[trigger]
                new_folder_asked(s, t, r) && settled(
                    a.toast,
                    b.toast,
                    e,
                    r,
                    |n: NewEntry| Effect::NewFolder(n),
                ),
            Action::NewFile => exists|r: Result<Option<NewEntry>, String>| #[trigger]
                new_file_asked(s, t, r) && settled(
                    a.toast,
                    b.toast,
                    e,
                    r,
                    |n: NewEntry| Effect::NewFile(n),
                ),
            Action::QuickEdit(path) => t == s && match s.open {
                None => b.toast == a.toast && e is Nothing,
                Some(o) => match edit_fault(crate::browse::listing(o.entries@), path@) {
                    Some(m) => says(b.toast, m, true) && e is Nothing,
                    None => b.toast == a.toast && e == (Effect::ReadText { path }),
                },
            },
            Action::SaveTextFile => t == s && b.toast == a.toast && exists|
                r: Option<SaveRequest>,
            | #[trigger] save_text_asked(s, r) && e == (match r {
                Some(q) => Effect::SaveText(q),
                None => Effect::Nothing,
            }),
            Action::TrashSelected => t == s && exists|r: Result<Option<Vec<String>>, String>| #[trigger]
                trash_selected_asked(s, r) && settled(
                    a.toast,
                    b.toast,
                    e,
                    r,
                    |v: Vec<String>| Effect::TrashPaths(v),
                ),
            Action::RestoreTrashed(path) => t == s && match s.open {
                None => b.toast == a.toast && e is Nothing,
                Some(o) => exists|r: Result<String, String>| #[trigger]
                    restore_trashed_asked(crate::browse::listing(o.entries@), path@, r)
                        && match r {
                        Ok(to) => b.toast == a.toast && e == (Effect::Restore { from: path, to }),
                        Err(m) => b.toast == Some(Toast { msg: m, error: true }) && e is Nothing,
                    },
            },
            Action::EmptyTrash => b.toast == a.toast && t == (Session {
                confirm_empty_trash: false,
                ..s
            }) && e == (if s.open is Some {
                Effect::EmptyTrash
            } else {
                Effect::Nothing
            }),
            Action::ConfirmRename => exists|r: Result<Option<RenameRequest>, String>| #[trigger]
                rename_asked(s, t, r) && settled(
                    a.toast,
                    b.toast,
                    e,
                    r,
                    |q: RenameRequest| Effect::Rename(q),
                ),
            Action::ConfirmMove => exists|r: Result<Option<MoveRequest>, String>| #[trigger]
                move_asked(s, t, r) && settled(
                    a.toast,
                    b.toast,
                    e,
                    r,
                    |q: MoveRequest| Effect::Move(q),
                ),
            Action::ExtractSelected => t == s && exists|
                r: Result<Option<Vec<String>>, String>,
            | #[trigger] extract_asked(s, r) && settled(
                a.toast,
                b.toast,
                e,
                r,
                |v: Vec<String>| Effect::Extract(v),
            ),
            Action::SaveEntryAs(path) => t == s && exists|r: Result<Option<String>, String>| #[trigger]
                save_as_asked(s, path@, r) && settled(
                    a.toast,
                    b.toast,
                    e,
                    r,
                    |suggested: String| Effect::SaveAs { path, suggested },
                ),
            Action::ViewFile(path) => t == s && exists|r: Result<Option<TempRequest>, String>| #[trigger]
                temp_copy(s, path@, "Only files can be viewed."@, r) && settled(
                    a.toast,
                    b.toast,
                    e,
                    r,
                    |request: TempRequest| Effect::View { path, request },
                ),
            Action::CheckOut(path) => t == s && exists|r: Result<Option<TempRequest>, String>| #[trigger]
                temp_copy(s, path@, "Only files can be edited."@, r) && settled(
                    a.toast,
                    b.toast,
                    e,
                    r,
                    |request: TempRequest| Effect::CheckOut { path, request },
                ),
            Action::CheckIn => t == s && match (s.checkout, s.open) {
                (Some(c), Some(o)) => if o.id@ == c.vault_id@ {
                    b.toast == a.toast && e is CheckIn
                } else {
                    says(b.toast, "The checked-out vault is no longer open."@, true) && e is Nothing
                },
                _ => b.toast == a.toast && e is Nothing,
            },
            Action::Discard => t == s && b.toast == a.toast && e == (if s.checkout is Some {
                Effect::Discard
            } else {
                Effect::Nothing
            }),
            _ => false,
        },
        (State::Unlocked(_), _) => false,
        _ => b == a && e is Nothing,
    }
}

/// Steps that concern keys: of contacts, of the user, of recipients.
pub open spec fn key_acted(a: App, action: Action, b: App, e: Effect) -> bool {
    let quiet = b == (App { state: b.state, toast: b.toast, ..a });
    match (a.state, b.state) {
        (State::Unlocked(s), State::Unlocked(t)) => quiet && match action {
            Action::CopyVerifySafetyNumber => t == s && match s.verify {
                Some(v) => {
                    &&& e is CopyText && e->CopyText_0@ == v.safety_number@
                    &&& says(b.toast, "Safety number copied to clipboard."@, false)
                },
                None => b.toast == a.toast && e is Nothing,
            },
            Action::DoExport => t == s && exists|r: Result<Option<ExportRequest>, String>| #[trigger]
                export_asked(s, r) && settled(
                    a.toast,
                    b.toast,
                    e,
                    r,
                    |q: ExportRequest| Effect::Export(q),
                ),
            Action::DoMigrate => b.toast == a.toast && exists|r: Option<Secret>| #[trigger]
                migrate_asked(s, t, r) && e == (match r {
                    Some(pass) => Effect::Migrate { pass },
                    None => Effect::Nothing,
                }),
            Action::PreviewContactPaste => t == s && exists|r: Result<String, String>| #[trigger]
                paste_asked(s, r) && match r {
                    Ok(text) => b.toast == a.toast && e == Effect::ParseKey(text),
                    Err(m) => b.toast == Some(Toast { msg: m, error: true }) && e is Nothing,
                },
            Action::ConfirmAddContact => exists|r: Result<Option<PublicKey>, String>| #[trigger]
                add_contact_asked(s, t, r) && settled(
                    a.toast,
                    b.toast,
                    e,
                    r,
                    |k: PublicKey| Effect::AddContact(k),
                ),
            Action::AddPasskey => b.toast == a.toast && match s.add_passkey {
                Some(f) => t.add_passkey is Some && t == (Session {
                    add_passkey: t.add_passkey,
                    ..s
                }) && exists|r: Option<EnrollRequest>| #[trigger]
                    enroll_asked(f, t.add_passkey->0, r) && e == (match r {
                        Some(q) => Effect::AddPasskey(q),
                        None => Effect::Nothing,
                    }),
                None => t == s && e is Nothing,
            },
            Action::ConfirmEnableAutoUnlock => b.toast == a.toast && match s.auto_unlock_form {
                Some(f) => t.auto_unlock_form is Some && t == (Session {
                    auto_unlock_form: t.auto_unlock_form,
                    ..s
                }) && exists|r: Option<Secret>| #[trigger]
                    confirm_asked(f, t.auto_unlock_form->0, r) && e == (match r {
                        Some(pass) => Effect::EnableAutoUnlock { pass },
                        None => Effect::Nothing,
                    }),
                None => t == s && e is Nothing,
            },
            Action::DoExportIdentity => b.toast == a.toast && match s.export_identity {
                Some(f) => t.export_identity is Some && t == (Session {
                    export_identity: t.export_identity,
                    ..s
                }) && exists|r: Option<Secret>| #[trigger]
                    backup_asked(f, t.export_identity->0, r) && e == (match r {
                        Some(pass) => Effect::ExportIdentity { pass },
                        None => Effect::Nothing,
                    }),
                None => t == s && e is Nothing,
            },
            _ => false,
        },
        (State::Unlocked(_), _) => false,
        _ => b == a && e is Nothing,
    }
}

/// `t` is `s` with a transfer just started.
pub open spec fn transfer_started(s: Session, t: Session, kind: ActiveKind) -> bool {
    &&& t == (Session {
        transfer: TransferState { active: t.transfer.active, ..s.transfer },
        ..s
    })
    &&& t.transfer.active is Some
    &&& ({
        let x = t.transfer.active->0;
        &&& x.kind == kind
        &&& x.status@ == (if kind == ActiveKind::Receive {
            "Starting…"@
        } else {
            "Connecting…"@
        })
        &&& x.listen is None && x.peer is None && x.offer is None && x.progress is None
    })
}

/// Steps of the direct-transfer screen.
pub open spec fn transfer_acted(a: App, action: Action, b: App, e: Effect) -> bool {
    let quiet = b == (App { state: b.state, toast: b.toast, ..a });
    match (a.state, b.state) {
        (State::Unlocked(s), State::Unlocked(t)) => quiet && match action {
            Action::StartListen => if s.transfer.active is Some {
                t == s && b.toast == a.toast && e is Nothing
            } else {
                exists|r: Result<ListenConfig, String>| #[trigger]
                    listen_asked(s.transfer, s.contacts.contacts@, r) && match r {
                        Ok(c) => transfer_started(s, t, ActiveKind::Receive) && b.toast == a.toast
                            && e == Effect::StartListener(c),
                        Err(m) => t == s && b.toast == Some(Toast { msg: m, error: true })
                            && e is Nothing,
                    }
            },
            Action::StartSend => if s.transfer.active is Some {
                t == s && b.toast == a.toast && e is Nothing
            } else {
                exists|r: Result<SendConfig, String>| #[trigger]
                    send_asked(s.transfer, s.contacts.contacts@, r) && match r {
                        Ok(c) => transfer_started(s, t, ActiveKind::Send) && b.toast == a.toast
                            && e == Effect::StartSender(c),
                        Err(m) => t == s && b.toast == Some(Toast { msg: m, error: true })
                            && e is Nothing,
                    }
            },
            Action::StopTransfer => {
                &&& b.toast == a.toast
                &&& t == (Session {
                    transfer: TransferState { active: None, ..s.transfer },
                    ..s
                })
                &&& e == (if s.transfer.active is Some {
                    Effect::StopTransfer
                } else {
                    Effect::Nothing
                })
            },
            Action::AcceptIncoming | Action::RejectIncoming | Action::CancelTransfer => {
                &&& b.toast == a.toast
                &&& t == (Session { transfer: t.transfer, ..s })
                &&& commanded(s.transfer, t.transfer, !(action is CancelTransfer))
                &&& e == (if s.transfer.active is Some {
                    Effect::Command(
                        match action {
                            Action::AcceptIncoming => NetCommand::AcceptOffer,
                            Action::RejectIncoming => NetCommand::RejectOffer,
                            _ => NetCommand::Cancel,
                        },
                    )
                } else {
                    Effect::Nothing
                })
            },
            _ => false,
        },
        (State::Unlocked(_), _) => false,
        _ => b == a && e is Nothing,
    }
}

/// Which group a step belongs to.
#[derive(Clone, Copy, Debug, PartialEq, Eq, Structural)]
pub enum Group {
    Entry,
    Vault,
    Key,
    Transfer,
    Dialog,
    Other,
}

/// Which group a step belongs to.
pub open spec fn group_of(action: Action) -> Group {
    match action {
        Action::CreateIdentity
        | Action::BeginRestore
        | Action::CancelRestore
        | Action::DoRestore
        | Action::Unlock
        | Action::UnlockWithPasskey
        | Action::UnlockWithKeyring => Group::Entry,
        Action::CreateVault
        | Action::NewFolder
        | Action::NewFile
        | Action::QuickEdit(_)
        | Action::SaveTextFile
        | Action::TrashSelected
        | Action::RestoreTrashed(_)
        | Action::EmptyTrash
        | Action::ConfirmRename
        | Action::ConfirmMove
        | Action::ExtractSelected
        | Action::SaveEntryAs(_)
        | Action::ViewFile(_)
        | Action::CheckOut(_)
        | Action::CheckIn
        | Action::Discard => Group::Vault,
        Action::CopyVerifySafetyNumber
        | Action::DoExport
        | Action::DoMigrate
        | Action::PreviewContactPaste
        | Action::ConfirmAddContact
        | Action::AddPasskey
        | Action::ConfirmEnableAutoUnlock
        | Action::DoExportIdentity => Group::Key,
        Action::StartListen
        | Action::StartSend
        | Action::StopTransfer
        | Action::AcceptIncoming
        | Action::RejectIncoming
        | Action::CancelTransfer => Group::Transfer,
        _ => if is_dialog_step(action) {
            Group::Dialog
        } else {
            Group::Other
        },
    }
}

/// What a step changes, and what outside work it asks for.
pub open spec fn acted(a: App, action: Action, b: App, e: Effect) -> bool {
    match group_of(action) {
        Group::Entry => entry_acted(a, action, b, e),
        Group::Vault => vault_acted(a, action, b, e),
        Group::Key => key_acted(a, action, b, e),
        Group::Transfer => transfer_acted(a, action, b, e),
        Group::Dialog => on_session(a, b, |s: Session, t: Session| dialog_step(action, s, t))
            && e is Nothing,
        Group::Other => other_acted(a, action, b, e),
    }
}

/// `b` is `a` with the safety-number dialog closed.
pub open spec fn verify_closed(a: App, b: App) -> bool {
    on_session(a, b, |s: Session, t: Session| t == (Session { verify: None, ..s }))
}

/// The remaining steps: leaving a screen, and work that needs no more than a session,
/// an open vault or a fingerprint.
pub open spec fn other_acted(a: App, action: Action, b: App, e: Effect) -> bool {
    match action {
        Action::Lock => if has_checkout(a) {
            only_refused(a, b, finish_edit()) && e is Nothing
        } else {
            b == a && e is Lock
        },
        Action::Nav(n) => left_screen(a, b, e, |s: Session, t: Session| navigated(s, t, n)),
        Action::CloseVault => left_screen(a, b, e, |s: Session, t: Session| vault_closed(s, t)),
        Action::DismissToast => b == (App { toast: None, ..a }) && e is Nothing,
        Action::CopyPubKey => with_session(a, b, e, Effect::CopyPublicKey),
        Action::BeginVerify(fpr_hex) => e is Nothing && match fingerprint_of(fpr_hex@) {
            None => only_refused(a, b, "Bad fingerprint."@),
            Some(f) => on_session(a, b, |s: Session, t: Session| verify_begun(s, t, f, fpr_hex)),
        },
        Action::RemovePasskey(i) => with_session(a, b, e, Effect::RemovePasskey(i)),
        Action::DisableAutoUnlock => with_session(a, b, e, Effect::DisableAutoUnlock),
        Action::OpenVault(id) => with_session(a, b, e, Effect::OpenVault(id)),
        Action::DeleteVault(id) => with_session(a, b, e, Effect::DeleteVault(id)),
        Action::AddFiles => b == a && e is PickFiles,
        Action::AddFolder => b == a && e is PickFolder,
        Action::DropPaths(paths) => with_open(
            a,
            b,
            e,
            if paths@.len() > 0 {
                Effect::AddPaths(paths)
            } else {
                Effect::Nothing
            },
        ),
        Action::Trash(path) => with_open(a, b, e, Effect::TrashEntry(path)),
        Action::PurgeTrashed(path) => with_open(a, b, e, Effect::Purge(path)),
        Action::ExtractAll => with_open(a, b, e, Effect::ExtractAll),
        Action::ImportContainer => b == a && e is PickContainer,
        Action::PreviewContactFile => b == a && e is PickKey,
        Action::ConfirmVerify(fpr_hex) => exists|m: App|
            {
                &&& #[trigger] verify_closed(a, m)
                &&& with_fingerprint(
                    m,
                    b,
                    e,
                    fpr_hex@,
                    |w: Effect, f: Seq<u8>|
                        w is SetTrust && w->SetTrust_fpr@ == f && w->trust == Trust::Verified,
                )
            },
        Action::SetTrust(fpr_hex, trust) => with_fingerprint(
            a,
            b,
            e,
            fpr_hex@,
            |w: Effect, f: Seq<u8>| w is SetTrust && w->SetTrust_fpr@ == f && w->trust == trust,
        ),
        Action::RemoveContact(fpr_hex) => with_fingerprint(
            a,
            b,
            e,
            fpr_hex@,
            |w: Effect, f: Seq<u8>| w is RemoveContact && w->RemoveContact_fpr@ == f,
        ),
        Action::SavePubKey => with_session(a, b, e, Effect::SavePublicKey),
        _ => false,
    }
}

impl App {
    /// A step of a screen before the session.
    fn entry_action(&mut self, action: Action) -> (e: Effect)
        requires
            group_of(action) == Group::Entry,
        ensures
            entry_acted(*old(self), action, *final(self), e),
    {
        match action {
            Action::CreateIdentity => match &mut self.state {
                State::FirstRun(f) => match f.request_create() {
                    Some((name, pass)) => Effect::CreateIdentity { name, pass },
                    None => Effect::Nothing,
                },
                _ => Effect::Nothing,
            },
            Action::BeginRestore => match &self.state {
                State::FirstRun(_) => Effect::PickBackup,
                _ => Effect::Nothing,
            },
            Action::CancelRestore => {
                match &mut self.state {
                    State::FirstRun(f) => f.cancel_restore(),
                    _ => {},
                }
                Effect::Nothing
            },
            Action::DoRestore => match &mut self.state {
                State::FirstRun(f) => match f.restore.take() {
                    Some(mut form) => {
                        let ghost before = form;
                        let r = form.request_restore();
                        f.restore = Some(form);
                        assert(restore_asked(before, f.restore->0, r));
                        match r {
                            Some(q) => Effect::RestoreIdentity(q),
                            None => Effect::Nothing,
                        }
                    },
                    None => Effect::Nothing,
                },
                _ => Effect::Nothing,
            },
            Action::Unlock => match &mut self.state {
                State::Unlock(u) => {
                    let (pass, legacy) = u.request_unlock();
                    Effect::Unlock { pass, legacy }
                },
                _ => Effect::Nothing,
            },
            Action::UnlockWithPasskey => match &mut self.state {
                State::Unlock(u) => {
                    let pin = u.request_passkey();
                    Effect::UnlockWithPasskey { pin }
                },
                _ => Effect::Nothing,
            },
            _ => {
                match &mut self.state {
                    State::Unlock(u) => {
                        u.error = None;
                    },
                    _ => {},
                }
                Effect::UnlockWithKeyring
            },
        }
    }

    /// A step that changes the open vault or takes files out of it.
    fn vault_action(&mut self, action: Action) -> (e: Effect)
        requires
            group_of(action) == Group::Vault,
        ensures
            vault_acted(*old(self), action, *final(self), e),
    {
        match &mut self.state {
            State::Unlocked(s) => match action {
                Action::CreateVault => match s.request_create_vault() {
                    Ok(name) => Effect::CreateVault { name },
                    Err(m) => {
                        self.set_toast(m, true);
                        Effect::Nothing
                    },
                },
                Action::NewFolder => match s.request_new_folder() {
                    Ok(Some(n)) => Effect::NewFolder(n),
                    Ok(None) => Effect::Nothing,
                    Err(m) => {
                        self.set_toast(m, true);
                        Effect::Nothing
                    },
                },
                Action::NewFile => match s.request_new_file() {
                    Ok(Some(n)) => Effect::NewFile(n),
                    Ok(None) => Effect::Nothing,
                    Err(m) => {
                        self.set_toast(m, true);
                        Effect::Nothing
                    },
                },
                Action::QuickEdit(path) => match &s.open {
                    None => Effect::Nothing,
                    Some(o) => match request_quick_edit(&o.entries, &path) {
                        Ok(_) => Effect::ReadText { path },
                        Err(m) => {
                            self.set_toast(m, true);
                            Effect::Nothing
                        },
                    },
                },
                Action::SaveTextFile => match s.request_save_text() {
                    Some(q) => Effect::SaveText(q),
                    None => Effect::Nothing,
                },
                Action::TrashSelected => match s.request_trash_selected() {
                    Ok(Some(v)) => Effect::TrashPaths(v),
                    Ok(None) => Effect::Nothing,
                    Err(m) => {
                        self.set_toast(m, true);
                        Effect::Nothing
                    },
                },
                Action::RestoreTrashed(path) => match &s.open {
                    None => Effect::Nothing,
                    Some(o) => match request_restore(&o.entries, &path) {
                        Ok(to) => Effect::Restore { from: path, to },
                        Err(m) => {
                            self.set_toast(m, true);
                            Effect::Nothing
                        },
                    },
                },
                Action::EmptyTrash => {
                    s.confirm_empty_trash = false;
                    if s.open.is_some() {
                        Effect::EmptyTrash
                    } else {
                        Effect::Nothing
                    }
                },
                Action::ConfirmRename => match s.request_rename() {
                    Ok(Some(q)) => Effect::Rename(q),
                    Ok(None) => Effect::Nothing,
                    Err(m) => {
                        self.set_toast(m, true);
                        Effect::Nothing
                    },
                },
                Action::ConfirmMove => match s.request_move() {
                    Ok(Some(q)) => Effect::Move(q),
                    Ok(None) => Effect::Nothing,
                    Err(m) => {
                        self.set_toast(m, true);
                        Effect::Nothing
                    },
                },
                Action::ExtractSelected => match s.request_extract_selected() {
                    Ok(Some(v)) => Effect::Extract(v),
                    Ok(None) => Effect::Nothing,
                    Err(m) => {
                        self.set_toast(m, true);
                        Effect::Nothing
                    },
                },
                Action::SaveEntryAs(path) => match s.request_save_as(&path) {
                    Ok(Some(suggested)) => Effect::SaveAs { path, suggested },
                    Ok(None) => Effect::Nothing,
                    Err(m) => {
                        self.set_toast(m, true);
                        Effect::Nothing
                    },
                },
                Action::ViewFile(path) => match s.request_view(&path) {
                    Ok(Some(request)) => Effect::View { path, request },
                    Ok(None) => Effect::Nothing,
                    Err(m) => {
                        self.set_toast(m, true);
                        Effect::Nothing
                    },
                },
                Action::CheckOut(path) => match s.request_check_out(&path) {
                    Ok(Some(request)) => Effect::CheckOut { path, request },
                    Ok(None) => Effect::Nothing,
                    Err(m) => {
                        self.set_toast(m, true);
                        Effect::Nothing
                    },
                },
                Action::CheckIn => match s.request_check_in() {
                    Ok(Some(_)) => Effect::CheckIn,
                    Ok(None) => Effect::Nothing,
                    Err(m) => {
                        self.set_toast(m, true);
                        Effect::Nothing
                    },
                },
                _ => if s.checkout.is_some() {
                    Effect::Discard
                } else {
                    Effect::Nothing
                },
            },
            _ => Effect::Nothing,
        }
    }

    /// A step that concerns keys.
    fn key_action(&mut self, action: Action) -> (e: Effect)
        requires
            group_of(action) == Group::Key,
        ensures
            key_acted(*old(self), action, *final(self), e),
    {
        match &mut self.state {
            State::Unlocked(s) => match action {
                Action::CopyVerifySafetyNumber => match &s.verify {
                    Some(v) => {
                        let text = owned(&v.safety_number);
                        self.set_toast(owned("Safety number copied to clipboard."), false);
                        Effect::CopyText(text)
                    },
                    None => Effect::Nothing,
                },
                Action::DoExport => match s.request_export() {
                    Ok(Some(q)) => Effect::Export(q),
                    Ok(None) => Effect::Nothing,
                    Err(m) => {
                        self.set_toast(m, true);
                        Effect::Nothing
                    },
                },
                Action::DoMigrate => match s.request_migrate() {
                    Some(pass) => Effect::Migrate { pass },
                    None => Effect::Nothing,
                },
                Action::PreviewContactPaste => match s.request_paste() {
                    Ok(text) => Effect::ParseKey(text),
                    Err(m) => {
                        self.set_toast(m, true);
                        Effect::Nothing
                    },
                },
                Action::ConfirmAddContact => match s.request_add_contact() {
                    Ok(Some(k)) => Effect::AddContact(k),
                    Ok(None) => Effect::Nothing,
                    Err(m) => {
                        self.set_toast(m, true);
                        Effect::Nothing
                    },
                },
                Action::AddPasskey => match s.add_passkey.take() {
                    Some(mut f) => {
                        let ghost before = f;
                        let r = f.request();
                        s.add_passkey = Some(f);
                        assert(enroll_asked(before, s.add_passkey->0, r));
                        match r {
                            Some(q) => Effect::AddPasskey(q),
                            None => Effect::Nothing,
                        }
                    },
                    None => Effect::Nothing,
                },
                Action::ConfirmEnableAutoUnlock => match s.auto_unlock_form.take() {
                    Some(mut f) => {
                        let ghost before = f;
                        let r = f.request();
                        s.auto_unlock_form = Some(f);
                        assert(confirm_asked(before, s.auto_unlock_form->0, r));
                        match r {
                            Some(pass) => Effect::EnableAutoUnlock { pass },
                            None => Effect::Nothing,
                        }
                    },
                    None => Effect::Nothing,
                },
                _ => match s.export_identity.take() {
                    Some(mut f) => {
                        let ghost before = f;
                        let r = f.request();
                        s.export_identity = Some(f);
                        assert(backup_asked(before, s.export_identity->0, r));
                        match r {
                            Some(pass) => Effect::ExportIdentity { pass },
                            None => Effect::Nothing,
                        }
                    },
                    None => Effect::Nothing,
                },
            },
            _ => Effect::Nothing,
        }
    }

    /// A step of the direct-transfer screen.
    fn transfer_action(&mut self, action: Action) -> (e: Effect)
        requires
            group_of(action) == Group::Transfer,
        ensures
            transfer_acted(*old(self), action, *final(self), e),
    {
        match &mut self.state {
            State::Unlocked(s) => match action {
                Action::StartListen => {
                    if s.transfer.active.is_some() {
                        return Effect::Nothing;
                    }
                    match build_listen_config(&s.transfer, &s.contacts) {
                        Ok(c) => {
                            s.transfer.active = Some(ActiveTransfer::started(ActiveKind::Receive));
                            Effect::StartListener(c)
                        },
                        Err(m) => {
                            self.set_toast(m, true);
                            Effect::Nothing
                        },
                    }
                },
                Action::StartSend => {
                    if s.transfer.active.is_some() {
                        return Effect::Nothing;
                    }
                    match build_send_config(&s.transfer, &s.contacts) {
                        Ok(c) => {
                            s.transfer.active = Some(ActiveTransfer::started(ActiveKind::Send));
                            Effect::StartSender(c)
                        },
                        Err(m) => {
                            self.set_toast(m, true);
                            Effect::Nothing
                        },
                    }
                },
                Action::StopTransfer => {
                    let running = s.transfer.active.is_some();
                    s.transfer.active = None;
                    if running {
                        Effect::StopTransfer
                    } else {
                        Effect::Nothing
                    }
                },
                Action::AcceptIncoming => if s.transfer.command(true) {
                    Effect::Command(NetCommand::AcceptOffer)
                } else {
                    Effect::Nothing
                },
                Action::RejectIncoming => if s.transfer.command(true) {
                    Effect::Command(NetCommand::RejectOffer)
                } else {
                    Effect::Nothing
                },
                _ => if s.transfer.command(false) {
                    Effect::Command(NetCommand::Cancel)
                } else {
                    Effect::Nothing
                },
            },
            _ => Effect::Nothing,
        }
    }

    /// The remaining steps.
    fn other_action(&mut self, action: Action) -> (e: Effect)
        requires
            group_of(action) == Group::Other,
        ensures
            other_acted(*old(self), action, *final(self), e),
    {
        match action {
            Action::Lock => {
                if self.checkout_active() {
                    self.set_toast(owned("Check in or discard your edit first."), true);
                    return Effect::Nothing;
                }
                Effect::Lock
            },
            Action::Nav(n) => {
                if self.checkout_active() {
                    self.set_toast(owned("Check in or discard your edit first."), true);
                    return Effect::Nothing;
                }
                match &mut self.state {
                    State::Unlocked(s) => Effect::WipeViews(s.navigate(n)),
                    _ => Effect::Nothing,
                }
            },
            Action::CloseVault => {
                if self.checkout_active() {
                    self.set_toast(owned("Check in or discard your edit first."), true);
                    return Effect::Nothing;
                }
                match &mut self.state {
                    State::Unlocked(s) => Effect::WipeViews(s.close_vault()),
                    _ => Effect::Nothing,
                }
            },
            Action::DismissToast => {
                self.toast = None;
                Effect::Nothing
            },
            Action::BeginVerify(fpr_hex) => {
                match request_fingerprint(&fpr_hex) {
                    Ok(f) => match &mut self.state {
                        State::Unlocked(s) => s.begin_verify(&f, fpr_hex),
                        _ => {},
                    },
                    Err(m) => self.set_toast(m, true),
                }
                Effect::Nothing
            },
            Action::AddFiles => Effect::PickFiles,
            Action::AddFolder => Effect::PickFolder,
            Action::ImportContainer => Effect::PickContainer,
            Action::PreviewContactFile => Effect::PickKey,
            Action::DropPaths(paths) => {
                if self.vault_open() && paths.len() > 0 {
                    Effect::AddPaths(paths)
                } else {
                    Effect::Nothing
                }
            },
            Action::Trash(path) => if self.vault_open() {
                Effect::TrashEntry(path)
            } else {
                Effect::Nothing
            },
            Action::PurgeTrashed(path) => if self.vault_open() {
                Effect::Purge(path)
            } else {
                Effect::Nothing
            },
            Action::ExtractAll => if self.vault_open() {
                Effect::ExtractAll
            } else {
                Effect::Nothing
            },
            Action::ConfirmVerify(fpr_hex) => {
                let ghost before = *self;
                match &mut self.state {
                    State::Unlocked(s) => {
                        s.verify = None;
                    },
                    _ => {},
                }
                assert(verify_closed(before, *self));
                let e = self.contact_action(&fpr_hex);
                match e {
                    Some(fpr) => Effect::SetTrust { fpr, trust: Trust::Verified },
                    None => Effect::Nothing,
                }
            },
            Action::SetTrust(fpr_hex, trust) => match self.contact_action(&fpr_hex) {
                Some(fpr) => Effect::SetTrust { fpr, trust },
                None => Effect::Nothing,
            },
            Action::RemoveContact(fpr_hex) => match self.contact_action(&fpr_hex) {
                Some(fpr) => Effect::RemoveContact { fpr },
                None => Effect::Nothing,
            },
            _ => {
                if !self.unlocked() {
                    return Effect::Nothing;
                }
                match action {
                    Action::CopyPubKey => Effect::CopyPublicKey,
                    Action::RemovePasskey(i) => Effect::RemovePasskey(i),
                    Action::DisableAutoUnlock => Effect::DisableAutoUnlock,
                    Action::OpenVault(id) => Effect::OpenVault(id),
                    Action::DeleteVault(id) => Effect::DeleteVault(id),
                    _ => Effect::SavePublicKey,
                }
            },
        }
    }

    /// Whether there is a session.
    fn unlocked(&self) -> (r: bool)
        ensures
            r == self.state is Unlocked,
    {
        match &self.state {
            State::Unlocked(_) => true,
            _ => false,
        }
    }

    /// Whether a vault is open.
    fn vault_open(&self) -> (r: bool)
        ensures
            r == (self.state is Unlocked && self.state->Unlocked_0.open is Some),
    {
        match &self.state {
            State::Unlocked(s) => s.open.is_some(),
            _ => false,
        }
    }

    /// The fingerprint that a step names, if it can go on.
    fn contact_action(&mut self, fpr_hex: &str) -> (r: Option<[u8; 32]>)
        ensures
            if fingerprint_of(fpr_hex@) is None {
                r is None && only_refused(*old(self), *final(self), "Bad fingerprint."@)
            } else {
                &&& *final(self) == *old(self)
                &&& r is Some == old(self).state is Unlocked
                &&& r is Some ==> fingerprint_of(fpr_hex@) == Some(r->0@)
            },
    {
        match request_fingerprint(fpr_hex) {
            Ok(f) => if self.unlocked() {
                Some(f)
            } else {
                None
            },
            Err(m) => {
                self.set_toast(m, true);
                None
            },
        }
    }

    /// Carries out one of the user's steps, and tells what outside work it asks for.
    pub fn dispatch(&mut self, action: Action) -> (e: Effect)
        ensures
            acted(*old(self), action, *final(self), e),
    {
        match action {
            Action::CreateIdentity
            | Action::BeginRestore
            | Action::CancelRestore
            | Action::DoRestore
            | Action::Unlock
            | Action::UnlockWithPasskey
            | Action::UnlockWithKeyring => self.entry_action(action),
            Action::CreateVault
            | Action::NewFolder
            | Action::NewFile
            | Action::QuickEdit(_)
            | Action::SaveTextFile
            | Action::TrashSelected
            | Action::RestoreTrashed(_)
            | Action::EmptyTrash
            | Action::ConfirmRename
            | Action::ConfirmMove
            | Action::ExtractSelected
            | Action::SaveEntryAs(_)
            | Action::ViewFile(_)
            | Action::CheckOut(_)
            | Action::CheckIn
            | Action::Discard => self.vault_action(action),
            Action::CopyVerifySafetyNumber
            | Action::DoExport
            | Action::DoMigrate
            | Action::PreviewContactPaste
            | Action::ConfirmAddContact
            | Action::AddPasskey
            | Action::ConfirmEnableAutoUnlock
            | Action::DoExportIdentity => self.key_action(action),
            Action::StartListen
            | Action::StartSend
            | Action::StopTransfer
            | Action::AcceptIncoming
            | Action::RejectIncoming
            | Action::CancelTransfer => self.transfer_action(action),
            Action::Lock
            | Action::Nav(_)
            | Action::CloseVault
            | Action::DismissToast
            | Action::CopyPubKey
            | Action::BeginVerify(_)
            | Action::RemovePasskey(_)
            | Action::DisableAutoUnlock
            | Action::OpenVault(_)
            | Action::DeleteVault(_)
            | Action::AddFiles
            | Action::AddFolder
            | Action::DropPaths(_)
            | Action::Trash(_)
            | Action::PurgeTrashed(_)
            | Action::ExtractAll
            | Action::ImportContainer
            | Action::PreviewContactFile
            | Action::ConfirmVerify(_)
            | Action::SetTrust(_, _)
            | Action::RemoveContact(_)
            | Action::SavePubKey => self.other_action(action),
            _ => {
                match &mut self.state {
                    State::Unlocked(s) => s.dialog(action),
                    _ => {},
                }
                Effect::Nothing
            },
        }
    }
}

// ---------------------------------------------------------------------------
// Reports
// ---------------------------------------------------------------------------

/// The toast after a report: its own, or the one that was there.
pub open spec fn toast_after(a: App, report: JobReport) -> Option<Toast> {
    match report.toast {
        Some((msg, error)) => Some(Toast { msg, error }),
        None => a.toast,
    }
}

/// What an outcome changes in the session.
pub open spec fn outcome_step(outcome: Outcome, s: Session, t: Session) -> bool {
    match outcome {
        Outcome::Created { registry, id, entries } => {
            &&& t.new_vault_name@.len() == 0
            &&& browse_reset(
                Session {
                    registry,
                    new_vault_name: t.new_vault_name,
                    show_new_vault: false,
                    open: Some(OpenVault { id, entries }),
                    ..s
                },
                t,
            )
        },
        Outcome::SetOpen { id, entries } => browse_reset(
            Session { open: Some(OpenVault { id, entries }), ..s },
            t,
        ),
        Outcome::ReplaceOpen { id, entries, registry } => t == (Session {
            registry,
            open: Some(OpenVault { id, entries }),
            ..s
        }),
        Outcome::CreatedTextFile { id, entries, registry, path, leaf } => {
            &&& t.new_file_name@.len() == 0
            &&& t.text_editor is Some
            &&& t.text_editor->0.path == path && t.text_editor->0.leaf == leaf
            &&& t.text_editor->0.content@.len() == 0 && t.text_editor->0.original@.len() == 0
            &&& t == (Session {
                registry,
                open: Some(OpenVault { id, entries }),
                show_new_file: false,
                new_file_name: t.new_file_name,
                text_editor: t.text_editor,
                ..s
            })
        },
        Outcome::OpenTextEditor(te) => t == (Session { text_editor: Some(te), ..s }),
        Outcome::SavedTextFile { id, entries, registry } => t == (Session {
            registry,
            open: Some(OpenVault { id, entries }),
            text_editor: None,
            ..s
        }),
        Outcome::Deleted { registry, closed_id } => t == (Session {
            registry,
            open: if s.open is Some && s.open->0.id@ == closed_id@ {
                None
            } else {
                s.open
            },
            ..s
        }),
        Outcome::StartCheckout(c) => t == (Session { checkout: Some(c), ..s }),
        Outcome::EndCheckout { replace } => match replace {
            Some((id, entries, registry)) => t == (Session {
                checkout: None,
                registry,
                open: Some(OpenVault { id, entries }),
                ..s
            }),
            None => t == (Session { checkout: None, ..s }),
        },
        Outcome::StartView(v) => t.views@ == s.views@.push(v) && t == (Session {
            views: t.views,
            ..s
        }),
        Outcome::Imported(data) => imported(s, t, data),
        Outcome::Contacts(book) => t == (Session { contacts: book, ..s }),
        Outcome::PasskeysUpdated(passkeys) => t == (Session { passkeys, add_passkey: None, ..s }),
        Outcome::AutoUnlockChanged(on) => t == (Session {
            auto_unlock: on,
            auto_unlock_form: None,
            ..s
        }),
        Outcome::ExportIdentityDone => t == (Session { export_identity: None, ..s }),
        _ => t == s,
    }
}

/// What a report changes.
pub open spec fn applied(a: App, report: JobReport, b: App) -> bool {
    let a1 = App { toast: toast_after(a, report), ..a };
    match report.outcome {
        Outcome::Unlocked(init) => b.state is Unlocked && fresh(b.state->Unlocked_0, init) && b == (
        App { state: b.state, ..a1 }),
        Outcome::FirstRunFailed(msg) => match (a.state, b.state) {
            (State::FirstRun(f), State::FirstRun(g)) => b == (App { state: b.state, ..a1 })
                && match f.restore {
                Some(r) => g == (FirstRun {
                    restore: Some(RestoreForm { error: Some(msg), ..r }),
                    ..f
                }),
                None => g == (FirstRun { error: Some(msg), ..f }),
            },
            (State::FirstRun(_), _) => false,
            _ => b == a1,
        },
        Outcome::UnlockFailed(msg) => match (a.state, b.state) {
            (State::Unlock(u), State::Unlock(v)) => b == (App { state: b.state, ..a1 }) && v == (
            Unlock { error: Some(msg), ..u }),
            (State::Unlock(_), _) => false,
            _ => b == a1,
        },
        _ => on_session(a1, b, |s: Session, t: Session| outcome_step(report.outcome, s, t)),
    }
}

impl Session {
    /// Takes the outcome of a job into the session.
    pub fn take_outcome(&mut self, outcome: Outcome)
        ensures
            outcome_step(outcome, *old(self), *final(self)),
    {
        match outcome {
            Outcome::Created { registry, id, entries } => {
                self.registry = registry;
                self.new_vault_name = String::new();
                self.show_new_vault = false;
                self.reset_browse();
                self.open = Some(OpenVault { id, entries });
            },
            Outcome::SetOpen { id, entries } => {
                self.reset_browse();
                self.open = Some(OpenVault { id, entries });
            },
            Outcome::ReplaceOpen { id, entries, registry } => {
                self.registry = registry;
                self.open = Some(OpenVault { id, entries });
            },
            Outcome::CreatedTextFile { id, entries, registry, path, leaf } => {
                self.registry = registry;
                self.open = Some(OpenVault { id, entries });
                self.show_new_file = false;
                self.new_file_name = String::new();
                self.text_editor = Some(
                    TextEditor { path, leaf, content: String::new(), original: String::new() },
                );
            },
            Outcome::OpenTextEditor(te) => {
                self.text_editor = Some(te);
            },
            Outcome::SavedTextFile { id, entries, registry } => {
                self.registry = registry;
                self.open = Some(OpenVault { id, entries });
                self.close_text_editor();
            },
            Outcome::Deleted { registry, closed_id } => {
                self.registry = registry;
                let closes = match &self.open {
                    Some(o) => same_text(&o.id, &closed_id),
                    None => false,
                };
                if closes {
                    self.open = None;
                }
            },
            Outcome::StartCheckout(c) => {
                self.checkout = Some(c);
            },
            Outcome::EndCheckout { replace } => {
                self.checkout = None;
                match replace {
                    Some((id, entries, registry)) => {
                        self.registry = registry;
                        self.open = Some(OpenVault { id, entries });
                    },
                    None => {},
                }
            },
            Outcome::StartView(v) => self.views.push(v),
            Outcome::Imported(data) => self.take_import(data),
            Outcome::Contacts(book) => {
                self.contacts = book;
            },
            Outcome::PasskeysUpdated(passkeys) => {
                self.passkeys = passkeys;
                self.cancel_add_passkey();
            },
            Outcome::AutoUnlockChanged(on) => {
                self.auto_unlock = on;
                self.cancel_auto_unlock();
            },
            Outcome::ExportIdentityDone => self.cancel_export_identity(),
            _ => {},
        }
    }
}

impl App {
    /// Applies the report of a finished job.
    pub fn apply(&mut self, report: JobReport)
        ensures
            applied(*old(self), report, *final(self)),
    {
        match report.toast {
            Some((msg, error)) => self.set_toast(msg, error),
            None => {},
        }
        match report.outcome {
            Outcome::Unlocked(init) => {
                self.state = State::Unlocked(Session::new(init));
            },
            Outcome::FirstRunFailed(msg) => match &mut self.state {
                State::FirstRun(f) => f.fail(msg),
                _ => {},
            },
            Outcome::UnlockFailed(msg) => match &mut self.state {
                State::Unlock(u) => {
                    u.error = Some(msg);
                },
                _ => {},
            },
            outcome => match &mut self.state {
                State::Unlocked(s) => s.take_outcome(outcome),
                _ => {},
            },
        }
    }

    /// Opens the restore form for a backup file that was picked.
    pub fn backup_picked(&mut self, path: String)
        ensures
            match (old(self).state, final(self).state) {
                (State::FirstRun(f), State::FirstRun(g)) => {
                    &&& *final(self) == (App { state: final(self).state, ..*old(self) })
                    &&& g == (FirstRun { error: None, restore: g.restore, ..f })
                    &&& g.restore is Some && g.restore->0.path == path
                    &&& g.restore->0.backup_pass@.len() == 0 && g.restore->0.new_pass@.len() == 0
                    &&& g.restore->0.new_pass2@.len() == 0 && g.restore->0.error is None
                },
                (State::FirstRun(_), _) => false,
                _ => *final(self) == *old(self),
            },
    {
        match &mut self.state {
            State::FirstRun(f) => f.begin_restore(path),
            _ => {},
        }
    }

    /// Stages a key that was parsed, or shows why it could not be.
    pub fn key_parsed(&mut self, parsed: Result<PublicKey, String>)
        ensures
            match parsed {
                Ok(key) => on_session(
                    *old(self),
                    *final(self),
                    |s: Session, t: Session| staged(s, t, key),
                ),
                Err(e) => only_refused(
                    *old(self),
                    *final(self),
                    "Couldn't read that key: "@ + e@,
                ),
            },
    {
        match parsed {
            Ok(key) => match &mut self.state {
                State::Unlocked(s) => s.stage_contact(key),
                _ => {},
            },
            Err(e) => self.set_toast(
                crate::text::concat2("Couldn't read that key: ", &e),
                true,
            ),
        }
    }

    /// Closes the export dialog: a target was picked.
    pub fn export_started(&mut self)
        ensures
            on_session(
                *old(self),
                *final(self),
                |s: Session, t: Session| t == (Session { export: None, ..s }),
            ),
    {
        match &mut self.state {
            State::Unlocked(s) => {
                s.export = None;
            },
            _ => {},
        }
    }

    /// Closes the identity backup dialog: no target was picked.
    pub fn backup_export_dropped(&mut self)
        ensures
            on_session(
                *old(self),
                *final(self),
                |s: Session, t: Session| t == (Session { export_identity: None, ..s }),
            ),
    {
        match &mut self.state {
            State::Unlocked(s) => s.cancel_export_identity(),
            _ => {},
        }
    }

    /// Applies a report of the transfer worker. The registry is to be saved if it
    /// changed, which the result tells.
    pub fn apply_net_event(&mut self, event: NetEvent) -> (save: bool)
        ensures
            save == (old(self).state is Unlocked && event is Received),
            final(self).auto_unlock_pending == old(self).auto_unlock_pending,
            match (old(self).state, final(self).state) {
                (State::Unlocked(s), State::Unlocked(t)) => {
                    &&& t == (Session { transfer: t.transfer, registry: t.registry, ..s })
                    &&& t.transfer == (TransferState { active: t.transfer.active, ..s.transfer })
                    &&& match s.transfer.active {
                        Some(x) => transfer_after(x, event, t.transfer.active),
                        None => t.transfer.active is None,
                    }
                    &&& match event {
                        NetEvent::Received { meta, file_count, sender_name } => t.registry.vaults@
                            == with_vault(s.registry.vaults@, meta),
                        _ => t.registry == s.registry,
                    }
                },
                (State::Unlocked(_), _) => false,
                _ => final(self).state == old(self).state,
            },
            if old(self).state is Unlocked || event is Received {
                match event_toast(event) {
                    Some((msg, error)) => says(final(self).toast, msg, error),
                    None => final(self).toast == old(self).toast,
                }
            } else {
                final(self).toast == old(self).toast
            },
    {
        match &mut self.state {
            State::Unlocked(s) => {
                let mut save = false;
                match &event {
                    NetEvent::Received { meta, file_count: _, sender_name: _ } => {
                        s.registry.upsert(meta.copy());
                        save = true;
                    },
                    _ => {},
                }
                match s.transfer.apply_event(event) {
                    Some((msg, error)) => self.set_toast(msg, error),
                    None => {},
                }
                save
            },
            _ => {
                match event {
                    NetEvent::Received { meta, file_count, sender_name } => {
                        let msg = crate::transfer::received_message(
                            &meta.name,
                            sender_name,
                            file_count,
                        );
                        self.set_toast(msg, false);
                    },
                    _ => {},
                }
                false
            },
        }
    }
}

// ---------------------------------------------------------------------------
// Clicks on rows
// ---------------------------------------------------------------------------

/// What a click on row `idx` changes, and the step it leads to.
pub open spec fn row_clicked(
    a: Session,
    b: Session,
    rows: Seq<RowView>,
    idx: int,
    click: RowClick,
    r: Option<Action>,
) -> bool {
    let path = rows[idx].path;
    match click {
        RowClick::Idle => b == a && r is None,
        RowClick::Double => if rows[idx].kind == EntryKind::Dir {
            &&& b == a
            &&& r is Some && r->0 is EnterDir && r->0->EnterDir_0@ == path
        } else {
            &&& b == (Session { selected: b.selected, select_anchor: b.select_anchor, ..a })
            &&& b.selected@ == set![path]
            &&& opt_text(b.select_anchor) == Some(path)
            &&& r is Some && r->0 is ViewFile && r->0->ViewFile_0@ == path
        },
        RowClick::Single { shift, toggle } => {
            &&& b == (Session { selected: b.selected, select_anchor: b.select_anchor, ..a })
            &&& b.selected@ == selection_after(
                a.selected@,
                opt_text(a.select_anchor),
                rows,
                idx,
                shift,
                toggle,
            )
            &&& opt_text(b.select_anchor) == anchor_after(
                opt_text(a.select_anchor),
                rows,
                idx,
                shift,
            )
            &&& r is None
        },
    }
}

/// Resolves a click on a row into the new selection, and the step it leads to. A
/// double click opens: a folder is entered, a file viewed.
pub fn apply_row_click(s: &mut Session, rows: &[Row], idx: usize, click: RowClick) -> (r: Option<
    Action,
>)
    requires
        idx < rows@.len(),
    ensures
        row_clicked(*old(s), *final(s), row_views(rows@), idx as int, click, r),
{
    assert(row_views(rows@)[idx as int] == rows@[idx as int]@);
    match click {
        RowClick::Idle => None,
        RowClick::Double => {
            let path = rows[idx].path.clone();
            if rows[idx].kind == EntryKind::Dir {
                Some(Action::EnterDir(path))
            } else {
                let mut only = TextSet::new();
                only.insert(&path);
                assert(only@ =~= set![path@]);
                s.selected = only;
                s.select_anchor = Some(path.clone());
                Some(Action::ViewFile(path))
            }
        },
        RowClick::Single { shift, toggle } => {
            resolve_single_click(
                &mut s.selected,
                &mut s.select_anchor,
                rows,
                idx,
                shift,
                toggle,
            );
            None
        },
    }
}

// ---------------------------------------------------------------------------
// What is shown while work is under way
// ---------------------------------------------------------------------------

/// What is shown while a piece of work is under way; some take no time.
pub open spec fn label_text(e: Effect) -> Option<Seq<char>> {
    match e {
        Effect::Unlock { pass, legacy } => Some(if legacy {
            "Recovering and upgrading local state…"@
        } else {
            "Unlocking…"@
        }),
        Effect::CreateIdentity { .. } => Some("Creating identity…"@),
        Effect::RestoreIdentity(_) => Some("Restoring identity…"@),
        Effect::UnlockWithPasskey { .. } => Some("Waiting for your security key…"@),
        Effect::UnlockWithKeyring => Some("Unlocking from this device…"@),
        Effect::AddPasskey(_) => Some("Touch your security key twice to enroll it…"@),
        Effect::RemovePasskey(_) => Some("Removing security key…"@),
        Effect::EnableAutoUnlock { .. } => Some("Saving to this device…"@),
        Effect::DisableAutoUnlock => Some("Updating this device…"@),
        Effect::CreateVault { .. } => Some("Creating vault…"@),
        Effect::OpenVault(_) => Some("Opening vault…"@),
        Effect::DeleteVault(_) => Some("Deleting vault…"@),
        Effect::PickFiles | Effect::PickFolder | Effect::AddPaths(_) => Some("Encrypting…"@),
        Effect::NewFile(_) => Some("Creating…"@),
        Effect::ReadText { .. } | Effect::View { .. } => Some("Opening…"@),
        Effect::TrashPaths(_) | Effect::TrashEntry(_) => Some("Moving to Trash…"@),
        Effect::Restore { .. } => Some("Restoring…"@),
        Effect::Purge(_) => Some("Deleting…"@),
        Effect::EmptyTrash => Some("Emptying Trash…"@),
        Effect::Rename(_) => Some("Renaming…"@),
        Effect::Move(_) => Some("Moving…"@),
        Effect::Extract(_) | Effect::ExtractAll => Some("Decrypting…"@),
        Effect::SaveAs { .. } => Some("Decrypting file…"@),
        Effect::CheckOut { .. } => Some("Checking out…"@),
        Effect::CheckIn => Some("Checking in…"@),
        Effect::Discard => Some("Discarding…"@),
        Effect::PickContainer => Some("Verifying & decrypting…"@),
        Effect::Export(_) => Some("Encrypting & exporting…"@),
        Effect::Migrate { .. } => Some("Upgrading to post-quantum…"@),
        Effect::AddContact(_) => Some("Saving contact…"@),
        Effect::ExportIdentity { .. } => Some("Exporting identity…"@),
        Effect::NewFolder(_) | Effect::SaveText(_) | Effect::SetTrust { .. } | Effect::RemoveContact { .. } | Effect::SavePublicKey => Some("Saving…"@),
        _ => None,
    }
}

/// What is shown while a piece of work is under way.
pub fn job_label(e: &Effect) -> (r: Option<&'static str>)
    ensures
        match r {
            Some(t) => label_text(*e) == Some(t@),
            None => label_text(*e) is None,
        },
{
    match e {
        Effect::Unlock { pass: _, legacy } => Some(
            if *legacy {
                "Recovering and upgrading local state…"
            } else {
                "Unlocking…"
            },
        ),
        Effect::CreateIdentity { .. } => Some("Creating identity…"),
        Effect::RestoreIdentity(_) => Some("Restoring identity…"),
        Effect::UnlockWithPasskey { .. } => Some("Waiting for your security key…"),
        Effect::UnlockWithKeyring => Some("Unlocking from this device…"),
        Effect::AddPasskey(_) => Some("Touch your security key twice to enroll it…"),
        Effect::RemovePasskey(_) => Some("Removing security key…"),
        Effect::EnableAutoUnlock { .. } => Some("Saving to this device…"),
        Effect::DisableAutoUnlock => Some("Updating this device…"),
        Effect::CreateVault { .. } => Some("Creating vault…"),
        Effect::OpenVault(_) => Some("Opening vault…"),
        Effect::DeleteVault(_) => Some("Deleting vault…"),
        Effect::PickFiles | Effect::PickFolder | Effect::AddPaths(_) => Some("Encrypting…"),
        Effect::NewFile(_) => Some("Creating…"),
        Effect::ReadText { .. } | Effect::View { .. } => Some("Opening…"),
        Effect::TrashPaths(_) | Effect::TrashEntry(_) => Some("Moving to Trash…"),
        Effect::Restore { .. } => Some("Restoring…"),
        Effect::Purge(_) => Some("Deleting…"),
        Effect::EmptyTrash => Some("Emptying Trash…"),
        Effect::Rename(_) => Some("Renaming…"),
        Effect::Move(_) => Some("Moving…"),
        Effect::Extract(_) | Effect::ExtractAll => Some("Decrypting…"),
        Effect::SaveAs { .. } => Some("Decrypting file…"),
        Effect::CheckOut { .. } => Some("Checking out…"),
        Effect::CheckIn => Some("Checking in…"),
        Effect::Discard => Some("Discarding…"),
        Effect::PickContainer => Some("Verifying & decrypting…"),
        Effect::Export(_) => Some("Encrypting & exporting…"),
        Effect::Migrate { .. } => Some("Upgrading to post-quantum…"),
        Effect::AddContact(_) => Some("Saving contact…"),
        Effect::ExportIdentity { .. } => Some("Exporting identity…"),
        Effect::NewFolder(_) | Effect::SaveText(_) | Effect::SetTrust { .. } | Effect::RemoveContact { .. } | Effect::SavePublicKey => Some("Saving…"),
        _ => None,
    }
}

// ---------------------------------------------------------------------------
// Laws
// ---------------------------------------------------------------------------

/// While a file is checked out no step locks the keystore, leaves the vault or
/// forgets the checkout: the temp file is never orphaned.
pub proof fn law_checkout_is_never_orphaned(a: App, action: Action, b: App, e: Effect)
    requires
        has_checkout(a),
        acted(a, action, b, e),
    ensures
        has_checkout(b),
        b.state->Unlocked_0.checkout == a.state->Unlocked_0.checkout,
        b.state->Unlocked_0.open == a.state->Unlocked_0.open,
        b.state->Unlocked_0.nav == a.state->Unlocked_0.nav,
        !(e is Lock),
{
}

/// Copies in view are never forgotten: a step keeps them all, or hands all of them
/// out to be wiped.
pub proof fn law_views_are_kept_or_wiped(a: App, action: Action, b: App, e: Effect)
    requires
        acted(a, action, b, e),
        a.state is Unlocked,
    ensures
        b.state is Unlocked,
        b.state->Unlocked_0.views == a.state->Unlocked_0.views || (
        b.state->Unlocked_0.views@.len() == 0 && e == Effect::WipeViews(
            a.state->Unlocked_0.views,
        )),
{
}

/// No step leaves the session by itself: identity, contacts and registry change only
/// through the reports of jobs.
pub proof fn law_steps_keep_what_is_stored(a: App, action: Action, b: App, e: Effect)
    requires
        acted(a, action, b, e),
        a.state is Unlocked,
    ensures
        b.state is Unlocked,
        b.state->Unlocked_0.identity == a.state->Unlocked_0.identity,
        b.state->Unlocked_0.contacts == a.state->Unlocked_0.contacts,
        b.state->Unlocked_0.registry == a.state->Unlocked_0.registry,
{
}

/// A session begins only with the report that the keystore was opened.
pub proof fn law_only_unlocking_unlocks(a: App, report: JobReport, b: App)
    requires
        applied(a, report, b),
        !(a.state is Unlocked),
    ensures
        b.state is Unlocked <==> report.outcome is Unlocked,
{
}

/// Nothing is destroyed or trusted that the user did not name: what is deleted, purged,
/// discarded, removed, restored or changed in trust is what the step says, and only that.
pub proof fn law_only_what_was_named_is_touched(a: App, action: Action, b: App, e: Effect)
    requires
        acted(a, action, b, e),
    ensures
        e is DeleteVault ==> action == Action::DeleteVault(e->DeleteVault_0),
        e is Purge ==> action == Action::PurgeTrashed(e->Purge_0),
        e is TrashEntry ==> action == Action::Trash(e->TrashEntry_0),
        e is TrashPaths ==> action is TrashSelected,
        e is EmptyTrash ==> action is EmptyTrash,
        e is Discard ==> action is Discard,
        e is Restore ==> action == Action::RestoreTrashed(e->Restore_from),
        e is RemovePasskey ==> action == Action::RemovePasskey(e->RemovePasskey_0),
        e is DisableAutoUnlock ==> action is DisableAutoUnlock,
        e is RemoveContact ==> action is RemoveContact && fingerprint_of(
            action->RemoveContact_0@,
        ) == Some(e->RemoveContact_fpr@),
        e is SetTrust && e->trust == Trust::Verified ==> (action is ConfirmVerify && fingerprint_of(
            action->ConfirmVerify_0@,
        ) == Some(e->SetTrust_fpr@)) || (action is SetTrust && action->SetTrust_1
            == Trust::Verified && fingerprint_of(action->SetTrust_0@) == Some(e->SetTrust_fpr@)),
        e is SetTrust && e->trust == Trust::Unverified ==> action is SetTrust && action->SetTrust_1
            == Trust::Unverified && fingerprint_of(action->SetTrust_0@) == Some(e->SetTrust_fpr@),
        e is Lock ==> action is Lock,
        e is WipeViews ==> action is Nav || action is CloseVault,
        e is Migrate ==> action is DoMigrate,
        e is Export ==> action is DoExport,
        e is ExportIdentity ==> action is DoExportIdentity,
        e is Command ==> (e->Command_0 == NetCommand::AcceptOffer <==> action is AcceptIncoming),
        e is Command ==> (e->Command_0 == NetCommand::RejectOffer <==> action is RejectIncoming),
        e is StartListener ==> action is StartListen,
        e is StartSender ==> action is StartSend,
{
}

/// What the user asks for in a session is what is done: the vault that was chosen is opened
/// or deleted, the files that were dropped are added, the entry that was named is trashed or
/// purged, the contact that was named changes its trust or is removed.
pub proof fn law_a_step_does_what_was_asked(a: App, action: Action, b: App, e: Effect)
    requires
        acted(a, action, b, e),
        a.state is Unlocked,
    ensures
        action is OpenVault ==> e == Effect::OpenVault(action->OpenVault_0),
        action is DeleteVault ==> e == Effect::DeleteVault(action->DeleteVault_0),
        action is RemovePasskey ==> e == Effect::RemovePasskey(action->RemovePasskey_0),
        action is AddFiles ==> e is PickFiles,
        action is AddFolder ==> e is PickFolder,
        action is ImportContainer ==> e is PickContainer,
        action is CopyPubKey ==> e is CopyPublicKey,
        action is SavePubKey ==> e is SavePublicKey,
        action is DisableAutoUnlock ==> e is DisableAutoUnlock,
        a.state->Unlocked_0.open is Some ==> {
            &&& action is Trash ==> e == Effect::TrashEntry(action->Trash_0)
            &&& action is PurgeTrashed ==> e == Effect::Purge(action->PurgeTrashed_0)
            &&& action is ExtractAll ==> e is ExtractAll
            &&& action is EmptyTrash ==> e is EmptyTrash
            &&& action is DropPaths && action->DropPaths_0@.len() > 0 ==> e == Effect::AddPaths(
                action->DropPaths_0,
            )
        },
        a.state->Unlocked_0.checkout is Some ==> (action is Discard ==> e is Discard),
        action is SetTrust && fingerprint_of(action->SetTrust_0@) is Some ==> e is SetTrust
            && e->SetTrust_fpr@ == fingerprint_of(action->SetTrust_0@)->0 && e->trust
            == action->SetTrust_1,
        action is ConfirmVerify && fingerprint_of(action->ConfirmVerify_0@) is Some
            ==> e is SetTrust && e->SetTrust_fpr@ == fingerprint_of(action->ConfirmVerify_0@)->0
            && e->trust == Trust::Verified && b.state is Unlocked
            && b.state->Unlocked_0.verify is None,
        action is RemoveContact && fingerprint_of(action->RemoveContact_0@) is Some
            ==> e is RemoveContact && e->RemoveContact_fpr@ == fingerprint_of(
            action->RemoveContact_0@,
        )->0,
        a.state->Unlocked_0.transfer.active is Some ==> {
            &&& action is AcceptIncoming ==> e == Effect::Command(NetCommand::AcceptOffer)
            &&& action is RejectIncoming ==> e == Effect::Command(NetCommand::RejectOffer)
            &&& action is CancelTransfer ==> e == Effect::Command(NetCommand::Cancel)
            &&& action is StopTransfer ==> e is StopTransfer
        },
        a.state->Unlocked_0.checkout is None ==> {
            &&& action is Lock ==> e is Lock
            &&& action is Nav ==> b.state->Unlocked_0.nav == action->Nav_0
                && b.state->Unlocked_0.open is None
            &&& action is CloseVault ==> b.state->Unlocked_0.open is None
                && b.state->Unlocked_0.current_dir@.len() == 0 && b.state->Unlocked_0.selected@
                == Set::<Seq<char>>::empty()
        },
{
}

/// The screens before the session do what was typed there: the passphrase goes to the
/// keystore, the PIN to the security key, and neither is done from another screen.
pub proof fn law_unlocking_takes_what_was_typed(a: App, action: Action, b: App, e: Effect)
    requires
        acted(a, action, b, e),
    ensures
        action is Unlock && a.state is Unlock ==> e is Unlock && e->Unlock_pass@
            == a.state->Unlock_0.pass@ && e->legacy == a.state->Unlock_0.legacy_recovery,
        e is Unlock ==> action is Unlock && a.state is Unlock,
        action is UnlockWithPasskey && a.state is Unlock ==> e is UnlockWithPasskey && (
        e->pin is Some <==> crate::text::trimmed(a.state->Unlock_0.pin@).len() > 0),
        e is UnlockWithKeyring ==> action is UnlockWithKeyring,
        action is UnlockWithKeyring ==> e is UnlockWithKeyring,
        e is CreateIdentity ==> action is CreateIdentity && a.state is FirstRun
            && e->CreateIdentity_name@ == crate::text::trimmed(a.state->FirstRun_0.name@)
            && e->CreateIdentity_pass@ == a.state->FirstRun_0.pass@
            && crate::passphrase::is_strong(e->CreateIdentity_pass@),
{
    if e is CreateIdentity && a.state is FirstRun && b.state is FirstRun {
        let f = a.state->FirstRun_0;
        let g = b.state->FirstRun_0;
        let r = choose|r: Option<(String, Secret)>| #[trigger]
            create_asked(f, g, r) && e == (match r {
                Some((name, pass)) => Effect::CreateIdentity { name, pass },
                None => Effect::Nothing,
            });
        crate::forms::law_an_identity_is_created_as_typed(f, g, (r->0).0, (r->0).1);
    }
}

/// The application starts locked, at the screen that fits what was found: a new user creates
/// an identity, a known one unlocks it. The keychain is to be tried only where a token is
/// saved and can be read.
pub proof fn law_the_application_starts_locked(found: Found, auto_supported: bool, a: App)
    requires
        call_ensures(App::new, (found, auto_supported), a),
    ensures
        a.auto_unlock_pending ==> a.state is Unlock && auto_supported && found is Identity
            && found->Identity_0.has_saved,
        found is Identity && found->Identity_0.has_saved && auto_supported
            ==> a.auto_unlock_pending,
        found is NoIdentity ==> a.state is FirstRun,
        found is Failed ==> a.state == State::Fatal(found->Failed_0),
        found is Identity ==> a.state is Unlock,
        !(a.state is Unlocked),
{
}

/// What a job brought about is what the session shows: the vault it opened or saved, the
/// registry and the contacts it stored, the edit it began or ended, the copy it put in view.
pub proof fn law_reports_take_effect(a: App, report: JobReport, b: App)
    requires
        applied(a, report, b),
        a.state is Unlocked,
        !(report.outcome is Unlocked),
    ensures
        b.state is Unlocked,
        ({
            let s = a.state->Unlocked_0;
            let t = b.state->Unlocked_0;
            let o = report.outcome;
            &&& o is SetOpen ==> t.open == Some(
                OpenVault { id: o->SetOpen_id, entries: o->SetOpen_entries },
            ) && t.current_dir@.len() == 0 && t.selected@ == Set::<Seq<char>>::empty()
            &&& o is ReplaceOpen ==> t.open == Some(
                OpenVault { id: o->ReplaceOpen_id, entries: o->ReplaceOpen_entries },
            ) && t.registry == o->ReplaceOpen_registry && t.current_dir == s.current_dir
            &&& o is Created ==> t.open == Some(
                OpenVault { id: o->Created_id, entries: o->Created_entries },
            ) && t.registry == o->Created_registry
            &&& o is Deleted ==> t.registry == o->Deleted_registry && (s.open is Some
                && s.open->0.id@ == o->closed_id@ ==> t.open is None) && (s.open is Some
                && s.open->0.id@ != o->closed_id@ ==> t.open == s.open)
            &&& o is StartCheckout ==> t.checkout == Some(o->StartCheckout_0)
            &&& o is EndCheckout ==> t.checkout is None
            &&& !(o is StartCheckout || o is EndCheckout) ==> t.checkout == s.checkout
            &&& o is StartView ==> t.views@ == s.views@.push(o->StartView_0)
            &&& !(o is StartView) ==> t.views == s.views
            &&& o is Contacts ==> t.contacts == o->Contacts_0
            &&& !(o is Contacts) ==> t.contacts == s.contacts
            &&& o is OpenTextEditor ==> t.text_editor == Some(o->OpenTextEditor_0)
            &&& o is SavedTextFile ==> t.text_editor is None
            &&& o is PasskeysUpdated ==> t.passkeys == o->PasskeysUpdated_0
            &&& o is AutoUnlockChanged ==> t.auto_unlock == o->AutoUnlockChanged_0
            &&& o is Imported ==> t.registry == o->Imported_0.registry && t.last_import is Some
                && t.last_import->0.sender == o->Imported_0.sender
            &&& t.identity == s.identity
            &&& o is Noop ==> t == s
        }),
        report.toast is Some ==> b.toast is Some && b.toast->0.msg == (report.toast->0).0
            && b.toast->0.error == (report.toast->0).1,
        report.toast is None ==> b.toast == a.toast,
{
}

/// Unlocking gives a session with the identity, contacts and registry that were read, and
/// with nothing open; a failure to unlock is shown on the screen that asked, and keeps the
/// session away.
pub proof fn law_unlocking_gives_what_was_read(a: App, report: JobReport, b: App)
    requires
        applied(a, report, b),
    ensures
        report.outcome is Unlocked ==> b.state is Unlocked && b.state->Unlocked_0.identity
            == report.outcome->Unlocked_0.identity && b.state->Unlocked_0.contacts
            == report.outcome->Unlocked_0.contacts && b.state->Unlocked_0.registry
            == report.outcome->Unlocked_0.registry && b.state->Unlocked_0.open is None
            && b.state->Unlocked_0.checkout is None && b.state->Unlocked_0.selected@ == Set::<
            Seq<char>,
        >::empty(),
        report.outcome is UnlockFailed && a.state is Unlock ==> b.state is Unlock
            && b.state->Unlock_0.error == Some(report.outcome->UnlockFailed_0),
        report.outcome is FirstRunFailed && a.state is FirstRun ==> b.state is FirstRun,
{
}

/// Double-clicking a folder enters it, and double-clicking a file selects and views it.
pub proof fn law_a_double_click_opens(
    a: Session,
    b: Session,
    rows: Seq<RowView>,
    idx: int,
    r: Option<Action>,
)
    requires
        0 <= idx < rows.len(),
        row_clicked(a, b, rows, idx, RowClick::Double, r),
    ensures
        rows[idx].kind == EntryKind::Dir ==> r is Some && r->0 is EnterDir && r->0->EnterDir_0@
            == rows[idx].path && b == a,
        rows[idx].kind == EntryKind::File ==> r is Some && r->0 is ViewFile && r->0->ViewFile_0@
            == rows[idx].path && b.selected@.contains(rows[idx].path),
{
}

/// In a session every step keeps what is half done elsewhere: the text being edited is put
/// away only by closing the editor, and the open vault and folder change only by a step that
/// goes somewhere.
pub proof fn law_steps_do_not_interfere(a: App, action: Action, b: App, e: Effect)
    requires
        acted(a, action, b, e),
        a.state is Unlocked,
        b.state is Unlocked,
    ensures
        !(action is CloseTextEditor || action is CloseVault || action is Nav)
            ==> b.state->Unlocked_0.text_editor == a.state->Unlocked_0.text_editor,
        !(action is Nav || action is CloseVault) ==> b.state->Unlocked_0.open
            == a.state->Unlocked_0.open,
        !(action is EnterDir || action is CloseVault || action is Nav)
            ==> b.state->Unlocked_0.current_dir == a.state->Unlocked_0.current_dir,
        action is EnterDir ==> b.state->Unlocked_0.current_dir == action->EnterDir_0,
        action is SetSort ==> b.state->Unlocked_0.sort == action->SetSort_0,
        !(action is SetSort) ==> b.state->Unlocked_0.sort == a.state->Unlocked_0.sort,
        !(action is Nav) ==> b.state->Unlocked_0.nav == a.state->Unlocked_0.nav,
        action is ShowTrash ==> b.state->Unlocked_0.show_trash == action->ShowTrash_0,
        b.state->Unlocked_0.passkeys == a.state->Unlocked_0.passkeys,
        b.state->Unlocked_0.auto_unlock == a.state->Unlocked_0.auto_unlock,
{
}

/// While a job runs nothing is begun. What the user did otherwise is carried out as it is,
/// but for a toast put away, which is gone at once.
pub proof fn law_a_busy_application_begins_nothing(
    a: &mut App,
    busy: bool,
    action: Option<Action>,
    r: Option<Action>,
)
    requires
        call_ensures(App::next_action, (a, busy, action), r),
    ensures
        busy ==> r is None,
        !busy && action is Some && !(action->0 is DismissToast) ==> r == action,
        action is Some && action->0 is DismissToast ==> r is None && final(a).toast is None,
        action is Some && !(action->0 is DismissToast) ==> final(a).toast == old(a).toast,
        final(a).state == old(a).state,
{
}

/// The keychain is tried unasked at most once, and only at the unlock screen.
pub proof fn law_the_keychain_is_tried_unasked_once(
    a: &mut App,
    b: &mut App,
    first: Option<Action>,
    second: Option<Action>,
)
    requires
        call_ensures(App::next_action, (a, false, None::<Action>), first),
        *old(b) == *final(a),
        call_ensures(App::next_action, (b, false, None::<Action>), second),
    ensures
        first is Some ==> first == Some(Action::UnlockWithKeyring) && old(a).auto_unlock_pending
            && old(a).state is Unlock,
        old(a).auto_unlock_pending && old(a).state is Unlock ==> first is Some,
        second is None,
{
}

/// Locking forgets the session and everything typed, whatever the screen was, and hands out
/// every copy in view to be wiped.
pub proof fn law_locking_forgets_the_session(
    a: &mut App,
    probe: Option<StoreProbe>,
    v: Vec<ActiveView>,
)
    requires
        call_ensures(App::lock, (a, probe), v),
    ensures
        final(a).state is Unlock,
        final(a).state->Unlock_0.pass@.len() == 0 && final(a).state->Unlock_0.pin@.len() == 0,
        final(a).toast is None,
        old(a).state is Unlocked ==> v == old(a).state->Unlocked_0.views,
{
}

/// A vault that was received is in the registry, which is to be saved; the other vaults stay,
/// and no other report of the transfer changes the registry.
pub proof fn law_a_received_vault_is_registered(
    a: &mut App,
    event: NetEvent,
    save: bool,
    other: crate::store::VaultMeta,
)
    requires
        call_ensures(App::apply_net_event, (a, event), save),
        old(a).state is Unlocked,
    ensures
        final(a).state is Unlocked,
        save <==> event is Received,
        event is Received ==> final(a).state->Unlocked_0.registry.vaults@.contains(event->meta),
        event is Received && other.id@ != event->meta.id@ ==> (
        final(a).state->Unlocked_0.registry.vaults@.contains(other)
            <==> old(a).state->Unlocked_0.registry.vaults@.contains(other)),
        !(event is Received) ==> final(a).state->Unlocked_0.registry
            == old(a).state->Unlocked_0.registry,
        final(a).state->Unlocked_0.contacts == old(a).state->Unlocked_0.contacts,
        final(a).state->Unlocked_0.open == old(a).state->Unlocked_0.open,
        final(a).state->Unlocked_0.checkout == old(a).state->Unlocked_0.checkout,
{
    if let NetEvent::Received { meta, file_count, sender_name } = event {
        let before = old(a).state->Unlocked_0.registry.vaults@;
        crate::store::lemma_with_vault(before, meta);
        if other.id@ != meta.id@ {
            crate::store::law_other_vaults_stay(before, meta, other);
        }
    }
}

/// A backup that was picked is the one the form is about, and the form starts empty; a key
/// that was read is staged, and one that could not be read only raises a toast.
pub proof fn law_what_was_picked_is_shown(
    a: &mut App,
    path: String,
    b: &mut App,
    parsed: Result<PublicKey, String>,
)
    requires
        call_ensures(App::backup_picked, (a, path), ()),
        call_ensures(App::key_parsed, (b, parsed), ()),
    ensures
        old(a).state is FirstRun ==> final(a).state is FirstRun
            && final(a).state->FirstRun_0.restore is Some
            && final(a).state->FirstRun_0.restore->0.path == path
            && final(a).state->FirstRun_0.restore->0.backup_pass@.len() == 0,
        !(old(a).state is FirstRun) ==> *final(a) == *old(a),
        parsed is Err ==> final(b).state == old(b).state && final(b).toast is Some,
        parsed is Ok && old(b).state is Unlocked ==> final(b).state is Unlocked
            && final(b).state->Unlocked_0.contact_preview is Some
            && final(b).state->Unlocked_0.contact_preview->0.key == parsed->Ok_0
            && final(b).state->Unlocked_0.contacts == old(b).state->Unlocked_0.contacts,
{
}

/// A file of the open vault is saved as asked, and viewed or checked out while nothing is
/// edited; it is that file and no other.
pub proof fn law_a_file_is_opened_as_asked(
    a: &mut App,
    action: Action,
    e: Effect,
    path: Seq<char>,
    k: int,
)
    requires
        call_ensures(App::dispatch, (a, action), e),
        old(a).state is Unlocked,
        old(a).state->Unlocked_0.open is Some,
        action is ViewFile && action->ViewFile_0@ == path || action is CheckOut
            && action->CheckOut_0@ == path || action is SaveEntryAs && action->SaveEntryAs_0@
            == path,
        0 <= k < old(a).state->Unlocked_0.open->0.entries@.len(),
        ({
            let items = crate::browse::listing(old(a).state->Unlocked_0.open->0.entries@);
            &&& items[k].0 == path && items[k].1 == EntryKind::File
            &&& forall|i: int| 0 <= i < k ==> (#[trigger] items[i]).0 != path
        }),
    ensures
        action is SaveEntryAs ==> e is SaveAs && e->SaveAs_path@ == path,
        old(a).state->Unlocked_0.checkout is None && action is ViewFile ==> e is View
            && e->View_path@ == path,
        old(a).state->Unlocked_0.checkout is None && action is CheckOut ==> e is CheckOut
            && e->CheckOut_path@ == path,
        old(a).state->Unlocked_0.checkout is Some && (action is ViewFile || action is CheckOut)
            ==> e is Nothing,
{
    let s = old(a).state->Unlocked_0;
    let items = crate::browse::listing(s.open->0.entries@);
    assert(acted(*old(a), action, *final(a), e));
    crate::requests::lemma_entry_pos(items, path);
    assert(items.len() == s.open->0.entries@.len());
}

/// An edit is checked in where its own vault is open, and nowhere else; it can always be
/// discarded.
pub proof fn law_an_edit_can_be_finished(a: &mut App, action: Action, e: Effect)
    requires
        call_ensures(App::dispatch, (a, action), e),
        old(a).state is Unlocked,
        old(a).state->Unlocked_0.checkout is Some,
    ensures
        action is CheckIn && old(a).state->Unlocked_0.open is Some
            && old(a).state->Unlocked_0.open->0.id@ == old(a).state->Unlocked_0.checkout->0.vault_id@
            ==> e is CheckIn,
        e is CheckIn ==> old(a).state->Unlocked_0.open is Some
            && old(a).state->Unlocked_0.open->0.id@
            == old(a).state->Unlocked_0.checkout->0.vault_id@,
        action is Discard ==> e is Discard,
        final(a).state is Unlocked && final(a).state->Unlocked_0.checkout
            == old(a).state->Unlocked_0.checkout,
{
    assert(acted(*old(a), action, *final(a), e));
}

} // verus!
