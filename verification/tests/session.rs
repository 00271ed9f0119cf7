//! The application's state machine, from launch to lock.

use filesec::app::{apply_row_click, job_label, Action, App, Effect, Found, State};
use filesec::browse::{visible_rows, Entry, EntryKind, SortMode};
use filesec::contacts::{
    build_contact_preview, import_message, sender_info, trust_message, Contact, ContactBook,
    PreviewStatus, PublicKey, Trust, UpsertOutcome,
};
use filesec::fingerprint::hex;
use filesec::forms::{KeystoreProbe, StoreProbe, Unlock};
use filesec::net::{NatStatus, NetCommand, NetEvent};
use filesec::report::{finalize_after_save, finished_message, Finished, JobReport, Outcome};
use filesec::requests::{
    added_message, extract_all_list, extracted_all_message, extracted_message, moved_message,
    nothing_added, open_text, plan_move, trash_pairs, trashed_message,
};
use filesec::secret::Secret;
use filesec::select::RowClick;
use filesec::session::{
    ActiveView, Checkout, ImportData, Nav, OpenVault, Session, SessionInit, SuiteId, TextEditor,
};
use filesec::sharing::{
    check_in_unchanged, check_out_report, exported_message, next_check_in_step, next_temp_step, reopen_after_save,
    sizes_fit, suite_short, suggested_name, view_report, CheckInReply, CheckInStep, TempNext, TempStep, ViewLaunch,
};
use filesec::store::{Registry, VaultMeta};
use filesec::transfer::{combo_label, verified_contacts, ActiveKind};
use filesec::unlocking::{
    disable_next, enable_next, enroll_failed, keyring_next, passkey_next, passkey_start,
    restore_failed, unlock_next, unlock_start, upgrade_failed, DisableStep, EnableStep,
    KeyringReply, KeyringStep, PasskeyStep, RestoreFailure, SlotReply, UnlockStep, UpgradeFailure,
};

fn key(n: u8, name: &str) -> PublicKey {
    PublicKey {
        fpr: [n; 32],
        name: name.to_string(),
        display_name: format!("<{name}>"),
        safety_number: format!("SN{n}"),
        hybrid: n % 2 == 0,
    }
}

fn book() -> ContactBook {
    let mut b = ContactBook::new();
    b.contacts.push(Contact {
        key: key(2, "Alice"),
        trust: Trust::Verified,
        verified_at: Some(86_400),
    });
    b.contacts.push(Contact {
        key: key(3, "Bob"),
        trust: Trust::Unverified,
        verified_at: None,
    });
    b
}

fn init() -> SessionInit {
    let mut registry = Registry::new();
    registry.upsert(VaultMeta {
        id: "v".to_string(),
        name: "My vault".to_string(),
        created_at: 0,
        modified_at: 0,
        file_count: 0,
        total_size: 0,
    });
    SessionInit {
        identity: key(9, "Me"),
        contacts: book(),
        registry,
        passkeys: Vec::new(),
        auto_unlock: false,
        data_dir: "/d".to_string(),
        rollback_warning: None,
    }
}

fn entries() -> Vec<Entry> {
    vec![
        ("docs".to_string(), EntryKind::Dir, 0),
        ("docs/a.txt".to_string(), EntryKind::File, 10),
        ("b.bin".to_string(), EntryKind::File, 5_000_000),
        (".trash/7-aa-old.txt".to_string(), EntryKind::File, 1),
    ]
}

fn unlocked() -> App {
    let mut app = App::new(Found::NoIdentity, false);
    app.apply(JobReport::ok(Outcome::Unlocked(init()), String::new()));
    app.apply(JobReport::ok(
        Outcome::SetOpen {
            id: "v".to_string(),
            entries: entries(),
        },
        String::new(),
    ));
    app
}

fn session(app: &App) -> &Session {
    match &app.state {
        State::Unlocked(s) => s,
        _ => panic!("locked"),
    }
}

fn session_mut(app: &mut App) -> &mut Session {
    match &mut app.state {
        State::Unlocked(s) => s,
        _ => panic!("locked"),
    }
}

fn toast(app: &App) -> (String, bool) {
    match &app.toast {
        Some(t) => (t.msg.clone(), t.error),
        None => (String::new(), false),
    }
}

fn checkout() -> Checkout {
    Checkout {
        vault_id: "v".to_string(),
        entry_path: "docs/a.txt".to_string(),
        leaf: "a.txt".to_string(),
        temp_path: "/d/checkout/x.txt".to_string(),
        orig_blake3: [4; 32],
        mode: None,
    }
}

#[test]
fn launch_shows_the_right_screen() {
    let app = App::new(Found::Failed("no store".to_string()), true);
    assert!(matches!(&app.state, State::Fatal(e) if e == "no store"));
    let app = App::new(Found::NoIdentity, true);
    assert!(matches!(app.state, State::FirstRun(_)));
    let probe = StoreProbe {
        keystore: KeystoreProbe::Loaded { has_passkeys: true },
        recovery_pending: false,
        has_saved: true,
    };
    let mut app = App::new(Found::Identity(probe), true);
    assert!(app.auto_unlock_pending);
    // The keychain is tried once, and not while something runs.
    assert!(app.next_action(true, None).is_none());
    assert!(matches!(
        app.next_action(false, None),
        Some(Action::UnlockWithKeyring)
    ));
    assert!(app.next_action(false, None).is_none());
    assert!(matches!(
        app.dispatch(Action::UnlockWithKeyring),
        Effect::UnlockWithKeyring
    ));
}

#[test]
fn only_the_toast_can_be_dismissed_while_busy() {
    let mut app = unlocked();
    app.set_toast("x".to_string(), false);
    assert!(app.next_action(true, Some(Action::Lock)).is_none());
    assert!(app.toast.is_some());
    assert!(app.next_action(true, Some(Action::DismissToast)).is_none());
    assert!(app.toast.is_none());
    assert!(matches!(
        app.next_action(false, Some(Action::Lock)),
        Some(Action::Lock)
    ));
}

#[test]
fn a_damaged_keystore_asks_for_recovery() {
    let u = Unlock::for_store(&StoreProbe {
        keystore: KeystoreProbe::Failed(
            "error: legacy state requires explicit recovery!".to_string(),
        ),
        recovery_pending: false,
        has_saved: false,
    });
    assert!(u.legacy_recovery && !u.has_passkeys);
    let u = Unlock::for_store(&StoreProbe {
        keystore: KeystoreProbe::Failed("gone".to_string()),
        recovery_pending: true,
        has_saved: false,
    });
    assert!(!u.legacy_recovery);
}

#[test]
fn an_identity_is_created_from_a_complete_form() {
    let mut app = App::new(Found::NoIdentity, false);
    let error = |app: &App| match &app.state {
        State::FirstRun(f) => f.error.clone(),
        _ => None,
    };
    assert!(matches!(app.dispatch(Action::CreateIdentity), Effect::Nothing));
    assert_eq!(error(&app).as_deref(), Some("Please enter a display name."));
    if let State::FirstRun(f) = &mut app.state {
        f.name = "  Alice ".to_string();
        f.pass = "correct horse battery staple".to_string();
    }
    assert!(matches!(app.dispatch(Action::CreateIdentity), Effect::Nothing));
    assert_eq!(error(&app).as_deref(), Some("Passphrases do not match."));
    if let State::FirstRun(f) = &mut app.state {
        f.pass2 = f.pass.clone();
    }
    match app.dispatch(Action::CreateIdentity) {
        Effect::CreateIdentity { name, pass } => {
            assert_eq!(name, "Alice");
            assert_eq!(pass.expose(), "correct horse battery staple");
        }
        _ => panic!("must ask for an identity"),
    }
    match &app.state {
        State::FirstRun(f) => {
            assert!(f.pass.is_empty() && f.pass2.is_empty() && f.error.is_none())
        }
        _ => panic!("still the first run"),
    }
    app.apply(JobReport {
        outcome: Outcome::FirstRunFailed("disk".to_string()),
        toast: None,
    });
    assert_eq!(error(&app).as_deref(), Some("disk"));
}

#[test]
fn an_identity_is_restored_from_a_complete_form() {
    let mut app = App::new(Found::NoIdentity, false);
    assert!(matches!(app.dispatch(Action::BeginRestore), Effect::PickBackup));
    app.backup_picked("/b.fsecid".to_string());
    assert!(matches!(app.dispatch(Action::DoRestore), Effect::Nothing));
    if let State::FirstRun(f) = &mut app.state {
        let r = f.restore.as_mut().unwrap();
        assert_eq!(r.error.as_deref(), Some("Enter the backup's passphrase."));
        r.backup_pass = "old".to_string();
        r.new_pass = "LongEnough123!".to_string();
        r.new_pass2 = "LongEnough123?".to_string();
    }
    assert!(matches!(app.dispatch(Action::DoRestore), Effect::Nothing));
    if let State::FirstRun(f) = &mut app.state {
        let r = f.restore.as_mut().unwrap();
        assert_eq!(r.error.as_deref(), Some("New passphrases do not match."));
        r.new_pass2 = r.new_pass.clone();
    }
    match app.dispatch(Action::DoRestore) {
        Effect::RestoreIdentity(q) => {
            assert_eq!(q.path, "/b.fsecid");
            assert_eq!(q.backup_pass.expose(), "old");
            assert_eq!(q.new_pass.expose(), "LongEnough123!");
        }
        _ => panic!("must restore"),
    }
    app.apply(restore_failed(RestoreFailure::WrongPassphrase));
    match &app.state {
        State::FirstRun(f) => assert_eq!(
            f.restore.as_ref().unwrap().error.as_deref(),
            Some("The backup passphrase is incorrect.")
        ),
        _ => panic!("still the first run"),
    }
    let _ = app.dispatch(Action::CancelRestore);
    assert!(matches!(&app.state, State::FirstRun(f) if f.restore.is_none()));
}

#[test]
fn unlocking_hands_the_passphrase_over() {
    let probe = StoreProbe {
        keystore: KeystoreProbe::Loaded { has_passkeys: true },
        recovery_pending: true,
        has_saved: false,
    };
    let mut app = App::new(Found::Identity(probe), true);
    if let State::Unlock(u) = &mut app.state {
        u.pass = "secret".to_string();
        u.pin = "  ".to_string();
    }
    match app.dispatch(Action::Unlock) {
        Effect::Unlock { pass, legacy } => {
            assert_eq!(pass.expose(), "secret");
            assert!(legacy);
        }
        _ => panic!("must unlock"),
    }
    assert!(matches!(
        app.dispatch(Action::UnlockWithPasskey),
        Effect::UnlockWithPasskey { pin: None }
    ));
    app.apply(JobReport {
        outcome: Outcome::UnlockFailed("wrong".to_string()),
        toast: None,
    });
    match &app.state {
        State::Unlock(u) => {
            assert!(u.pass.is_empty());
            assert_eq!(u.error.as_deref(), Some("wrong"));
        }
        _ => panic!("still locked"),
    }
}

#[test]
fn a_checkout_blocks_leaving() {
    let mut app = unlocked();
    app.apply(check_out_report(checkout(), true));
    assert_eq!(
        toast(&app).0,
        "Editing a.txt — check in or discard when done."
    );
    for action in [Action::Lock, Action::Nav(Nav::Contacts), Action::CloseVault] {
        assert!(matches!(app.dispatch(action), Effect::Nothing));
        assert_eq!(
            toast(&app),
            ("Check in or discard your edit first.".to_string(), true)
        );
        assert!(app.checkout_active());
    }
    assert!(matches!(app.dispatch(Action::CheckIn), Effect::CheckIn));
    let c = session(&app).checkout.as_ref().unwrap();
    assert!(check_in_unchanged(c, &[5; 32]).is_none());
    let report = check_in_unchanged(c, &[4; 32]).unwrap();
    app.apply(report);
    assert_eq!(toast(&app).0, "No changes — edit discarded.");
    assert!(matches!(app.dispatch(Action::Lock), Effect::Lock));
    let views = app.lock(None);
    assert!(views.is_empty());
    assert!(matches!(app.state, State::Unlock(_)));
}

#[test]
fn leaving_wipes_the_copies_in_view() {
    let mut app = unlocked();
    match app.dispatch(Action::ViewFile("docs/a.txt".to_string())) {
        Effect::View { path, request } => {
            assert_eq!(path, "docs/a.txt");
            assert_eq!((request.leaf.as_str(), request.temp_leaf.as_str()), ("a.txt", "a.txt"));
        }
        _ => panic!("must view"),
    }
    app.apply(view_report(
        "a.txt".to_string(),
        ViewLaunch::LaunchedNoWatch,
        "/t".to_string(),
    ));
    assert_eq!(
        toast(&app).0,
        "Viewing a.txt (read-only) — wiped when you leave the vault."
    );
    match app.dispatch(Action::CloseVault) {
        Effect::WipeViews(v) => assert_eq!(v[0].temp_path, "/t"),
        _ => panic!("must wipe"),
    }
    assert!(session(&app).open.is_none() && session(&app).views.is_empty());
    let _ = app.dispatch(Action::Nav(Nav::Identity));
    assert_eq!(session(&app).nav, Nav::Identity);
}

#[test]
fn entering_a_folder_starts_fresh() {
    let mut app = unlocked();
    let _ = app.dispatch(Action::SelectAllVisible);
    assert_eq!(session(&app).selected.len(), 2);
    session_mut(&mut app).file_search = "x".to_string();
    let _ = app.dispatch(Action::EnterDir("docs".to_string()));
    let s = session(&app);
    assert!(s.selected.is_empty() && s.file_search.is_empty());
    assert_eq!(s.current_dir, "docs");
    let _ = app.dispatch(Action::SetSort(SortMode::SizeAsc));
    let _ = app.dispatch(Action::ShowTrash(true));
    let _ = app.dispatch(Action::PromptEmptyTrash(true));
    assert!(session(&app).show_trash && session(&app).confirm_empty_trash);
    assert!(matches!(app.dispatch(Action::EmptyTrash), Effect::EmptyTrash));
    assert!(!session(&app).confirm_empty_trash);
    let _ = app.dispatch(Action::ClearSelection);
    assert_eq!(session(&app).sort, SortMode::SizeAsc);
}

#[test]
fn new_folders_and_files() {
    let mut app = unlocked();
    let _ = app.dispatch(Action::ToggleNewFolder(true));
    assert!(matches!(app.dispatch(Action::NewFolder), Effect::Nothing));
    assert_eq!(toast(&app).0, "Enter a folder name.");
    session_mut(&mut app).new_folder_name = "a/b".to_string();
    assert!(matches!(app.dispatch(Action::NewFolder), Effect::Nothing));
    assert_eq!(toast(&app).0, "Folder names can't contain “/”.");
    session_mut(&mut app).new_folder_name = " docs ".to_string();
    assert!(matches!(app.dispatch(Action::NewFolder), Effect::Nothing));
    assert_eq!(toast(&app).0, "\"docs\" already exists here.");
    assert!(!session(&app).show_new_folder);
    let _ = app.dispatch(Action::EnterDir("docs".to_string()));
    session_mut(&mut app).new_file_name = "n.txt".to_string();
    match app.dispatch(Action::NewFile) {
        Effect::NewFile(n) => assert_eq!((n.leaf.as_str(), n.path.as_str()), ("n.txt", "docs/n.txt")),
        _ => panic!("must create"),
    }
    app.apply(JobReport::ok(
        Outcome::CreatedTextFile {
            id: "v".to_string(),
            entries: entries(),
            registry: Registry::new(),
            path: "docs/n.txt".to_string(),
            leaf: "n.txt".to_string(),
        },
        String::new(),
    ));
    assert!(!session(&app).text_editor.as_ref().unwrap().dirty());
    session_mut(&mut app).text_editor.as_mut().unwrap().content = "hi".to_string();
    match app.dispatch(Action::SaveTextFile) {
        Effect::SaveText(q) => assert_eq!((q.path.as_str(), q.content.as_str()), ("docs/n.txt", "hi")),
        _ => panic!("must save"),
    }
    app.apply(JobReport::ok(
        Outcome::SavedTextFile {
            id: "v".to_string(),
            entries: entries(),
            registry: Registry::new(),
        },
        finished_message(&Finished::TextSaved("n.txt".to_string())),
    ));
    assert_eq!(toast(&app).0, "Saved “n.txt”.");
    assert!(session(&app).text_editor.is_none());
    session_mut(&mut app).new_vault_name = " Tax ".to_string();
    assert!(matches!(app.dispatch(Action::CreateVault), Effect::CreateVault { name } if name == "Tax"));
}

#[test]
fn quick_edit_takes_small_text_files() {
    let mut app = unlocked();
    assert!(matches!(
        app.dispatch(Action::QuickEdit("docs/a.txt".to_string())),
        Effect::ReadText { .. }
    ));
    let _ = app.dispatch(Action::QuickEdit("b.bin".to_string()));
    assert_eq!(
        toast(&app).0,
        "That file is too large for the quick editor — use Save as… instead."
    );
    let _ = app.dispatch(Action::QuickEdit("docs".to_string()));
    assert_eq!(toast(&app).0, "Only files can be edited.");
    let te: TextEditor = open_text("docs/a.txt".to_string(), "grüß".as_bytes())
        .ok()
        .unwrap();
    assert_eq!((te.leaf.as_str(), te.content.as_str()), ("a.txt", "grüß"));
    let mut te = te;
    te.zeroize();
    assert!(te.content.is_empty() && te.original.is_empty());
    assert_eq!(
        open_text("x".to_string(), &[0xff]).err().unwrap(),
        "This file isn't text — use “Check out & edit” to open it in an app."
    );
}

#[test]
fn renaming_and_moving() {
    let mut app = unlocked();
    let _ = app.dispatch(Action::BeginRename("docs/a.txt".to_string()));
    assert_eq!(session(&app).rename_input, "a.txt");
    // No change: nothing happens.
    assert!(matches!(app.dispatch(Action::ConfirmRename), Effect::Nothing));
    assert!(app.toast.is_none() && session(&app).rename_target.is_none());
    let _ = app.dispatch(Action::BeginRename("b.bin".to_string()));
    session_mut(&mut app).rename_input = "docs".to_string();
    let _ = app.dispatch(Action::ConfirmRename);
    assert_eq!(toast(&app).0, "“docs” already exists here.");
    let _ = app.dispatch(Action::BeginRename("docs/a.txt".to_string()));
    session_mut(&mut app).rename_input = "c.txt".to_string();
    match app.dispatch(Action::ConfirmRename) {
        Effect::Rename(q) => assert_eq!((q.from.as_str(), q.to.as_str()), ("docs/a.txt", "docs/c.txt")),
        _ => panic!("must rename"),
    }
    let _ = app.dispatch(Action::BeginMove(vec!["b.bin".to_string()]));
    assert_eq!(session(&app).move_form.as_ref().unwrap().dest, "");
    let _ = app.dispatch(Action::ConfirmMove);
    assert_eq!(toast(&app).0, "Those items are already there.");
    let _ = app.dispatch(Action::BeginMove(vec!["b.bin".to_string()]));
    let _ = app.dispatch(Action::SetMoveDest("docs".to_string()));
    match app.dispatch(Action::ConfirmMove) {
        Effect::Move(q) => assert_eq!(
            q.pairs,
            vec![("b.bin".to_string(), "docs/b.bin".to_string())]
        ),
        _ => panic!("must move"),
    }
    let o = session_mut(&mut app).open.as_mut().unwrap();
    o.entries.push(("docs/b.bin".to_string(), EntryKind::File, 1));
    let _ = app.dispatch(Action::BeginMove(vec!["b.bin".to_string()]));
    let _ = app.dispatch(Action::SetMoveDest("docs".to_string()));
    let _ = app.dispatch(Action::ConfirmMove);
    assert_eq!(toast(&app).0, "“b.bin” already exists in that folder.");
    assert_eq!(moved_message(2, ""), "Moved 2 item(s) to the top level.");
    assert_eq!(moved_message(1, "a/b"), "Moved 1 item(s) to “b”.");
}

#[test]
fn trash_and_back() {
    let mut app = unlocked();
    let _ = app.dispatch(Action::TrashSelected);
    assert_eq!(toast(&app).0, "Select something first.");
    session_mut(&mut app).selected.insert("docs");
    session_mut(&mut app).selected.insert("docs/a.txt");
    match app.dispatch(Action::TrashSelected) {
        Effect::TrashPaths(v) => {
            assert_eq!(v, vec!["docs"]);
            let pairs = trash_pairs(&v, 7, &["ab".to_string()]);
            assert_eq!(
                pairs,
                vec![("docs".to_string(), ".trash/7-ab-docs".to_string())]
            );
        }
        _ => panic!("must trash"),
    }
    assert_eq!(trashed_message(3), "Moved 3 item(s) to Trash.");
    match app.dispatch(Action::RestoreTrashed(".trash/7-aa-old.txt".to_string())) {
        Effect::Restore { from, to } => {
            assert_eq!((from.as_str(), to.as_str()), (".trash/7-aa-old.txt", "old.txt"))
        }
        _ => panic!("must restore"),
    }
    let _ = app.dispatch(Action::RestoreTrashed(".trash/what".to_string()));
    assert_eq!(
        toast(&app).0,
        "That item's original name couldn't be read."
    );
    assert!(matches!(
        app.dispatch(Action::PurgeTrashed("p".to_string())),
        Effect::Purge(_)
    ));
    assert!(matches!(
        app.dispatch(Action::Trash("p".to_string())),
        Effect::TrashEntry(_)
    ));
}

#[test]
fn extracting() {
    let mut app = unlocked();
    let _ = app.dispatch(Action::ExtractSelected);
    assert_eq!(toast(&app).0, "Select something to extract first.");
    let s = session_mut(&mut app);
    s.selected.insert("docs");
    s.selected.insert("docs/a.txt");
    s.selected.insert("b.bin");
    match app.dispatch(Action::ExtractSelected) {
        Effect::Extract(v) => assert_eq!(v, vec!["b.bin", "docs/a.txt"]),
        _ => panic!("must extract"),
    }
    let s = session_mut(&mut app);
    s.open = Some(OpenVault {
        id: "v".to_string(),
        entries: vec![("docs".to_string(), EntryKind::Dir, 0)],
    });
    s.selected.remove("b.bin");
    s.selected.remove("docs/a.txt");
    let _ = app.dispatch(Action::ExtractSelected);
    assert_eq!(
        toast(&app).0,
        "Nothing to extract (the selected folders are empty)."
    );
    assert!(matches!(app.dispatch(Action::ExtractAll), Effect::ExtractAll));
    let live = extract_all_list(&entries());
    assert_eq!(live.len(), 3);
    assert_eq!(
        extracted_message(3, 1, "/o"),
        Ok("Extracted 2 file(s) to /o; 1 failed.".to_string())
    );
    assert!(extracted_message(2, 2, "/o").is_err());
    assert_eq!(
        extracted_all_message(0, 0, "/o"),
        Err("There are no files to extract.".to_string())
    );
    assert_eq!(
        extracted_all_message(2, 1, "/o"),
        Ok("Extracted to /o (1 item(s) failed).".to_string())
    );
}

#[test]
fn adding_says_what_happened() {
    let mut app = unlocked();
    assert!(matches!(app.dispatch(Action::AddFiles), Effect::PickFiles));
    assert!(matches!(
        app.dispatch(Action::DropPaths(Vec::new())),
        Effect::Nothing
    ));
    assert!(matches!(
        app.dispatch(Action::DropPaths(vec!["/x".to_string()])),
        Effect::AddPaths(_)
    ));
    assert_eq!(
        nothing_added(0, 0, 2).as_deref(),
        Some("2 item(s) could not be read.")
    );
    assert_eq!(nothing_added(0, 0, 0).as_deref(), Some("Nothing new to add."));
    assert_eq!(nothing_added(0, 1, 0), None);
    assert_eq!(added_message(2, "", 0), "Added 2 file(s).");
    assert_eq!(
        added_message(2, "a/docs", 1),
        "Added 2 file(s) to docs; 1 could not be read."
    );
}

#[test]
fn a_failed_copy_is_wiped() {
    assert!(matches!(
        next_temp_step(TempStep::Create, Some("e".to_string())),
        TempNext::Stop { wipe: false, .. }
    ));
    for step in [TempStep::OpenFile, TempStep::Decrypt, TempStep::Flush] {
        match next_temp_step(step, Some("e".to_string())) {
            TempNext::Stop { wipe, report } => {
                assert!(wipe);
                assert_eq!(report.toast, Some(("e".to_string(), true)));
            }
            TempNext::Go(_) => panic!("must stop"),
        }
    }
    assert!(matches!(
        next_temp_step(TempStep::Flush, None),
        TempNext::Go(TempStep::Done)
    ));
}

#[test]
fn a_failed_check_in_keeps_the_edit() {
    let c = checkout();
    let failed = || CheckInReply::Failed("disk full".to_string());
    for step in [CheckInStep::Hash, CheckInStep::WriteBack] {
        match next_check_in_step(step, &c, failed()) {
            CheckInStep::Done(r) => {
                assert!(matches!(r.outcome, Outcome::Noop));
                assert_eq!(r.toast, Some(("disk full".to_string(), true)));
            }
            _ => panic!("must end"),
        }
    }
    // An edit that changed nothing is wiped at once.
    let s = next_check_in_step(CheckInStep::Hash, &c, CheckInReply::Hashed(c.orig_blake3));
    assert!(matches!(s, CheckInStep::WipeUnchanged(_)));
    match next_check_in_step(s, &c, CheckInReply::Went) {
        CheckInStep::Done(r) => {
            assert_eq!(r.toast.unwrap().0, "No changes — edit discarded.");
        }
        _ => panic!("must end"),
    }
    // A changed one is written back first.
    let s = next_check_in_step(CheckInStep::Hash, &c, CheckInReply::Hashed([77; 32]));
    assert!(matches!(s, CheckInStep::WriteBack));
    let s = next_check_in_step(s, &c, CheckInReply::Went);
    assert!(matches!(s, CheckInStep::WipeSaved));
    let s = next_check_in_step(s, &c, failed());
    assert!(matches!(s, CheckInStep::Reopen));
    let reopened = CheckInReply::Reopened {
        id: "v".to_string(),
        entries: entries(),
        registry: Registry::new(),
    };
    match next_check_in_step(s, &c, reopened) {
        CheckInStep::Done(r) => {
            assert_eq!(r.toast, Some(("Checked in.".to_string(), false)));
            assert!(matches!(r.outcome, Outcome::EndCheckout { replace: Some(_) }));
        }
        _ => panic!("must end"),
    }
}

#[test]
fn two_moved_items_never_share_a_place() {
    let file = |p: &str| (p.to_string(), EntryKind::File, 1);
    let entries = vec![file("a/x"), file("b/x"), file("b/y")];
    let paths = vec!["a/x".to_string(), "b/x".to_string()];
    assert_eq!(
        plan_move(&entries, &paths, ""),
        Err("“x” already exists in that folder.".to_string())
    );
    let paths = vec!["a/x".to_string(), "b/y".to_string()];
    assert_eq!(
        plan_move(&entries, &paths, ""),
        Ok(vec![
            ("a/x".to_string(), "x".to_string()),
            ("b/y".to_string(), "y".to_string())
        ])
    );
}

#[test]
fn trashing_nothing_is_an_error_even_without_a_vault() {
    let mut app = unlocked();
    let s = session_mut(&mut app);
    s.open = None;
    let nothing = s.request_trash_selected();
    assert_eq!(nothing, Err("Select something first.".to_string()));
    s.selected.insert("b.bin");
    assert_eq!(s.request_trash_selected(), Ok(None));
}

#[test]
fn exporting_to_recipients() {
    let mut app = unlocked();
    let _ = app.dispatch(Action::BeginExport("v".to_string()));
    let _ = app.dispatch(Action::DoExport);
    assert_eq!(toast(&app).0, "Select at least one recipient.");
    let bob = hex(&[3; 32]);
    let _ = app.dispatch(Action::ToggleRecipient(bob.clone()));
    let _ = app.dispatch(Action::SetExportSuite(SuiteId::Hybrid));
    let _ = app.dispatch(Action::DoExport);
    assert_eq!(
        toast(&app).0,
        "Hybrid PQC requires every recipient to have post-quantum keys. Ask them to re-share an updated public key, or pick another suite."
    );
    let _ = app.dispatch(Action::SetExportSuite(SuiteId::Aes256Gcm));
    let _ = app.dispatch(Action::ToggleIncludeSelf);
    match app.dispatch(Action::DoExport) {
        Effect::Export(q) => {
            let names: Vec<&str> = q.recipients.iter().map(|k| k.name.as_str()).collect();
            assert_eq!(names, vec!["Bob", "Me"]);
            assert_eq!(q.suggested, "My_vault.fsec");
            assert_eq!(q.suite, SuiteId::Aes256Gcm);
        }
        _ => panic!("must export"),
    }
    app.export_started();
    assert!(session(&app).export.is_none());
    let _ = app.dispatch(Action::BeginExport("gone".to_string()));
    let _ = app.dispatch(Action::ToggleRecipient(bob.clone()));
    match app.dispatch(Action::DoExport) {
        Effect::Export(q) => assert_eq!(q.suggested, "vault.fsec"),
        _ => panic!("must export"),
    }
    let _ = app.dispatch(Action::ToggleRecipient(bob));
    assert!(session(&app).export.as_ref().unwrap().selected.is_empty());
    let _ = app.dispatch(Action::CancelExport);
    assert_eq!(
        exported_message("/t", 2, "Classic"),
        "Exported to /t for 2 recipient(s) using Classic."
    );
    assert_eq!(suite_short(SuiteId::Hybrid), "Hybrid PQC");
    assert_eq!(suggested_name("", ".fsecid"), "filesec.fsecid");
}

#[test]
fn contacts_are_confirmed_before_they_are_saved() {
    let me = key(9, "Me");
    let status = |k: PublicKey| build_contact_preview(&me, &book(), k).status;
    assert!(matches!(status(key(9, "Me")), PreviewStatus::SelfKey));
    assert!(matches!(status(key(7, "New")), PreviewStatus::Brandnew));
    assert!(matches!(
        status(key(2, "Alice")),
        PreviewStatus::Existing { verified: true }
    ));
    assert!(matches!(
        status(key(3, "")),
        PreviewStatus::Existing { verified: false }
    ));
    assert!(matches!(
        status(key(2, "Mallory")),
        PreviewStatus::Renamed { previous, verified: true } if previous == "Alice"
    ));
    let mut app = unlocked();
    let _ = app.dispatch(Action::PreviewContactPaste);
    assert_eq!(toast(&app).0, "Paste a public key first.");
    session_mut(&mut app).contact_paste = "  KEY ".to_string();
    assert!(matches!(app.dispatch(Action::PreviewContactPaste), Effect::ParseKey(t) if t == "KEY"));
    app.key_parsed(Err("bad".to_string()));
    assert_eq!(toast(&app).0, "Couldn't read that key: bad");
    app.key_parsed(Ok(key(9, "Me")));
    let _ = app.dispatch(Action::ConfirmAddContact);
    assert_eq!(
        toast(&app).0,
        "That's your own key — no need to add yourself."
    );
    app.key_parsed(Ok(key(7, "New")));
    assert!(matches!(app.dispatch(Action::ConfirmAddContact), Effect::AddContact(k) if k.name == "New"));
    assert!(session(&app).contact_preview.is_none() && session(&app).contact_paste.is_empty());
    assert_eq!(
        import_message(&UpsertOutcome::Added, "N"),
        "Added \"N\". Verify their safety number before trusting."
    );
    assert_eq!(
        import_message(
            &UpsertOutcome::Renamed {
                previous: "A".to_string(),
                was_verified: true
            },
            "N"
        ),
        "Renamed verified contact \"A\" → \"N\" (keys unchanged; still verified)."
    );
    assert_eq!(
        import_message(&UpsertOutcome::Unchanged, "N"),
        "\"N\" is already a contact — nothing changed."
    );
}

#[test]
fn verifying_a_contact() {
    let mut app = unlocked();
    let _ = app.dispatch(Action::BeginVerify("xyz".to_string()));
    assert_eq!(toast(&app), ("Bad fingerprint.".to_string(), true));
    let bob = hex(&[3; 32]);
    let _ = app.dispatch(Action::BeginVerify(bob.to_uppercase()));
    let v = session(&app).verify.as_ref().unwrap();
    assert_eq!((v.name.as_str(), v.safety_number.as_str()), ("<Bob>", "SN3"));
    assert!(matches!(app.dispatch(Action::CopyVerifySafetyNumber), Effect::CopyText(t) if t == "SN3"));
    match app.dispatch(Action::ConfirmVerify(bob.clone())) {
        Effect::SetTrust { fpr, trust } => {
            assert_eq!(fpr, [3; 32]);
            assert_eq!(trust, Trust::Verified);
        }
        _ => panic!("must set trust"),
    }
    assert!(session(&app).verify.is_none());
    assert!(matches!(
        app.dispatch(Action::RemoveContact(bob)),
        Effect::RemoveContact { .. }
    ));
    assert_eq!(trust_message(Trust::Unverified), "Marked as unverified.");
}

#[test]
fn an_import_tells_who_sent_it() {
    let mut app = unlocked();
    app.apply(JobReport {
        outcome: Outcome::Imported(ImportData {
            registry: Registry::new(),
            sender: key(2, "whatever"),
            vault_name: "Gift".to_string(),
            file_count: 2,
        }),
        toast: None,
    });
    let i = session(&app).last_import.as_ref().unwrap();
    assert_eq!(i.sender_name.as_deref(), Some("Alice"));
    assert!(i.verified);
    assert_eq!(i.sender_fpr_hex, hex(&[2; 32]));
    let _ = app.dispatch(Action::AddSenderToContacts);
    assert!(session(&app).last_import.is_none());
    assert!(session(&app).contact_preview.is_some());
    assert!(sender_info(&book(), &[8; 32]).name.is_none());
}

#[test]
fn dialogs_ask_for_the_passphrase() {
    let mut app = unlocked();
    let _ = app.dispatch(Action::BeginMigrate);
    assert!(matches!(app.dispatch(Action::DoMigrate), Effect::Nothing));
    assert_eq!(
        session(&app).migrate.as_ref().unwrap().error.as_deref(),
        Some("Enter your passphrase to confirm.")
    );
    session_mut(&mut app).migrate.as_mut().unwrap().pass = "p".to_string();
    assert!(matches!(app.dispatch(Action::DoMigrate), Effect::Migrate { pass } if pass.expose() == "p"));
    assert!(session(&app).migrate.is_none());
    let _ = app.dispatch(Action::BeginAddPasskey);
    let _ = app.dispatch(Action::AddPasskey);
    let f = session_mut(&mut app).add_passkey.as_mut().unwrap();
    assert_eq!(
        f.error.as_deref(),
        Some("Give this key a name so you can recognize it.")
    );
    f.label = "Blue".to_string();
    let _ = app.dispatch(Action::AddPasskey);
    let f = session_mut(&mut app).add_passkey.as_mut().unwrap();
    assert_eq!(
        f.error.as_deref(),
        Some("Enter your passphrase to authorize this change.")
    );
    f.pass = "p".to_string();
    f.pin = " 12 ".to_string();
    match app.dispatch(Action::AddPasskey) {
        Effect::AddPasskey(q) => assert_eq!(q.pin.as_ref().map(|p| p.expose()), Some("12")),
        _ => panic!("must enroll"),
    }
    let _ = app.dispatch(Action::BeginEnableAutoUnlock);
    session_mut(&mut app).auto_unlock_form.as_mut().unwrap().pass = "p".to_string();
    assert!(matches!(
        app.dispatch(Action::ConfirmEnableAutoUnlock),
        Effect::EnableAutoUnlock { .. }
    ));
    app.apply(JobReport::ok(Outcome::AutoUnlockChanged(true), String::new()));
    assert!(session(&app).auto_unlock && session(&app).auto_unlock_form.is_none());
    let _ = app.dispatch(Action::BeginExportIdentity);
    let f = session_mut(&mut app).export_identity.as_mut().unwrap();
    f.pass = "LongEnough123!".to_string();
    f.pass2 = "LongEnough123!".to_string();
    assert!(matches!(
        app.dispatch(Action::DoExportIdentity),
        Effect::ExportIdentity { .. }
    ));
    app.backup_export_dropped();
    assert!(session(&app).export_identity.is_none());
}

#[test]
fn clicks_on_rows() {
    let mut app = unlocked();
    let rows = visible_rows(&entries(), "", "", SortMode::NameAsc);
    let s = session_mut(&mut app);
    assert!(matches!(
        apply_row_click(s, &rows, 0, RowClick::Double),
        Some(Action::EnterDir(d)) if d == "docs"
    ));
    assert!(s.selected.is_empty());
    assert!(matches!(
        apply_row_click(s, &rows, 1, RowClick::Double),
        Some(Action::ViewFile(f)) if f == "b.bin"
    ));
    assert_eq!(s.selected.to_vec(), vec!["b.bin"]);
    let click = RowClick::Single {
        shift: false,
        toggle: true,
    };
    assert!(apply_row_click(s, &rows, 1, click).is_none());
    assert!(s.selected.is_empty());
    assert!(apply_row_click(s, &rows, 1, RowClick::Idle).is_none());
}

#[test]
fn a_transfer_from_start_to_end() {
    let mut app = unlocked();
    let _ = app.dispatch(Action::StartListen);
    assert_eq!(
        toast(&app).0,
        "Pick the verified contact you expect to receive from."
    );
    let t = &mut session_mut(&mut app).transfer;
    t.recv_contact = Some(hex(&[3; 32]));
    t.recv_port = "x".to_string();
    let _ = app.dispatch(Action::StartListen);
    assert_eq!(
        toast(&app).0,
        "Pick the verified contact you expect to receive from.",
        "an unverified contact does not count"
    );
    session_mut(&mut app).transfer.recv_contact = Some(hex(&[2; 32]));
    let _ = app.dispatch(Action::StartListen);
    assert_eq!(
        toast(&app).0,
        "Enter a valid port number, or leave it blank for auto."
    );
    session_mut(&mut app).transfer.recv_port = " 4711 ".to_string();
    match app.dispatch(Action::StartListen) {
        Effect::StartListener(c) => {
            assert_eq!(c.port, 4711);
            assert_eq!(c.expected_sender_fpr, Some([2; 32]));
        }
        _ => panic!("must listen"),
    }
    assert!(matches!(app.dispatch(Action::StartSend), Effect::Nothing));
    let _ = app.apply_net_event(NetEvent::Listening {
        lan_addr: "l".to_string(),
        public_addr: None,
        nat: NatStatus::Unavailable("no".to_string()),
        transfer_code: "C".to_string(),
    });
    let a = session(&app).transfer.active.as_ref().unwrap();
    assert_eq!(
        a.listen.as_ref().unwrap().nat,
        "Couldn't open a router port (no). You're still reachable on your local network."
    );
    let _ = app.apply_net_event(NetEvent::PeerConnected {
        fpr_hex: hex(&[2; 32]),
        name: None,
        verified: true,
    });
    let a = session(&app).transfer.active.as_ref().unwrap();
    assert_eq!(a.peer.as_deref(), Some("0202020202020202… (verified)"));
    let _ = app.apply_net_event(NetEvent::Offer {
        filename: "f".to_string(),
        size: 5,
        sender_name: None,
        verified: true,
    });
    assert!(matches!(
        app.dispatch(Action::AcceptIncoming),
        Effect::Command(NetCommand::AcceptOffer)
    ));
    let a = session(&app).transfer.active.as_ref().unwrap();
    assert!(a.offer.is_none());
    assert_eq!(a.status, "Receiving…");
    let _ = app.apply_net_event(NetEvent::Progress { done: 1, total: 5 });
    let meta = VaultMeta {
        id: "n".to_string(),
        name: "Gift".to_string(),
        created_at: 0,
        modified_at: 0,
        file_count: 1,
        total_size: 5,
    };
    assert!(app.apply_net_event(NetEvent::Received {
        meta,
        file_count: 1,
        sender_name: Some("Alice".to_string()),
    }));
    assert_eq!(toast(&app).0, "Received “Gift” from Alice (1 file(s)).");
    assert_eq!(session(&app).registry.position("n"), Some(1));
    let _ = app.apply_net_event(NetEvent::Error("cut".to_string()));
    assert_eq!(toast(&app), ("cut".to_string(), true));
    let a = session(&app).transfer.active.as_ref().unwrap();
    assert_eq!(a.status, "Listening for the next transfer…");
    assert_eq!(a.kind, ActiveKind::Receive);
    assert!(matches!(app.dispatch(Action::StopTransfer), Effect::StopTransfer));
    assert!(session(&app).transfer.active.is_none());
}

#[test]
fn sending_needs_a_complete_form() {
    let mut app = unlocked();
    let faults = [
        "Pick a verified contact to send to.",
        "Enter the receiver's address.",
        "Enter a valid port number.",
        "Pick a vault to send.",
        "Enter the transfer code the receiver is showing.",
    ];
    for (i, fault) in faults.iter().enumerate() {
        let _ = app.dispatch(Action::StartSend);
        assert_eq!(toast(&app).0, *fault);
        let t = &mut session_mut(&mut app).transfer;
        match i {
            0 => t.send_contact = Some(hex(&[2; 32])),
            1 => t.send_host = "host".to_string(),
            2 => t.send_port = "9".to_string(),
            3 => t.send_vault = Some("v".to_string()),
            _ => t.send_pairing = "code".to_string(),
        }
    }
    match app.dispatch(Action::StartSend) {
        Effect::StartSender(c) => {
            assert_eq!((c.host.as_str(), c.port, c.vault_id.as_str()), ("host", 9, "v"));
            assert_eq!(c.recipient.name, "Alice");
        }
        _ => panic!("must send"),
    }
    let _ = app.apply_net_event(NetEvent::Declined);
    assert_eq!(toast(&app).0, "The receiver declined the transfer.");
    assert!(session(&app).transfer.active.is_none());
    let options = verified_contacts(&session(&app).contacts);
    assert_eq!(options, vec![(hex(&[2; 32]), "Alice".to_string())]);
    assert_eq!(combo_label(&Some(hex(&[2; 32])), &options, "…"), "Alice");
    assert_eq!(combo_label(&None, &options, "…"), "…");
}

#[test]
fn unlocking_goes_stage_by_stage() {
    let vaults = vec!["Tax".to_string(), "Home".to_string()];
    let mut step = unlock_start(false);
    let mut n = 0;
    while !matches!(step, UnlockStep::Done) {
        step = unlock_next(step, false, &vaults, None);
        n += 1;
    }
    assert_eq!(n, 5);
    // Without the user's word nothing is recovered.
    let e = "legacy state requires explicit recovery".to_string();
    assert!(matches!(
        unlock_next(UnlockStep::LoadKeystore, false, &vaults, Some(e.clone())),
        UnlockStep::Failed(_)
    ));
    assert!(matches!(
        unlock_next(UnlockStep::LoadKeystore, true, &vaults, Some(e)),
        UnlockStep::RecoverKeystore
    ));
    assert!(matches!(
        unlock_next(UnlockStep::LoadRegistry, true, &vaults, None),
        UnlockStep::CheckVault(0)
    ));
    match unlock_next(UnlockStep::CheckVault(1), true, &vaults, Some("io".to_string())) {
        UnlockStep::Failed(m) => assert_eq!(m, "Could not validate vault \"Home\": io"),
        _ => panic!("must fail"),
    }
    match unlock_next(UnlockStep::RecoverVault(0), true, &vaults, Some("io".to_string())) {
        UnlockStep::Failed(m) => assert_eq!(m, "Could not recover vault \"Tax\": io"),
        _ => panic!("must fail"),
    }
}

#[test]
fn every_enrolled_key_is_tried() {
    assert!(matches!(passkey_start(0), PasskeyStep::Failed(m) if m == "No security keys are enrolled."));
    let s = passkey_next(passkey_start(2), 2, SlotReply::Malformed);
    assert!(matches!(&s, PasskeyStep::TrySlot { index: 1, .. }));
    let s = passkey_next(s, 2, SlotReply::Malformed);
    assert!(matches!(s, PasskeyStep::Failed(m) if m == "Your security key did not match any enrolled passkey."));
    let s = passkey_next(passkey_start(2), 2, SlotReply::Failed("a".to_string()));
    let s = passkey_next(s, 2, SlotReply::Failed("b".to_string()));
    assert!(matches!(s, PasskeyStep::Failed(m) if m == "b"));
    let s = passkey_next(passkey_start(1), 1, SlotReply::Went);
    assert!(matches!(s, PasskeyStep::LoadContacts));
}

#[test]
fn a_stale_device_token_is_dropped() {
    assert!(matches!(
        keyring_next(KeyringStep::LoadToken, KeyringReply::Missing),
        KeyringStep::Failed(m) if m == "This device has no saved unlock. Enter your passphrase."
    ));
    let s = keyring_next(KeyringStep::OpenKeystore, KeyringReply::Failed("x".to_string()));
    assert!(matches!(s, KeyringStep::ClearToken));
    assert!(matches!(
        keyring_next(s, KeyringReply::Went),
        KeyringStep::Failed(m) if m == "This device's saved unlock no longer works and was removed. Enter your passphrase."
    ));
}

#[test]
fn a_refused_token_is_undone() {
    let s = enable_next(EnableStep::SaveToken, Some("locked".to_string()));
    assert!(matches!(&s, EnableStep::RemoveSlot(_)));
    let s = enable_next(s, None);
    assert!(matches!(&s, EnableStep::SaveUndone(_)));
    assert!(matches!(enable_next(s, None), EnableStep::Failed(m) if m == "locked"));
    assert!(matches!(
        enable_next(EnableStep::CheckPassphrase, Some("x".to_string())),
        EnableStep::Failed(m) if m == "That passphrase is incorrect."
    ));
    assert!(matches!(
        enable_next(EnableStep::MakeToken, Some("x".to_string())),
        EnableStep::Failed(m) if m == "Secure random generation failed."
    ));
    assert!(matches!(
        disable_next(DisableStep::LoadKeystore, false, None),
        DisableStep::ClearToken
    ));
    assert!(matches!(
        disable_next(DisableStep::LoadKeystore, true, None),
        DisableStep::RemoveSlot
    ));
}

#[test]
fn failures_and_successes_are_worded() {
    let text = |r: JobReport| r.toast.unwrap().0;
    assert_eq!(
        text(upgrade_failed(UpgradeFailure::Vaults("e".to_string()))),
        "Upgraded — please restart the app. (reloading vaults failed: e)"
    );
    assert_eq!(text(enroll_failed("e")), "Could not enroll the security key: e");
    match restore_failed(RestoreFailure::Invalid("e".to_string())).outcome {
        Outcome::FirstRunFailed(m) => {
            assert_eq!(m, "This file isn't a valid FileSec identity backup (e).")
        }
        _ => panic!("must fail"),
    }
    assert_eq!(
        finished_message(&Finished::VaultCreated("T".to_string())),
        "Created vault \"T\"."
    );
    assert_eq!(finished_message(&Finished::CheckedIn), "Checked in.");
    assert_eq!(
        finished_message(&Finished::SavedAs("/x".to_string())),
        "Saved to /x"
    );
    assert_eq!(
        job_label(&Effect::Unlock {
            pass: Secret::new(String::new()),
            legacy: true
        }),
        Some("Recovering and upgrading local state…")
    );
    assert_eq!(job_label(&Effect::EmptyTrash), Some("Emptying Trash…"));
    assert_eq!(job_label(&Effect::Nothing), None);
}

#[test]
fn a_saved_vault_counts_what_is_live() {
    assert!(sizes_fit(&entries()));
    let big = vec![
        ("a".to_string(), EntryKind::File, u64::MAX),
        ("b".to_string(), EntryKind::File, 1),
    ];
    assert!(!sizes_fit(&big));
    let r = reopen_after_save(Registry::new(), "v", "V", 3, 9, &entries());
    let m = &r.vaults[0];
    assert_eq!((m.file_count, m.total_size), (2, 5_000_010));
    assert_eq!((m.created_at, m.modified_at), (3, 9));
    let ok = finalize_after_save(
        Ok(("v".to_string(), entries(), r)),
        "Trash emptied.".to_string(),
    );
    assert!(matches!(ok.outcome, Outcome::ReplaceOpen { .. }));
    let bad = finalize_after_save(Err("io".to_string()), "x".to_string());
    assert_eq!(bad.toast, Some(("io".to_string(), true)));
}

#[test]
fn a_deleted_vault_is_closed() {
    let mut app = unlocked();
    app.apply(JobReport::ok(
        Outcome::Deleted {
            registry: Registry::new(),
            closed_id: "other".to_string(),
        },
        String::new(),
    ));
    assert!(session(&app).open.is_some());
    app.apply(JobReport::ok(
        Outcome::Deleted {
            registry: Registry::new(),
            closed_id: "v".to_string(),
        },
        finished_message(&Finished::VaultDeleted),
    ));
    assert!(session(&app).open.is_none());
    assert_eq!(toast(&app), ("Vault deleted.".to_string(), false));
    let views: Vec<ActiveView> = Vec::new();
    assert!(views.is_empty());
}
