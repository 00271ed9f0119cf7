//! What the screens show.

use filesec::app::Action;
use filesec::browse::{visible_rows, Entry, EntryKind, SortMode};
use filesec::contacts::{Contact, ContactBook, ContactPreview, PreviewStatus, PublicKey, Trust};
use filesec::fingerprint::hex;
use filesec::forms::Unlock;
use filesec::screens::{
    concern_message, contact_name, contact_preview_view, drop_label, editor_close_label, empty_trash_offer, empty_trash_prompt, export_notice,
    end_transfer, list_state, menu_action, move_prompt, preview_view, recipient_label, row_buttons,
    row_detail, row_menu, send_blocked, sender_view, suite_enabled, trash_item_detail, trash_label,
    trust_action, trust_badge, unlock_view, vault_cards, vault_detail, verified_note, verify_view, viewing_label,
    Concern, EmptyTrash, KeyStep, Keys, ListState, MenuItem, Offer, Screen,
};
use filesec::session::{
    ActiveView, Checkout, ExportForm, ImportInfo, Nav, OpenVault, Session, SessionInit, SuiteId, VerifyForm,
};
use filesec::store::{Registry, VaultMeta};
use filesec::text_set::TextSet;
use filesec::theme::BadgeKind;
use filesec::transfer::ActiveKind;
use filesec::trash::trashed_items;

fn key(n: u8, name: &str) -> PublicKey {
    PublicKey {
        fpr: [n; 32],
        name: name.to_string(),
        display_name: name.to_string(),
        safety_number: String::new(),
        hybrid: n % 2 == 0,
    }
}

fn entries() -> Vec<Entry> {
    vec![
        ("docs".to_string(), EntryKind::Dir, 0),
        ("docs/a.txt".to_string(), EntryKind::File, 10),
        (".trash/86400-aa-docs%2Fold".to_string(), EntryKind::Dir, 0),
        (".trash/86400-aa-docs%2Fold/x".to_string(), EntryKind::File, 1),
    ]
}

fn session() -> Session {
    let mut contacts = ContactBook::new();
    contacts.contacts.push(Contact {
        key: key(2, "Alice"),
        trust: Trust::Verified,
        verified_at: Some(86_400),
    });
    contacts.contacts.push(Contact {
        key: key(3, ""),
        trust: Trust::Unverified,
        verified_at: None,
    });
    Session::new(SessionInit {
        identity: key(9, "Me"),
        contacts,
        registry: Registry::new(),
        passkeys: Vec::new(),
        auto_unlock: false,
        data_dir: String::new(),
        rollback_warning: None,
    })
}

#[test]
fn the_unlock_screen_offers_what_is_set_up() {
    let mut u = Unlock::blank();
    u.has_passkeys = true;
    u.has_saved = true;
    let v = unlock_view(&u, true, false);
    assert_eq!((v.security_key, v.saved), (Offer::Shown, Offer::Unsupported));
    assert_eq!(v.button, "Unlock");
    u.legacy_recovery = true;
    let v = unlock_view(&u, true, true);
    assert_eq!((v.security_key, v.saved), (Offer::Hidden, Offer::Hidden));
    assert_eq!(v.button, "Recover and upgrade local state");
}

#[test]
fn an_open_vault_comes_first() {
    let mut s = session();
    s.nav = Nav::Contacts;
    assert_eq!(s.screen(), Screen::Contacts);
    assert!(s.nav_selected(Nav::Contacts));
    s.open = Some(OpenVault {
        id: "v".to_string(),
        entries: entries(),
    });
    assert_eq!(s.screen(), Screen::Browser);
    assert!(!s.nav_selected(Nav::Contacts));
    assert!(s.accepts_drops());
    s.begin_export("v".to_string());
    assert!(s.modal_open() && !s.accepts_drops());
}

#[test]
fn the_browser_follows_the_vault() {
    let mut s = session();
    s.open = Some(OpenVault {
        id: "v".to_string(),
        entries: entries(),
    });
    s.current_dir = "docs/gone".to_string();
    s.selected.insert("docs/a.txt");
    s.selected.insert("gone");
    s.selected.insert(".trash/86400-aa-docs%2Fold");
    s.select_anchor = Some("gone".to_string());
    for p in ["/t1", "/t2"] {
        s.views.push(ActiveView {
            leaf: "x".to_string(),
            temp_path: p.to_string(),
        });
    }
    s.sync_browser(&["/t2".to_string()]);
    assert_eq!(s.current_dir, "docs");
    assert_eq!(s.selected.to_vec(), vec!["docs/a.txt"]);
    assert_eq!(s.select_anchor, None);
    assert_eq!(s.views.len(), 1);
    assert_eq!(s.views[0].temp_path, "/t2");
}

#[test]
fn keys_in_the_browser() {
    let mut s = session();
    let none = Keys {
        escape: false,
        delete: false,
        select_all: false,
    };
    let escape = Keys { escape: true, ..none };
    let delete = Keys { delete: true, ..none };
    let all = Keys {
        select_all: true,
        ..none
    };
    assert_eq!(s.key_step(false, delete), KeyStep::Nothing);
    assert_eq!(s.key_step(false, all), KeyStep::SelectAll);
    assert_eq!(s.key_step(true, all), KeyStep::Nothing);
    s.file_search = "x".to_string();
    assert_eq!(s.key_step(false, escape), KeyStep::ClearSearch);
    s.selected.insert("a");
    assert_eq!(s.key_step(false, escape), KeyStep::ClearSelection);
    assert_eq!(s.key_step(false, delete), KeyStep::TrashSelected);
    s.rename_target = Some("a".to_string());
    assert_eq!(s.key_step(false, delete), KeyStep::Nothing);
}

#[test]
fn what_the_list_shows() {
    assert!(matches!(list_state(&[], 0, "", true), ListState::EmptyVault));
    assert!(matches!(
        list_state(&entries(), 0, " q ", true),
        ListState::NoMatch { message } if message == "No files match “q”"
    ));
    assert!(matches!(
        list_state(&entries(), 0, " ", true),
        ListState::EmptyFolder
    ));
    assert!(matches!(
        list_state(&entries(), 2, "", true),
        ListState::Rows {
            offer_select_all: true
        }
    ));
    let rows = visible_rows(&entries(), "", "", SortMode::NameAsc);
    assert_eq!(row_detail(&rows[0], false, "-"), "1 item");
    let found = visible_rows(&entries(), "", "a.t", SortMode::NameAsc);
    assert_eq!(row_detail(&found[0], true, "10 B"), "10 B · docs");
    assert_eq!(row_detail(&found[0], false, "10 B"), "10 B");
    assert_eq!(drop_label("", "V"), "Drop to add to V");
    assert_eq!(drop_label("a/b", "V"), "Drop to add to b");
    assert_eq!(trash_label(false, 2), "Trash (2)");
    assert_eq!(trash_label(true, 2), "←  Back to files");
    assert_eq!(viewing_label(1), "Viewing 1 read-only copy");
    assert_eq!(viewing_label(2), "Viewing 2 read-only copies");
    assert_eq!(
        move_prompt(2),
        "Moving 2 items. Choose a destination folder:"
    );
    assert_eq!(editor_close_label(true), "Discard & close");
    assert_eq!(empty_trash_prompt(3), "Delete 3 item(s) forever?");
}

#[test]
fn what_surrounds_the_list() {
    let mut s = session();
    s.show_new_folder = true;
    s.rename_target = Some("docs/a.txt".to_string());
    s.selected.insert("docs/a.txt");
    for leaf in ["x", "y"] {
        s.views.push(ActiveView {
            leaf: leaf.to_string(),
            temp_path: leaf.to_string(),
        });
    }
    let v = s.browser_view();
    assert!(v.editing.is_none() && v.new_folder && !v.new_file);
    assert_eq!(v.renaming.as_deref(), Some("a.txt"));
    assert_eq!(v.selected, Some(1));
    assert_eq!(
        v.viewing,
        Some(("Viewing 2 read-only copies".to_string(), "x, y".to_string()))
    );
    s.checkout = Some(Checkout {
        vault_id: "v".to_string(),
        entry_path: "p".to_string(),
        leaf: "p".to_string(),
        temp_path: "t".to_string(),
        orig_blake3: [0; 32],
        mode: None,
    });
    let v = s.browser_view();
    assert_eq!(v.editing.as_deref(), Some("p"));
    assert!(!v.new_folder && v.renaming.is_none() && v.selected.is_none());
    assert_eq!(empty_trash_offer(1, true, false), EmptyTrash::Ask);
    assert_eq!(empty_trash_offer(1, true, true), EmptyTrash::Confirm);
    assert_eq!(empty_trash_offer(0, true, true), EmptyTrash::Hidden);
    assert_eq!(empty_trash_offer(1, false, true), EmptyTrash::Hidden);
    assert_eq!(
        row_buttons(EntryKind::Dir, true, true),
        vec![MenuItem::Delete]
    );
    assert_eq!(row_buttons(EntryKind::File, true, true).len(), 4);
    assert_eq!(
        row_buttons(EntryKind::File, false, true),
        vec![MenuItem::SaveAs]
    );
    assert!(row_buttons(EntryKind::File, true, false).is_empty());
    assert_eq!(
        verified_note(&s.contacts.contacts[0]).as_deref(),
        Some("verified 1970-01-02")
    );
    assert_eq!(verified_note(&s.contacts.contacts[1]), None);
}

#[test]
fn menus_of_rows() {
    assert_eq!(row_menu(EntryKind::Dir, false), vec![MenuItem::Open]);
    assert_eq!(
        row_menu(EntryKind::File, false),
        vec![MenuItem::View, MenuItem::SaveAs]
    );
    assert_eq!(row_menu(EntryKind::File, true).len(), 7);
    assert!(matches!(menu_action(MenuItem::Delete, "p"), Action::Trash(p) if p == "p"));
    assert!(matches!(menu_action(MenuItem::MoveTo, "p"), Action::BeginMove(v) if v == vec!["p"]));
}

#[test]
fn the_trash_tells_where_from_and_when() {
    let items = trashed_items(&entries());
    assert_eq!(
        trash_item_detail(&items[0], "1 B"),
        "folder · 1 file · 1 B · was in “docs” · deleted 1970-01-02"
    );
}

#[test]
fn vault_cards_show_the_last_changed_first() {
    let mut r = Registry::new();
    for (id, at) in [("a", 5), ("b", 9), ("c", 5)] {
        r.upsert(VaultMeta {
            id: id.to_string(),
            name: id.to_string(),
            created_at: 0,
            modified_at: at,
            file_count: 2,
            total_size: 0,
        });
    }
    let cards = vault_cards(&r);
    let ids: Vec<&str> = cards.iter().map(|v| v.id.as_str()).collect();
    assert_eq!(ids, vec!["b", "a", "c"]);
    assert_eq!(vault_detail(&cards[0], "0 B"), "2 file(s) · 0 B");
}

#[test]
fn contacts_and_trust() {
    assert_eq!(contact_name(&key(1, "")), "(unnamed)");
    assert_eq!(trust_badge(Trust::Verified), ("Verified", BadgeKind::Good));
    assert!(matches!(trust_action(Trust::Unverified, "f"), Action::BeginVerify(_)));
    assert!(matches!(
        trust_action(Trust::Verified, "f"),
        Action::SetTrust(_, Trust::Unverified)
    ));
    let v = preview_view(&PreviewStatus::SelfKey, "Me");
    assert!(!v.enabled);
    assert_eq!(v.tone, BadgeKind::Bad);
    let v = preview_view(
        &PreviewStatus::Renamed {
            previous: "A".to_string(),
            verified: true,
        },
        "B",
    );
    assert_eq!(v.message, "⚠ This renames a VERIFIED contact: \"A\" → \"B\".");
    assert_eq!(v.button, "Update contact");
    assert!(v.note.unwrap().starts_with("The keys are identical"));
    // A name is shown only as made safe.
    let mut staged = key(5, "Eve");
    staged.display_name = "E?ve".to_string();
    staged.safety_number = "SN".to_string();
    let v = contact_preview_view(&ContactPreview {
        key: staged,
        status: PreviewStatus::Renamed {
            previous: "A".to_string(),
            verified: false,
        },
    });
    assert_eq!((v.name.as_str(), v.safety_number.as_str()), ("E?ve", "SN"));
    assert_eq!(v.fpr_hex, "05".repeat(32));
    assert_eq!(v.view.message, "Display name will change: \"A\" → \"E?ve\".");
    assert!(v.view.note.is_none());
    let mut form = VerifyForm {
        fpr_hex: String::new(),
        name: String::new(),
        safety_number: "S".to_string(),
        input: " ".to_string(),
        manual_ok: false,
    };
    let v = verify_view(&form, true);
    assert!(v.typed.is_none() && !v.can_verify);
    form.input = "s".to_string();
    assert!(verify_view(&form, true).can_verify);
    let v = verify_view(&form, false);
    assert!(v.typed == Some(false) && !v.can_verify);
    form.manual_ok = true;
    assert!(verify_view(&form, false).can_verify);
}

#[test]
fn senders_of_imports() {
    let mut info = ImportInfo {
        sender: key(2, "x"),
        sender_fpr_hex: "ff".to_string(),
        sender_name: Some("Alice".to_string()),
        verified: true,
        vault_name: String::new(),
        file_count: 0,
    };
    assert_eq!(sender_view(&info).message, "✔ Alice (verified contact)");
    info.verified = false;
    assert!(matches!(sender_view(&info).offer, Some(Action::BeginVerify(f)) if f == "ff"));
    info.sender_name = None;
    assert!(matches!(
        sender_view(&info).offer,
        Some(Action::AddSenderToContacts)
    ));
}

#[test]
fn the_identity_screen_lets_old_settings_be_taken_down() {
    let mut s = session();
    let v = s.identity_view(false, false);
    assert!(v.offer_upgrade && !v.show_keys && !v.show_auto_unlock);
    s.auto_unlock = true;
    let v = s.identity_view(false, false);
    assert!(v.show_auto_unlock && v.offer_forget && !v.offer_remember);
    assert!(s.identity_view(true, true).offer_add_key);
}

#[test]
fn exports_warn_of_recipients() {
    let s = session();
    let mut selected = TextSet::new();
    selected.insert(&hex(&[2; 32]));
    selected.insert(&hex(&[3; 32]));
    let form = ExportForm {
        vault_id: "v".to_string(),
        selected,
        include_self: false,
        suite: SuiteId::Hybrid,
    };
    let missing = s.concerns(&form, Concern::NotHybrid);
    assert_eq!(missing, vec!["(unnamed)"]);
    assert_eq!(
        concern_message(&missing, Concern::NotHybrid).as_deref(),
        Some("⚠ No post-quantum key for: (unnamed). Pick another suite or ask them to re-share.")
    );
    let unverified = s.concerns(&form, Concern::Unverified);
    assert_eq!(
        concern_message(&unverified, Concern::Unverified).as_deref(),
        Some("⚠ Unverified recipient(s): (unnamed)")
    );
    assert_eq!(concern_message(&[], Concern::Unverified), None);
    let v = s.export_view(&form);
    assert!(v.no_contacts.is_none());
    assert!(v.upgrade.unwrap().starts_with("Hybrid PQC needs"));
    let notice = v.notice.unwrap();
    assert_eq!(notice.tone, BadgeKind::Bad);
    assert!(notice.message.starts_with("⚠ No post-quantum key for: (unnamed)."));
    assert_eq!(v.unverified.as_deref(), Some("⚠ Unverified recipient(s): (unnamed)"));
    // Only the hybrid suite gives rise to a notice.
    assert!(export_notice(SuiteId::Classic, &missing).is_none());
    let notice = export_notice(SuiteId::Hybrid, &[]).unwrap();
    assert_eq!(notice.message, "Every recipient also gets post-quantum protection.");
    assert_eq!(notice.tone, BadgeKind::Neutral);
    let book = s.contacts.copy();
    assert_eq!(book.contacts.len(), 2);
    assert_eq!(book.contacts[0].key.name, "Alice");
    assert!(!suite_enabled(false, SuiteId::Hybrid));
    assert!(suite_enabled(false, SuiteId::Classic));
    assert_eq!(recipient_label(&s.contacts.contacts[0]), "Alice (verified)");
    assert_eq!(
        recipient_label(&s.contacts.contacts[1]),
        "(unnamed) — unverified ⚠"
    );
}

#[test]
fn transfers_on_screen() {
    assert!(matches!(
        end_transfer(ActiveKind::Receive),
        ("Stop listening", Action::StopTransfer)
    ));
    assert!(matches!(
        end_transfer(ActiveKind::Send),
        ("Cancel", Action::CancelTransfer)
    ));
    assert!(send_blocked(0, 1).is_some());
    assert_eq!(send_blocked(1, 0), Some("Create a vault to send first."));
    assert_eq!(send_blocked(1, 1), None);
}
