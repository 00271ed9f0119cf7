//! An unlocked session: what is open, selected and half typed, and what each of the
//! user's steps changes.

use vstd::prelude::*;
use crate::browse::{listing, row_le, row_views, shown_rows, visible_rows, Entry, Row, RowView, SortMode};
use crate::contacts::{
    build_contact_preview, contact_pos, sender_info, status_of, Contact, ContactBook,
    ContactPreview, PublicKey, Trust,
};
use crate::fingerprint::{hex, hex_text};
use crate::forms::{ConfirmForm, ExportIdentityForm, PasskeyEnrollForm};
use crate::order::law_sorting_keeps_the_values;
use crate::path::{leaf_name, leaf_of, parent_dir, parent_of};
use crate::secret::zeroize;
use crate::store::Registry;
use crate::text::{owned, same_text};
use crate::text_set::TextSet;
use crate::transfer::TransferState;

verus! {

/// The screens of a session.
#[derive(Clone, Copy, Debug, PartialEq, Eq, Structural)]
pub enum Nav {
    Vaults,
    Contacts,
    Identity,
    Transfer,
}

/// A vault that is open for browsing.
pub struct OpenVault {
    pub id: String,
    pub entries: Vec<Entry>,
}

/// A file that is checked out for editing.
pub struct Checkout {
    pub vault_id: String,
    pub entry_path: String,
    pub leaf: String,
    pub temp_path: String,
    pub orig_blake3: [u8; 32],
    pub mode: Option<u32>,
}

/// A read-only copy that is being viewed.
pub struct ActiveView {
    pub leaf: String,
    pub temp_path: String,
}

/// The move dialog.
pub struct MoveForm {
    pub paths: Vec<String>,
    pub dest: String,
}

/// The in-app text editor.
pub struct TextEditor {
    pub path: String,
    pub leaf: String,
    pub content: String,
    pub original: String,
}

impl TextEditor {
    /// Whether there are unsaved changes.
    pub fn dirty(&self) -> (r: bool)
        ensures
            r == (self.content@ != self.original@),
    {
        !same_text(&self.content, &self.original)
    }

    /// Wipes the plaintext.
    pub fn zeroize(&mut self)
        ensures
            final(self).content@.len() == 0,
            final(self).original@.len() == 0,
            final(self).path == old(self).path,
            final(self).leaf == old(self).leaf,
    {
        zeroize(&mut self.content);
        zeroize(&mut self.original);
    }
}

/// Cipher suites.
#[derive(Clone, Copy, Debug, PartialEq, Eq, Structural)]
pub enum SuiteId {
    Classic,
    Aes256Gcm,
    Hybrid,
}

/// The export dialog.
pub struct ExportForm {
    pub vault_id: String,
    /// Hex fingerprints of the recipients.
    pub selected: TextSet,
    pub include_self: bool,
    pub suite: SuiteId,
}

/// What is shown of an imported container.
pub struct ImportInfo {
    pub sender: PublicKey,
    pub sender_fpr_hex: String,
    pub sender_name: Option<String>,
    pub verified: bool,
    pub vault_name: String,
    pub file_count: usize,
}

/// The safety-number dialog.
pub struct VerifyForm {
    pub fpr_hex: String,
    pub name: String,
    pub safety_number: String,
    pub input: String,
    pub manual_ok: bool,
}

/// What is shown of an enrolled security key.
pub struct PasskeyInfo {
    pub label: String,
    pub created_at: i64,
}

/// What a session starts from.
pub struct SessionInit {
    pub identity: PublicKey,
    pub contacts: ContactBook,
    pub registry: Registry,
    pub passkeys: Vec<PasskeyInfo>,
    pub auto_unlock: bool,
    pub data_dir: String,
    pub rollback_warning: Option<String>,
}

/// What an import brought.
pub struct ImportData {
    pub registry: Registry,
    pub sender: PublicKey,
    pub vault_name: String,
    pub file_count: usize,
}

/// An unlocked session.
pub struct Session {
    pub identity: PublicKey,
    pub contacts: ContactBook,
    pub registry: Registry,
    pub nav: Nav,
    pub open: Option<OpenVault>,
    pub checkout: Option<Checkout>,
    pub views: Vec<ActiveView>,
    pub new_vault_name: String,
    pub show_new_vault: bool,
    pub new_folder_name: String,
    pub current_dir: String,
    pub show_new_folder: bool,
    pub file_search: String,
    pub selected: TextSet,
    pub sort: SortMode,
    pub show_trash: bool,
    pub confirm_empty_trash: bool,
    pub rename_target: Option<String>,
    pub rename_input: String,
    pub move_form: Option<MoveForm>,
    pub select_anchor: Option<String>,
    pub show_new_file: bool,
    pub new_file_name: String,
    pub text_editor: Option<TextEditor>,
    pub contact_paste: String,
    pub contact_preview: Option<ContactPreview>,
    pub verify: Option<VerifyForm>,
    pub export: Option<ExportForm>,
    pub last_import: Option<ImportInfo>,
    pub migrate: Option<ConfirmForm>,
    pub passkeys: Vec<PasskeyInfo>,
    pub add_passkey: Option<PasskeyEnrollForm>,
    pub auto_unlock: bool,
    pub auto_unlock_form: Option<ConfirmForm>,
    pub export_identity: Option<ExportIdentityForm>,
    pub data_dir: String,
    pub rollback_warning: Option<String>,
    pub transfer: TransferState,
}

// ---------------------------------------------------------------------------
// What each step changes
// ---------------------------------------------------------------------------

/// A session as it starts: on the vaults, with nothing open, selected or typed.
pub open spec fn fresh(s: Session, i: SessionInit) -> bool {
    &&& s.identity == i.identity && s.contacts == i.contacts && s.registry == i.registry
    &&& s.passkeys == i.passkeys && s.auto_unlock == i.auto_unlock && s.data_dir == i.data_dir
    &&& s.rollback_warning == i.rollback_warning
    &&& s.nav == Nav::Vaults && s.open is None && s.checkout is None && s.views@.len() == 0
    &&& s.new_vault_name@.len() == 0 && !s.show_new_vault
    &&& s.new_folder_name@.len() == 0 && s.current_dir@.len() == 0 && !s.show_new_folder
    &&& s.file_search@.len() == 0 && s.selected@ == Set::<Seq<char>>::empty()
    &&& s.sort == SortMode::NameAsc && !s.show_trash && !s.confirm_empty_trash
    &&& s.rename_target is None && s.rename_input@.len() == 0 && s.move_form is None
    &&& s.select_anchor is None && !s.show_new_file && s.new_file_name@.len() == 0
    &&& s.text_editor is None && s.contact_paste@.len() == 0 && s.contact_preview is None
    &&& s.verify is None && s.export is None && s.last_import is None && s.migrate is None
    &&& s.add_passkey is None && s.auto_unlock_form is None && s.export_identity is None
    &&& s.transfer.active is None && s.transfer.recv_contact is None && !s.transfer.recv_internet
    &&& s.transfer.send_contact is None && s.transfer.send_vault is None
    &&& s.transfer.recv_port@.len() == 0 && s.transfer.send_host@.len() == 0
    &&& s.transfer.send_port@.len() == 0 && s.transfer.send_pairing@.len() == 0
}

/// `b` is `a` with the browser back at the top of a vault and nothing half done.
pub open spec fn browse_reset(a: Session, b: Session) -> bool {
    &&& b.current_dir@.len() == 0 && b.new_folder_name@.len() == 0 && b.file_search@.len() == 0
    &&& b.selected@ == Set::<Seq<char>>::empty() && b.rename_input@.len() == 0
    &&& b.new_file_name@.len() == 0
    &&& b == (Session {
        current_dir: b.current_dir,
        show_new_folder: false,
        new_folder_name: b.new_folder_name,
        file_search: b.file_search,
        selected: b.selected,
        show_trash: false,
        confirm_empty_trash: false,
        rename_target: None,
        rename_input: b.rename_input,
        move_form: None,
        select_anchor: None,
        show_new_file: false,
        new_file_name: b.new_file_name,
        text_editor: None,
        ..a
    })
}

/// `b` is `a` on another screen, with no vault open and no copies in view.
pub open spec fn navigated(a: Session, b: Session, n: Nav) -> bool {
    b.views@.len() == 0 && b == (Session { views: b.views, nav: n, open: None, ..a })
}

/// `b` is `a` with the vault closed and no copies in view.
pub open spec fn vault_closed(a: Session, b: Session) -> bool {
    b.views@.len() == 0 && browse_reset(Session { views: b.views, open: None, ..a }, b)
}

/// `b` is `a` with a composer shown or put away; putting it away clears the name.
pub open spec fn new_vault_toggled(a: Session, b: Session, on: bool) -> bool {
    &&& b == (Session { show_new_vault: on, new_vault_name: b.new_vault_name, ..a })
    &&& if on {
        b.new_vault_name == a.new_vault_name
    } else {
        b.new_vault_name@.len() == 0
    }
}

pub open spec fn new_folder_toggled(a: Session, b: Session, on: bool) -> bool {
    &&& b == (Session { show_new_folder: on, new_folder_name: b.new_folder_name, ..a })
    &&& if on {
        b.new_folder_name == a.new_folder_name
    } else {
        b.new_folder_name@.len() == 0
    }
}

pub open spec fn new_file_toggled(a: Session, b: Session, on: bool) -> bool {
    &&& b == (Session { show_new_file: on, new_file_name: b.new_file_name, ..a })
    &&& if on {
        b.new_file_name == a.new_file_name
    } else {
        b.new_file_name@.len() == 0
    }
}

/// `b` is `a` in another folder, with a fresh selection and no search.
pub open spec fn entered_dir(a: Session, b: Session, dir: String) -> bool {
    &&& b.selected@ == Set::<Seq<char>>::empty() && b.file_search@.len() == 0
    &&& b == (Session {
        current_dir: dir,
        selected: b.selected,
        select_anchor: None,
        file_search: b.file_search,
        ..a
    })
}

/// The paths of rows.
pub open spec fn row_paths(rows: Seq<RowView>) -> Set<Seq<char>> {
    Set::new(|p: Seq<char>| exists|i: int| 0 <= i < rows.len() && (#[trigger] rows[i]).path == p)
}

/// `b` is `a` with every visible row selected too.
pub open spec fn all_selected(a: Session, b: Session) -> bool {
    match a.open {
        Some(o) => {
            &&& b == (Session { selected: b.selected, ..a })
            &&& b.selected@ == a.selected@.union(
                row_paths(shown_rows(listing(o.entries@), a.current_dir@, a.file_search@)),
            )
        },
        None => b == a,
    }
}

pub open spec fn selection_cleared(a: Session, b: Session) -> bool {
    &&& b.selected@ == Set::<Seq<char>>::empty()
    &&& b == (Session { selected: b.selected, select_anchor: None, ..a })
}

/// `b` is `a` showing the trash or not, with nothing half done left over.
pub open spec fn trash_shown(a: Session, b: Session, on: bool) -> bool {
    &&& b.selected@ == Set::<Seq<char>>::empty() && b.rename_input@.len() == 0
    &&& b == (Session {
        show_trash: on,
        selected: b.selected,
        rename_target: None,
        rename_input: b.rename_input,
        confirm_empty_trash: false,
        ..a
    })
}

pub open spec fn rename_begun(a: Session, b: Session, path: String) -> bool {
    &&& b.rename_input@ == leaf_of(path@)
    &&& b == (Session { rename_target: Some(path), rename_input: b.rename_input, ..a })
}

pub open spec fn rename_ended(a: Session, b: Session) -> bool {
    &&& b.rename_input@.len() == 0
    &&& b == (Session { rename_target: None, rename_input: b.rename_input, ..a })
}

/// `b` is `a` with the move dialog open on some paths; the folder of the first is
/// proposed.
pub open spec fn move_begun(a: Session, b: Session, paths: Vec<String>) -> bool {
    if paths@.len() == 0 {
        b == a
    } else {
        &&& b == (Session { move_form: b.move_form, ..a })
        &&& b.move_form is Some
        &&& b.move_form->0.paths == paths
        &&& b.move_form->0.dest@ == parent_of(paths@[0]@)
    }
}

pub open spec fn move_dest_set(a: Session, b: Session, dest: String) -> bool {
    match a.move_form {
        Some(f) => b == (Session { move_form: Some(MoveForm { dest, ..f }), ..a }),
        None => b == a,
    }
}

pub open spec fn export_begun(a: Session, b: Session, id: String) -> bool {
    &&& b == (Session { export: b.export, ..a })
    &&& b.export is Some
    &&& b.export->0.vault_id == id
    &&& b.export->0.selected@ == Set::<Seq<char>>::empty()
    &&& !b.export->0.include_self
    &&& b.export->0.suite == SuiteId::Classic
}

/// `b` is `a` with one recipient ticked or unticked.
pub open spec fn recipient_toggled(a: Session, b: Session, fpr: Seq<char>) -> bool {
    match a.export {
        Some(e) => {
            &&& b == (Session { export: b.export, ..a })
            &&& b.export is Some
            &&& b.export->0 == (ExportForm { selected: b.export->0.selected, ..e })
            &&& b.export->0.selected@ == (if e.selected@.contains(fpr) {
                e.selected@.remove(fpr)
            } else {
                e.selected@.insert(fpr)
            })
        },
        None => b == a,
    }
}

pub open spec fn include_self_toggled(a: Session, b: Session) -> bool {
    match a.export {
        Some(e) => b == (Session {
            export: Some(ExportForm { include_self: !e.include_self, ..e }),
            ..a
        }),
        None => b == a,
    }
}

pub open spec fn suite_set(a: Session, b: Session, suite: SuiteId) -> bool {
    match a.export {
        Some(e) => b == (Session { export: Some(ExportForm { suite, ..e }), ..a }),
        None => b == a,
    }
}

/// An empty form that asks for the passphrase.
pub open spec fn blank_confirm(f: Option<ConfirmForm>) -> bool {
    f is Some && f->0.pass@.len() == 0 && f->0.error is None
}

/// `b` is `a` with the upgrade dialog open, unless the identity is upgraded already.
pub open spec fn migrate_begun(a: Session, b: Session) -> bool {
    if a.identity.hybrid {
        b == a
    } else {
        b == (Session { migrate: b.migrate, ..a }) && blank_confirm(b.migrate)
    }
}

pub open spec fn add_passkey_begun(a: Session, b: Session) -> bool {
    &&& b == (Session { add_passkey: b.add_passkey, ..a })
    &&& b.add_passkey is Some
    &&& b.add_passkey->0.label@.len() == 0 && b.add_passkey->0.pass@.len() == 0
    &&& b.add_passkey->0.pin@.len() == 0 && b.add_passkey->0.error is None
}

pub open spec fn auto_unlock_begun(a: Session, b: Session) -> bool {
    b == (Session { auto_unlock_form: b.auto_unlock_form, ..a }) && blank_confirm(
        b.auto_unlock_form,
    )
}

pub open spec fn export_identity_begun(a: Session, b: Session) -> bool {
    &&& b == (Session { export_identity: b.export_identity, ..a })
    &&& b.export_identity is Some
    &&& b.export_identity->0.pass@.len() == 0 && b.export_identity->0.pass2@.len() == 0
    &&& b.export_identity->0.error is None
}

/// `b` is `a` with the safety-number dialog open for a contact, if there is one with
/// the fingerprint; the import dialog that it may have been opened from is closed.
pub open spec fn verify_begun(a: Session, b: Session, fpr: Seq<u8>, fpr_hex: String) -> bool {
    let k = contact_pos(a.contacts.contacts@, fpr);
    if k < 0 {
        b == a
    } else {
        let c = a.contacts.contacts@[k];
        &&& b == (Session { verify: b.verify, last_import: None, ..a })
        &&& b.verify is Some
        &&& b.verify->0.fpr_hex == fpr_hex
        &&& b.verify->0.name == c.key.display_name
        &&& b.verify->0.safety_number == c.key.safety_number
        &&& b.verify->0.input@.len() == 0
        &&& !b.verify->0.manual_ok
    }
}

/// `b` is `a` with a key staged for confirmation.
pub open spec fn staged(a: Session, b: Session, key: PublicKey) -> bool {
    b == (Session {
        contact_preview: Some(
            ContactPreview {
                key,
                status: status_of(a.identity.fpr@, a.contacts.contacts@, key),
            },
        ),
        ..a
    })
}

/// `b` is `a` with the sender of the last import staged for confirmation.
pub open spec fn sender_staged(a: Session, b: Session) -> bool {
    match a.last_import {
        Some(i) => staged(Session { last_import: None, ..a }, b, i.sender),
        None => b == a,
    }
}

/// `b` is `a` after an import: the registry is the new one, and the dialog tells who
/// sent it as far as the contact book knows.
pub open spec fn imported(a: Session, b: Session, data: ImportData) -> bool {
    let k = contact_pos(a.contacts.contacts@, data.sender.fpr@);
    &&& b == (Session { registry: data.registry, last_import: b.last_import, ..a })
    &&& b.last_import is Some
    &&& ({
        let i = b.last_import->0;
        &&& i.sender == data.sender
        &&& i.sender_fpr_hex@ == hex_text(data.sender.fpr@)
        &&& i.vault_name == data.vault_name
        &&& i.file_count == data.file_count
        &&& if k >= 0 {
            i.sender_name == Some(a.contacts.contacts@[k].key.name) && i.verified == (
            a.contacts.contacts@[k].trust == Trust::Verified)
        } else {
            i.sender_name is None && !i.verified
        }
    })
}

impl Session {
    /// A session as it starts.
    pub fn new(init: SessionInit) -> (s: Self)
        ensures
            fresh(s, init),
    {
        Session {
            identity: init.identity,
            contacts: init.contacts,
            registry: init.registry,
            nav: Nav::Vaults,
            open: None,
            checkout: None,
            views: Vec::new(),
            new_vault_name: String::new(),
            show_new_vault: false,
            new_folder_name: String::new(),
            current_dir: String::new(),
            show_new_folder: false,
            file_search: String::new(),
            selected: TextSet::new(),
            sort: SortMode::NameAsc,
            show_trash: false,
            confirm_empty_trash: false,
            rename_target: None,
            rename_input: String::new(),
            move_form: None,
            select_anchor: None,
            show_new_file: false,
            new_file_name: String::new(),
            text_editor: None,
            contact_paste: String::new(),
            contact_preview: None,
            verify: None,
            export: None,
            last_import: None,
            migrate: None,
            passkeys: init.passkeys,
            add_passkey: None,
            auto_unlock: init.auto_unlock,
            auto_unlock_form: None,
            export_identity: None,
            data_dir: init.data_dir,
            rollback_warning: init.rollback_warning,
            transfer: TransferState::new(),
        }
    }

    /// Puts the browser back at the top of a vault, scrubbing an open editor.
    pub fn reset_browse(&mut self)
        ensures
            browse_reset(*old(self), *final(self)),
    {
        self.current_dir = String::new();
        self.show_new_folder = false;
        self.new_folder_name = String::new();
        self.file_search = String::new();
        self.selected = TextSet::new();
        self.show_trash = false;
        self.confirm_empty_trash = false;
        self.rename_target = None;
        self.rename_input = String::new();
        self.move_form = None;
        self.select_anchor = None;
        self.show_new_file = false;
        self.new_file_name = String::new();
        self.close_text_editor();
    }

    /// Closes the editor, scrubbing its text.
    pub fn close_text_editor(&mut self)
        ensures
            *final(self) == (Session { text_editor: None, ..*old(self) }),
    {
        match self.text_editor.take() {
            Some(mut te) => te.zeroize(),
            None => {},
        }
    }

    /// Hands out the copies in view, to be wiped.
    pub fn take_views(&mut self) -> (v: Vec<ActiveView>)
        ensures
            v == old(self).views,
            final(self).views@.len() == 0,
            *final(self) == (Session { views: final(self).views, ..*old(self) }),
    {
        let mut v: Vec<ActiveView> = Vec::new();
        std::mem::swap(&mut self.views, &mut v);
        v
    }

    /// Goes to another screen; the copies in view are handed out to be wiped.
    pub fn navigate(&mut self, n: Nav) -> (v: Vec<ActiveView>)
        ensures
            v == old(self).views,
            navigated(*old(self), *final(self), n),
    {
        let v = self.take_views();
        self.nav = n;
        self.open = None;
        v
    }

    /// Closes the vault; the copies in view are handed out to be wiped.
    pub fn close_vault(&mut self) -> (v: Vec<ActiveView>)
        ensures
            v == old(self).views,
            vault_closed(*old(self), *final(self)),
    {
        let v = self.take_views();
        self.open = None;
        self.reset_browse();
        v
    }

    /// Shows or puts away the new-vault composer.
    pub fn toggle_new_vault(&mut self, on: bool)
        ensures
            new_vault_toggled(*old(self), *final(self), on),
    {
        self.show_new_vault = on;
        if !on {
            self.new_vault_name = String::new();
        }
    }

    /// Shows or puts away the new-folder composer.
    pub fn toggle_new_folder(&mut self, on: bool)
        ensures
            new_folder_toggled(*old(self), *final(self), on),
    {
        self.show_new_folder = on;
        if !on {
            self.new_folder_name = String::new();
        }
    }

    /// Shows or puts away the new-file composer.
    pub fn toggle_new_file(&mut self, on: bool)
        ensures
            new_file_toggled(*old(self), *final(self), on),
    {
        self.show_new_file = on;
        if !on {
            self.new_file_name = String::new();
        }
    }

    /// Enters a folder.
    pub fn enter_dir(&mut self, dir: String)
        ensures
            entered_dir(*old(self), *final(self), dir),
    {
        self.current_dir = dir;
        self.selected = TextSet::new();
        self.select_anchor = None;
        self.file_search = String::new();
    }

    /// Selects every visible row, files and folders alike.
    pub fn select_all_visible(&mut self)
        ensures
            all_selected(*old(self), *final(self)),
    {
        let rows: Vec<Row> = match &self.open {
            Some(o) => visible_rows(&o.entries, &self.current_dir, &self.file_search, self.sort),
            None => return,
        };
        let ghost before = self.selected@;
        let ghost shown = shown_rows(
            listing(self.open->0.entries@),
            self.current_dir@,
            self.file_search@,
        );
        let ghost views = row_views(rows@);
        proof {
            assert forall|p: Seq<char>| row_paths(shown).contains(p) <==> row_paths(views).contains(
                p,
            ) by {
                if row_paths(shown).contains(p) {
                    let i = choose|i: int| 0 <= i < shown.len() && (#[trigger] shown[i]).path == p;
                    law_sorting_keeps_the_values(shown, views, row_le(self.sort), shown[i]);
                    assert(shown.contains(shown[i]));
                    let j = choose|j: int| 0 <= j < views.len() && views[j] == shown[i];
                    assert(views[j].path == p);
                }
                if row_paths(views).contains(p) {
                    let i = choose|i: int| 0 <= i < views.len() && (#[trigger] views[i]).path == p;
                    law_sorting_keeps_the_values(shown, views, row_le(self.sort), views[i]);
                    assert(views.contains(views[i]));
                    let j = choose|j: int| 0 <= j < shown.len() && shown[j] == views[i];
                    assert(shown[j].path == p);
                }
            }
            assert(before =~= before.union(row_paths(views.take(0))));
        }
        let ghost start = *self;
        let mut i: usize = 0;
        while i < rows.len()
            invariant
                i <= rows@.len(),
                views == row_views(rows@),
                *self == (Session { selected: self.selected, ..start }),
                self.selected@ == before.union(row_paths(views.take(i as int))),
            decreases rows@.len() - i,
        {
            self.selected.insert(&rows[i].path);
            proof {
                let (s, t) = (views.take(i as int), views.take(i + 1));
                assert(t[i as int].path == rows@[i as int].path@);
                assert forall|p: Seq<char>| row_paths(t).contains(p) <==> row_paths(s).insert(
                    rows@[i as int].path@,
                ).contains(p) by {
                    if row_paths(t).contains(p) {
                        let k = choose|k: int| 0 <= k < t.len() && (#[trigger] t[k]).path == p;
                        if k < i {
                            assert(s[k].path == p);
                        }
                    }
                    if row_paths(s).contains(p) {
                        let k = choose|k: int| 0 <= k < s.len() && (#[trigger] s[k]).path == p;
                        assert(t[k].path == p);
                    }
                }
                assert(self.selected@ =~= before.union(row_paths(t)));
            }
            i += 1;
        }
        proof {
            assert(views.take(i as int) =~= views);
            assert(self.selected@ =~= before.union(row_paths(shown)));
        }
    }

    /// Selects nothing.
    pub fn clear_selection(&mut self)
        ensures
            selection_cleared(*old(self), *final(self)),
    {
        self.selected = TextSet::new();
        self.select_anchor = None;
    }

    /// Shows the trash, or the files again.
    pub fn show_trash(&mut self, on: bool)
        ensures
            trash_shown(*old(self), *final(self), on),
    {
        self.show_trash = on;
        self.selected = TextSet::new();
        self.rename_target = None;
        self.rename_input = String::new();
        self.confirm_empty_trash = false;
    }

    /// Opens the rename composer on an entry.
    pub fn begin_rename(&mut self, path: String)
        ensures
            rename_begun(*old(self), *final(self), path),
    {
        self.rename_input = owned(leaf_name(&path));
        self.rename_target = Some(path);
    }

    /// Puts the rename composer away.
    pub fn cancel_rename(&mut self)
        ensures
            rename_ended(*old(self), *final(self)),
    {
        self.rename_target = None;
        self.rename_input = String::new();
    }

    /// Opens the move dialog.
    pub fn begin_move(&mut self, paths: Vec<String>)
        ensures
            move_begun(*old(self), *final(self), paths),
    {
        if paths.len() > 0 {
            let dest = owned(parent_dir(&paths[0]));
            self.move_form = Some(MoveForm { paths, dest });
        }
    }

    /// Picks the folder to move to.
    pub fn set_move_dest(&mut self, dest: String)
        ensures
            move_dest_set(*old(self), *final(self), dest),
    {
        match self.move_form.take() {
            Some(mut f) => {
                f.dest = dest;
                self.move_form = Some(f);
            },
            None => {},
        }
    }

    /// Opens the export dialog.
    pub fn begin_export(&mut self, id: String)
        ensures
            export_begun(*old(self), *final(self), id),
    {
        self.export = Some(
            ExportForm {
                vault_id: id,
                selected: TextSet::new(),
                include_self: false,
                suite: SuiteId::Classic,
            },
        );
    }

    /// Ticks or unticks a recipient.
    pub fn toggle_recipient(&mut self, fpr: &str)
        ensures
            recipient_toggled(*old(self), *final(self), fpr@),
    {
        match self.export.take() {
            Some(mut e) => {
                if e.selected.contains(fpr) {
                    let _ = e.selected.remove(fpr);
                } else {
                    e.selected.insert(fpr);
                }
                self.export = Some(e);
            },
            None => {},
        }
    }

    /// Ticks or unticks the user as a recipient.
    pub fn toggle_include_self(&mut self)
        ensures
            include_self_toggled(*old(self), *final(self)),
    {
        match self.export.take() {
            Some(mut e) => {
                e.include_self = !e.include_self;
                self.export = Some(e);
            },
            None => {},
        }
    }

    /// Picks the cipher suite of an export.
    pub fn set_export_suite(&mut self, suite: SuiteId)
        ensures
            suite_set(*old(self), *final(self), suite),
    {
        match self.export.take() {
            Some(mut e) => {
                e.suite = suite;
                self.export = Some(e);
            },
            None => {},
        }
    }

    /// Opens the upgrade dialog.
    pub fn begin_migrate(&mut self)
        ensures
            migrate_begun(*old(self), *final(self)),
    {
        if !self.identity.hybrid {
            self.migrate = Some(ConfirmForm::new());
        }
    }

    /// Closes the upgrade dialog, which scrubs it.
    pub fn cancel_migrate(&mut self)
        ensures
            *final(self) == (Session { migrate: None, ..*old(self) }),
    {
        self.migrate = None;
    }

    /// Opens the enrolment dialog.
    pub fn begin_add_passkey(&mut self)
        ensures
            add_passkey_begun(*old(self), *final(self)),
    {
        self.add_passkey = Some(PasskeyEnrollForm::new());
    }

    /// Closes the enrolment dialog, which scrubs it.
    pub fn cancel_add_passkey(&mut self)
        ensures
            *final(self) == (Session { add_passkey: None, ..*old(self) }),
    {
        self.add_passkey = None;
    }

    /// Opens the automatic-unlock dialog.
    pub fn begin_auto_unlock(&mut self)
        ensures
            auto_unlock_begun(*old(self), *final(self)),
    {
        self.auto_unlock_form = Some(ConfirmForm::new());
    }

    /// Closes the automatic-unlock dialog, which scrubs it.
    pub fn cancel_auto_unlock(&mut self)
        ensures
            *final(self) == (Session { auto_unlock_form: None, ..*old(self) }),
    {
        self.auto_unlock_form = None;
    }

    /// Opens the identity backup dialog.
    pub fn begin_export_identity(&mut self)
        ensures
            export_identity_begun(*old(self), *final(self)),
    {
        self.export_identity = Some(ExportIdentityForm::new());
    }

    /// Closes the identity backup dialog, which scrubs it.
    pub fn cancel_export_identity(&mut self)
        ensures
            *final(self) == (Session { export_identity: None, ..*old(self) }),
    {
        self.export_identity = None;
    }

    /// Opens the safety-number dialog for the contact with a fingerprint.
    pub fn begin_verify(&mut self, fpr: &[u8; 32], fpr_hex: String)
        ensures
            verify_begun(*old(self), *final(self), fpr@, fpr_hex),
    {
        match self.contacts.find(fpr) {
            Some(k) => {
                let c: &Contact = &self.contacts.contacts[k];
                let form = VerifyForm {
                    fpr_hex,
                    name: c.key.display_name.clone(),
                    safety_number: c.key.safety_number.clone(),
                    input: String::new(),
                    manual_ok: false,
                };
                self.verify = Some(form);
                self.last_import = None;
            },
            None => {},
        }
    }

    /// Stages a parsed key for confirmation.
    pub fn stage_contact(&mut self, key: PublicKey)
        ensures
            staged(*old(self), *final(self), key),
    {
        let p = build_contact_preview(&self.identity, &self.contacts, key);
        self.contact_preview = Some(p);
    }

    /// Stages the sender of the last import for confirmation, closing its dialog.
    pub fn stage_sender(&mut self)
        ensures
            sender_staged(*old(self), *final(self)),
    {
        match self.last_import.take() {
            Some(i) => self.stage_contact(i.sender),
            None => {},
        }
    }

    /// Takes an import into the session.
    pub fn take_import(&mut self, data: ImportData)
        ensures
            imported(*old(self), *final(self), data),
    {
        let info = sender_info(&self.contacts, &data.sender.fpr);
        let sender_fpr_hex = hex(&data.sender.fpr);
        self.registry = data.registry;
        self.last_import = Some(
            ImportInfo {
                sender: data.sender,
                sender_fpr_hex,
                sender_name: info.name,
                verified: info.verified,
                vault_name: data.vault_name,
                file_count: data.file_count,
            },
        );
    }
}

// ---------------------------------------------------------------------------
// Laws
// ---------------------------------------------------------------------------

/// An export starts with nobody chosen, and ticking a contact concerns that contact alone;
/// ticking twice undoes it.
pub proof fn law_ticking_concerns_one_recipient(
    a: Session,
    b: Session,
    c: Session,
    fpr: Seq<char>,
    other: Seq<char>,
)
    requires
        a.export is Some,
        recipient_toggled(a, b, fpr),
        recipient_toggled(b, c, fpr),
    ensures
        b.export is Some && c.export is Some,
        b.export->0.selected@.contains(fpr) <==> !a.export->0.selected@.contains(fpr),
        other != fpr ==> (b.export->0.selected@.contains(other)
            <==> a.export->0.selected@.contains(other)),
        c.export->0.selected@ == a.export->0.selected@,
        b.export->0.vault_id == a.export->0.vault_id && b.export->0.suite == a.export->0.suite
            && b.export->0.include_self == a.export->0.include_self,
{
    assert(c.export->0.selected@ =~= a.export->0.selected@);
}

/// A fresh export dialog is for the vault that was chosen, and has nobody ticked.
pub proof fn law_an_export_starts_with_nobody(a: Session, b: Session, id: String, p: Seq<char>)
    requires
        export_begun(a, b, id),
    ensures
        b.export is Some && b.export->0.vault_id == id,
        !b.export->0.selected@.contains(p) && !b.export->0.include_self,
{
}

/// Verifying a contact shows that contact's own safety number, under its own name, with
/// nothing typed or ticked yet.
pub proof fn law_verifying_shows_the_contacts_own_number(
    a: Session,
    b: Session,
    fpr: Seq<u8>,
    fpr_hex: String,
    k: int,
)
    requires
        verify_begun(a, b, fpr, fpr_hex),
        0 <= k < a.contacts.contacts@.len(),
        a.contacts.contacts@[k].key.fpr@ == fpr,
        forall|i: int| 0 <= i < k ==> (#[trigger] a.contacts.contacts@[i]).key.fpr@ != fpr,
    ensures
        b.verify is Some,
        b.verify->0.fpr_hex == fpr_hex,
        b.verify->0.safety_number == a.contacts.contacts@[k].key.safety_number,
        b.verify->0.name == a.contacts.contacts@[k].key.display_name,
        b.verify->0.input@.len() == 0 && !b.verify->0.manual_ok,
{
    crate::contacts::lemma_contact_pos(a.contacts.contacts@, fpr);
    let j = contact_pos(a.contacts.contacts@, fpr);
    if j < 0 || j > k {
        assert(a.contacts.contacts@[k].key.fpr@ != fpr);
    }
}

/// Selecting all selects exactly what the browser shows, besides what was selected.
pub proof fn law_select_all_selects_what_is_shown(
    a: Session,
    b: Session,
    entries: &[crate::browse::Entry],
    dir: &str,
    search: &str,
    rows: Vec<crate::browse::Row>,
    p: Seq<char>,
)
    requires
        all_selected(a, b),
        a.open is Some,
        entries@ == a.open->0.entries@,
        dir@ == a.current_dir@,
        search@ == a.file_search@,
        call_ensures(crate::browse::visible_rows, (entries, dir, search, a.sort), rows),
    ensures
        b.selected@.contains(p) <==> a.selected@.contains(p) || exists|k: int|
            0 <= k < rows@.len() && (#[trigger] rows@[k]).path@ == p,
{
    let shown = shown_rows(listing(entries@), dir@, search@);
    let v = crate::browse::row_views(rows@);
    let le = crate::browse::row_le(a.sort);
    if row_paths(shown).contains(p) {
        let i = choose|i: int| 0 <= i < shown.len() && (#[trigger] shown[i]).path == p;
        assert(shown.contains(shown[i]));
        crate::order::law_sorting_keeps_the_values(shown, v, le, shown[i]);
        let k = choose|k: int| 0 <= k < v.len() && v[k] == shown[i];
        assert(rows@[k].path@ == p);
    }
    if exists|k: int| 0 <= k < rows@.len() && (#[trigger] rows@[k]).path@ == p {
        let k = choose|k: int| 0 <= k < rows@.len() && (#[trigger] rows@[k]).path@ == p;
        assert(v[k] == rows@[k]@);
        assert(v.contains(v[k]));
        crate::order::law_sorting_keeps_the_values(shown, v, le, v[k]);
        let i = choose|i: int| 0 <= i < shown.len() && shown[i] == v[k];
        assert(shown[i].path == p);
    }
}

/// An imported vault is told with its sender as the contact book knows it: verified only if
/// the book says so of the very key that signed.
pub proof fn law_an_import_tells_who_sent_it(a: Session, b: Session, data: ImportData, k: int)
    requires
        imported(a, b, data),
    ensures
        b.registry == data.registry,
        b.last_import is Some && b.last_import->0.vault_name == data.vault_name,
        (forall|i: int|
            0 <= i < a.contacts.contacts@.len() ==> (#[trigger] a.contacts.contacts@[i]).key.fpr@
                != data.sender.fpr@) ==> b.last_import->0.sender_name is None
            && !b.last_import->0.verified,
        0 <= k < a.contacts.contacts@.len() && a.contacts.contacts@[k].key.fpr@ == data.sender.fpr@
            && (forall|i: int|
            0 <= i < k ==> (#[trigger] a.contacts.contacts@[i]).key.fpr@ != data.sender.fpr@)
            ==> b.last_import->0.sender_name == Some(a.contacts.contacts@[k].key.name) && (
        b.last_import->0.verified <==> a.contacts.contacts@[k].trust == Trust::Verified),
{
    crate::contacts::lemma_contact_pos(a.contacts.contacts@, data.sender.fpr@);
    let j = contact_pos(a.contacts.contacts@, data.sender.fpr@);
    if 0 <= k < a.contacts.contacts@.len() && a.contacts.contacts@[k].key.fpr@ == data.sender.fpr@
        && (forall|i: int|
        0 <= i < k ==> (#[trigger] a.contacts.contacts@[i]).key.fpr@ != data.sender.fpr@) {
        if j < 0 || j > k {
            assert(a.contacts.contacts@[k].key.fpr@ != data.sender.fpr@);
        }
    }
}

/// The move dialog is about the paths that were given, and proposes the folder they are in;
/// picking another folder changes the destination alone.
pub proof fn law_a_move_is_about_what_was_chosen(
    a: Session,
    b: Session,
    c: Session,
    paths: Vec<String>,
    dest: String,
)
    requires
        move_begun(a, b, paths),
        move_dest_set(b, c, dest),
        paths@.len() > 0,
    ensures
        b.move_form is Some && b.move_form->0.paths == paths,
        b.move_form->0.dest@ == parent_of(paths@[0]@),
        c.move_form is Some && c.move_form->0.paths == paths && c.move_form->0.dest == dest,
{
}

/// Renaming starts from the name that the entry has.
pub proof fn law_renaming_starts_from_the_name(a: Session, b: Session, path: String)
    requires
        rename_begun(a, b, path),
    ensures
        b.rename_target == Some(path),
        b.rename_input@ == leaf_of(path@),
{
}

/// Going to another screen, or closing the vault, closes it and hands out every copy that was
/// in view; an edit that is under way, and what is stored, stay.
pub proof fn law_leaving_a_vault_hands_out_its_views(
    a: &mut Session,
    n: Nav,
    v: Vec<ActiveView>,
    b: &mut Session,
    w: Vec<ActiveView>,
)
    requires
        call_ensures(Session::navigate, (a, n), v),
        call_ensures(Session::close_vault, (b,), w),
    ensures
        v == old(a).views && final(a).views@.len() == 0 && final(a).open is None,
        final(a).nav == n,
        final(a).checkout == old(a).checkout && final(a).registry == old(a).registry,
        w == old(b).views && final(b).views@.len() == 0 && final(b).open is None,
        final(b).nav == old(b).nav,
        final(b).checkout == old(b).checkout && final(b).registry == old(b).registry,
        final(b).current_dir@.len() == 0 && final(b).text_editor is None,
        final(b).selected@ == Set::<Seq<char>>::empty(),
        !final(b).show_trash && final(b).rename_target is None && final(b).move_form is None,
{
}

/// Entering a folder shows it with nothing selected and no search, and changes nothing else of
/// what is stored or open.
pub proof fn law_entering_a_folder_starts_afresh(a: &mut Session, dir: String)
    requires
        call_ensures(Session::enter_dir, (a, dir), ()),
    ensures
        final(a).current_dir == dir,
        final(a).selected@ == Set::<Seq<char>>::empty() && final(a).select_anchor is None,
        final(a).file_search@.len() == 0,
        final(a).open == old(a).open && final(a).registry == old(a).registry,
        final(a).checkout == old(a).checkout && final(a).views == old(a).views,
        final(a).sort == old(a).sort && final(a).nav == old(a).nav,
{
}

/// A composer keeps what was typed while it is shown, and forgets it when it is put away.
pub proof fn law_a_composer_put_away_is_empty(
    a: &mut Session,
    b: &mut Session,
    c: &mut Session,
    on: bool,
)
    requires
        call_ensures(Session::toggle_new_vault, (a, on), ()),
        call_ensures(Session::toggle_new_folder, (b, on), ()),
        call_ensures(Session::toggle_new_file, (c, on), ()),
    ensures
        final(a).show_new_vault == on && final(b).show_new_folder == on && final(c).show_new_file
            == on,
        on ==> final(a).new_vault_name == old(a).new_vault_name && final(b).new_folder_name == old(b).new_folder_name && final(c).new_file_name == old(c).new_file_name,
        !on ==> final(a).new_vault_name@.len() == 0 && final(b).new_folder_name@.len() == 0
            && final(c).new_file_name@.len() == 0,
        final(a).show_new_folder == old(a).show_new_folder && final(a).show_new_file == old(a).show_new_file,
        final(b).show_new_vault == old(b).show_new_vault && final(b).show_new_file == old(b).show_new_file,
        final(c).show_new_vault == old(c).show_new_vault && final(c).show_new_folder == old(c).show_new_folder,
{
}

/// Showing the trash, or the files again, drops the selection and anything half done there.
pub proof fn law_the_trash_is_shown_afresh(a: &mut Session, on: bool)
    requires
        call_ensures(Session::show_trash, (a, on), ()),
    ensures
        final(a).show_trash == on,
        final(a).selected@ == Set::<Seq<char>>::empty(),
        final(a).rename_target is None && final(a).rename_input@.len() == 0,
        !final(a).confirm_empty_trash,
        final(a).open == old(a).open && final(a).current_dir == old(a).current_dir,
{
}

/// A cleared selection is empty, and what was begun on one can be cancelled without trace.
pub proof fn law_cancelling_leaves_no_trace(
    a: &mut Session,
    b: &mut Session,
    c: &mut Session,
    d: &mut Session,
    e: &mut Session,
    f: &mut Session,
)
    requires
        call_ensures(Session::clear_selection, (a,), ()),
        call_ensures(Session::cancel_rename, (b,), ()),
        call_ensures(Session::cancel_migrate, (c,), ()),
        call_ensures(Session::cancel_add_passkey, (d,), ()),
        call_ensures(Session::cancel_auto_unlock, (e,), ()),
        call_ensures(Session::cancel_export_identity, (f,), ()),
    ensures
        final(a).selected@ == Set::<Seq<char>>::empty() && final(a).select_anchor is None,
        final(b).rename_target is None && final(b).rename_input@.len() == 0,
        final(c).migrate is None && final(d).add_passkey is None,
        final(e).auto_unlock_form is None && final(f).export_identity is None,
        final(a).open == old(a).open && final(b).open == old(b).open,
        final(c).identity == old(c).identity && final(e).auto_unlock == old(e).auto_unlock,
        final(d).passkeys == old(d).passkeys && final(f).identity == old(f).identity,
{
}

/// Every dialog that asks for a secret opens empty. The upgrade is offered only to an identity
/// that is not upgraded yet.
pub proof fn law_dialogs_open_empty(
    a: &mut Session,
    b: &mut Session,
    c: &mut Session,
    d: &mut Session,
)
    requires
        call_ensures(Session::begin_migrate, (a,), ()),
        call_ensures(Session::begin_add_passkey, (b,), ()),
        call_ensures(Session::begin_auto_unlock, (c,), ()),
        call_ensures(Session::begin_export_identity, (d,), ()),
    ensures
        old(a).identity.hybrid ==> *final(a) == *old(a),
        !old(a).identity.hybrid ==> final(a).migrate is Some && final(a).migrate->0.pass@.len()
            == 0,
        final(b).add_passkey is Some && final(b).add_passkey->0.pass@.len() == 0 && final(b).add_passkey->0.pin@.len() == 0,
        final(c).auto_unlock_form is Some && final(c).auto_unlock_form->0.pass@.len() == 0,
        final(d).export_identity is Some && final(d).export_identity->0.pass@.len() == 0 && final(d).export_identity->0.pass2@.len() == 0,
{
}

/// Ticking a recipient twice, or oneself twice, changes nothing, and the suite is the one that
/// was picked last; the vault that is exported stays the one it was begun with.
pub proof fn law_an_export_is_set_up_choice_by_choice(
    a: &mut Session,
    id: String,
    b: &mut Session,
    fpr: &str,
    c: &mut Session,
    d: &mut Session,
    suite: SuiteId,
)
    requires
        call_ensures(Session::begin_export, (a, id), ()),
        *old(b) == *final(a),
        call_ensures(Session::toggle_recipient, (b, fpr), ()),
        *old(c) == *final(b),
        call_ensures(Session::toggle_include_self, (c,), ()),
        *old(d) == *final(c),
        call_ensures(Session::set_export_suite, (d, suite), ()),
    ensures
        final(a).export is Some && final(a).export->0.selected@ == Set::<Seq<char>>::empty()
            && !final(a).export->0.include_self && final(a).export->0.suite == SuiteId::Classic,
        final(d).export is Some,
        final(d).export->0.vault_id == id,
        final(d).export->0.suite == suite,
        final(d).export->0.include_self,
        final(d).export->0.selected@.contains(fpr@),
        forall|other: Seq<char>|
            other != fpr@ ==> !(#[trigger] final(d).export->0.selected@.contains(other)),
        final(d).registry == old(a).registry && final(d).contacts == old(a).contacts,
{
}

/// A staged key is the one that was given, and staging the sender of an import closes the
/// import; nothing is saved by it.
pub proof fn law_a_key_is_staged_as_it_is(
    a: &mut Session,
    key: PublicKey,
    b: &mut Session,
)
    requires
        call_ensures(Session::stage_contact, (a, key), ()),
        call_ensures(Session::stage_sender, (b,), ()),
    ensures
        final(a).contact_preview is Some && final(a).contact_preview->0.key == key,
        final(a).contacts == old(a).contacts && final(b).contacts == old(b).contacts,
        old(b).last_import is Some ==> final(b).contact_preview is Some && final(b).contact_preview->0.key == old(b).last_import->0.sender && final(b).last_import is None,
        old(b).last_import is None ==> *final(b) == *old(b),
{
}

/// A session starts with what was read, on the vaults, with nothing open, selected, staged or
/// under way.
pub proof fn law_a_session_starts_clean(init: SessionInit, s: Session)
    requires
        call_ensures(Session::new, (init,), s),
    ensures
        s.identity == init.identity && s.contacts == init.contacts && s.registry == init.registry,
        s.passkeys == init.passkeys && s.auto_unlock == init.auto_unlock,
        s.nav == Nav::Vaults && s.open is None && s.checkout is None && s.views@.len() == 0,
        s.selected@ == Set::<Seq<char>>::empty() && s.current_dir@.len() == 0,
        s.contact_preview is None && s.verify is None && s.export is None,
        s.migrate is None && s.add_passkey is None && s.export_identity is None,
        s.transfer.active is None && s.transfer.send_pairing@.len() == 0,
{
}

} // verus!
