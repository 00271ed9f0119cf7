//! What the screens show: which parts are there, which can be used, and what they
//! say. Drawing them is outside. Sizes come in as text, already rendered.

use vstd::prelude::*;

use crate::app::Action;

use crate::browse::{
    clamp_dir, clamped, counted, counted_text, listing, Entry, EntryKind, Item, Row, RowView,
};
use crate::contacts::{Contact, ContactPreview, PreviewStatus, PublicKey, Trust};
use crate::dates::{date_text, day_number, fmt_date, is_date};
use crate::fingerprint::{hex, hex_text};
use crate::forms::Unlock;

use crate::order::{is_ranking, sort_stable, stably_sorted};
use crate::path::{is_trashed, leaf_name, leaf_of, parent_dir, parent_of, trashed};
use crate::session::{ActiveView, ExportForm, ImportInfo, Nav, Session, SuiteId, VerifyForm};
use crate::store::{Registry, VaultMeta};
use crate::text::{
    concat2, concat3, concat4, decimal, decimal_text, join, joined, opt_text, owned, texts, trim,
    trimmed,
};
use crate::text_set::{text_in, TextSet};
use crate::theme::BadgeKind;

use crate::transfer::ActiveKind;

use crate::trash::{has_live_entries, TrashItem};

verus! {

// ---------------------------------------------------------------------------
// Before the session
// ---------------------------------------------------------------------------

/// Whether another way in is offered.
#[derive(Clone, Copy, Debug, PartialEq, Eq, Structural)]
pub enum Offer {
    Hidden,
    Shown,
    /// It is set up, but this build cannot use it.
    Unsupported,
}

/// What the unlock screen shows.
pub struct UnlockView {
    /// Whether the one-time upgrade is explained.
    pub recovery_note: bool,
    pub button: &'static str,
    pub security_key: Offer,
    pub saved: Offer,
}

/// Whether a way in is offered: not while recovering, and only if it is set up.
pub open spec fn offer_of(recovering: bool, set_up: bool, supported: bool) -> Offer {
    if recovering || !set_up {
        Offer::Hidden
    } else if supported {
        Offer::Shown
    } else {
        Offer::Unsupported
    }
}

/// Whether a way in is offered.
fn offer(recovering: bool, set_up: bool, supported: bool) -> (r: Offer)
    ensures
        r == offer_of(recovering, set_up, supported),
{
    if recovering || !set_up {
        Offer::Hidden
    } else if supported {
        Offer::Shown
    } else {
        Offer::Unsupported
    }
}

/// What the unlock screen shows, in a build that supports security keys and the OS
/// keychain or not.
pub fn unlock_view(u: &Unlock, key_supported: bool, keychain_supported: bool) -> (v: UnlockView)
    ensures
        v.recovery_note == u.legacy_recovery,
        v.button@ == (if u.legacy_recovery {
            "Recover and upgrade local state"@
        } else {
            "Unlock"@
        }),
        v.security_key == offer_of(u.legacy_recovery, u.has_passkeys, key_supported),
        v.saved == offer_of(u.legacy_recovery, u.has_saved, keychain_supported),
{
    UnlockView {
        recovery_note: u.legacy_recovery,
        button: if u.legacy_recovery {
            "Recover and upgrade local state"
        } else {
            "Unlock"
        },
        security_key: offer(u.legacy_recovery, u.has_passkeys, key_supported),
        saved: offer(u.legacy_recovery, u.has_saved, keychain_supported),
    }
}

// ---------------------------------------------------------------------------
// The session's screens
// ---------------------------------------------------------------------------

/// The main screen of a session.
#[derive(Clone, Copy, Debug, PartialEq, Eq, Structural)]
pub enum Screen {
    Browser,
    Vaults,
    Contacts,
    Identity,
    Transfer,
}

/// The main screen: an open vault comes first.
pub open spec fn screen_of(s: Session) -> Screen {
    if s.open is Some {
        Screen::Browser
    } else {
        match s.nav {
            Nav::Vaults => Screen::Vaults,
            Nav::Contacts => Screen::Contacts,
            Nav::Identity => Screen::Identity,
            Nav::Transfer => Screen::Transfer,
        }
    }
}

/// Whether a dialog covers the browser.
pub open spec fn dialog_open(s: Session) -> bool {
    s.export is Some || s.last_import is Some || s.contact_preview is Some || s.verify is Some
        || s.add_passkey is Some || s.auto_unlock_form is Some || s.move_form is Some
        || s.text_editor is Some
}

/// Whether a path is a live entry.
pub open spec fn is_live_path(items: Seq<Item>, p: Seq<char>) -> bool {
    !trashed(p) && exists|i: int| 0 <= i < items.len() && (#[trigger] items[i]).0 == p
}

/// Whether a view's temp file still exists.
pub open spec fn view_exists(existing: Seq<Seq<char>>) -> spec_fn(ActiveView) -> bool {
    |v: ActiveView| existing.contains(v.temp_path@)
}

/// `b` is `a` brought up to date with the open vault and the disk: copies whose file is
/// gone are forgotten, the folder is one that exists, and only live entries are
/// selected.
pub open spec fn synced(a: Session, b: Session, existing: Seq<Seq<char>>) -> bool {
    match a.open {
        None => b == a,
        Some(o) => {
            let items = listing(o.entries@);
            &&& b == (Session {
                views: b.views,
                current_dir: b.current_dir,
                selected: b.selected,
                select_anchor: b.select_anchor,
                ..a
            })
            &&& b.views@ == a.views@.filter(view_exists(existing))
            &&& b.current_dir@ == clamped(items, a.current_dir@)
            &&& forall|p: Seq<char>| #[trigger]
                b.selected@.contains(p) <==> a.selected@.contains(p) && is_live_path(items, p)
            &&& b.select_anchor == (if a.select_anchor is Some && is_live_path(
                items,
                a.select_anchor->0@,
            ) {
                a.select_anchor
            } else {
                None
            })
        },
    }
}

/// Whether a path is a live entry.
fn live_path(entries: &[Entry], p: &str) -> (r: bool)
    ensures
        r == is_live_path(listing(entries@), p@),
{
    if is_trashed(p) {
        return false;
    }
    let r = crate::requests::find_entry(entries, p);
    proof {
        crate::requests::lemma_entry_pos(listing(entries@), p@);
    }
    r.is_some()
}

impl Session {
    /// The main screen.
    pub fn screen(&self) -> (r: Screen)
        ensures
            r == screen_of(*self),
    {
        if self.open.is_some() {
            return Screen::Browser;
        }
        match self.nav {
            Nav::Vaults => Screen::Vaults,
            Nav::Contacts => Screen::Contacts,
            Nav::Identity => Screen::Identity,
            Nav::Transfer => Screen::Transfer,
        }
    }

    /// Whether a sidebar entry is the current one.
    pub fn nav_selected(&self, nav: Nav) -> (r: bool)
        ensures
            r == (self.open is None && self.nav == nav),
    {
        self.open.is_none() && self.nav == nav
    }

    /// Whether nothing is being edited outside.
    pub fn idle(&self) -> (r: bool)
        ensures
            r == self.checkout is None,
    {
        self.checkout.is_none()
    }

    /// Whether a dialog covers the browser.
    pub fn modal_open(&self) -> (r: bool)
        ensures
            r == dialog_open(*self),
    {
        self.export.is_some() || self.last_import.is_some() || self.contact_preview.is_some()
            || self.verify.is_some() || self.add_passkey.is_some()
            || self.auto_unlock_form.is_some() || self.move_form.is_some()
            || self.text_editor.is_some()
    }

    /// Whether files can be dropped on the browser.
    pub fn accepts_drops(&self) -> (r: bool)
        ensures
            r == (self.checkout is None && !dialog_open(*self)),
    {
        self.idle() && !self.modal_open()
    }

    /// Brings the browser up to date; `existing` lists the temp files that exist.
    pub fn sync_browser(&mut self, existing: &[String])
        ensures
            synced(*old(self), *final(self), texts(existing@)),
    {
        let (dir, live, anchor_live): (String, TextSet, bool) = match &self.open {
            None => return,
            Some(o) => {
                let ghost items = listing(o.entries@);
                let dir = clamp_dir(&o.entries, &self.current_dir);
                let chosen = self.selected.to_vec();
                let ghost sel = texts(chosen@);
                let mut live = TextSet::new();
                let mut i: usize = 0;
                while i < chosen.len()
                    invariant
                        i <= chosen@.len(),
                        items == listing(o.entries@),
                        sel == texts(chosen@),
                        forall|p: Seq<char>| #[trigger]
                            live@.contains(p) <==> sel.take(i as int).contains(p) && is_live_path(
                                items,
                                p,
                            ),
                    decreases chosen@.len() - i,
                {
                    let ghost before = live@;
                    let ghost cur = sel[i as int];
                    assert(cur == chosen@[i as int]@);
                    if live_path(&o.entries, &chosen[i]) {
                        live.insert(&chosen[i]);
                    }
                    proof {
                        let (s0, s1) = (sel.take(i as int), sel.take(i + 1));
                        assert forall|p: Seq<char>| #[trigger] live@.contains(p) <==> s1.contains(p)
                            && is_live_path(items, p) by {
                            assert(before.contains(p) <==> s0.contains(p) && is_live_path(
                                items,
                                p,
                            ));
                            if s1.contains(p) {
                                let k = choose|k: int| 0 <= k < s1.len() && s1[k] == p;
                                if k < i {
                                    assert(s0[k] == p);
                                }
                            }
                            if s0.contains(p) {
                                let k = choose|k: int| 0 <= k < s0.len() && s0[k] == p;
                                assert(s1[k] == p);
                            }
                            assert(s1[i as int] == cur);
                        }
                    }
                    i += 1;
                }
                proof {
                    assert(sel.take(i as int) =~= sel);
                    assert forall|p: Seq<char>| #[trigger] live@.contains(p)
                        <==> self.selected@.contains(p) && is_live_path(items, p) by {
                        assert(sel.to_set().contains(p) <==> sel.contains(p));
                    }
                }
                let anchor_live = match &self.select_anchor {
                    Some(a) => live_path(&o.entries, a),
                    None => false,
                };
                (dir, live, anchor_live)
            },
        };
        self.current_dir = dir;
        self.selected = live;
        if !anchor_live {
            self.select_anchor = None;
        }
        self.drop_missing_views(existing);
    }

    /// Forgets the copies whose file is gone.
    fn drop_missing_views(&mut self, existing: &[String])
        ensures
            *final(self) == (Session { views: final(self).views, ..*old(self) }),
            final(self).views@ == old(self).views@.filter(view_exists(texts(existing@))),
    {
        let mut rest = self.take_views();
        let ghost all = rest@;
        let ghost keep = view_exists(texts(existing@));
        let ghost mut seen: int = 0;
        let mut i: usize = 0;
        proof {
            reveal(Seq::filter);
            assert(all.take(0).filter(keep) =~= Seq::<ActiveView>::empty());
        }
        while i < rest.len()
            invariant
                0 <= seen <= all.len(),
                i <= rest@.len(),
                keep == view_exists(texts(existing@)),
                rest@.take(i as int) == all.take(seen).filter(keep),
                rest@.skip(i as int) == all.skip(seen),
            decreases rest@.len() - i,
        {
            let ghost before = rest@;
            proof {
                reveal(Seq::filter);
                assert(before.skip(i as int).len() > 0);
                assert(all.skip(seen).len() > 0);
                assert(before.skip(i as int)[0] == all.skip(seen)[0]);
                assert(before[i as int] == all[seen]);
                assert(all.take(seen + 1).drop_last() =~= all.take(seen));
                assert(all.skip(seen + 1) =~= all.skip(seen).skip(1));
            }
            if text_in(existing, &rest[i].temp_path) {
                i += 1;
                proof {
                    assert(before.take(i as int) =~= before.take(i - 1).push(before[i - 1]));
                    assert(before.skip(i as int) =~= before.skip(i - 1).skip(1));
                }
            } else {
                let _ = rest.remove(i);
                proof {
                    assert(rest@.take(i as int) =~= before.take(i as int));
                    assert(rest@.skip(i as int) =~= before.skip(i as int).skip(1));
                }
            }
            proof {
                seen = seen + 1;
            }
        }
        proof {
            assert(rest@.skip(i as int).len() == 0);
            assert(all.take(seen) =~= all);
            assert(rest@.take(i as int) =~= rest@);
        }
        self.views = rest;
    }
}

/// After the browser was brought up to date, the folder it shows is a folder of the
/// vault or the top, and only live entries are selected.
pub proof fn law_synced_browser_shows_what_exists(a: Session, b: Session, existing: Seq<Seq<char>>)
    requires
        synced(a, b, existing),
        a.open is Some,
    ensures
        b.current_dir@.len() == 0 || crate::browse::is_folder(
            listing(a.open->0.entries@),
            b.current_dir@,
        ),
        forall|p: Seq<char>| #[trigger]
            b.selected@.contains(p) ==> !trashed(p) && exists|i: int|
                0 <= i < a.open->0.entries@.len() && (#[trigger] listing(a.open->0.entries@)[i]).0
                    == p,
{
    crate::browse::law_clamped_folder_exists(listing(a.open->0.entries@), a.current_dir@);
}

// ---------------------------------------------------------------------------
// The vaults
// ---------------------------------------------------------------------------

/// The order of the vault cards: the last changed first.
pub open spec fn newer_first() -> spec_fn(VaultMeta, VaultMeta) -> bool {
    |a: VaultMeta, b: VaultMeta| a.modified_at >= b.modified_at
}

/// The vaults as the cards list them.
pub fn vault_cards(registry: &Registry) -> (r: Vec<VaultMeta>)
    ensures
        stably_sorted(registry.vaults@, r@, newer_first()),
{
    let all = registry.copy();
    let at_most = |a: &VaultMeta, b: &VaultMeta| -> (r: bool)
        ensures
            r == newer_first()(*a, *b),
        { a.modified_at >= b.modified_at };
    assert(is_ranking(newer_first()));
    sort_stable(all.vaults, at_most, Ghost(newer_first()))
}

/// What a vault card says below the name.
pub fn vault_detail(v: &VaultMeta, size_text: &str) -> (r: String)
    ensures
        r@ == decimal_text(v.file_count as nat) + " file(s) · "@ + size_text@,
{
    concat3(&decimal(v.file_count), " file(s) · ", size_text)
}

// ---------------------------------------------------------------------------
// The browser
// ---------------------------------------------------------------------------

/// The label of the trash button.
pub fn trash_label(in_trash: bool, items: usize) -> (r: String)
    ensures
        r@ == (if in_trash {
            "←  Back to files"@
        } else if items == 0 {
            "Trash"@
        } else {
            "Trash ("@ + decimal_text(items as nat) + ")"@
        }),
{
    if in_trash {
        owned("←  Back to files")
    } else if items == 0 {
        owned("Trash")
    } else {
        concat3("Trash (", &decimal(items as u64), ")")
    }
}

/// What is said of the copies in view.
pub fn viewing_label(copies: usize) -> (r: String)
    ensures
        r@ == viewing_text(copies as nat),
{
    concat4(
        "Viewing ",
        &decimal(copies as u64),
        " read-only cop",
        if copies == 1 {
            "y"
        } else {
            "ies"
        },
    )
}

/// The keys that the browser listens to.
#[derive(Clone, Copy, Debug, PartialEq, Eq, Structural)]
pub struct Keys {
    pub escape: bool,
    pub delete: bool,
    pub select_all: bool,
}

/// What a key does in the browser.
#[derive(Clone, Copy, Debug, PartialEq, Eq, Structural)]
pub enum KeyStep {
    Nothing,
    ClearSelection,
    ClearSearch,
    SelectAll,
    TrashSelected,
}

/// What a key does in the browser: nothing while something is edited, covered, renamed
/// or typed into.
pub open spec fn key_step_of(s: Session, focused: bool, k: Keys) -> KeyStep {
    if s.checkout is Some || dialog_open(s) || s.rename_target is Some || focused {
        KeyStep::Nothing
    } else if k.escape {
        if s.selected@ != Set::<Seq<char>>::empty() {
            KeyStep::ClearSelection
        } else if trimmed(s.file_search@).len() > 0 {
            KeyStep::ClearSearch
        } else {
            KeyStep::Nothing
        }
    } else if k.select_all {
        KeyStep::SelectAll
    } else if k.delete && s.selected@ != Set::<Seq<char>>::empty() {
        KeyStep::TrashSelected
    } else {
        KeyStep::Nothing
    }
}

impl Session {
    /// What a key does in the browser.
    pub fn key_step(&self, focused: bool, k: Keys) -> (r: KeyStep)
        ensures
            r == key_step_of(*self, focused, k),
    {
        if !self.idle() || self.modal_open() || self.rename_target.is_some() || focused {
            return KeyStep::Nothing;
        }
        if k.escape {
            if !self.selected.is_empty() {
                KeyStep::ClearSelection
            } else if !trim(&self.file_search).as_str().is_empty() {
                KeyStep::ClearSearch
            } else {
                KeyStep::Nothing
            }
        } else if k.select_all {
            KeyStep::SelectAll
        } else if k.delete && !self.selected.is_empty() {
            KeyStep::TrashSelected
        } else {
            KeyStep::Nothing
        }
    }
}

/// What the list of files shows.
pub enum ListState {
    EmptyVault,
    /// Nothing matches the search.
    NoMatch { message: String },
    EmptyFolder,
    Rows { offer_select_all: bool },
}

/// Whether one of some entries is live.
pub open spec fn holds_live(items: Seq<Item>) -> bool {
    exists|i: int| 0 <= i < items.len() && !trashed((#[trigger] items[i]).0)
}

/// What the list of files shows.
pub fn list_state(entries: &[Entry], rows: usize, search: &str, idle: bool) -> (r: ListState)
    ensures
        ({
            let live = holds_live(listing(entries@));
            let searching = trimmed(search@).len() > 0;
            if !live {
                r is EmptyVault
            } else if rows == 0 && searching {
                r is NoMatch && r->message@ == "No files match “"@ + trimmed(search@) + "”"@
            } else if rows == 0 {
                r is EmptyFolder
            } else {
                r is Rows && r->offer_select_all == (!searching && idle && rows > 1)
            }
        }),
{
    let query = trim(search);
    let searching = !query.as_str().is_empty();
    if !has_live_entries(entries) {
        ListState::EmptyVault
    } else if rows == 0 {
        if searching {
            ListState::NoMatch { message: concat3("No files match “", &query, "”") }
        } else {
            ListState::EmptyFolder
        }
    } else {
        ListState::Rows { offer_select_all: !searching && idle && rows > 1 }
    }
}

/// What surrounds the list of files.
pub struct BrowserView {
    /// The name of the file that is edited outside.
    pub editing: Option<String>,
    /// What is said of the copies in view, and their names.
    pub viewing: Option<(String, String)>,
    pub new_folder: bool,
    pub new_file: bool,
    /// The name of the entry that is being renamed.
    pub renaming: Option<String>,
    /// How many entries are selected, if that is shown.
    pub selected: Option<usize>,
}

/// The names of the copies in view.
pub open spec fn view_names(views: Seq<ActiveView>) -> Seq<Seq<char>> {
    views.map_values(|v: ActiveView| v.leaf@)
}

/// What is said of some copies in view.
pub open spec fn viewing_text(copies: nat) -> Seq<char> {
    "Viewing "@ + decimal_text(copies) + " read-only cop"@ + (if copies == 1 {
        "y"@
    } else {
        "ies"@
    })
}

impl Session {
    /// The names of the copies in view, one after the other.
    fn viewed(&self) -> (r: String)
        ensures
            r@ == joined(view_names(self.views@), ", "@),
    {
        let mut names: Vec<String> = Vec::new();
        let mut i: usize = 0;
        while i < self.views.len()
            invariant
                i <= self.views@.len(),
                texts(names@) == view_names(self.views@).take(i as int),
            decreases self.views@.len() - i,
        {
            let ghost before = texts(names@);
            names.push(owned(&self.views[i].leaf));
            proof {
                assert(texts(names@) =~= before.push(self.views@[i as int].leaf@));
                assert(view_names(self.views@)[i as int] == self.views@[i as int].leaf@);
                assert(texts(names@) =~= view_names(self.views@).take(i + 1));
            }
            i += 1;
        }
        assert(view_names(self.views@).take(i as int) =~= view_names(self.views@));
        join(&names, ", ")
    }

    /// What surrounds the list of files. While something is edited outside, nothing
    /// that changes the vault is offered.
    pub fn browser_view(&self) -> (v: BrowserView)
        ensures
            ({
                let idle = self.checkout is None;
                &&& opt_text(v.editing) == (match self.checkout {
                    Some(c) => Some(c.leaf@),
                    None => None,
                })
                &&& match v.viewing {
                    Some((label, names)) => self.views@.len() > 0 && label@ == viewing_text(
                        self.views@.len(),
                    ) && names@ == joined(view_names(self.views@), ", "@),
                    None => self.views@.len() == 0,
                }
                &&& v.new_folder == (self.show_new_folder && idle)
                &&& v.new_file == (self.show_new_file && idle)
                &&& opt_text(v.renaming) == (if idle && self.rename_target is Some {
                    Some(leaf_of(self.rename_target->0@))
                } else {
                    None
                })
                &&& match v.selected {
                    Some(n) => idle && n == self.selected@.len() && n > 0,
                    None => !idle || self.selected@ == Set::<Seq<char>>::empty(),
                }
            }),
    {
        let idle = self.idle();
        let editing = match &self.checkout {
            Some(c) => Some(owned(&c.leaf)),
            None => None,
        };
        let copies: usize = self.views.len();
        let viewing = if copies > 0 {
            Some((viewing_label(copies), self.viewed()))
        } else {
            None
        };
        let renaming = match &self.rename_target {
            Some(t) => if idle {
                Some(owned(leaf_name(t)))
            } else {
                None
            },
            None => None,
        };
        let count: usize = self.selected.len();
        let selected = if idle && !self.selected.is_empty() {
            proof {
                if count == 0 {
                    self.selected@.lemma_len0_is_empty();
                }
            }
            Some(count)
        } else {
            None
        };
        BrowserView {
            editing,
            viewing,
            new_folder: self.show_new_folder && idle,
            new_file: self.show_new_file && idle,
            renaming,
            selected,
        }
    }
}

/// Where dropped files go.
pub fn drop_label(current_dir: &str, vault_name: &str) -> (r: String)
    ensures
        r@ == "Drop to add to "@ + (if current_dir@.len() == 0 {
            vault_name@
        } else {
            leaf_of(current_dir@)
        }),
{
    if current_dir.is_empty() {
        concat2("Drop to add to ", vault_name)
    } else {
        concat2("Drop to add to ", leaf_name(current_dir))
    }
}

/// What a row says below the name: how much a folder holds, a file's size, and, in
/// search results, the folder it is in.
pub open spec fn row_text(row: RowView, searching: bool, size_text: Seq<char>) -> Seq<char> {
    if row.kind == EntryKind::Dir {
        decimal_text(row.children as nat) + " item"@ + (if row.children == 1 {
            ""@
        } else {
            "s"@
        })
    } else if searching && parent_of(row.path).len() > 0 {
        size_text + " · "@ + parent_of(row.path)
    } else {
        size_text
    }
}

/// What a row says below the name.
pub fn row_detail(row: &Row, searching: bool, size_text: &str) -> (r: String)
    ensures
        r@ == row_text(row@, searching, size_text@),
{
    if row.kind == EntryKind::Dir {
        concat3(
            &decimal(row.children as u64),
            " item",
            if row.children == 1 {
                ""
            } else {
                "s"
            },
        )
    } else {
        let parent = parent_dir(&row.path);
        if searching && !parent.is_empty() {
            concat3(size_text, " · ", parent)
        } else {
            owned(size_text)
        }
    }
}

/// What the menu of a row offers.
#[derive(Clone, Copy, Debug, PartialEq, Eq, Structural)]
pub enum MenuItem {
    Open,
    View,
    QuickEdit,
    CheckOut,
    SaveAs,
    Rename,
    MoveTo,
    Delete,
}

/// What the menu of a row offers: what changes the vault only while nothing is edited
/// outside.
pub open spec fn menu_of(kind: EntryKind, idle: bool) -> Seq<MenuItem> {
    (if kind == EntryKind::Dir {
        seq![MenuItem::Open]
    } else if idle {
        seq![MenuItem::View, MenuItem::QuickEdit, MenuItem::CheckOut, MenuItem::SaveAs]
    } else {
        seq![MenuItem::View, MenuItem::SaveAs]
    }) + (if idle {
        seq![MenuItem::Rename, MenuItem::MoveTo, MenuItem::Delete]
    } else {
        Seq::empty()
    })
}

/// What the menu of a row offers.
pub fn row_menu(kind: EntryKind, idle: bool) -> (r: Vec<MenuItem>)
    ensures
        r@ == menu_of(kind, idle),
{
    let mut r: Vec<MenuItem> = Vec::new();
    if kind == EntryKind::Dir {
        r.push(MenuItem::Open);
    } else {
        r.push(MenuItem::View);
        if idle {
            r.push(MenuItem::QuickEdit);
            r.push(MenuItem::CheckOut);
        }
        r.push(MenuItem::SaveAs);
    }
    if idle {
        r.push(MenuItem::Rename);
        r.push(MenuItem::MoveTo);
        r.push(MenuItem::Delete);
    }
    assert(r@ =~= menu_of(kind, idle));
    r
}

/// The quick actions at the end of a row: shown while the row is pointed at or
/// selected, and those that change the vault only while nothing is edited outside.
pub open spec fn buttons_of(kind: EntryKind, idle: bool, shown: bool) -> Seq<MenuItem> {
    if !shown {
        Seq::empty()
    } else if kind == EntryKind::Dir {
        if idle {
            seq![MenuItem::Delete]
        } else {
            Seq::empty()
        }
    } else if idle {
        seq![MenuItem::Delete, MenuItem::SaveAs, MenuItem::CheckOut, MenuItem::View]
    } else {
        seq![MenuItem::SaveAs]
    }
}

/// The quick actions at the end of a row.
pub fn row_buttons(kind: EntryKind, idle: bool, shown: bool) -> (r: Vec<MenuItem>)
    ensures
        r@ == buttons_of(kind, idle, shown),
{
    let mut r: Vec<MenuItem> = Vec::new();
    if shown {
        if idle {
            r.push(MenuItem::Delete);
        }
        if kind == EntryKind::File {
            r.push(MenuItem::SaveAs);
            if idle {
                r.push(MenuItem::CheckOut);
                r.push(MenuItem::View);
            }
        }
    }
    assert(r@ =~= buttons_of(kind, idle, shown));
    r
}

/// While a file is edited outside, no row offers anything that changes the vault.
pub proof fn law_rows_offer_no_changes_during_an_edit(kind: EntryKind, shown: bool, item: MenuItem)
    requires
        menu_of(kind, false).contains(item) || buttons_of(kind, false, shown).contains(item),
    ensures
        item == MenuItem::Open || item == MenuItem::View || item == MenuItem::SaveAs,
{
}

/// The step that a menu item leads to.
pub fn menu_action(item: MenuItem, path: &str) -> (a: Action)
    ensures
        match (item, a) {
            (MenuItem::Open, Action::EnterDir(p)) => p@ == path@,
            (MenuItem::View, Action::ViewFile(p)) => p@ == path@,
            (MenuItem::QuickEdit, Action::QuickEdit(p)) => p@ == path@,
            (MenuItem::CheckOut, Action::CheckOut(p)) => p@ == path@,
            (MenuItem::SaveAs, Action::SaveEntryAs(p)) => p@ == path@,
            (MenuItem::Rename, Action::BeginRename(p)) => p@ == path@,
            (MenuItem::MoveTo, Action::BeginMove(v)) => texts(v@) == seq![path@],
            (MenuItem::Delete, Action::Trash(p)) => p@ == path@,
            _ => false,
        },
{
    match item {
        MenuItem::Open => Action::EnterDir(owned(path)),
        MenuItem::View => Action::ViewFile(owned(path)),
        MenuItem::QuickEdit => Action::QuickEdit(owned(path)),
        MenuItem::CheckOut => Action::CheckOut(owned(path)),
        MenuItem::SaveAs => Action::SaveEntryAs(owned(path)),
        MenuItem::Rename => Action::BeginRename(owned(path)),
        MenuItem::MoveTo => {
            let v = vec![owned(path)];
            assert(texts(v@) =~= seq![path@]);
            Action::BeginMove(v)
        },
        MenuItem::Delete => Action::Trash(owned(path)),
    }
}

/// What the move dialog says.
pub fn move_prompt(n: usize) -> (r: String)
    ensures
        r@ == "Moving "@ + decimal_text(n as nat) + " item"@ + (if n == 1 {
            ""@
        } else {
            "s"@
        }) + ". Choose a destination folder:"@,
{
    let mut r = concat3("Moving ", &decimal(n as u64), " item");
    r.append(
        if n == 1 {
            ""
        } else {
            "s"
        },
    );
    r.append(". Choose a destination folder:");
    r
}

/// The label of the editor's close button.
pub fn editor_close_label(dirty: bool) -> (r: &'static str)
    ensures
        r@ == (if dirty {
            "Discard & close"@
        } else {
            "Close"@
        }),
{
    if dirty {
        "Discard & close"
    } else {
        "Close"
    }
}

// ---------------------------------------------------------------------------
// The trash
// ---------------------------------------------------------------------------

/// Whether a text is the date of a moment.
pub open spec fn is_date_text(t: Seq<char>, unix: i64) -> bool {
    exists|y: int, m: int, d: int|
        is_date(y, m, d) && #[trigger] day_number(y, m, d) == (unix as int) / 86_400 && t
            == date_text(y, m, d)
}

/// What the trash says of an item, given the date it was deleted.
pub open spec fn trash_text(item: TrashItem, size_text: Seq<char>, date: Seq<char>) -> Seq<char> {
    (if item.kind == EntryKind::Dir {
        "folder · "@ + counted_text(item.files as nat, " file"@, " files"@) + " · "@ + size_text
    } else {
        size_text
    }) + " · was in "@ + (if parent_of(item.orig_path@).len() == 0 {
        "the top level"@
    } else {
        "“"@ + parent_of(item.orig_path@) + "”"@
    }) + " · deleted "@ + date
}

/// What the trash says of an item.
pub fn trash_item_detail(item: &TrashItem, size_text: &str) -> (r: String)
    ensures
        exists|date: Seq<char>|
            is_date_text(date, item.deleted_at) && r@ == #[trigger] trash_text(
                *item,
                size_text@,
                date,
            ),
{
    let date = fmt_date(item.deleted_at);
    let loc = parent_dir(&item.orig_path);
    let mut r = if item.kind == EntryKind::Dir {
        concat4("folder · ", &counted(item.files as u64, " file", " files"), " · ", size_text)
    } else {
        owned(size_text)
    };
    r.append(" · was in ");
    if loc.is_empty() {
        r.append("the top level");
    } else {
        r.append(&concat3("“", loc, "”"));
    }
    r.append(" · deleted ");
    r.append(&date);
    assert(is_date_text(date@, item.deleted_at));
    assert(r@ == trash_text(*item, size_text@, date@));
    r
}

/// What the trash offers for emptying it.
#[derive(Clone, Copy, Debug, PartialEq, Eq, Structural)]
pub enum EmptyTrash {
    Hidden,
    /// A button that asks first.
    Ask,
    /// The question, with buttons for both answers.
    Confirm,
}

/// What the trash offers for emptying it: nothing that is empty, or while a file is
/// edited outside; else a question comes first.
pub fn empty_trash_offer(items: usize, idle: bool, confirming: bool) -> (r: EmptyTrash)
    ensures
        r == (if items == 0 || !idle {
            EmptyTrash::Hidden
        } else if confirming {
            EmptyTrash::Confirm
        } else {
            EmptyTrash::Ask
        }),
{
    if items == 0 || !idle {
        EmptyTrash::Hidden
    } else if confirming {
        EmptyTrash::Confirm
    } else {
        EmptyTrash::Ask
    }
}

/// What is asked before the trash is emptied.
pub fn empty_trash_prompt(n: usize) -> (r: String)
    ensures
        r@ == "Delete "@ + decimal_text(n as nat) + " item(s) forever?"@,
{
    concat3("Delete ", &decimal(n as u64), " item(s) forever?")
}

// ---------------------------------------------------------------------------
// Contacts
// ---------------------------------------------------------------------------

/// The name to show of a key.
pub open spec fn shown_name(k: PublicKey) -> Seq<char> {
    if k.name@.len() == 0 {
        "(unnamed)"@
    } else {
        k.name@
    }
}

/// The name to show of a key.
pub fn contact_name(k: &PublicKey) -> (r: &str)
    ensures
        r@ == shown_name(*k),
{
    if k.name.as_str().is_empty() {
        "(unnamed)"
    } else {
        &k.name
    }
}

/// The mark of a contact's trust.
pub fn trust_badge(t: Trust) -> (r: (&'static str, BadgeKind))
    ensures
        r.0@ == (match t {
            Trust::Verified => "Verified"@,
            Trust::Unverified => "Unverified"@,
        }),
        r.1 == (match t {
            Trust::Verified => BadgeKind::Good,
            Trust::Unverified => BadgeKind::Warn,
        }),
{
    match t {
        Trust::Verified => ("Verified", BadgeKind::Good),
        Trust::Unverified => ("Unverified", BadgeKind::Warn),
    }
}

/// The step that a contact's button leads to: an unverified one is verified, a verified
/// one loses its mark.
pub fn trust_action(t: Trust, fpr_hex: &str) -> (a: Action)
    ensures
        match t {
            Trust::Verified => a is SetTrust && a->SetTrust_0@ == fpr_hex@ && a->SetTrust_1
                == Trust::Unverified,
            Trust::Unverified => a is BeginVerify && a->BeginVerify_0@ == fpr_hex@,
        },
{
    match t {
        Trust::Verified => Action::SetTrust(owned(fpr_hex), Trust::Unverified),
        Trust::Unverified => Action::BeginVerify(owned(fpr_hex)),
    }
}

/// When a verified contact was verified, if that is known.
pub fn verified_note(c: &Contact) -> (r: Option<String>)
    ensures
        match r {
            Some(t) => c.trust == Trust::Verified && c.verified_at is Some && exists|date: Seq<char>|
                is_date_text(date, c.verified_at->0) && t@ == #[trigger] ("verified "@ + date),
            None => c.trust == Trust::Unverified || c.verified_at is None,
        },
{
    match (c.trust, c.verified_at) {
        (Trust::Verified, Some(at)) => {
            let date = fmt_date(at);
            assert(is_date_text(date@, at));
            Some(concat2("verified ", &date))
        },
        _ => None,
    }
}

/// What the confirmation of a key says, and how strongly.
pub open spec fn preview_text(status: PreviewStatus, name: Seq<char>) -> Seq<char> {
    match status {
        PreviewStatus::Brandnew =>
            "New contact. You'll verify their safety number before trusting them."@,
        PreviewStatus::Existing { verified } => if verified {
            "Already a verified contact — nothing will change."@
        } else {
            "Already a contact (unverified) — nothing will change."@
        },
        PreviewStatus::Renamed { previous, verified } => if verified {
            "⚠ This renames a VERIFIED contact: \""@ + previous@ + "\" → \""@ + name + "\"."@
        } else {
            "Display name will change: \""@ + previous@ + "\" → \""@ + name + "\"."@
        },
        PreviewStatus::SelfKey =>
            "⚠ This is your OWN public key — you don't need to add yourself."@,
    }
}

/// How strongly the confirmation of a key warns.
pub open spec fn preview_tone(status: PreviewStatus) -> BadgeKind {
    match status {
        PreviewStatus::Brandnew => BadgeKind::Neutral,
        PreviewStatus::Existing { verified } => if verified {
            BadgeKind::Good
        } else {
            BadgeKind::Neutral
        },
        PreviewStatus::Renamed { previous, verified } => if verified {
            BadgeKind::Bad
        } else {
            BadgeKind::Warn
        },
        PreviewStatus::SelfKey => BadgeKind::Bad,
    }
}

/// What the confirmation of a key shows.
pub struct PreviewView {
    pub message: String,
    pub tone: BadgeKind,
    /// What is added below the message.
    pub note: Option<&'static str>,
    pub button: &'static str,
    /// Whether the key can be saved.
    pub enabled: bool,
}

/// Whether `v` is what the confirmation of a key with a name shows; the user's own key
/// cannot be saved.
pub open spec fn previews(status: PreviewStatus, name: Seq<char>, v: PreviewView) -> bool {
    &&& v.message@ == preview_text(status, name)
    &&& v.tone == preview_tone(status)
    &&& match v.note {
        Some(n) => status is Renamed && status->Renamed_verified && n@
            == "The keys are identical, so verification still holds — but confirm you expected this rename."@,
        None => !(status is Renamed && status->Renamed_verified),
    }
    &&& v.button@ == (if status is Renamed {
        "Update contact"@
    } else {
        "Add contact"@
    })
    &&& v.enabled == !(status is SelfKey)
}

/// What the confirmation of a key says of what saving it does.
pub fn preview_view(status: &PreviewStatus, name: &str) -> (v: PreviewView)
    ensures
        previews(*status, name@, v),
{
    let (message, tone) = match status {
        PreviewStatus::Brandnew => (
            owned("New contact. You'll verify their safety number before trusting them."),
            BadgeKind::Neutral,
        ),
        PreviewStatus::Existing { verified } => if *verified {
            (owned("Already a verified contact — nothing will change."), BadgeKind::Good)
        } else {
            (owned("Already a contact (unverified) — nothing will change."), BadgeKind::Neutral)
        },
        PreviewStatus::Renamed { previous, verified } => {
            let mut m = if *verified {
                concat3("⚠ This renames a VERIFIED contact: \"", previous, "\" → \"")
            } else {
                concat3("Display name will change: \"", previous, "\" → \"")
            };
            m.append(name);
            m.append("\".");
            (
                m,
                if *verified {
                    BadgeKind::Bad
                } else {
                    BadgeKind::Warn
                },
            )
        },
        PreviewStatus::SelfKey => (
            owned("⚠ This is your OWN public key — you don't need to add yourself."),
            BadgeKind::Bad,
        ),
    };
    let note = match status {
        PreviewStatus::Renamed { previous: _, verified: true } => Some(
            "The keys are identical, so verification still holds — but confirm you expected this rename.",
        ),
        _ => None,
    };
    let button = match status {
        PreviewStatus::Renamed { previous: _, verified: _ } => "Update contact",
        _ => "Add contact",
    };
    let enabled = match status {
        PreviewStatus::SelfKey => false,
        _ => true,
    };
    PreviewView { message, tone, note, button, enabled }
}

/// What the confirmation of a key shows of it.
pub struct StagedKeyView {
    pub name: String,
    pub fpr_hex: String,
    pub safety_number: String,
    pub view: PreviewView,
}

/// What the confirmation of a key shows of it. The key is not trusted, so its name is
/// shown only as made safe.
pub fn contact_preview_view(p: &ContactPreview) -> (v: StagedKeyView)
    ensures
        v.name@ == p.key.display_name@,
        v.fpr_hex@ == hex_text(p.key.fpr@),
        v.safety_number@ == p.key.safety_number@,
        previews(p.status, p.key.display_name@, v.view),
{
    StagedKeyView {
        name: owned(&p.key.display_name),
        fpr_hex: hex(&p.key.fpr),
        safety_number: owned(&p.key.safety_number),
        view: preview_view(&p.status, &p.key.display_name),
    }
}

/// What the safety-number dialog shows.
pub struct VerifyView {
    /// Whether what was typed matches, if something was.
    pub typed: Option<bool>,
    /// Whether the contact can be marked verified.
    pub can_verify: bool,
}

/// What the safety-number dialog shows. `same` tells whether what was typed is the
/// safety number, spelling aside. Only a match, or the user's own word, verifies.
pub fn verify_view(form: &VerifyForm, same: bool) -> (v: VerifyView)
    ensures
        ({
            let typed = trimmed(form.input@).len() > 0;
            &&& v.typed == (if typed {
                Some(same)
            } else {
                None
            })
            &&& v.can_verify == ((typed && same) || form.manual_ok)
        }),
{
    let typed = !trim(&form.input).as_str().is_empty();
    VerifyView {
        typed: if typed {
            Some(same)
        } else {
            None
        },
        can_verify: (typed && same) || form.manual_ok,
    }
}

/// What the import dialog says of the sender.
pub struct SenderView {
    pub message: String,
    pub tone: BadgeKind,
    /// The step that is offered.
    pub offer: Option<Action>,
}

/// What the import dialog says of the sender: a known and verified one needs no step, a
/// known one can be verified, an unknown one added.
pub fn sender_view(info: &ImportInfo) -> (v: SenderView)
    ensures
        match info.sender_name {
            Some(name) => if info.verified {
                &&& v.message@ == "✔ "@ + name@ + " (verified contact)"@
                &&& v.tone == BadgeKind::Good && v.offer is None
            } else {
                &&& v.message@ == "● "@ + name@ + " — a known but UNVERIFIED contact"@
                &&& v.tone == BadgeKind::Warn
                &&& v.offer is Some && v.offer->0 is BeginVerify && v.offer->0->BeginVerify_0@
                    == info.sender_fpr_hex@
            },
            None => {
                &&& v.message@ == "● Unknown sender — not in your contacts"@
                &&& v.tone == BadgeKind::Bad && v.offer == Some(Action::AddSenderToContacts)
            },
        },
{
    match &info.sender_name {
        Some(name) => if info.verified {
            SenderView {
                message: concat3("✔ ", name, " (verified contact)"),
                tone: BadgeKind::Good,
                offer: None,
            }
        } else {
            SenderView {
                message: concat3("● ", name, " — a known but UNVERIFIED contact"),
                tone: BadgeKind::Warn,
                offer: Some(Action::BeginVerify(owned(&info.sender_fpr_hex))),
            }
        },
        None => SenderView {
            message: owned("● Unknown sender — not in your contacts"),
            tone: BadgeKind::Bad,
            offer: Some(Action::AddSenderToContacts),
        },
    }
}

// ---------------------------------------------------------------------------
// Identity
// ---------------------------------------------------------------------------

/// What the identity screen shows.
#[derive(Clone, Copy, Debug, PartialEq, Eq, Structural)]
pub struct IdentityView {
    pub offer_upgrade: bool,
    pub show_keys: bool,
    pub offer_add_key: bool,
    pub show_auto_unlock: bool,
    pub offer_forget: bool,
    pub offer_remember: bool,
}

impl Session {
    /// What the identity screen shows, in a build that supports security keys and the
    /// OS keychain or not. What was set up before can still be taken down.
    pub fn identity_view(&self, key_supported: bool, keychain_supported: bool) -> (v: IdentityView)
        ensures
            v.offer_upgrade == !self.identity.hybrid,
            v.show_keys == (key_supported || self.passkeys@.len() > 0),
            v.offer_add_key == key_supported,
            v.show_auto_unlock == (keychain_supported || self.auto_unlock),
            v.offer_forget == self.auto_unlock,
            v.offer_remember == (keychain_supported && !self.auto_unlock),
    {
        IdentityView {
            offer_upgrade: !self.identity.hybrid,
            show_keys: key_supported || self.passkeys.len() > 0,
            offer_add_key: key_supported,
            show_auto_unlock: keychain_supported || self.auto_unlock,
            offer_forget: self.auto_unlock,
            offer_remember: keychain_supported && !self.auto_unlock,
        }
    }
}

// ---------------------------------------------------------------------------
// Exporting
// ---------------------------------------------------------------------------

/// How a recipient is listed.
pub fn recipient_label(c: &Contact) -> (r: String)
    ensures
        r@ == shown_name(c.key) + (match c.trust {
            Trust::Verified => " (verified)"@,
            Trust::Unverified => " — unverified ⚠"@,
        }),
{
    match c.trust {
        Trust::Verified => concat2(contact_name(&c.key), " (verified)"),
        Trust::Unverified => concat2(contact_name(&c.key), " — unverified ⚠"),
    }
}

/// Whether a suite can be picked: the hybrid one needs a post-quantum identity.
pub fn suite_enabled(sender_hybrid: bool, suite: SuiteId) -> (r: bool)
    ensures
        r == (sender_hybrid || suite != SuiteId::Hybrid),
{
    sender_hybrid || suite != SuiteId::Hybrid
}

/// What an export dialog warns of.
#[derive(Clone, Copy, Debug, PartialEq, Eq, Structural)]
pub enum Concern {
    /// The recipient has no post-quantum key.
    NotHybrid,
    /// The recipient's safety number was not compared.
    Unverified,
}

/// Whether a ticked contact gives rise to a concern.
pub open spec fn raises(selected: Set<Seq<char>>, concern: Concern) -> spec_fn(Contact) -> bool {
    |c: Contact|
        selected.contains(hex_text(c.key.fpr@)) && (match concern {
            Concern::NotHybrid => !c.key.hybrid,
            Concern::Unverified => c.trust == Trust::Unverified,
        })
}

/// The names of the ticked contacts that give rise to a concern.
pub open spec fn concern_names(
    contacts: Seq<Contact>,
    selected: Set<Seq<char>>,
    concern: Concern,
) -> Seq<Seq<char>> {
    contacts.filter(raises(selected, concern)).map_values(|c: Contact| shown_name(c.key))
}

impl Session {
    /// The names of the ticked contacts that give rise to a concern.
    pub fn concerns(&self, form: &ExportForm, concern: Concern) -> (r: Vec<String>)
        ensures
            texts(r@) == concern_names(self.contacts.contacts@, form.selected@, concern),
    {
        let ghost all = self.contacts.contacts@;
        let ghost keep = raises(form.selected@, concern);
        let ghost name = |c: Contact| shown_name(c.key);
        let mut r: Vec<String> = Vec::new();
        let mut i: usize = 0;
        proof {
            reveal(Seq::filter);
            assert(all.take(0).filter(keep) =~= Seq::<Contact>::empty());
            assert(texts(r@) =~= all.take(0).filter(keep).map_values(name));
        }
        while i < self.contacts.contacts.len()
            invariant
                i <= all.len(),
                all == self.contacts.contacts@,
                keep == raises(form.selected@, concern),
                name == (|c: Contact| shown_name(c.key)),
                texts(r@) == all.take(i as int).filter(keep).map_values(name),
            decreases all.len() - i,
        {
            let c = &self.contacts.contacts[i];
            proof {
                reveal(Seq::filter);
                assert(all.take(i + 1).drop_last() =~= all.take(i as int));
            }
            let worry = match concern {
                Concern::NotHybrid => !c.key.hybrid,
                Concern::Unverified => c.trust == Trust::Unverified,
            };
            if worry && form.selected.contains(&hex(&c.key.fpr)) {
                let ghost before = texts(r@);
                r.push(owned(contact_name(&c.key)));
                proof {
                    assert(texts(r@) =~= before.push(shown_name(c.key)));
                    assert(all.take(i + 1).filter(keep).map_values(name) =~= before.push(
                        shown_name(c.key),
                    ));
                }
            } else {
                assert(all.take(i + 1).filter(keep) =~= all.take(i as int).filter(keep));
            }
            i += 1;
        }
        assert(all.take(i as int) =~= all);
        r
    }
}

/// What the export dialog says of a concern, if it has one.
pub fn concern_message(names: &[String], concern: Concern) -> (r: Option<String>)
    ensures
        opt_text(r) == (if names@.len() == 0 {
            None
        } else {
            Some(
                match concern {
                    Concern::NotHybrid => "⚠ No post-quantum key for: "@ + joined(
                        texts(names@),
                        ", "@,
                    ) + ". Pick another suite or ask them to re-share."@,
                    Concern::Unverified => "⚠ Unverified recipient(s): "@ + joined(
                        texts(names@),
                        ", "@,
                    ),
                },
            )
        }),
{
    if names.len() == 0 {
        return None;
    }
    let list = join(names, ", ");
    Some(
        match concern {
            Concern::NotHybrid => concat3(
                "⚠ No post-quantum key for: ",
                &list,
                ". Pick another suite or ask them to re-share.",
            ),
            Concern::Unverified => concat2("⚠ Unverified recipient(s): ", &list),
        },
    )
}

/// What the export dialog says of the chosen suite.
pub struct ExportNotice {
    pub message: String,
    pub tone: BadgeKind,
}

/// Whether `r` is what the export dialog says of a suite, given the names of the chosen
/// recipients without a post-quantum key: nothing unless the suite is hybrid, and then a
/// warning that names them, or the reassurance that there are none.
pub open spec fn notices(suite: SuiteId, names: Seq<Seq<char>>, r: Option<ExportNotice>) -> bool {
    if suite != SuiteId::Hybrid {
        r is None
    } else if names.len() == 0 {
        &&& r is Some && r->0.tone == BadgeKind::Neutral
        &&& r->0.message@ == "Every recipient also gets post-quantum protection."@
    } else {
        &&& r is Some && r->0.tone == BadgeKind::Bad
        &&& r->0.message@ == "⚠ No post-quantum key for: "@ + joined(names, ", "@)
            + ". Pick another suite or ask them to re-share."@
    }
}

/// What the export dialog says of a suite, given the names of the chosen recipients
/// without a post-quantum key.
pub fn export_notice(suite: SuiteId, names: &[String]) -> (r: Option<ExportNotice>)
    ensures
        notices(suite, texts(names@), r),
{
    if suite != SuiteId::Hybrid {
        return None;
    }
    match concern_message(names, Concern::NotHybrid) {
        Some(message) => Some(ExportNotice { message, tone: BadgeKind::Bad }),
        None => Some(
            ExportNotice {
                message: owned("Every recipient also gets post-quantum protection."),
                tone: BadgeKind::Neutral,
            },
        ),
    }
}

/// What the export dialog says beside its choices.
pub struct ExportView {
    /// Said where there is no contact to choose.
    pub no_contacts: Option<&'static str>,
    /// Said where the user's own keys allow no hybrid suite.
    pub upgrade: Option<&'static str>,
    pub notice: Option<ExportNotice>,
    /// The warning about recipients whose safety number was not compared.
    pub unverified: Option<String>,
}

impl Session {
    /// What the export dialog says beside its choices.
    pub fn export_view(&self, form: &ExportForm) -> (v: ExportView)
        ensures
            match v.no_contacts {
                Some(t) => self.contacts.contacts@.len() == 0 && t@
                    == "You have no contacts yet — add one first, or just include yourself."@,
                None => self.contacts.contacts@.len() > 0,
            },
            match v.upgrade {
                Some(t) => !self.identity.hybrid && t@
                    == "Hybrid PQC needs a post-quantum identity — upgrade yours in “My Identity” to enable it."@,
                None => self.identity.hybrid,
            },
            notices(
                form.suite,
                concern_names(self.contacts.contacts@, form.selected@, Concern::NotHybrid),
                v.notice,
            ),
            ({
                let names = concern_names(
                    self.contacts.contacts@,
                    form.selected@,
                    Concern::Unverified,
                );
                opt_text(v.unverified) == (if names.len() == 0 {
                    None
                } else {
                    Some("⚠ Unverified recipient(s): "@ + joined(names, ", "@))
                })
            }),
    {
        let without_key = self.concerns(form, Concern::NotHybrid);
        let unverified = self.concerns(form, Concern::Unverified);
        ExportView {
            no_contacts: if self.contacts.contacts.len() == 0 {
                Some("You have no contacts yet — add one first, or just include yourself.")
            } else {
                None
            },
            upgrade: if self.identity.hybrid {
                None
            } else {
                Some(
                    "Hybrid PQC needs a post-quantum identity — upgrade yours in “My Identity” to enable it.",
                )
            },
            notice: export_notice(form.suite, &without_key),
            unverified: concern_message(&unverified, Concern::Unverified),
        }
    }
}

// ---------------------------------------------------------------------------
// Transfers
// ---------------------------------------------------------------------------

/// The button that ends a running transfer.
pub fn end_transfer(kind: ActiveKind) -> (r: (&'static str, Action))
    ensures
        match kind {
            ActiveKind::Receive => r.0@ == "Stop listening"@ && r.1 is StopTransfer,
            ActiveKind::Send => r.0@ == "Cancel"@ && r.1 is CancelTransfer,
        },
{
    match kind {
        ActiveKind::Receive => ("Stop listening", Action::StopTransfer),
        ActiveKind::Send => ("Cancel", Action::CancelTransfer),
    }
}

/// Why nothing can be sent yet, if nothing can.
pub fn send_blocked(verified: usize, vaults: usize) -> (r: Option<&'static str>)
    ensures
        match r {
            Some(t) => if verified == 0 {
                t@ == "Add and verify a contact first — you can only send to verified contacts."@
            } else {
                vaults == 0 && t@ == "Create a vault to send first."@
            },
            None => verified > 0 && vaults > 0,
        },
{
    if verified == 0 {
        Some("Add and verify a contact first — you can only send to verified contacts.")
    } else if vaults == 0 {
        Some("Create a vault to send first.")
    } else {
        None
    }
}

// ---------------------------------------------------------------------------
// Laws
// ---------------------------------------------------------------------------

/// Another way in is offered if and only if it is set up and this build can use it, and never
/// while legacy state is being recovered.
pub proof fn law_only_usable_ways_in_are_offered(u: Unlock, keys: bool, keychain: bool, v: UnlockView)
    requires
        call_ensures(unlock_view, (&u, keys, keychain), v),
    ensures
        v.security_key == Offer::Shown <==> !u.legacy_recovery && u.has_passkeys && keys,
        v.security_key == Offer::Unsupported <==> !u.legacy_recovery && u.has_passkeys && !keys,
        v.saved == Offer::Shown <==> !u.legacy_recovery && u.has_saved && keychain,
        v.saved == Offer::Unsupported <==> !u.legacy_recovery && u.has_saved && !keychain,
        v.recovery_note == u.legacy_recovery,
{
}

/// An open vault is what is shown, wherever the user was before; the sidebar then marks
/// nothing, and otherwise just the screen that is shown.
pub proof fn law_an_open_vault_comes_first(s: Session, nav: Nav, screen: Screen, marked: bool)
    requires
        call_ensures(Session::screen, (&s,), screen),
        call_ensures(Session::nav_selected, (&s, nav), marked),
    ensures
        screen == Screen::Browser <==> s.open is Some,
        s.open is Some ==> !marked,
        s.open is None ==> (marked <==> s.nav == nav),
        screen == Screen::Vaults <==> s.open is None && s.nav == Nav::Vaults,
        screen == Screen::Contacts <==> s.open is None && s.nav == Nav::Contacts,
        screen == Screen::Identity <==> s.open is None && s.nav == Nav::Identity,
        screen == Screen::Transfer <==> s.open is None && s.nav == Nav::Transfer,
{
}

/// Files can be dropped, and keys work, only while nothing is edited outside and no dialog
/// covers the browser; no key acts while the user types or renames, and none deletes an empty
/// selection.
pub proof fn law_a_covered_browser_takes_nothing(
    s: Session,
    focused: bool,
    k: Keys,
    covered: bool,
    drops: bool,
    step: KeyStep,
)
    requires
        call_ensures(Session::modal_open, (&s,), covered),
        call_ensures(Session::accepts_drops, (&s,), drops),
        call_ensures(Session::key_step, (&s, focused, k), step),
    ensures
        s.export is Some || s.last_import is Some || s.contact_preview is Some || s.verify is Some
            || s.add_passkey is Some || s.auto_unlock_form is Some || s.move_form is Some
            || s.text_editor is Some ==> covered,
        drops <==> s.checkout is None && !covered,
        !drops || focused || s.rename_target is Some ==> step == KeyStep::Nothing,
        step == KeyStep::TrashSelected ==> k.delete && s.selected@ != Set::<Seq<char>>::empty(),
        step == KeyStep::SelectAll ==> k.select_all,
        step == KeyStep::ClearSelection || step == KeyStep::ClearSearch ==> k.escape,
        drops && !focused && s.rename_target is None && k.escape && s.selected@ != Set::<
            Seq<char>,
        >::empty() ==> step == KeyStep::ClearSelection,
        drops && !focused && s.rename_target is None && !k.escape && k.select_all ==> step
            == KeyStep::SelectAll,
        drops && !focused && s.rename_target is None && !k.escape && !k.select_all && k.delete
            && s.selected@ != Set::<Seq<char>>::empty() ==> step == KeyStep::TrashSelected,
{
}

/// Bringing the browser up to date keeps every copy whose file exists and forgets the others,
/// keeps just the live part of the selection, and leaves what is stored alone.
pub proof fn law_a_synced_browser_keeps_what_exists(
    a: &mut Session,
    existing: &[String],
    view: ActiveView,
    p: Seq<char>,
)
    requires
        call_ensures(Session::sync_browser, (a, existing), ()),
        old(a).open is Some,
    ensures
        final(a).views@.contains(view) <==> old(a).views@.contains(view) && texts(
            existing@,
        ).contains(view.temp_path@),
        final(a).selected@.contains(p) <==> old(a).selected@.contains(p) && !trashed(p) && exists|
            i: int,
        |
            0 <= i < old(a).open->0.entries@.len() && (#[trigger] listing(
                old(a).open->0.entries@,
            )[i]).0 == p,
        final(a).open == old(a).open && final(a).registry == old(a).registry,
        final(a).checkout == old(a).checkout && final(a).contacts == old(a).contacts,
{
    let b = *final(a);
    assert(synced(*old(a), b, texts(existing@)));
    crate::order::lemma_filter_members(old(a).views@, view_exists(texts(existing@)), view);
    assert(b.selected@.contains(p) <==> old(a).selected@.contains(p) && is_live_path(
        listing(old(a).open->0.entries@),
        p,
    ));
}

/// Every vault has its card, and there is none besides; the last changed stand first.
pub proof fn law_every_vault_has_a_card(
    registry: Registry,
    r: Vec<VaultMeta>,
    v: VaultMeta,
    i: int,
    j: int,
)
    requires
        call_ensures(vault_cards, (&registry,), r),
    ensures
        r@.len() == registry.vaults@.len(),
        r@.contains(v) <==> registry.vaults@.contains(v),
        0 <= i < j < r@.len() ==> r@[i].modified_at >= r@[j].modified_at,
{
    crate::order::law_sorting_keeps_the_values(registry.vaults@, r@, newer_first(), v);
    let p = choose|p: Seq<int>| #[trigger]
        crate::order::arranged(registry.vaults@, r@, newer_first(), p);
    if 0 <= i < j < r@.len() {
        assert(newer_first()(r@[i], r@[j]));
    }
}

/// The list tells an empty vault, an empty folder and a search without matches apart, and
/// shows rows wherever there are any.
pub proof fn law_an_empty_list_says_why(
    entries: &[Entry],
    live: int,
    rows: usize,
    search: &str,
    idle: bool,
    r: ListState,
)
    requires
        call_ensures(list_state, (entries, rows, search, idle), r),
    ensures
        (forall|i: int|
            0 <= i < entries@.len() ==> trashed((#[trigger] listing(entries@)[i]).0)) ==> r
            is EmptyVault,
        0 <= live < entries@.len() && !trashed(listing(entries@)[live].0) ==> {
            &&& rows > 0 <==> r is Rows
            &&& rows == 0 && trimmed(search@).len() == 0 <==> r is EmptyFolder
            &&& rows == 0 && trimmed(search@).len() > 0 <==> r is NoMatch
            &&& r is Rows && r->offer_select_all ==> idle && rows > 1
        },
{
    let items = listing(entries@);
    assert(items.len() == entries@.len());
    if 0 <= live < items.len() && !trashed(items[live].0) {
        assert(holds_live(items));
    }
}

/// While a file is edited outside, nothing is offered that would change the vault; and what is
/// edited or in view is always told.
pub proof fn law_an_edit_is_always_shown(s: Session, v: BrowserView)
    requires
        call_ensures(Session::browser_view, (&s,), v),
    ensures
        s.checkout is Some ==> v.editing is Some && v.editing->0@ == s.checkout->0.leaf@,
        s.checkout is Some ==> !v.new_folder && !v.new_file && v.renaming is None && v.selected
            is None,
        s.checkout is None ==> v.editing is None && v.new_folder == s.show_new_folder
            && v.new_file == s.show_new_file && (v.renaming is Some <==> s.rename_target is Some),
        v.viewing is Some <==> s.views@.len() > 0,
        s.checkout is None && s.selected@ != Set::<Seq<char>>::empty() ==> v.selected is Some
            && v.selected->0 == s.selected@.len(),
{
}

/// A row's menu has everything that can be done with it, and each item is about that row.
pub proof fn law_a_menu_is_about_its_row(
    kind: EntryKind,
    idle: bool,
    r: Vec<MenuItem>,
    item: MenuItem,
    path: &str,
    a: Action,
)
    requires
        call_ensures(row_menu, (kind, idle), r),
        call_ensures(menu_action, (item, path), a),
    ensures
        r@.contains(MenuItem::Open) <==> kind == EntryKind::Dir,
        r@.contains(MenuItem::View) <==> kind == EntryKind::File,
        r@.contains(MenuItem::SaveAs) <==> kind == EntryKind::File,
        r@.contains(MenuItem::QuickEdit) <==> kind == EntryKind::File && idle,
        r@.contains(MenuItem::CheckOut) <==> kind == EntryKind::File && idle,
        r@.contains(MenuItem::Rename) <==> idle,
        r@.contains(MenuItem::MoveTo) <==> idle,
        r@.contains(MenuItem::Delete) <==> idle,
        item == MenuItem::Open ==> a is EnterDir && a->EnterDir_0@ == path@,
        item == MenuItem::View ==> a is ViewFile && a->ViewFile_0@ == path@,
        item == MenuItem::QuickEdit ==> a is QuickEdit && a->QuickEdit_0@ == path@,
        item == MenuItem::CheckOut ==> a is CheckOut && a->CheckOut_0@ == path@,
        item == MenuItem::SaveAs ==> a is SaveEntryAs && a->SaveEntryAs_0@ == path@,
        item == MenuItem::Rename ==> a is BeginRename && a->BeginRename_0@ == path@,
        item == MenuItem::Delete ==> a is Trash && a->Trash_0@ == path@,
        item == MenuItem::MoveTo ==> a is BeginMove && a->BeginMove_0@.len() == 1
            && a->BeginMove_0@[0]@ == path@,
{
    let head = if kind == EntryKind::Dir {
        seq![MenuItem::Open]
    } else if idle {
        seq![MenuItem::View, MenuItem::QuickEdit, MenuItem::CheckOut, MenuItem::SaveAs]
    } else {
        seq![MenuItem::View, MenuItem::SaveAs]
    };
    let tail = if idle {
        seq![MenuItem::Rename, MenuItem::MoveTo, MenuItem::Delete]
    } else {
        Seq::empty()
    };
    assert(r@ == head + tail);
    assert forall|m: MenuItem| #[trigger] r@.contains(m) <==> head.contains(m) || tail.contains(
        m,
    ) by {
        if head.contains(m) {
            let k = head.index_of(m);
            assert(r@[k] == m);
        }
        if tail.contains(m) {
            let k = tail.index_of(m);
            assert(r@[head.len() + k] == m);
        }
    }
    if kind == EntryKind::Dir {
        assert(head[0] == MenuItem::Open);
    } else {
        assert(head[0] == MenuItem::View);
        assert(head.last() == MenuItem::SaveAs);
        if idle {
            assert(head[1] == MenuItem::QuickEdit && head[2] == MenuItem::CheckOut);
        }
    }
    if idle {
        assert(tail[0] == MenuItem::Rename && tail[1] == MenuItem::MoveTo && tail[2]
            == MenuItem::Delete);
    }
    if let Action::BeginMove(v) = a {
        if item == MenuItem::MoveTo {
            assert(texts(v@).len() == v@.len());
            assert(texts(v@)[0] == v@[0]@);
        }
    }
}

/// The trash is emptied only after a question, and not while a file is edited outside.
pub proof fn law_emptying_the_trash_asks_first(
    items: usize,
    idle: bool,
    confirming: bool,
    r: EmptyTrash,
)
    requires
        call_ensures(empty_trash_offer, (items, idle, confirming), r),
    ensures
        r == EmptyTrash::Confirm ==> confirming && idle && items > 0,
        r == EmptyTrash::Hidden <==> items == 0 || !idle,
{
}

/// A contact is shown as verified if and only if it is, and its button leads the other way:
/// an unverified one is compared first, never marked at once.
pub proof fn law_trust_is_shown_as_it_is(
    t: Trust,
    fpr_hex: &str,
    badge: (&'static str, BadgeKind),
    a: Action,
    c: Contact,
    label: String,
)
    requires
        call_ensures(trust_badge, (t,), badge),
        call_ensures(trust_action, (t, fpr_hex), a),
        c.trust == t,
        call_ensures(recipient_label, (&c,), label),
    ensures
        badge.1 == BadgeKind::Good <==> t == Trust::Verified,
        badge.0@ == "Verified"@ <==> t == Trust::Verified,
        t == Trust::Unverified ==> a is BeginVerify && a->BeginVerify_0@ == fpr_hex@,
        t == Trust::Verified ==> a is SetTrust && a->SetTrust_0@ == fpr_hex@ && a->SetTrust_1
            == Trust::Unverified,
        label@.skip(label@.len() - 11) == " (verified)"@ <==> t == Trust::Verified,
{
    reveal_strlit("Verified");
    reveal_strlit("Unverified");
    reveal_strlit(" (verified)");
    reveal_strlit(" — unverified ⚠");
    assert("Verified"@.len() != "Unverified"@.len());
    let name = shown_name(c.key);
    if t == Trust::Verified {
        assert(label@.skip(label@.len() - 11) =~= " (verified)"@);
    } else {
        assert(label@.last() == '⚠');
        assert(" (verified)"@.last() == ')');
        let tail = label@.skip(label@.len() - 11);
        assert(tail.len() == 11);
        assert(tail[10] == label@.last());
        assert(" (verified)"@[10] == ')');
    }
}

/// A contact is verified only by a match of what was typed or by the user's own word.
pub proof fn law_only_a_match_verifies(form: VerifyForm, same: bool, v: VerifyView)
    requires
        call_ensures(verify_view, (&form, same), v),
    ensures
        v.can_verify ==> form.manual_ok || same && trimmed(form.input@).len() > 0,
        form.manual_ok ==> v.can_verify,
        same && trimmed(form.input@).len() > 0 ==> v.can_verify && v.typed == Some(true),
        !same && trimmed(form.input@).len() > 0 ==> v.typed == Some(false),
        trimmed(form.input@).len() == 0 ==> v.typed is None,
{
}

/// One's own key cannot be added, every other can; a rename of a verified contact is the one
/// change that is warned of strongly, and names the old and the new name.
pub proof fn law_a_preview_warns_of_renames(status: PreviewStatus, name: &str, v: PreviewView)
    requires
        call_ensures(preview_view, (&status, name), v),
    ensures
        v.enabled <==> !(status is SelfKey),
        v.tone == BadgeKind::Bad <==> status is SelfKey || status is Renamed
            && status->Renamed_verified,
        v.note is Some <==> status is Renamed && status->Renamed_verified,
        status is Renamed ==> crate::text::contains_text(v.message@, name@)
            && crate::text::contains_text(v.message@, status->previous@),
{
    if let PreviewStatus::Renamed { previous, verified } = status {
        let front = if verified {
            "⚠ This renames a VERIFIED contact: \""@
        } else {
            "Display name will change: \""@
        };
        let rest = "\" → \""@ + name@ + "\"."@;
        assert(v.message@ =~= front + previous@ + rest);
        crate::report::lemma_holds(front, previous@, rest);
        crate::report::lemma_holds(front + previous@ + "\" → \""@, name@, "\"."@);
    }
}

/// An unknown sender can only be added, a known one only be verified, and a verified one needs
/// nothing.
pub proof fn law_a_sender_is_offered_what_is_missing(info: ImportInfo, v: SenderView)
    requires
        call_ensures(sender_view, (&info,), v),
    ensures
        v.offer is None <==> info.sender_name is Some && info.verified,
        info.sender_name is None ==> v.offer == Some(Action::AddSenderToContacts),
        info.sender_name is Some && !info.verified ==> v.offer->0 is BeginVerify
            && v.offer->0->BeginVerify_0@ == info.sender_fpr_hex@,
        v.tone == BadgeKind::Good <==> info.sender_name is Some && info.verified,
{
}

/// The identity screen offers what this build can do, and always lets what was set up be
/// taken down.
pub proof fn law_what_was_set_up_can_be_taken_down(
    s: Session,
    keys: bool,
    keychain: bool,
    v: IdentityView,
)
    requires
        call_ensures(Session::identity_view, (&s, keys, keychain), v),
    ensures
        s.auto_unlock ==> v.show_auto_unlock && v.offer_forget && !v.offer_remember,
        !s.auto_unlock ==> !v.offer_forget && (v.offer_remember <==> keychain),
        s.passkeys@.len() > 0 ==> v.show_keys,
        v.offer_add_key <==> keys,
        v.offer_upgrade <==> !s.identity.hybrid,
{
}

/// Everyone chosen who gives rise to a concern is named, and nobody else is.
pub proof fn law_every_concern_is_named(
    s: Session,
    form: ExportForm,
    concern: Concern,
    r: Vec<String>,
    k: int,
    i: int,
)
    requires
        call_ensures(Session::concerns, (&s, &form, concern), r),
    ensures
        0 <= k < s.contacts.contacts@.len() && is_worry(
            form,
            concern,
            s.contacts.contacts@[k],
        ) ==> texts(r@).contains(shown_name(s.contacts.contacts@[k].key)),
        0 <= i < r@.len() ==> exists|c: Contact|
            s.contacts.contacts@.contains(c) && #[trigger] is_worry(form, concern, c) && r@[i]@
                == shown_name(c.key),
{
    let all = s.contacts.contacts@;
    let keep = raises(form.selected@, concern);
    let kept = all.filter(keep);
    if 0 <= k < all.len() && is_worry(form, concern, all[k]) {
        crate::order::lemma_filter_members(all, keep, all[k]);
        let j = choose|j: int| 0 <= j < kept.len() && kept[j] == all[k];
        assert(texts(r@)[j] == shown_name(all[k].key));
    }
    if 0 <= i < r@.len() {
        assert(texts(r@)[i] == r@[i]@);
        assert(kept.len() == texts(r@).len());
        let c = kept[i];
        assert(kept.contains(c));
        crate::order::lemma_filter_members(all, keep, c);
        assert(is_worry(form, concern, c));
        assert(r@[i]@ == shown_name(c.key));
    }
}

/// Whether a contact is chosen and has no post-quantum key, or was not verified.
pub open spec fn is_worry(form: ExportForm, concern: Concern, c: Contact) -> bool {
    &&& form.selected@.contains(hex_text(c.key.fpr@))
    &&& concern == Concern::NotHybrid ==> !c.key.hybrid
    &&& concern == Concern::Unverified ==> c.trust != Trust::Verified
}

/// The export dialog warns wherever there is something to warn of: of recipients without a
/// post-quantum key if the suite needs one, and of unverified ones always.
pub proof fn law_an_export_warns_of_its_recipients(s: Session, form: ExportForm, v: ExportView, k: int)
    requires
        call_ensures(Session::export_view, (&s, &form), v),
        0 <= k < s.contacts.contacts@.len(),
    ensures
        is_worry(form, Concern::Unverified, s.contacts.contacts@[k]) ==> v.unverified is Some,
        is_worry(form, Concern::NotHybrid, s.contacts.contacts@[k]) && form.suite
            == SuiteId::Hybrid ==> v.notice is Some && v.notice->0.tone == BadgeKind::Bad,
        form.suite != SuiteId::Hybrid ==> v.notice is None,
        v.no_contacts is None,
        v.upgrade is Some <==> !s.identity.hybrid,
{
    let all = s.contacts.contacts@;
    let c = all[k];
    crate::order::lemma_filter_members(all, raises(form.selected@, Concern::Unverified), c);
    crate::order::lemma_filter_members(all, raises(form.selected@, Concern::NotHybrid), c);
    if is_worry(form, Concern::Unverified, c) {
        let kept = all.filter(raises(form.selected@, Concern::Unverified));
        assert(kept.contains(c));
        assert(concern_names(all, form.selected@, Concern::Unverified).len() == kept.len());
    }
    if is_worry(form, Concern::NotHybrid, c) {
        let kept = all.filter(raises(form.selected@, Concern::NotHybrid));
        assert(kept.contains(c));
        assert(concern_names(all, form.selected@, Concern::NotHybrid).len() == kept.len());
    }
}

/// A suite can be picked unless it needs keys that the user does not have, and nothing is sent
/// without a verified contact and a vault.
pub proof fn law_only_what_can_work_is_offered(
    hybrid: bool,
    suite: SuiteId,
    enabled: bool,
    verified: usize,
    vaults: usize,
    blocked: Option<&'static str>,
    kind: ActiveKind,
    end: (&'static str, Action),
)
    requires
        call_ensures(suite_enabled, (hybrid, suite), enabled),
        call_ensures(send_blocked, (verified, vaults), blocked),
        call_ensures(end_transfer, (kind,), end),
    ensures
        enabled <==> hybrid || suite != SuiteId::Hybrid,
        blocked is None <==> verified > 0 && vaults > 0,
        kind is Receive ==> end.1 is StopTransfer,
        kind is Send ==> end.1 is CancelTransfer,
{
}

} // verus!
