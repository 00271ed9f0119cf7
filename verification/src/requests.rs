//! Changes to the open vault: when a request is in order, what it asks for, and what
//! is said when it is refused or done.

use vstd::prelude::*;

use crate::browse::{item, listing, Entry, EntryKind, Item};
use crate::moving::{prune_nested, top_level};
use crate::order::{lemma_text_order, text_at_most, text_le};
use crate::path::{
    below, child_of, is_below, is_trashed, join_path, leaf_name, leaf_of, pair_texts, parent_dir,
    parent_of, trashed,
};
use crate::session::{Session, TextEditor};
use crate::text::{
    concat2, concat3, decimal, decimal_text, find, from_utf8, opt_text, owned, same_text, texts,
    to_chars, trim, trimmed,
};
use crate::text_set::{no_repeats, text_in};
use crate::trash::{
    dedup_path, parse_trash_token, restore_candidate, token_of, trash_dest, trash_path,
};
use vstd::utf8::{encode_utf8, valid_utf8};

verus! {

// ---------------------------------------------------------------------------
// Looking entries up
// ---------------------------------------------------------------------------

/// The first entry with a path, or -1.
pub open spec fn entry_pos(items: Seq<Item>, path: Seq<char>) -> int
    decreases items.len(),
{
    if items.len() == 0 {
        -1
    } else if entry_pos(items.drop_last(), path) >= 0 {
        entry_pos(items.drop_last(), path)
    } else if items.last().0 == path {
        items.len() - 1
    } else {
        -1
    }
}

pub(crate) proof fn lemma_entry_pos(items: Seq<Item>, path: Seq<char>)
    ensures
        -1 <= entry_pos(items, path) < items.len(),
        entry_pos(items, path) >= 0 ==> items[entry_pos(items, path)].0 == path && forall|i: int|
            0 <= i < entry_pos(items, path) ==> (#[trigger] items[i]).0 != path,
        entry_pos(items, path) < 0 ==> forall|i: int|
            0 <= i < items.len() ==> (#[trigger] items[i]).0 != path,
    decreases items.len(),
{
    if items.len() > 0 {
        let t = items.drop_last();
        lemma_entry_pos(t, path);
        assert forall|i: int| 0 <= i < t.len() implies #[trigger] items[i] == t[i] by {}
        if entry_pos(t, path) < 0 && items.last().0 != path {
            assert forall|i: int| 0 <= i < items.len() implies (#[trigger] items[i]).0 != path by {
                if i < t.len() {
                    assert(items[i] == t[i]);
                }
            }
        }
    }
}

/// The position of the first entry with a path.
pub fn find_entry(entries: &[Entry], path: &str) -> (r: Option<usize>)
    ensures
        match r {
            Some(k) => k == entry_pos(listing(entries@), path@) && k < entries@.len(),
            None => entry_pos(listing(entries@), path@) == -1,
        },
{
    let ghost items = listing(entries@);
    proof {
        lemma_entry_pos(items, path@);
    }
    let mut i: usize = 0;
    while i < entries.len()
        invariant
            i <= entries@.len(),
            items == listing(entries@),
            forall|k: int| 0 <= k < i ==> (#[trigger] items[k]).0 != path@,
        decreases entries@.len() - i,
    {
        assert(items[i as int] == item(entries@[i as int]));
        if same_text(&entries[i].0, path) {
            proof {
                lemma_entry_pos(items, path@);
            }
            return Some(i);
        }
        i += 1;
    }
    None
}

/// The kind of the entry with a path, if there is one.
pub open spec fn kind_at(items: Seq<Item>, path: Seq<char>) -> Option<EntryKind> {
    if entry_pos(items, path) >= 0 {
        Some(items[entry_pos(items, path)].1)
    } else {
        None
    }
}

/// The paths of entries.
pub open spec fn paths_of(items: Seq<Item>) -> Seq<Seq<char>> {
    items.map_values(|e: Item| e.0)
}

/// The paths of entries.
pub fn entry_paths(entries: &[Entry]) -> (r: Vec<String>)
    ensures
        texts(r@) == paths_of(listing(entries@)),
{
    let mut r: Vec<String> = Vec::new();
    let mut i: usize = 0;
    while i < entries.len()
        invariant
            i <= entries@.len(),
            texts(r@) == paths_of(listing(entries@)).take(i as int),
        decreases entries@.len() - i,
    {
        let ghost before = texts(r@);
        r.push(entries[i].0.clone());
        proof {
            assert(texts(r@) =~= before.push(entries@[i as int].0@));
            assert(paths_of(listing(entries@))[i as int] == entries@[i as int].0@);
            assert(texts(r@) =~= paths_of(listing(entries@)).take(i + 1));
        }
        i += 1;
    }
    assert(paths_of(listing(entries@)).take(i as int) =~= paths_of(listing(entries@)));
    r
}

/// Whether a text holds a slash.
fn has_slash(s: &str) -> (r: bool)
    ensures
        r == s@.contains('/'),
{
    let v = to_chars(s);
    let r = find(&v, '/');
    proof {
        crate::text::lemma_first_pos(v@, '/');
    }
    r.is_some()
}

// ---------------------------------------------------------------------------
// New folders and files
// ---------------------------------------------------------------------------

/// What to create: its name and its path in the vault.
pub struct NewEntry {
    pub leaf: String,
    pub path: String,
}

/// What is wrong with the name of a new entry, if anything.
pub open spec fn name_fault(leaf: Seq<char>, blank: Seq<char>, slash: Seq<char>) -> Option<Seq<char>> {
    if leaf.len() == 0 {
        Some(blank)
    } else if leaf.contains('/') {
        Some(slash)
    } else {
        None
    }
}

/// What is wrong with the name of a new entry, if anything.
fn check_name(leaf: &str, blank: &str, slash: &str) -> (r: Option<String>)
    ensures
        opt_text(r) == name_fault(leaf@, blank@, slash@),
{
    if leaf.is_empty() {
        Some(owned(blank))
    } else if has_slash(leaf) {
        Some(owned(slash))
    } else {
        None
    }
}

/// What creating `leaf` in folder `dir` of the open vault comes to: the entry to
/// create, or a refusal because something is there already; nothing, if no vault is
/// open.
pub open spec fn creation(
    open: Option<crate::session::OpenVault>,
    dir: Seq<char>,
    leaf: Seq<char>,
    r: Result<Option<NewEntry>, String>,
) -> bool {
    match open {
        None => r is Ok && r->Ok_0 is None,
        Some(o) => if entry_pos(listing(o.entries@), child_of(dir, leaf)) >= 0 {
            r is Err && r->Err_0@ == "\""@ + leaf + "\" already exists here."@
        } else {
            &&& r is Ok && r->Ok_0 is Some
            &&& r->Ok_0->0.leaf@ == leaf
            &&& r->Ok_0->0.path@ == child_of(dir, leaf)
        },
    }
}

/// What confirming the new-folder composer comes to.
pub open spec fn new_folder_asked(a: Session, b: Session, r: Result<Option<NewEntry>, String>) -> bool {
    match name_fault(
        trimmed(a.new_folder_name@),
        "Enter a folder name."@,
        "Folder names can't contain “/”."@,
    ) {
        Some(e) => r is Err && r->Err_0@ == e && b == a,
        None => {
            &&& b.new_folder_name@.len() == 0
            &&& b == (Session {
                new_folder_name: b.new_folder_name,
                show_new_folder: false,
                ..a
            })
            &&& creation(
                a.open,
                a.current_dir@,
                trimmed(a.new_folder_name@),
                r,
            )
        },
    }
}

/// What confirming the new-file composer comes to.
pub open spec fn new_file_asked(a: Session, b: Session, r: Result<Option<NewEntry>, String>) -> bool {
    match name_fault(
        trimmed(a.new_file_name@),
        "Enter a file name."@,
        "File names can't contain “/”."@,
    ) {
        Some(e) => r is Err && r->Err_0@ == e && b == a,
        None => {
            &&& b.new_file_name@.len() == 0
            &&& b == (Session {
                new_file_name: b.new_file_name,
                show_new_file: false,
                ..a
            })
            &&& creation(
                a.open,
                a.current_dir@,
                trimmed(a.new_file_name@),
                r,
            )
        },
    }
}

/// What confirming the new-vault composer comes to.
pub open spec fn create_vault_asked(a: Session, r: Result<String, String>) -> bool {
    match r {
        Ok(n) => n@ == trimmed(a.new_vault_name@) && n@.len() > 0,
        Err(e) => e@ == "Enter a vault name."@ && trimmed(a.new_vault_name@).len() == 0,
    }
}

impl Session {
    /// The entry to create in the current folder.
    fn creation_here(&self, leaf: String) -> (r: Result<Option<NewEntry>, String>)
        ensures
            creation(self.open, self.current_dir@, leaf@, r),
    {
        match &self.open {
            None => Ok(None),
            Some(o) => {
                let path = join_path(&self.current_dir, &leaf);
                if find_entry(&o.entries, &path).is_some() {
                    Err(concat3("\"", &leaf, "\" already exists here."))
                } else {
                    Ok(Some(NewEntry { leaf, path }))
                }
            },
        }
    }

    /// Checks the new-folder composer. A name that is in order closes it.
    pub fn request_new_folder(&mut self) -> (r: Result<Option<NewEntry>, String>)
        ensures
            new_folder_asked(*old(self), *final(self), r),
    {
        let leaf = trim(&self.new_folder_name);
        match check_name(&leaf, "Enter a folder name.", "Folder names can't contain “/”.") {
            Some(e) => Err(e),
            None => {
                self.new_folder_name = String::new();
                self.show_new_folder = false;
                self.creation_here(leaf)
            },
        }
    }

    /// Checks the new-file composer. A name that is in order closes it.
    pub fn request_new_file(&mut self) -> (r: Result<Option<NewEntry>, String>)
        ensures
            new_file_asked(*old(self), *final(self), r),
    {
        let leaf = trim(&self.new_file_name);
        match check_name(&leaf, "Enter a file name.", "File names can't contain “/”.") {
            Some(e) => Err(e),
            None => {
                self.new_file_name = String::new();
                self.show_new_file = false;
                self.creation_here(leaf)
            },
        }
    }

    /// The name for a new vault.
    pub fn request_create_vault(&self) -> (r: Result<String, String>)
        ensures
            create_vault_asked(*self, r),
    {
        let name = trim(&self.new_vault_name);
        if name.as_str().is_empty() {
            Err(owned("Enter a vault name."))
        } else {
            Ok(name)
        }
    }
}

// ---------------------------------------------------------------------------
// Adding
// ---------------------------------------------------------------------------

/// What is said after additions were planned, if there is nothing to add.
pub fn nothing_added(files: usize, folders: usize, failed: usize) -> (r: Option<String>)
    ensures
        opt_text(r) == (if files > 0 || folders > 0 {
            None
        } else if failed > 0 {
            Some(decimal_text(failed as nat) + " item(s) could not be read."@)
        } else {
            Some("Nothing new to add."@)
        }),
{
    if files > 0 || folders > 0 {
        None
    } else if failed > 0 {
        Some(concat2(&decimal(failed as u64), " item(s) could not be read."))
    } else {
        Some(owned("Nothing new to add."))
    }
}

/// What is said after files were added to a folder.
pub open spec fn added_text(files: nat, into: Seq<char>, failed: nat) -> Seq<char> {
    let dest = if into.len() == 0 {
        Seq::empty()
    } else {
        " to "@ + leaf_of(into)
    };
    if failed > 0 {
        "Added "@ + decimal_text(files) + " file(s)"@ + dest + "; "@ + decimal_text(failed)
            + " could not be read."@
    } else {
        "Added "@ + decimal_text(files) + " file(s)"@ + dest + "."@
    }
}

/// What is said after files were added to a folder.
pub fn added_message(files: usize, into: &str, failed: usize) -> (r: String)
    ensures
        r@ == added_text(files as nat, into@, failed as nat),
{
    let dest = if into.is_empty() {
        String::new()
    } else {
        concat2(" to ", leaf_name(into))
    };
    let mut r = concat3("Added ", &decimal(files as u64), " file(s)");
    r.append(&dest);
    if failed > 0 {
        r.append("; ");
        r.append(&decimal(failed as u64));
        r.append(" could not be read.");
    } else {
        r.append(".");
    }
    proof {
        if into@.len() == 0 {
            assert("Added "@ + decimal_text(files as nat) + " file(s)"@ + dest@ =~= "Added "@
                + decimal_text(files as nat) + " file(s)"@ + Seq::<char>::empty());
        }
    }
    r
}

// ---------------------------------------------------------------------------
// The text editor
// ---------------------------------------------------------------------------

/// The largest file that the quick editor opens.
pub const MAX_EDIT: u64 = 4_194_304;

/// Why the quick editor does not open an entry, if it does not.
pub open spec fn edit_fault(items: Seq<Item>, path: Seq<char>) -> Option<Seq<char>> {
    let k = entry_pos(items, path);
    if k < 0 || items[k].1 != EntryKind::File {
        Some("Only files can be edited."@)
    } else if items[k].2 > MAX_EDIT {
        Some("That file is too large for the quick editor — use Save as… instead."@)
    } else {
        None
    }
}

/// Whether the quick editor opens an entry.
pub fn request_quick_edit(entries: &[Entry], path: &str) -> (r: Result<(), String>)
    ensures
        match r {
            Ok(_) => edit_fault(listing(entries@), path@) is None,
            Err(e) => edit_fault(listing(entries@), path@) == Some(e@),
        },
{
    match find_entry(entries, path) {
        Some(k) => {
            assert(listing(entries@)[k as int] == item(entries@[k as int]));
            if entries[k].1 != EntryKind::File {
                Err(owned("Only files can be edited."))
            } else if entries[k].2 > MAX_EDIT {
                Err(owned("That file is too large for the quick editor — use Save as… instead."))
            } else {
                Ok(())
            }
        },
        None => Err(owned("Only files can be edited.")),
    }
}

/// Opens the content of a file in the editor; only text can be edited.
pub fn open_text(path: String, bytes: &[u8]) -> (r: Result<TextEditor, String>)
    ensures
        match r {
            Ok(te) => {
                &&& valid_utf8(bytes@)
                &&& te.path == path
                &&& te.leaf@ == leaf_of(path@)
                &&& encode_utf8(te.content@) == bytes@
                &&& te.original@ == te.content@
            },
            Err(e) => {
                &&& !valid_utf8(bytes@)
                &&& e@
                    == "This file isn't text — use “Check out & edit” to open it in an app."@
            },
        },
{
    match from_utf8(bytes) {
        Some(content) => {
            let original = owned(&content);
            let leaf = owned(leaf_name(&path));
            Ok(TextEditor { path, leaf, content, original })
        },
        None => Err(
            owned("This file isn't text — use “Check out & edit” to open it in an app."),
        ),
    }
}

/// What saving the editor writes.
pub struct SaveRequest {
    pub path: String,
    pub content: String,
}

/// What saving the editor writes.
pub open spec fn save_text_asked(a: Session, r: Option<SaveRequest>) -> bool {
    match r {
        Some(q) => a.open is Some && a.text_editor is Some && q.path@
            == a.text_editor->0.path@ && q.content@ == a.text_editor->0.content@,
        None => a.open is None || a.text_editor is None,
    }
}

impl Session {
    /// What saving the editor writes; nothing, without an editor or an open vault.
    pub fn request_save_text(&self) -> (r: Option<SaveRequest>)
        ensures
            save_text_asked(*self, r),
    {
        match (&self.text_editor, &self.open) {
            (Some(te), Some(_)) => Some(
                SaveRequest { path: owned(&te.path), content: owned(&te.content) },
            ),
            _ => None,
        }
    }
}

// ---------------------------------------------------------------------------
// Trash
// ---------------------------------------------------------------------------

/// What moving paths to the trash renames: each path, and where it goes. Each gets a
/// tag of its own.
pub open spec fn trash_moves(paths: Seq<Seq<char>>, now: i64, tags: Seq<Seq<char>>) -> Seq<
    (Seq<char>, Seq<char>),
> {
    Seq::new(paths.len(), |i: int| (paths[i], trash_path(now, tags[i], paths[i])))
}

/// What moving paths to the trash renames.
pub fn trash_pairs(paths: &[String], now: i64, tags: &[String]) -> (r: Vec<(String, String)>)
    requires
        tags@.len() == paths@.len(),
    ensures
        pair_texts(r@) == trash_moves(texts(paths@), now, texts(tags@)),
{
    let ghost want = trash_moves(texts(paths@), now, texts(tags@));
    let mut r: Vec<(String, String)> = Vec::new();
    let mut i: usize = 0;
    while i < paths.len()
        invariant
            i <= paths@.len(),
            tags@.len() == paths@.len(),
            want == trash_moves(texts(paths@), now, texts(tags@)),
            pair_texts(r@) == want.take(i as int),
        decreases paths@.len() - i,
    {
        let dest = trash_dest(now, &tags[i], &paths[i]);
        let ghost before = pair_texts(r@);
        let ghost d = dest@;
        r.push((owned(&paths[i]), dest));
        proof {
            assert(pair_texts(r@) =~= before.push((paths@[i as int]@, d)));
            assert(want[i as int] == (paths@[i as int]@, d));
            assert(pair_texts(r@) =~= want.take(i + 1));
        }
        i += 1;
    }
    assert(want.take(i as int) =~= want);
    r
}

/// Whether a path is selected and lies below no other selected path.
pub open spec fn selected_top(a: Session, p: Seq<char>) -> bool {
    a.selected@.contains(p) && !exists|q: Seq<char>| a.selected@.contains(q) && below(p, q)
}

/// What trashing the selection comes to: an empty selection is an error, whether or not
/// a vault is open.
pub open spec fn trash_selected_asked(a: Session, r: Result<Option<Vec<String>>, String>) -> bool {
    match r {
        Err(e) => e@ == "Select something first."@ && (forall|p: Seq<char>| !#[trigger]
            selected_top(a, p)),
        Ok(None) => a.open is None && (exists|p: Seq<char>| #[trigger] selected_top(a, p)),
        Ok(Some(v)) => {
            &&& a.open is Some
            &&& v@.len() > 0
            &&& no_repeats(v@)
            &&& forall|p: Seq<char>| #[trigger] texts(v@).contains(p) <==> selected_top(a, p)
        },
    }
}

impl Session {
    /// The selected paths to move to the trash, without those inside others.
    pub fn request_trash_selected(&self) -> (r: Result<Option<Vec<String>>, String>)
        ensures
            trash_selected_asked(*self, r),
    {
        let all = self.selected.to_vec();
        let ghost t = texts(all@);
        let paths = prune_nested(&all);
        proof {
            let keep = |p: Seq<char>| !crate::moving::below_any(p, t);
            assert forall|p: Seq<char>| #[trigger] texts(paths@).contains(p) <==> selected_top(
                *self,
                p,
            ) by {
                crate::order::lemma_filter_members(t, keep, p);
                assert(t.to_set().contains(p) <==> t.contains(p));
                if crate::moving::below_any(p, t) {
                    let i = choose|i: int| 0 <= i < t.len() && below(p, #[trigger] t[i]);
                    assert(t.to_set().contains(t[i]));
                }
                if exists|q: Seq<char>| self.selected@.contains(q) && below(p, q) {
                    let q = choose|q: Seq<char>| self.selected@.contains(q) && below(p, q);
                    assert(t.to_set().contains(q));
                    let i = choose|i: int| 0 <= i < t.len() && t[i] == q;
                    assert(below(p, t[i]));
                }
            }
            lemma_filter_no_duplicates(t, keep);
        }
        if paths.len() == 0 {
            proof {
                assert forall|p: Seq<char>| !#[trigger] selected_top(*self, p) by {
                    assert(!texts(paths@).contains(p));
                }
            }
            return Err(owned("Select something first."));
        }
        proof {
            let top = texts(paths@)[0];
            assert(texts(paths@).contains(top));
            assert(selected_top(*self, top));
        }
        match &self.open {
            Some(_) => Ok(Some(paths)),
            None => Ok(None),
        }
    }
}

/// A filter of a list without repeats has none.
proof fn lemma_filter_no_duplicates<A>(s: Seq<A>, keep: spec_fn(A) -> bool)
    requires
        s.no_duplicates(),
    ensures
        s.filter(keep).no_duplicates(),
    decreases s.len(),
{
    reveal(Seq::filter);
    if s.len() > 0 {
        let t = s.drop_last();
        assert(t.no_duplicates());
        lemma_filter_no_duplicates(t, keep);
        if keep(s.last()) {
            let f = t.filter(keep);
            assert forall|i: int| 0 <= i < f.len() implies f[i] != s.last() by {
                assert(f.contains(f[i]));
                crate::order::lemma_filter_members(t, keep, f[i]);
                let k = choose|k: int| 0 <= k < t.len() && t[k] == f[i];
                assert(s[k] == t[k]);
            }
        }
    }
}

/// What is said after items went to the trash.
pub fn trashed_message(n: usize) -> (r: String)
    ensures
        r@ == "Moved "@ + decimal_text(n as nat) + " item(s) to Trash."@,
{
    concat3("Moved ", &decimal(n as u64), " item(s) to Trash.")
}

/// What restoring a trashed entry comes to.
pub open spec fn restore_trashed_asked(
    items: Seq<Item>,
    path: Seq<char>,
    r: Result<String, String>,
) -> bool {
    match r {
        Ok(to) => {
            &&& token_of(path) is Some
            &&& !paths_of(items).contains(to@)
            &&& exists|k: nat|
                to@ == #[trigger] restore_candidate((token_of(path)->0).1, k)
                    && forall|j: nat|
                    j < k ==> paths_of(items).contains(
                        #[trigger] restore_candidate((token_of(path)->0).1, j),
                    )
        },
        Err(e) => token_of(path) is None && e@
            == "That item's original name couldn't be read."@,
    }
}

/// Where a trashed entry goes back to: its old path, or a free variant of it.
pub fn request_restore(entries: &[Entry], trashed_path: &str) -> (r: Result<String, String>)
    ensures
        restore_trashed_asked(listing(entries@), trashed_path@, r),
{
    match parse_trash_token(trashed_path) {
        Some((_, orig)) => {
            let taken = entry_paths(entries);
            let to = dedup_path(&taken, &orig);
            proof {
                let o = (token_of(trashed_path@)->0).1;
                assert(orig@ == o);
                let k = choose|k: nat|
                    to@ == #[trigger] restore_candidate(o, k) && forall|j: nat|
                        j < k ==> texts(taken@).contains(#[trigger] restore_candidate(o, j));
                assert(to@ == restore_candidate(o, k));
            }
            Ok(to)
        },
        None => Err(owned("That item's original name couldn't be read.")),
    }
}

// ---------------------------------------------------------------------------
// Renaming and moving
// ---------------------------------------------------------------------------

/// A rename to carry out.
pub struct RenameRequest {
    pub from: String,
    pub to: String,
    pub leaf: String,
}

/// What renaming an entry comes to.
pub open spec fn renaming(
    s: Session,
    from: Seq<char>,
    leaf: Seq<char>,
    r: Result<Option<RenameRequest>, String>,
) -> bool {
    let to = child_of(parent_of(from), leaf);
    match name_fault(leaf, "Enter a name."@, "Names can't contain “/”."@) {
        Some(e) => r is Err && r->Err_0@ == e,
        None => if to == from || s.open is None {
            r is Ok && r->Ok_0 is None
        } else if entry_pos(listing(s.open->0.entries@), to) >= 0 {
            r is Err && r->Err_0@ == "“"@ + leaf + "” already exists here."@
        } else {
            &&& r is Ok && r->Ok_0 is Some
            &&& r->Ok_0->0.from@ == from
            &&& r->Ok_0->0.to@ == to
            &&& r->Ok_0->0.leaf@ == leaf
        },
    }
}

/// What confirming the rename composer comes to.
pub open spec fn rename_asked(a: Session, b: Session, r: Result<Option<RenameRequest>, String>) -> bool {
    match a.rename_target {
        None => r is Ok && r->Ok_0 is None && b == a,
        Some(from) => {
            &&& crate::session::rename_ended(a, b)
            &&& renaming(a, from@, trimmed(a.rename_input@), r)
        },
    }
}

impl Session {
    /// Confirms the rename composer, which closes whatever comes of it.
    pub fn request_rename(&mut self) -> (r: Result<Option<RenameRequest>, String>)
        ensures
            rename_asked(*old(self), *final(self), r),
    {
        let leaf = trim(&self.rename_input);
        let from = match self.rename_target.take() {
            None => return Ok(None),
            Some(p) => p,
        };
        self.rename_input = String::new();
        match check_name(&leaf, "Enter a name.", "Names can't contain “/”.") {
            Some(e) => return Err(e),
            None => {},
        }
        let to = join_path(parent_dir(&from), &leaf);
        if same_text(&to, &from) {
            return Ok(None);
        }
        match &self.open {
            None => Ok(None),
            Some(o) => {
                if find_entry(&o.entries, &to).is_some() {
                    Err(concat3("“", &leaf, "” already exists here."))
                } else {
                    Ok(Some(RenameRequest { from, to, leaf }))
                }
            },
        }
    }
}

/// The paths that are not in the folder yet.
pub open spec fn elsewhere(paths: Seq<Seq<char>>, dest: Seq<char>) -> Seq<Seq<char>> {
    paths.filter(|p: Seq<char>| parent_of(p) != dest)
}

/// The renames that move paths into a folder.
pub open spec fn move_pairs(paths: Seq<Seq<char>>, dest: Seq<char>) -> Seq<(Seq<char>, Seq<char>)> {
    elsewhere(paths, dest).map_values(|p: Seq<char>| (p, child_of(dest, leaf_of(p))))
}

/// Whether one of some renames ends at `to`.
pub open spec fn arrives_at(pairs: Seq<(Seq<char>, Seq<char>)>, to: Seq<char>) -> bool {
    exists|i: int| 0 <= i < pairs.len() && (#[trigger] pairs[i]).1 == to
}

/// The first of some paths whose place in the folder is taken, by what is there or by
/// one moved before it, or -1.
pub open spec fn first_clash(
    existing: Seq<Seq<char>>,
    pairs: Seq<(Seq<char>, Seq<char>)>,
) -> int
    decreases pairs.len(),
{
    if pairs.len() == 0 {
        -1
    } else if first_clash(existing, pairs.drop_last()) >= 0 {
        first_clash(existing, pairs.drop_last())
    } else if existing.contains(pairs.last().1) || arrives_at(
        pairs.drop_last(),
        pairs.last().1,
    ) {
        pairs.len() - 1
    } else {
        -1
    }
}

/// Why a move is refused, if it is.
pub open spec fn move_fault(
    items: Seq<Item>,
    paths: Seq<Seq<char>>,
    dest: Seq<char>,
) -> Option<Seq<char>> {
    let pairs = move_pairs(paths, dest);
    let k = first_clash(paths_of(items), pairs);
    if k >= 0 {
        Some("“"@ + leaf_of(pairs[k].0) + "” already exists in that folder."@)
    } else if pairs.len() == 0 {
        Some("Those items are already there."@)
    } else {
        None
    }
}

/// Whether one of some renames ends at `to`.
fn any_arrives_at(pairs: &[(String, String)], to: &str) -> (r: bool)
    ensures
        r == arrives_at(pair_texts(pairs@), to@),
{
    let mut i: usize = 0;
    while i < pairs.len()
        invariant
            i <= pairs@.len(),
            forall|k: int| 0 <= k < i ==> (#[trigger] pair_texts(pairs@)[k]).1 != to@,
        decreases pairs@.len() - i,
    {
        if same_text(&pairs[i].1, to) {
            assert(pair_texts(pairs@)[i as int].1 == to@);
            return true;
        }
        i += 1;
    }
    false
}

/// The renames that move paths into a folder; those in it already stay.
pub fn plan_move(entries: &[Entry], paths: &[String], dest: &str) -> (r: Result<
    Vec<(String, String)>,
    String,
>)
    ensures
        match r {
            Ok(pairs) => move_fault(listing(entries@), texts(paths@), dest@) is None
                && pair_texts(pairs@) == move_pairs(texts(paths@), dest@),
            Err(e) => move_fault(listing(entries@), texts(paths@), dest@) == Some(e@),
        },
{
    let existing = entry_paths(entries);
    let ghost ex = paths_of(listing(entries@));
    let ghost t = texts(paths@);
    let ghost keep = |p: Seq<char>| parent_of(p) != dest@;
    let mut pairs: Vec<(String, String)> = Vec::new();
    let mut i: usize = 0;
    proof {
        reveal(Seq::filter);
        assert(t.take(0).filter(keep) =~= Seq::<Seq<char>>::empty());
        assert(elsewhere(t.take(0), dest@) =~= t.take(0).filter(keep));
        assert(pair_texts(pairs@) =~= move_pairs(t.take(0), dest@));
    }
    while i < paths.len()
        invariant
            i <= paths@.len(),
            t == texts(paths@),
            ex == texts(existing@),
            ex == paths_of(listing(entries@)),
            pair_texts(pairs@) == move_pairs(t.take(i as int), dest@),
            first_clash(ex, move_pairs(t.take(i as int), dest@)) < 0,
        decreases paths@.len() - i,
    {
        let from = &paths[i];
        let ghost now = move_pairs(t.take(i as int), dest@);
        let ghost next = move_pairs(t.take(i + 1), dest@);
        proof {
            lemma_move_step(t, i as int, dest@);
        }
        if !same_text(parent_dir(from), dest) {
            let to = join_path(dest, leaf_name(from));
            let ghost tov = to@;
            assert(next.drop_last() =~= now);
            if text_in(&existing, &to) || any_arrives_at(&pairs, &to) {
                proof {
                    lemma_clash_stays(ex, t, i + 1, dest@);
                    assert(next[now.len() as int].0 == from@);
                    assert(first_clash(ex, next) == now.len());
                }
                return Err(concat3("“", leaf_name(from), "” already exists in that folder."));
            }
            pairs.push((owned(from), to));
            assert(pair_texts(pairs@) =~= now.push((from@, tov)));
        }
        i += 1;
    }
    assert(t.take(i as int) =~= t);
    if pairs.len() == 0 {
        assert(pair_texts(pairs@).len() == 0);
        return Err(owned("Those items are already there."));
    }
    assert(pair_texts(pairs@).len() == pairs@.len());
    Ok(pairs)
}

proof fn lemma_move_step(t: Seq<Seq<char>>, i: int, dest: Seq<char>)
    requires
        0 <= i < t.len(),
    ensures
        move_pairs(t.take(i + 1), dest) == (if parent_of(t[i]) != dest {
            move_pairs(t.take(i), dest).push((t[i], child_of(dest, leaf_of(t[i]))))
        } else {
            move_pairs(t.take(i), dest)
        }),
{
    reveal(Seq::filter);
    assert(t.take(i + 1).drop_last() =~= t.take(i));
    assert(move_pairs(t.take(i + 1), dest) =~= (if parent_of(t[i]) != dest {
        move_pairs(t.take(i), dest).push((t[i], child_of(dest, leaf_of(t[i]))))
    } else {
        move_pairs(t.take(i), dest)
    }));
}

/// A clash among the first paths is the first clash among all.
proof fn lemma_clash_stays(ex: Seq<Seq<char>>, t: Seq<Seq<char>>, n: int, dest: Seq<char>)
    requires
        0 <= n <= t.len(),
        first_clash(ex, move_pairs(t.take(n), dest)) >= 0,
    ensures
        first_clash(ex, move_pairs(t, dest)) == first_clash(ex, move_pairs(t.take(n), dest)),
        move_pairs(t, dest).len() >= move_pairs(t.take(n), dest).len(),
        forall|k: int|
            0 <= k < move_pairs(t.take(n), dest).len() ==> move_pairs(t, dest)[k] == move_pairs(
                t.take(n),
                dest,
            )[k],
        first_clash(ex, move_pairs(t.take(n), dest)) < move_pairs(t.take(n), dest).len(),
    decreases t.len() - n,
{
    lemma_clash_bound(ex, move_pairs(t.take(n), dest));
    if n < t.len() {
        lemma_move_step(t, n, dest);
        let now = move_pairs(t.take(n), dest);
        let next = move_pairs(t.take(n + 1), dest);
        if parent_of(t[n]) != dest {
            assert(next.drop_last() =~= now);
        }
        lemma_clash_stays(ex, t, n + 1, dest);
    } else {
        assert(t.take(n) =~= t);
    }
}

proof fn lemma_clash_bound(ex: Seq<Seq<char>>, pairs: Seq<(Seq<char>, Seq<char>)>)
    ensures
        -1 <= first_clash(ex, pairs) < pairs.len(),
    decreases pairs.len(),
{
    if pairs.len() > 0 {
        lemma_clash_bound(ex, pairs.drop_last());
    }
}

/// A move to carry out.
pub struct MoveRequest {
    pub pairs: Vec<(String, String)>,
    pub dest: String,
}

/// What confirming the move dialog comes to.
pub open spec fn move_asked(a: Session, b: Session, r: Result<Option<MoveRequest>, String>) -> bool {
    &&& (b == (Session { move_form: None, ..a }))
    &&& (match (a.move_form, a.open) {
        (Some(f), Some(o)) => {
            let paths = top_level(texts(f.paths@));
            match move_fault(listing(o.entries@), paths, f.dest@) {
                Some(e) => r is Err && r->Err_0@ == e,
                None => {
                    &&& r is Ok && r->Ok_0 is Some
                    &&& r->Ok_0->0.dest == f.dest
                    &&& pair_texts(r->Ok_0->0.pairs@) == move_pairs(paths, f.dest@)
                },
            }
        },
        _ => r is Ok && r->Ok_0 is None,
    })
}

impl Session {
    /// Confirms the move dialog, which closes whatever comes of it.
    pub fn request_move(&mut self) -> (r: Result<Option<MoveRequest>, String>)
        ensures
            move_asked(*old(self), *final(self), r),
    {
        let form = match self.move_form.take() {
            Some(f) => f,
            None => return Ok(None),
        };
        let paths = prune_nested(&form.paths);
        match &self.open {
            None => Ok(None),
            Some(o) => match plan_move(&o.entries, &paths, &form.dest) {
                Ok(pairs) => Ok(Some(MoveRequest { pairs, dest: form.dest })),
                Err(e) => Err(e),
            },
        }
    }
}

/// What is said after a move.
pub fn moved_message(n: usize, dest: &str) -> (r: String)
    ensures
        r@ == "Moved "@ + decimal_text(n as nat) + " item(s) to "@ + (if dest@.len() == 0 {
            "the top level"@
        } else {
            "“"@ + leaf_of(dest@) + "”"@
        }) + "."@,
{
    let where_to = if dest.is_empty() {
        owned("the top level")
    } else {
        concat3("“", leaf_name(dest), "”")
    };
    let mut r = concat3("Moved ", &decimal(n as u64), " item(s) to ");
    r.append(&where_to);
    r.append(".");
    r
}

/// A move that goes ahead overwrites nothing: every destination is free, and no two
/// items get the same one.
pub proof fn law_moves_overwrite_nothing(
    items: Seq<Item>,
    paths: Seq<Seq<char>>,
    dest: Seq<char>,
    k: int,
)
    requires
        move_fault(items, paths, dest) is None,
        0 <= k < move_pairs(paths, dest).len(),
    ensures
        !paths_of(items).contains(move_pairs(paths, dest)[k].1),
        forall|j: int|
            0 <= j < move_pairs(paths, dest).len() && j != k ==> (#[trigger] move_pairs(
                paths,
                dest,
            )[j]).1 != move_pairs(paths, dest)[k].1,
{
    let pairs = move_pairs(paths, dest);
    lemma_no_clash(paths_of(items), pairs, k);
    assert forall|j: int| 0 <= j < pairs.len() && j != k implies (#[trigger] pairs[j]).1
        != pairs[k].1 by {
        lemma_no_clash(paths_of(items), pairs, j);
    }
}

proof fn lemma_no_clash(ex: Seq<Seq<char>>, pairs: Seq<(Seq<char>, Seq<char>)>, k: int)
    requires
        first_clash(ex, pairs) < 0,
        0 <= k < pairs.len(),
    ensures
        !ex.contains(pairs[k].1),
        forall|j: int| 0 <= j < k ==> (#[trigger] pairs[j]).1 != pairs[k].1,
    decreases pairs.len(),
{
    let front = pairs.drop_last();
    if k < pairs.len() - 1 {
        assert(front[k] == pairs[k]);
        lemma_no_clash(ex, front, k);
        assert forall|j: int| 0 <= j < k implies (#[trigger] pairs[j]).1 != pairs[k].1 by {
            assert(front[j] == pairs[j]);
        }
    } else {
        assert forall|j: int| 0 <= j < k implies (#[trigger] pairs[j]).1 != pairs[k].1 by {
            assert(front[j] == pairs[j]);
        }
    }
}

// ---------------------------------------------------------------------------
// Extracting
// ---------------------------------------------------------------------------

/// Whether extracting a selection writes the file at `p`: it is selected itself, or
/// lies in a selected folder.
pub open spec fn is_extracted(items: Seq<Item>, selected: Set<Seq<char>>, p: Seq<char>) -> bool {
    ||| selected.contains(p) && !crate::browse::is_folder(items, p)
    ||| exists|i: int, sel: Seq<char>|
        0 <= i < items.len() && (#[trigger] items[i]).0 == p && items[i].1 == EntryKind::File
            && #[trigger] selected.contains(sel) && crate::browse::is_folder(items, sel)
            && below(p, sel)
}

/// Whether texts stand in strictly rising order.
pub open spec fn rising(v: Seq<Seq<char>>) -> bool {
    forall|i: int, j: int| 0 <= i < j < v.len() ==> text_le(v[i], v[j]) && v[i] != v[j]
}

proof fn lemma_rising(v: Seq<Seq<char>>, i: int, j: int)
    requires
        rising(v),
        0 <= i < j < v.len(),
    ensures
        text_le(v[i], v[j]),
        v[i] != v[j],
{
    assert(text_le(v[i], v[j]));
}

/// Puts a text in its place in a rising list, unless it is there.
fn insert_rising(v: &mut Vec<String>, t: &str)
    requires
        rising(texts(old(v)@)),
    ensures
        rising(texts(final(v)@)),
        forall|p: Seq<char>| #[trigger]
            texts(final(v)@).contains(p) <==> texts(old(v)@).contains(p) || p == t@,
{
    let ghost before = texts(v@);
    let mut i: usize = 0;
    while i < v.len() && !text_at_most(t, &v[i])
        invariant
            i <= v@.len(),
            before == texts(v@),
            forall|k: int| 0 <= k < i ==> !text_le(t@, #[trigger] before[k]),
        decreases v@.len() - i,
    {
        assert(before[i as int] == v@[i as int]@);
        i += 1;
    }
    if i < v.len() && same_text(&v[i], t) {
        assert(before[i as int] == t@);
        return;
    }
    proof {
        if i < v@.len() {
            assert(before[i as int] == v@[i as int]@);
        }
    }
    v.insert(i, owned(t));
    proof {
        let after = texts(v@);
        assert(after =~= before.insert(i as int, t@));
        assert(rising(before));
        assert forall|a: int, b: int| 0 <= a < b < after.len() implies text_le(after[a], after[b])
            && after[a] != after[b] by {
            let x = if a < i { a } else { a - 1 };
            let y = if b < i { b } else { b - 1 };
            if a == i {
                // `t` before what followed.
                assert(after[b] == before[y]);
                assert(text_le(t@, before[i as int]));
                if y > i {
                    assert(text_le(before[i as int], before[y]));
                }
                lemma_text_order(t@, before[i as int], before[y]);
                lemma_text_order(before[i as int], before[y], t@);
                assert(before[i as int] != t@);
                assert(before[y] != t@);
            } else if b == i {
                assert(after[a] == before[x]);
                assert(!text_le(t@, before[x]));
                lemma_text_order(t@, before[x], t@);
                assert(before[x] != t@);
            } else {
                assert(0 <= x < y < before.len());
                lemma_rising(before, x, y);
                assert(text_le(before[x], before[y]) && before[x] != before[y]);
                assert(after[a] == before[x] && after[b] == before[y]);
            }
        }
        assert forall|p: Seq<char>| #[trigger] after.contains(p) <==> before.contains(p) || p
            == t@ by {
            if after.contains(p) {
                let k = choose|k: int| 0 <= k < after.len() && after[k] == p;
                if k != i {
                    assert(before[if k < i { k } else { k - 1 }] == p);
                }
            }
            if before.contains(p) {
                let k = choose|k: int| 0 <= k < before.len() && before[k] == p;
                assert(after[if k < i { k } else { k + 1 }] == p);
            }
            assert(after[i as int] == t@);
        }
    }
}

/// The files that extracting a selection writes, in order, each once.
pub fn extract_list(entries: &[Entry], selected: &[String]) -> (r: Vec<String>)
    ensures
        rising(texts(r@)),
        forall|p: Seq<char>| #[trigger]
            texts(r@).contains(p) <==> is_extracted(listing(entries@), texts(selected@).to_set(), p),
{
    let ghost items = listing(entries@);
    let ghost sel = texts(selected@);
    let mut r: Vec<String> = Vec::new();
    let mut i: usize = 0;
    proof {
        assert forall|p: Seq<char>| #[trigger] texts(r@).contains(p) <==> is_extracted(
            items,
            sel.take(0).to_set(),
            p,
        ) by {}
    }
    while i < selected.len()
        invariant
            i <= selected@.len(),
            items == listing(entries@),
            sel == texts(selected@),
            rising(texts(r@)),
            forall|p: Seq<char>| #[trigger]
                texts(r@).contains(p) <==> is_extracted(items, sel.take(i as int).to_set(), p),
        decreases selected@.len() - i,
    {
        let ghost before = texts(r@);
        let ghost now = sel.take(i as int).to_set();
        let ghost next = sel.take(i + 1).to_set();
        let ghost cur = sel[i as int];
        proof {
            assert(cur == selected@[i as int]@);
            assert forall|p: Seq<char>| #[trigger] next.contains(p) <==> now.contains(p) || p
                == cur by {
                let (a, b) = (sel.take(i as int), sel.take(i + 1));
                if b.contains(p) {
                    let k = choose|k: int| 0 <= k < b.len() && b[k] == p;
                    if k < i {
                        assert(a[k] == p);
                    }
                }
                if a.contains(p) {
                    let k = choose|k: int| 0 <= k < a.len() && a[k] == p;
                    assert(b[k] == p);
                }
                assert(b[i as int] == cur);
            }
        }
        if crate::browse::has_folder(entries, &selected[i]) {
            let mut j: usize = 0;
            while j < entries.len()
                invariant
                    j <= entries@.len(),
                    i < selected@.len(),
                    items == listing(entries@),
                    cur == selected@[i as int]@,
                    rising(texts(r@)),
                    forall|p: Seq<char>| #[trigger]
                        texts(r@).contains(p) <==> before.contains(p) || exists|k: int|
                            0 <= k < j && (#[trigger] items[k]).0 == p && items[k].1
                                == EntryKind::File && below(p, cur),
                decreases entries@.len() - j,
            {
                let ghost old_r = texts(r@);
                assert(items[j as int] == item(entries@[j as int]));
                if entries[j].1 == EntryKind::File && is_below(&entries[j].0, &selected[i]) {
                    insert_rising(&mut r, &entries[j].0);
                }
                proof {
                    assert forall|p: Seq<char>| #[trigger] texts(r@).contains(p) <==> before.contains(
                        p,
                    ) || exists|k: int|
                        0 <= k < j + 1 && (#[trigger] items[k]).0 == p && items[k].1
                            == EntryKind::File && below(p, cur) by {
                        assert(old_r.contains(p) <==> before.contains(p) || exists|k: int|
                            0 <= k < j && (#[trigger] items[k]).0 == p && items[k].1
                                == EntryKind::File && below(p, cur));
                    }
                }
                j += 1;
            }
            proof {
                assert forall|p: Seq<char>| #[trigger] texts(r@).contains(p) <==> is_extracted(
                    items,
                    next,
                    p,
                ) by {
                    assert(before.contains(p) <==> is_extracted(items, now, p));
                    if exists|k: int|
                        0 <= k < items.len() && (#[trigger] items[k]).0 == p && items[k].1
                            == EntryKind::File && below(p, cur) {
                        assert(next.contains(cur));
                    }
                    if is_extracted(items, now, p) && !(now.contains(p)
                        && !crate::browse::is_folder(items, p)) {
                        let (k, s) = choose|k: int, s: Seq<char>|
                            0 <= k < items.len() && (#[trigger] items[k]).0 == p && items[k].1
                                == EntryKind::File && #[trigger] now.contains(s)
                                && crate::browse::is_folder(items, s) && below(p, s);
                        assert(next.contains(s));
                    }
                    if is_extracted(items, next, p) && !(next.contains(p)
                        && !crate::browse::is_folder(items, p)) {
                        let (k, s) = choose|k: int, s: Seq<char>|
                            0 <= k < items.len() && (#[trigger] items[k]).0 == p && items[k].1
                                == EntryKind::File && #[trigger] next.contains(s)
                                && crate::browse::is_folder(items, s) && below(p, s);
                        assert(now.contains(s) || s == cur);
                    }
                }
            }
        } else {
            insert_rising(&mut r, &selected[i]);
            proof {
                assert forall|p: Seq<char>| #[trigger] texts(r@).contains(p) <==> is_extracted(
                    items,
                    next,
                    p,
                ) by {
                    assert(before.contains(p) <==> is_extracted(items, now, p));
                    assert(next.contains(cur));
                    if is_extracted(items, now, p) && !(now.contains(p)
                        && !crate::browse::is_folder(items, p)) {
                        let (k, s) = choose|k: int, s: Seq<char>|
                            0 <= k < items.len() && (#[trigger] items[k]).0 == p && items[k].1
                                == EntryKind::File && #[trigger] now.contains(s)
                                && crate::browse::is_folder(items, s) && below(p, s);
                        assert(next.contains(s));
                    }
                    if is_extracted(items, next, p) && !(next.contains(p)
                        && !crate::browse::is_folder(items, p)) {
                        let (k, s) = choose|k: int, s: Seq<char>|
                            0 <= k < items.len() && (#[trigger] items[k]).0 == p && items[k].1
                                == EntryKind::File && #[trigger] next.contains(s)
                                && crate::browse::is_folder(items, s) && below(p, s);
                        assert(now.contains(s) || s == cur);
                    }
                }
            }
        }
        i += 1;
    }
    assert(sel.take(i as int) =~= sel);
    r
}

/// What extracting the selection comes to.
pub open spec fn extract_asked(a: Session, r: Result<Option<Vec<String>>, String>) -> bool {
    if a.selected@ == Set::<Seq<char>>::empty() {
        r is Err && r->Err_0@ == "Select something to extract first."@
    } else {
        match (a.open, r) {
            (None, Ok(None)) => true,
            (Some(o), Ok(Some(v))) => {
                &&& v@.len() > 0
                &&& rising(texts(v@))
                &&& forall|p: Seq<char>| #[trigger]
                    texts(v@).contains(p) <==> is_extracted(
                        listing(o.entries@),
                        a.selected@,
                        p,
                    )
            },
            (Some(o), Err(e)) => {
                &&& e@ == "Nothing to extract (the selected folders are empty)."@
                &&& forall|p: Seq<char>|
                    !#[trigger] is_extracted(listing(o.entries@), a.selected@, p)
            },
            _ => false,
        }
    }
}

impl Session {
    /// The files that extracting the selection writes.
    pub fn request_extract_selected(&self) -> (r: Result<Option<Vec<String>>, String>)
        ensures
            extract_asked(*self, r),
    {
        if self.selected.is_empty() {
            return Err(owned("Select something to extract first."));
        }
        match &self.open {
            None => Ok(None),
            Some(o) => {
                let chosen = self.selected.to_vec();
                let v = extract_list(&o.entries, &chosen);
                if v.len() == 0 {
                    proof {
                        assert forall|p: Seq<char>|
                            !#[trigger] is_extracted(listing(o.entries@), self.selected@, p) by {
                            assert(!texts(v@).contains(p));
                        }
                    }
                    return Err(owned("Nothing to extract (the selected folders are empty)."));
                }
                Ok(Some(v))
            },
        }
    }
}

/// What is said after a selection was extracted to a folder.
pub fn extracted_message(total: usize, failed: usize, dest: &str) -> (r: Result<String, String>)
    requires
        failed <= total,
    ensures
        if failed == total {
            r is Err && r->Err_0@ == "Could not extract the selected files."@
        } else {
            r is Ok && r->Ok_0@ == "Extracted "@ + decimal_text((total - failed) as nat)
                + " file(s) to "@ + dest@ + (if failed > 0 {
                "; "@ + decimal_text(failed as nat) + " failed."@
            } else {
                "."@
            })
        },
{
    let saved: usize = total - failed;
    if saved == 0 {
        return Err(owned("Could not extract the selected files."));
    }
    let mut r = concat3("Extracted ", &decimal(saved as u64), " file(s) to ");
    r.append(dest);
    if failed > 0 {
        r.append(&concat3("; ", &decimal(failed as u64), " failed."));
    } else {
        r.append(".");
    }
    Ok(r)
}

/// Whether extracting the whole vault writes an entry.
pub open spec fn is_live() -> spec_fn(Item) -> bool {
    |e: Item| !trashed(e.0)
}

/// What extracting the whole vault writes: every entry that is not in the trash.
pub fn extract_all_list(entries: &[Entry]) -> (r: Vec<Entry>)
    ensures
        listing(r@) == listing(entries@).filter(is_live()),
{
    let ghost items = listing(entries@);
    let mut r: Vec<Entry> = Vec::new();
    let mut i: usize = 0;
    proof {
        reveal(Seq::filter);
        assert(listing(r@) =~= items.take(0).filter(is_live()));
    }
    while i < entries.len()
        invariant
            i <= entries@.len(),
            items == listing(entries@),
            listing(r@) == items.take(i as int).filter(is_live()),
        decreases entries@.len() - i,
    {
        proof {
            reveal(Seq::filter);
            assert(items.take(i + 1).drop_last() =~= items.take(i as int));
            assert(items[i as int] == item(entries@[i as int]));
        }
        if !is_trashed(&entries[i].0) {
            let ghost before = listing(r@);
            r.push((entries[i].0.clone(), entries[i].1, entries[i].2));
            assert(listing(r@) =~= before.push(items[i as int]));
        }
        i += 1;
    }
    assert(items.take(i as int) =~= items);
    r
}

/// What is said after the whole vault was extracted to a folder.
pub fn extracted_all_message(files: usize, failed: usize, dest: &str) -> (r: Result<String, String>)
    ensures
        if files == 0 && failed == 0 {
            r is Err && r->Err_0@ == "There are no files to extract."@
        } else {
            r is Ok && r->Ok_0@ == "Extracted to "@ + dest@ + (if failed > 0 {
                " ("@ + decimal_text(failed as nat) + " item(s) failed)."@
            } else {
                "."@
            })
        },
{
    if files == 0 && failed == 0 {
        return Err(owned("There are no files to extract."));
    }
    let mut r = concat2("Extracted to ", dest);
    if failed > 0 {
        r.append(&concat3(" (", &decimal(failed as u64), " item(s) failed)."));
    } else {
        r.append(".");
    }
    Ok(r)
}

/// A selected folder is extracted with all that lies in it, however deep, and a selected
/// file by itself; nothing else is, and nothing twice.
pub proof fn law_a_selected_folder_is_extracted_whole(
    entries: &[Entry],
    selected: &[String],
    r: Vec<String>,
    p: Seq<char>,
)
    requires
        call_ensures(extract_list, (entries, selected), r),
    ensures
        (exists|i: int, j: int, d: int|
            0 <= i < entries@.len() && 0 <= j < selected@.len() && 0 <= d < entries@.len()
                && (#[trigger] entries@[i]).0@ == p && entries@[i].1 == EntryKind::File
                && (#[trigger] entries@[d]).1 == EntryKind::Dir && entries@[d].0@
                == (#[trigger] selected@[j])@ && p.len() > selected@[j]@.len() && p.take(
                selected@[j]@.len() as int,
            ) == selected@[j]@ && p[selected@[j]@.len() as int] == '/') ==> texts(r@).contains(p),
        (exists|j: int| 0 <= j < selected@.len() && (#[trigger] selected@[j])@ == p) && !(exists|
            d: int,
        |
            0 <= d < entries@.len() && (#[trigger] entries@[d]).1 == EntryKind::Dir
                && entries@[d].0@ == p) ==> texts(r@).contains(p),
        texts(r@).contains(p) ==> exists|j: int|
            0 <= j < selected@.len() && ((#[trigger] selected@[j])@ == p || (p.len()
                > selected@[j]@.len() && p.take(selected@[j]@.len() as int) == selected@[j]@
                && p[selected@[j]@.len() as int] == '/')),
        texts(r@).no_duplicates(),
{
    let items = listing(entries@);
    let sel = texts(selected@);
    assert forall|d: int| 0 <= d < items.len() implies #[trigger] items[d] == item(entries@[d]) by {}
    assert forall|j: int| 0 <= j < selected@.len() implies sel.to_set().contains(
        #[trigger] selected@[j]@,
    ) by {
        assert(sel[j] == selected@[j]@);
    }
    if exists|i: int, j: int, d: int|
        0 <= i < entries@.len() && 0 <= j < selected@.len() && 0 <= d < entries@.len() && (
        #[trigger] entries@[i]).0@ == p && entries@[i].1 == EntryKind::File && (
        #[trigger] entries@[d]).1 == EntryKind::Dir && entries@[d].0@ == (
        #[trigger] selected@[j])@ && p.len() > selected@[j]@.len() && p.take(
            selected@[j]@.len() as int,
        ) == selected@[j]@ && p[selected@[j]@.len() as int] == '/' {
        let (i, j, d) = choose|i: int, j: int, d: int|
            0 <= i < entries@.len() && 0 <= j < selected@.len() && 0 <= d < entries@.len() && (
            #[trigger] entries@[i]).0@ == p && entries@[i].1 == EntryKind::File && (
            #[trigger] entries@[d]).1 == EntryKind::Dir && entries@[d].0@ == (
            #[trigger] selected@[j])@ && p.len() > selected@[j]@.len() && p.take(
                selected@[j]@.len() as int,
            ) == selected@[j]@ && p[selected@[j]@.len() as int] == '/';
        let s = selected@[j]@;
        assert(items[i].0 == p && items[i].1 == EntryKind::File);
        assert(items[d].0 == s && items[d].1 == EntryKind::Dir);
        assert(p.take(s.len() + 1int) =~= s.push('/'));
        assert(below(p, s));
        assert(sel.to_set().contains(s));
        assert(is_extracted(items, sel.to_set(), p));
    }
    if texts(r@).contains(p) {
        if sel.to_set().contains(p) && !crate::browse::is_folder(items, p) {
            let j = choose|j: int| 0 <= j < sel.len() && sel[j] == p;
            assert(selected@[j]@ == p);
        } else {
            let (i, s) = choose|i: int, s: Seq<char>|
                0 <= i < items.len() && (#[trigger] items[i]).0 == p && items[i].1
                    == EntryKind::File && #[trigger] sel.to_set().contains(s)
                    && crate::browse::is_folder(items, s) && below(p, s);
            let j = choose|j: int| 0 <= j < sel.len() && sel[j] == s;
            assert(selected@[j]@ == s);
            assert(p.take(s.len() as int) =~= p.take(s.len() + 1int).take(s.len() as int));
            assert(s.push('/').take(s.len() as int) =~= s);
            assert(p.take(s.len() + 1int)[s.len() as int] == '/');
        }
    }
    assert forall|a: int, b: int| 0 <= a < texts(r@).len() && 0 <= b < texts(r@).len() && a
        != b implies texts(r@)[a] != texts(r@)[b] by {
        if a < b {
            lemma_rising(texts(r@), a, b);
        } else {
            lemma_rising(texts(r@), b, a);
        }
    }
}

/// Whether an entry of the vault has a path.
pub open spec fn has_path(entries: Seq<Entry>, p: Seq<char>) -> bool {
    exists|i: int| 0 <= i < entries.len() && (#[trigger] entries[i]).0@ == p
}

/// The path of a name in a folder.
pub open spec fn path_in(dir: Seq<char>, name: Seq<char>) -> Seq<char> {
    if dir.len() == 0 {
        name
    } else {
        dir + "/"@ + name
    }
}

proof fn lemma_path_in(dir: Seq<char>, name: Seq<char>)
    ensures
        path_in(dir, name) == child_of(dir, name),
{
    reveal_strlit("/");
    assert(dir + "/"@ + name =~= dir.push('/') + name);
}

proof fn lemma_has_path(entries: Seq<Entry>, p: Seq<char>)
    ensures
        has_path(entries, p) <==> entry_pos(listing(entries), p) >= 0,
        has_path(entries, p) <==> paths_of(listing(entries)).contains(p),
{
    let items = listing(entries);
    lemma_entry_pos(items, p);
    let k = entry_pos(items, p);
    if k >= 0 {
        assert(items[k] == item(entries[k]));
        assert(entries[k].0@ == p);
    }
    if has_path(entries, p) {
        let i = choose|i: int| 0 <= i < entries.len() && (#[trigger] entries[i]).0@ == p;
        assert(items[i] == item(entries[i]));
        assert(paths_of(items)[i] == p);
    }
    if paths_of(items).contains(p) {
        let i = choose|i: int| 0 <= i < paths_of(items).len() && paths_of(items)[i] == p;
        assert(items[i] == item(entries[i]));
        assert(entries[i].0@ == p);
    }
}

/// A new folder or file is made where the user is, under the name that was typed, without
/// the blanks around it; the name is a single one, and nothing is there yet.
pub proof fn law_a_new_entry_is_made_where_the_user_is(
    a: Session,
    b: Session,
    n: NewEntry,
    folder: bool,
)
    requires
        folder ==> new_folder_asked(a, b, Ok::<Option<NewEntry>, String>(Some(n))),
        !folder ==> new_file_asked(a, b, Ok::<Option<NewEntry>, String>(Some(n))),
    ensures
        n.leaf@ == trimmed(if folder {
            a.new_folder_name@
        } else {
            a.new_file_name@
        }),
        n.leaf@.len() > 0 && !n.leaf@.contains('/'),
        n.path@ == path_in(a.current_dir@, n.leaf@),
        a.open is Some && !has_path(a.open->0.entries@, n.path@),
{
    lemma_path_in(a.current_dir@, n.leaf@);
    lemma_has_path(a.open->0.entries@, n.path@);
}

/// A new folder or file is refused only for a blank name, one with a slash, or one that is
/// taken; a refused name leaves the composer as it was.
pub proof fn law_a_new_entry_is_refused_only_for_its_name(
    a: Session,
    b: Session,
    e: String,
    folder: bool,
)
    requires
        folder ==> new_folder_asked(a, b, Err::<Option<NewEntry>, String>(e)),
        !folder ==> new_file_asked(a, b, Err::<Option<NewEntry>, String>(e)),
    ensures
        ({
            let leaf = trimmed(if folder {
                a.new_folder_name@
            } else {
                a.new_file_name@
            });
            ||| leaf.len() == 0 && b == a
            ||| leaf.contains('/') && b == a
            ||| a.open is Some && has_path(a.open->0.entries@, path_in(a.current_dir@, leaf))
        }),
{
    let leaf = trimmed(if folder {
        a.new_folder_name@
    } else {
        a.new_file_name@
    });
    lemma_path_in(a.current_dir@, leaf);
    if a.open is Some {
        lemma_has_path(a.open->0.entries@, path_in(a.current_dir@, leaf));
    }
}

/// A rename keeps the entry in its folder and gives it the name that was typed, if that is a
/// single name that nothing there has.
pub proof fn law_a_rename_changes_the_name_alone(
    a: Session,
    b: Session,
    q: RenameRequest,
    from: String,
)
    requires
        a.rename_target == Some(from),
        rename_asked(a, b, Ok::<Option<RenameRequest>, String>(Some(q))),
    ensures
        q.from@ == from@,
        q.leaf@ == trimmed(a.rename_input@),
        q.leaf@.len() > 0 && !q.leaf@.contains('/'),
        q.to@ == path_in(parent_of(from@), q.leaf@),
        q.to@ != q.from@,
        a.open is Some && !has_path(a.open->0.entries@, q.to@),
        b.rename_target is None,
{
    lemma_path_in(parent_of(from@), q.leaf@);
    lemma_has_path(a.open->0.entries@, q.to@);
}

/// A rename to a free, single, different name is carried out.
pub proof fn law_a_good_rename_is_carried_out(
    a: Session,
    b: Session,
    r: Result<Option<RenameRequest>, String>,
    from: String,
)
    requires
        a.rename_target == Some(from),
        a.open is Some,
        rename_asked(a, b, r),
        trimmed(a.rename_input@).len() > 0,
        !trimmed(a.rename_input@).contains('/'),
        path_in(parent_of(from@), trimmed(a.rename_input@)) != from@,
        !has_path(a.open->0.entries@, path_in(parent_of(from@), trimmed(a.rename_input@))),
    ensures
        r is Ok && r->Ok_0 is Some,
{
    lemma_path_in(parent_of(from@), trimmed(a.rename_input@));
    lemma_has_path(
        a.open->0.entries@,
        path_in(parent_of(from@), trimmed(a.rename_input@)),
    );
}

/// A move takes every path that is not in the folder yet into it, under its own name, and
/// moves nothing else.
pub proof fn law_a_move_takes_everything_along(
    entries: &[Entry],
    paths: &[String],
    dest: &str,
    pairs: Vec<(String, String)>,
    p: Seq<char>,
    q: Seq<char>,
)
    requires
        call_ensures(
            plan_move,
            (entries, paths, dest),
            Ok::<Vec<(String, String)>, String>(pairs),
        ),
    ensures
        pair_texts(pairs@).contains((p, q)) <==> texts(paths@).contains(p) && parent_of(p) != dest@
            && q == path_in(dest@, leaf_of(p)),
        pairs@.len() > 0,
        pair_texts(pairs@).contains((p, q)) ==> !has_path(entries@, q),
{
    let t = texts(paths@);
    let keep = |x: Seq<char>| parent_of(x) != dest@;
    let el = elsewhere(t, dest@);
    let mp = move_pairs(t, dest@);
    crate::order::lemma_filter_members(t, keep, p);
    assert(el =~= t.filter(keep));
    lemma_path_in(dest@, leaf_of(p));
    if mp.contains((p, q)) {
        let k = choose|k: int| 0 <= k < mp.len() && mp[k] == (p, q);
        assert(el[k] == p);
        assert(el.contains(p));
        law_moves_overwrite_nothing(listing(entries@), t, dest@, k);
        lemma_has_path(entries@, q);
    }
    if el.contains(p) {
        let k = choose|k: int| 0 <= k < el.len() && el[k] == p;
        assert(mp[k] == (p, child_of(dest@, leaf_of(p))));
    }
    assert(pair_texts(pairs@).len() == pairs@.len());
}

/// A move is refused only if a name is taken in the folder, by what is there or by another
/// of the moved, or if all is there already.
pub proof fn law_a_move_is_refused_only_for_a_clash(
    entries: &[Entry],
    paths: &[String],
    dest: &str,
    e: String,
)
    requires
        call_ensures(
            plan_move,
            (entries, paths, dest),
            Err::<Vec<(String, String)>, String>(e),
        ),
    ensures
        (forall|i: int| 0 <= i < paths@.len() ==> parent_of((#[trigger] paths@[i])@) == dest@)
            || exists|k: int|
            0 <= k < move_pairs(texts(paths@), dest@).len() && (has_path(
                entries@,
                (#[trigger] move_pairs(texts(paths@), dest@)[k]).1,
            ) || exists|j: int|
                0 <= j < k && (#[trigger] move_pairs(texts(paths@), dest@)[j]).1 == move_pairs(
                    texts(paths@),
                    dest@,
                )[k].1),
{
    let t = texts(paths@);
    let mp = move_pairs(t, dest@);
    let ex = paths_of(listing(entries@));
    if mp.len() == 0 {
        let keep = |x: Seq<char>| parent_of(x) != dest@;
        assert forall|i: int| 0 <= i < paths@.len() implies parent_of((#[trigger] paths@[i])@)
            == dest@ by {
            assert(t[i] == paths@[i]@);
            assert(t.contains(t[i]));
            crate::order::lemma_filter_members(t, keep, t[i]);
            assert(elsewhere(t, dest@) =~= t.filter(keep));
        }
    } else {
        lemma_clash_bound(ex, mp);
        lemma_clash_is_real(ex, mp);
        let k = first_clash(ex, mp);
        lemma_has_path(entries@, mp[k].1);
    }
}

proof fn lemma_clash_is_real(ex: Seq<Seq<char>>, pairs: Seq<(Seq<char>, Seq<char>)>)
    ensures
        ({
            let k = first_clash(ex, pairs);
            k >= 0 ==> k < pairs.len() && (ex.contains(pairs[k].1) || exists|j: int|
                0 <= j < k && (#[trigger] pairs[j]).1 == pairs[k].1)
        }),
    decreases pairs.len(),
{
    if pairs.len() > 0 {
        let t = pairs.drop_last();
        lemma_clash_is_real(ex, t);
        lemma_clash_bound(ex, t);
        let k = first_clash(ex, t);
        if k >= 0 {
            assert(t[k] == pairs[k]);
            if !ex.contains(t[k].1) {
                let j = choose|j: int| 0 <= j < k && (#[trigger] t[j]).1 == t[k].1;
                assert(pairs[j].1 == pairs[k].1);
            }
        } else if arrives_at(t, pairs.last().1) {
            let j = choose|j: int| 0 <= j < t.len() && (#[trigger] t[j]).1 == pairs.last().1;
            assert(pairs[j].1 == pairs.last().1);
        }
    }
}

/// What was moved to the trash goes back where it was: the place it gets there leads back to
/// its own path, if that is still free. Each item gets a place of its own.
pub proof fn law_what_was_trashed_goes_back(
    paths: &[String],
    now: i64,
    tags: &[String],
    pairs: Vec<(String, String)>,
    i: int,
    entries: &[Entry],
    path: &str,
    r: Result<String, String>,
)
    requires
        call_ensures(trash_pairs, (paths, now, tags), pairs),
        tags@.len() == paths@.len(),
        0 <= i < paths@.len(),
        now >= 0,
        !tags@[i]@.contains('-'),
        !tags@[i]@.contains('/'),
        path@ == pairs@[i].1@,
        call_ensures(request_restore, (entries, path), r),
    ensures
        pairs@.len() == paths@.len(),
        pairs@[i].0@ == paths@[i]@,
        crate::path::trashed(pairs@[i].1@),
        r is Ok,
        !has_path(entries@, r->Ok_0@),
        !has_path(entries@, paths@[i]@) ==> r->Ok_0@ == paths@[i]@,
{
    let want = trash_moves(texts(paths@), now, texts(tags@));
    assert(pair_texts(pairs@).len() == pairs@.len());
    assert(pair_texts(pairs@)[i] == (pairs@[i].0@, pairs@[i].1@));
    assert(want[i] == (paths@[i]@, trash_path(now, tags@[i]@, paths@[i]@)));
    crate::trash::law_trash_token_round_trip(now, tags@[i]@, paths@[i]@);
    crate::trash::law_trash_path_is_a_direct_child(now, tags@[i]@, paths@[i]@);
    let o = paths@[i]@;
    let ex = paths_of(listing(entries@));
    lemma_has_path(entries@, r->Ok_0@);
    lemma_has_path(entries@, o);
    let k = choose|k: nat|
        r->Ok_0@ == #[trigger] restore_candidate(o, k) && forall|j: nat|
            j < k ==> ex.contains(#[trigger] restore_candidate(o, j));
    assert(restore_candidate(o, 0) == o);
    if !has_path(entries@, o) && k > 0 {
        assert(ex.contains(restore_candidate(o, 0)));
    }
}

/// Trashing the selection trashes all of it: each selected path is trashed itself, or lies
/// in one that is; and nothing else is.
pub proof fn law_the_whole_selection_is_trashed(s: Session, v: Vec<String>, p: Seq<char>)
    requires
        call_ensures(
            Session::request_trash_selected,
            (&s,),
            Ok::<Option<Vec<String>>, String>(Some(v)),
        ),
    ensures
        texts(v@).contains(p) ==> s.selected@.contains(p),
        s.selected@.contains(p) ==> exists|i: int|
            0 <= i < v@.len() && ((#[trigger] v@[i])@ == p || crate::moving::lies_in(p, v@[i]@)),
        texts(v@).no_duplicates(),
    decreases p.len(),
{
    if s.selected@.contains(p) {
        if selected_top(s, p) {
            assert(texts(v@).contains(p));
            let i = choose|i: int| 0 <= i < texts(v@).len() && texts(v@)[i] == p;
            assert(v@[i]@ == p);
        } else {
            let q = choose|q: Seq<char>| s.selected@.contains(q) && below(p, q);
            crate::path::lemma_behind_a_slash(p, q);
            law_the_whole_selection_is_trashed(s, v, q);
            let i = choose|i: int|
                0 <= i < v@.len() && ((#[trigger] v@[i])@ == q || crate::moving::lies_in(
                    q,
                    v@[i]@,
                ));
            if v@[i]@ != q {
                crate::path::lemma_behind_a_slash(q, v@[i]@);
                crate::path::law_below_is_transitive(p, q, v@[i]@);
                crate::path::lemma_behind_a_slash(p, v@[i]@);
            }
            assert(v@[i]@ == p || crate::moving::lies_in(p, v@[i]@));
        }
    }
}

/// Extracting the whole vault writes every entry outside the trash, and none in it.
pub proof fn law_the_whole_vault_is_extracted(entries: &[Entry], r: Vec<Entry>, x: Item)
    requires
        call_ensures(extract_all_list, (entries,), r),
    ensures
        listing(r@).contains(x) <==> listing(entries@).contains(x) && x.0 != ".trash"@
            && !crate::moving::lies_in(x.0, ".trash"@),
{
    reveal_strlit(".trash");
    crate::path::lemma_trash_dir();
    crate::path::lemma_behind_a_slash(x.0, ".trash"@);
    crate::order::lemma_filter_members(listing(entries@), is_live(), x);
}

/// Extracting the selection of a session gives what the selection holds in the open vault:
/// all files in selected folders, and selected files.
pub proof fn law_the_selection_is_extracted(
    s: Session,
    v: Vec<String>,
    i: int,
    d: int,
)
    requires
        call_ensures(
            Session::request_extract_selected,
            (&s,),
            Ok::<Option<Vec<String>>, String>(Some(v)),
        ),
        s.open is Some,
        0 <= i < s.open->0.entries@.len(),
        0 <= d < s.open->0.entries@.len(),
        s.open->0.entries@[i].1 == EntryKind::File,
        s.open->0.entries@[d].1 == EntryKind::Dir,
        s.selected@.contains(s.open->0.entries@[d].0@),
        crate::moving::lies_in(s.open->0.entries@[i].0@, s.open->0.entries@[d].0@),
    ensures
        texts(v@).contains(s.open->0.entries@[i].0@),
{
    let items = listing(s.open->0.entries@);
    let p = s.open->0.entries@[i].0@;
    let f = s.open->0.entries@[d].0@;
    assert(items[i] == item(s.open->0.entries@[i]));
    assert(items[d] == item(s.open->0.entries@[d]));
    crate::path::lemma_behind_a_slash(p, f);
    assert(s.selected@ != Set::<Seq<char>>::empty());
    assert(is_extracted(items, s.selected@, p));
}

/// The quick editor opens a file of up to four mebibytes, and nothing else.
pub proof fn law_the_quick_editor_opens_small_files(
    entries: &[Entry],
    path: &str,
    r: Result<(), String>,
    i: int,
)
    requires
        call_ensures(request_quick_edit, (entries, path), r),
        0 <= i < entries@.len(),
        entries@[i].0@ == path@,
        forall|k: int| 0 <= k < i ==> (#[trigger] entries@[k]).0@ != path@,
    ensures
        r is Ok <==> entries@[i].1 == EntryKind::File && entries@[i].2 <= 4_194_304,
{
    let items = listing(entries@);
    lemma_entry_pos(items, path@);
    assert(items[i] == item(entries@[i]));
    let k = entry_pos(items, path@);
    if 0 <= k < i {
        assert(items[k] == item(entries@[k]));
        assert(entries@[k].0@ != path@);
    }
}

/// Opening a text and saving it without a change writes the bytes that were read.
pub proof fn law_an_unchanged_text_is_saved_as_it_was(
    path: String,
    bytes: &[u8],
    te: TextEditor,
    s: Session,
    q: SaveRequest,
)
    requires
        call_ensures(open_text, (path, bytes), Ok::<TextEditor, String>(te)),
        s.text_editor == Some(te),
        call_ensures(Session::request_save_text, (&s,), Some(q)),
    ensures
        q.path@ == path@,
        encode_utf8(q.content@) == bytes@,
{
}

/// What is said after adding tells how many files were added, where to, and how many could
/// not be read; where nothing was added it says so instead.
pub proof fn law_what_was_added_is_told(
    files: usize,
    folders: usize,
    into: &str,
    failed: usize,
    r: String,
    none: Option<String>,
)
    requires
        call_ensures(added_message, (files, into, failed), r),
        call_ensures(nothing_added, (files, folders, failed), none),
    ensures
        none is None <==> files > 0 || folders > 0,
        crate::text::contains_text(r@, decimal_text(files as nat)),
        failed > 0 ==> crate::text::contains_text(r@, decimal_text(failed as nat) + " could not be read."@),
        files == 0 && folders == 0 && failed > 0 ==> crate::text::contains_text(
            none->0@,
            decimal_text(failed as nat),
        ),
        into@.len() > 0 ==> crate::text::contains_text(r@, leaf_of(into@)),
{
    let n = decimal_text(files as nat);
    let f = decimal_text(failed as nat);
    let head = "Added "@ + n + " file(s)"@;
    let dest = if into@.len() == 0 {
        Seq::empty()
    } else {
        " to "@ + leaf_of(into@)
    };
    let tail = if failed > 0 {
        "; "@ + f + " could not be read."@
    } else {
        "."@
    };
    assert(r@ =~= head + dest + tail);
    assert(r@ =~= "Added "@ + n + (" file(s)"@ + dest + tail));
    crate::report::lemma_holds("Added "@, n, " file(s)"@ + dest + tail);
    if into@.len() > 0 {
        assert(r@ =~= head + " to "@ + leaf_of(into@) + tail);
        crate::report::lemma_holds(head + " to "@, leaf_of(into@), tail);
    }
    if failed > 0 {
        let said = f + " could not be read."@;
        assert(r@ =~= head + dest + "; "@ + said + Seq::empty());
        crate::report::lemma_holds(head + dest + "; "@, said, Seq::empty());
        if files == 0 && folders == 0 {
            assert(none->0@ =~= Seq::<char>::empty() + f + " item(s) could not be read."@);
            crate::report::lemma_holds(Seq::empty(), f, " item(s) could not be read."@);
        }
    }
}

/// An extraction that saved nothing is told as a failure, and otherwise every failure counts:
/// what was saved and what was not add up to what was asked for.
pub proof fn law_what_was_extracted_is_told(
    total: usize,
    failed: usize,
    dest: &str,
    r: Result<String, String>,
    all: Result<String, String>,
)
    requires
        failed <= total,
        call_ensures(extracted_message, (total, failed, dest), r),
        call_ensures(extracted_all_message, ((total - failed) as usize, failed, dest), all),
    ensures
        r is Err <==> failed == total,
        all is Err <==> total == 0,
        r is Ok ==> crate::text::contains_text(r->Ok_0@, decimal_text((total - failed) as nat)) && crate::text::contains_text(
            r->Ok_0@,
            dest@,
        ),
        r is Ok && failed > 0 ==> crate::text::contains_text(r->Ok_0@, decimal_text(failed as nat) + " failed."@),
        all is Ok && failed > 0 ==> crate::text::contains_text(all->Ok_0@, decimal_text(failed as nat)),
        all is Ok ==> crate::text::contains_text(all->Ok_0@, dest@),
{
    let f = decimal_text(failed as nat);
    if failed < total {
        let n = decimal_text((total - failed) as nat);
        let tail = if failed > 0 {
            "; "@ + f + " failed."@
        } else {
            "."@
        };
        let m = r->Ok_0@;
        assert(m =~= "Extracted "@ + n + (" file(s) to "@ + dest@ + tail));
        crate::report::lemma_holds("Extracted "@, n, " file(s) to "@ + dest@ + tail);
        assert(m =~= "Extracted "@ + n + " file(s) to "@ + dest@ + tail);
        crate::report::lemma_holds("Extracted "@ + n + " file(s) to "@, dest@, tail);
        if failed > 0 {
            let head = "Extracted "@ + n + " file(s) to "@ + dest@ + "; "@;
            assert(m =~= head + (f + " failed."@) + Seq::empty());
            crate::report::lemma_holds(head, f + " failed."@, Seq::empty());
        }
    }
    if total > 0 {
        let m = all->Ok_0@;
        let tail = if failed > 0 {
            " ("@ + f + " item(s) failed)."@
        } else {
            "."@
        };
        assert(m =~= "Extracted to "@ + dest@ + tail);
        crate::report::lemma_holds("Extracted to "@, dest@, tail);
        if failed > 0 {
            let head = "Extracted to "@ + dest@ + " ("@;
            assert(m =~= head + f + " item(s) failed)."@);
            crate::report::lemma_holds(head, f, " item(s) failed)."@);
        }
    }
}

/// What is said of a move tells how many items went where; of the trash, how many went there.
pub proof fn law_what_was_moved_is_told(n: usize, dest: &str, r: String, t: String)
    requires
        call_ensures(moved_message, (n, dest), r),
        call_ensures(trashed_message, (n,), t),
    ensures
        crate::text::contains_text(r@, decimal_text(n as nat)),
        dest@.len() > 0 ==> crate::text::contains_text(r@, leaf_of(dest@)),
        crate::text::contains_text(t@, decimal_text(n as nat)),
{
    let d = decimal_text(n as nat);
    let place = if dest@.len() == 0 {
        "the top level"@
    } else {
        "“"@ + leaf_of(dest@) + "”"@
    };
    assert(r@ =~= "Moved "@ + d + (" item(s) to "@ + place + "."@));
    crate::report::lemma_holds("Moved "@, d, " item(s) to "@ + place + "."@);
    crate::report::lemma_holds("Moved "@, d, " item(s) to Trash."@);
    if dest@.len() > 0 {
        let head = "Moved "@ + d + " item(s) to "@ + "“"@;
        assert(r@ =~= head + leaf_of(dest@) + ("”"@ + "."@));
        crate::report::lemma_holds(head, leaf_of(dest@), "”"@ + "."@);
    }
}

/// A vault gets the name that was typed, without the whitespace round it, and only a blank
/// name is refused.
pub proof fn law_a_vault_is_named_as_typed(s: Session, r: Result<String, String>)
    requires
        call_ensures(Session::request_create_vault, (&s,), r),
    ensures
        r is Ok <==> trimmed(s.new_vault_name@).len() > 0,
        r is Ok ==> r->Ok_0@ == trimmed(s.new_vault_name@),
{
}

} // verus!
