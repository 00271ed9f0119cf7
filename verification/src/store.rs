//! On-disk persistence: where things are kept, the registry of vaults, and the
//! order of the steps that change the store, so that a crash at any point loses
//! nothing.
//!
//! The steps themselves are carried out by the caller, which reports how each went.

use vstd::prelude::*;
use crate::browse::{item, listing, Entry, EntryKind, Item};
use crate::session::SuiteId;
use crate::text::{
    concat2, from_chars, lemma_segments_join, owned, same_text, segments, split_on, texts, to_chars,
};
use crate::text_set::text_in;

verus! {

pub const KEYSTORE_FILE: &'static str = "keystore.fsk";

pub const CONTACTS_FILE: &'static str = "contacts.fsec";

pub const INDEX_FILE: &'static str = "index.fsec";

// ---------------------------------------------------------------------------
// The registry
// ---------------------------------------------------------------------------

/// Lightweight, displayable metadata for one local vault.
pub struct VaultMeta {
    /// Random opaque identifier (also the on-disk filename stem).
    pub id: String,
    /// Display name.
    pub name: String,
    /// Unix creation time.
    pub created_at: i64,
    /// Unix time of the last save.
    pub modified_at: i64,
    /// Number of files (excludes directories).
    pub file_count: u64,
    /// Total plaintext byte size.
    pub total_size: u64,
}

impl VaultMeta {
    /// A copy.
    pub fn copy(&self) -> (r: Self)
        ensures
            r == *self,
    {
        VaultMeta {
            id: self.id.clone(),
            name: self.name.clone(),
            created_at: self.created_at,
            modified_at: self.modified_at,
            file_count: self.file_count,
            total_size: self.total_size,
        }
    }
}

/// The registry of local vaults.
pub struct Registry {
    /// All known local vaults.
    pub vaults: Vec<VaultMeta>,
}

/// The first vault with an id, or -1.
pub open spec fn vault_pos(vaults: Seq<VaultMeta>, id: Seq<char>) -> int
    decreases vaults.len(),
{
    if vaults.len() == 0 {
        -1
    } else if vault_pos(vaults.drop_last(), id) >= 0 {
        vault_pos(vaults.drop_last(), id)
    } else if vaults.last().id@ == id {
        vaults.len() - 1
    } else {
        -1
    }
}

/// The vaults with one inserted, or put in the place of the one with its id.
pub open spec fn with_vault(vaults: Seq<VaultMeta>, meta: VaultMeta) -> Seq<VaultMeta> {
    let k = vault_pos(vaults, meta.id@);
    if k >= 0 {
        vaults.update(k, meta)
    } else {
        vaults.push(meta)
    }
}

/// Whether a vault has another id.
pub open spec fn has_other_id(id: Seq<char>) -> spec_fn(VaultMeta) -> bool {
    |m: VaultMeta| m.id@ != id
}

/// The vaults without those that have an id.
pub open spec fn without_vault(vaults: Seq<VaultMeta>, id: Seq<char>) -> Seq<VaultMeta> {
    vaults.filter(has_other_id(id))
}

/// Whether no two vaults have the same id.
pub open spec fn unique_ids(vaults: Seq<VaultMeta>) -> bool {
    forall|i: int, j: int| 0 <= i < j < vaults.len() ==> vaults[i].id@ != vaults[j].id@
}

proof fn lemma_vault_pos(vaults: Seq<VaultMeta>, id: Seq<char>)
    ensures
        -1 <= vault_pos(vaults, id) < vaults.len(),
        vault_pos(vaults, id) >= 0 ==> vaults[vault_pos(vaults, id)].id@ == id && forall|i: int|
            0 <= i < vault_pos(vaults, id) ==> (#[trigger] vaults[i]).id@ != id,
        vault_pos(vaults, id) < 0 ==> forall|i: int|
            0 <= i < vaults.len() ==> (#[trigger] vaults[i]).id@ != id,
    decreases vaults.len(),
{
    if vaults.len() > 0 {
        let t = vaults.drop_last();
        lemma_vault_pos(t, id);
        assert forall|i: int| 0 <= i < t.len() implies #[trigger] vaults[i] == t[i] by {}
        if vault_pos(t, id) < 0 && vaults.last().id@ != id {
            assert forall|i: int| 0 <= i < vaults.len() implies (#[trigger] vaults[i]).id@ != id by {
                if i < t.len() {
                    assert(vaults[i] == t[i]);
                }
            }
        }
    }
}

impl Registry {
    /// A registry of no vaults.
    pub fn new() -> (r: Self)
        ensures
            r.vaults@ == Seq::<VaultMeta>::empty(),
    {
        Registry { vaults: Vec::new() }
    }

    /// A copy.
    pub fn copy(&self) -> (r: Self)
        ensures
            r.vaults@ == self.vaults@,
    {
        let mut vaults: Vec<VaultMeta> = Vec::new();
        let mut i: usize = 0;
        while i < self.vaults.len()
            invariant
                i <= self.vaults@.len(),
                vaults@ == self.vaults@.take(i as int),
            decreases self.vaults@.len() - i,
        {
            vaults.push(self.vaults[i].copy());
            assert(vaults@ =~= self.vaults@.take(i + 1));
            i += 1;
        }
        assert(vaults@ =~= self.vaults@);
        Registry { vaults }
    }

    /// The position of a vault.
    pub fn position(&self, id: &str) -> (r: Option<usize>)
        ensures
            match r {
                Some(k) => k == vault_pos(self.vaults@, id@) && k < self.vaults@.len(),
                None => vault_pos(self.vaults@, id@) == -1,
            },
    {
        proof {
            lemma_vault_pos(self.vaults@, id@);
        }
        let mut i: usize = 0;
        while i < self.vaults.len()
            invariant
                i <= self.vaults@.len(),
                forall|k: int| 0 <= k < i ==> (#[trigger] self.vaults@[k]).id@ != id@,
            decreases self.vaults@.len() - i,
        {
            if same_text(&self.vaults[i].id, id) {
                proof {
                    lemma_vault_pos(self.vaults@, id@);
                }
                return Some(i);
            }
            i += 1;
        }
        None
    }

    /// Inserts or replaces a vault's metadata.
    pub fn upsert(&mut self, meta: VaultMeta)
        ensures
            final(self).vaults@ == with_vault(old(self).vaults@, meta),
    {
        match self.position(&meta.id) {
            Some(k) => {
                self.vaults[k] = meta;
            },
            None => {
                self.vaults.push(meta);
            },
        }
    }

    /// Removes a vault's metadata.
    pub fn remove(&mut self, id: &str)
        ensures
            final(self).vaults@ == without_vault(old(self).vaults@, id@),
    {
        let ghost all = self.vaults@;
        let ghost keep = has_other_id(id@);
        let ghost mut seen: int = 0;
        let mut i: usize = 0;
        proof {
            reveal(Seq::filter);
            assert(all.take(0).filter(keep) =~= Seq::<VaultMeta>::empty());
        }
        while i < self.vaults.len()
            invariant
                0 <= seen <= all.len(),
                i <= self.vaults@.len(),
                keep == has_other_id(id@),
                self.vaults@.take(i as int) == all.take(seen).filter(keep),
                self.vaults@.skip(i as int) == all.skip(seen),
            decreases self.vaults@.len() - i,
        {
            let ghost before = self.vaults@;
            proof {
                reveal(Seq::filter);
                assert(before.skip(i as int).len() > 0);
                assert(all.skip(seen).len() > 0);
                assert(before.skip(i as int)[0] == all.skip(seen)[0]);
                assert(before[i as int] == all[seen]);
                assert(all.take(seen + 1).drop_last() =~= all.take(seen));
                assert(all.skip(seen + 1) =~= all.skip(seen).skip(1));
            }
            if same_text(&self.vaults[i].id, id) {
                let _ = self.vaults.remove(i);
                proof {
                    assert(self.vaults@.take(i as int) =~= before.take(i as int));
                    assert(self.vaults@.skip(i as int) =~= before.skip(i as int).skip(1));
                }
            } else {
                i += 1;
                proof {
                    assert(before.take(i as int) =~= before.take(i - 1).push(before[i - 1]));
                    assert(before.skip(i as int) =~= before.skip(i - 1).skip(1));
                }
            }
            proof {
                seen = seen + 1;
            }
        }
        proof {
            assert(self.vaults@.skip(i as int).len() == 0);
            assert(all.take(seen) =~= all);
            assert(self.vaults@.take(i as int) =~= self.vaults@);
        }
    }
}

impl Default for Registry {
    /// A registry of no vaults.
    fn default() -> (r: Registry)
        ensures
            r.vaults@ == Seq::<VaultMeta>::empty(),
    {
        Registry::new()
    }
}

/// The registry holds a vault at most once: inserting or replacing keeps ids unique.
pub proof fn law_upsert_keeps_ids_unique(vaults: Seq<VaultMeta>, meta: VaultMeta)
    requires
        unique_ids(vaults),
    ensures
        unique_ids(with_vault(vaults, meta)),
{
    lemma_vault_pos(vaults, meta.id@);
}

/// What was inserted or replaced is found under its id, and nothing else changed.
pub proof fn law_upserted_vault_is_found(vaults: Seq<VaultMeta>, meta: VaultMeta)
    requires
        unique_ids(vaults),
    ensures
        ({
            let after = with_vault(vaults, meta);
            let k = vault_pos(after, meta.id@);
            &&& 0 <= k < after.len()
            &&& after[k] == meta
            &&& forall|i: int| 0 <= i < vaults.len() && i != k ==> after[i] == #[trigger] vaults[i]
        }),
{
    lemma_vault_pos(vaults, meta.id@);
    lemma_vault_pos(with_vault(vaults, meta), meta.id@);
    law_upsert_keeps_ids_unique(vaults, meta);
    let after = with_vault(vaults, meta);
    let k = vault_pos(after, meta.id@);
    let k0 = if vault_pos(vaults, meta.id@) >= 0 {
        vault_pos(vaults, meta.id@)
    } else {
        vaults.len() as int
    };
    assert(after[k0].id@ == meta.id@);
    if k < k0 {
        assert(after[k].id@ != after[k0].id@);
    }
}

/// Inserting or replacing a vault leaves the others as they are.
pub proof fn law_other_vaults_stay(vaults: Seq<VaultMeta>, meta: VaultMeta, v: VaultMeta)
    requires
        v.id@ != meta.id@,
    ensures
        with_vault(vaults, meta).contains(v) <==> vaults.contains(v),
{
    let after = with_vault(vaults, meta);
    let k = vault_pos(vaults, meta.id@);
    lemma_vault_pos(vaults, meta.id@);
    if after.contains(v) {
        let j = choose|j: int| 0 <= j < after.len() && after[j] == v;
        if k >= 0 {
            assert(j != k);
            assert(vaults[j] == v);
        } else {
            assert(j < vaults.len());
            assert(vaults[j] == v);
        }
    }
    if vaults.contains(v) {
        let j = choose|j: int| 0 <= j < vaults.len() && vaults[j] == v;
        assert(j != k);
        assert(after[j] == v);
    }
}

/// A vault that was inserted is there.
pub proof fn lemma_with_vault(vaults: Seq<VaultMeta>, meta: VaultMeta)
    ensures
        with_vault(vaults, meta).contains(meta),
{
    let k = vault_pos(vaults, meta.id@);
    lemma_vault_pos(vaults, meta.id@);
    let at = if k >= 0 {
        k
    } else {
        vaults.len() as int
    };
    assert(with_vault(vaults, meta)[at] == meta);
}

/// A removed vault is gone, and the others stay.
pub proof fn law_removed_vault_is_gone(vaults: Seq<VaultMeta>, id: Seq<char>, v: VaultMeta)
    ensures
        vault_pos(without_vault(vaults, id), id) == -1,
        v.id@ != id ==> (without_vault(vaults, id).contains(v) <==> vaults.contains(v)),
{
    let keep = has_other_id(id);
    let w = without_vault(vaults, id);
    lemma_vault_pos(w, id);
    let k = vault_pos(w, id);
    if k >= 0 {
        assert(w.contains(w[k]));
        crate::order::lemma_filter_members(vaults, keep, w[k]);
    }
    crate::order::lemma_filter_members(vaults, keep, v);
    assert(keep(v) <==> v.id@ != id);
}

// ---------------------------------------------------------------------------
// Paths
// ---------------------------------------------------------------------------

/// `base/name`, as a file path: a name that starts at the root stands alone.
pub open spec fn path_join(base: Seq<char>, name: Seq<char>) -> Seq<char> {
    if name.len() > 0 && name[0] == '/' {
        name
    } else if base.len() == 0 || base.last() == '/' {
        base + name
    } else {
        base.push('/') + name
    }
}

/// `base/name`, as a file path.
fn join_file(base: &str, name: &str) -> (r: String)
    ensures
        r@ == path_join(base@, name@),
{
    let n = to_chars(name);
    if n.len() > 0 && n[0] == '/' {
        return owned(name);
    }
    let b = to_chars(base);
    if b.len() == 0 || b[b.len() - 1] == '/' {
        concat2(base, name)
    } else {
        let mut r = owned(base);
        r.push('/');
        r.append(name);
        r
    }
}

/// Owns the application data directory and all file paths.
pub struct Store {
    data_dir: String,
    vaults_dir: String,
    checkout_dir: String,
}

impl Store {
    /// The data directory.
    pub closed spec fn root(self) -> Seq<char> {
        self.data_dir@
    }

    #[verifier::type_invariant]
    spec fn inv(self) -> bool {
        &&& self.vaults_dir@ == path_join(self.data_dir@, "vaults"@)
        &&& self.checkout_dir@ == path_join(self.data_dir@, "checkout"@)
    }

    /// A store rooted at a specific directory.
    pub fn at(data_dir: String) -> (s: Self)
        ensures
            s.root() == data_dir@,
    {
        let vaults_dir = join_file(&data_dir, "vaults");
        let checkout_dir = join_file(&data_dir, "checkout");
        Store { data_dir, vaults_dir, checkout_dir }
    }

    /// The application data directory (shown in the UI).
    pub fn data_dir(&self) -> (d: &str)
        ensures
            d@ == self.root(),
    {
        &self.data_dir
    }

    /// The directory of the vaults.
    pub fn vaults_dir(&self) -> (d: &str)
        ensures
            d@ == path_join(self.root(), "vaults"@),
    {
        proof {
            use_type_invariant(self);
        }
        &self.vaults_dir
    }

    /// The hardened directory holding checked-out plaintext temp files.
    pub fn checkout_dir(&self) -> (d: &str)
        ensures
            d@ == path_join(self.root(), "checkout"@),
    {
        proof {
            use_type_invariant(self);
        }
        &self.checkout_dir
    }

    /// Where the keystore is.
    pub fn keystore_path(&self) -> (p: String)
        ensures
            p@ == path_join(self.root(), KEYSTORE_FILE@),
    {
        join_file(&self.data_dir, KEYSTORE_FILE)
    }

    /// Where the contact book is.
    pub fn contacts_path(&self) -> (p: String)
        ensures
            p@ == path_join(self.root(), CONTACTS_FILE@),
    {
        join_file(&self.data_dir, CONTACTS_FILE)
    }

    /// Where the registry is.
    pub fn index_path(&self) -> (p: String)
        ensures
            p@ == path_join(self.root(), INDEX_FILE@),
    {
        join_file(&self.data_dir, INDEX_FILE)
    }

    /// The single-file container of a legacy vault.
    pub fn vault_path(&self, id: &str) -> (p: String)
        ensures
            p@ == path_join(path_join(self.root(), "vaults"@), id@ + ".fsec"@),
    {
        proof {
            use_type_invariant(self);
        }
        join_file(&self.vaults_dir, &concat2(id, ".fsec"))
    }

    /// The directory of a vault.
    pub fn vault_dir_v2(&self, id: &str) -> (p: String)
        ensures
            p@ == path_join(path_join(self.root(), "vaults"@), id@ + ".fsv2"@),
    {
        proof {
            use_type_invariant(self);
        }
        join_file(&self.vaults_dir, &concat2(id, ".fsv2"))
    }

    /// The scratch directory a vault is written to before it is put in place.
    pub fn partial_dir(&self, id: &str) -> (p: String)
        ensures
            p@ == path_join(path_join(self.root(), "vaults"@), id@ + ".fsv2.partial"@),
    {
        proof {
            use_type_invariant(self);
        }
        join_file(&self.vaults_dir, &concat2(id, ".fsv2.partial"))
    }

    /// Whether an identity has already been created, given the paths that exist.
    pub fn keystore_exists(&self, existing: &[String]) -> (r: bool)
        ensures
            r == texts(existing@).contains(path_join(self.root(), KEYSTORE_FILE@)),
    {
        text_in(existing, &self.keystore_path())
    }

    /// How to delete a vault's encrypted store, given the paths that exist: wipe the
    /// directory and any leftover legacy container.
    pub fn delete_vault_file(&self, id: &str, existing: &[String]) -> (r: Vec<WipeStep>)
        ensures
            ({
                let dir = path_join(path_join(self.root(), "vaults"@), id@ + ".fsv2"@);
                let v1 = path_join(path_join(self.root(), "vaults"@), id@ + ".fsec"@);
                wipe_views(r@) == (if texts(existing@).contains(dir) {
                    seq![(true, dir)]
                } else {
                    Seq::<(bool, Seq<char>)>::empty()
                }) + (if texts(existing@).contains(v1) {
                    seq![(false, v1)]
                } else {
                    Seq::<(bool, Seq<char>)>::empty()
                })
            }),
    {
        let mut steps: Vec<WipeStep> = Vec::new();
        let dir = self.vault_dir_v2(id);
        let v1 = self.vault_path(id);
        let ghost (dv, fv) = (dir@, v1@);
        let has_dir = text_in(existing, &dir);
        let has_v1 = text_in(existing, &v1);
        if has_dir {
            steps.push(WipeStep { folder: true, path: dir });
        }
        if has_v1 {
            steps.push(WipeStep { folder: false, path: v1 });
        }
        assert(wipe_views(steps@) =~= (if has_dir {
            seq![(true, dv)]
        } else {
            Seq::<(bool, Seq<char>)>::empty()
        }) + (if has_v1 {
            seq![(false, fv)]
        } else {
            Seq::<(bool, Seq<char>)>::empty()
        }));
        steps
    }

    /// How to open a vault, given the paths that exist. A legacy container is only
    /// opened by an explicit recovery.
    pub fn open_vault(&self, id: &str, existing: &[String]) -> (r: Result<String, String>)
        ensures
            ({
                let dir = path_join(path_join(self.root(), "vaults"@), id@ + ".fsv2"@);
                let v1 = path_join(path_join(self.root(), "vaults"@), id@ + ".fsec"@);
                if texts(existing@).contains(dir) {
                    r is Ok && r->Ok_0@ == dir
                } else if texts(existing@).contains(v1) {
                    r is Err && r->Err_0@ == LEGACY_MESSAGE@
                } else {
                    r is Err && r->Err_0@ == "vault not found: "@ + id@
                }
            }),
    {
        let dir = self.vault_dir_v2(id);
        if text_in(existing, &dir) {
            return Ok(dir);
        }
        if text_in(existing, &self.vault_path(id)) {
            return Err(owned(LEGACY_MESSAGE));
        }
        Err(concat2("vault not found: ", id))
    }

    /// Where to make a checkout temp file: under a random stem that keeps only the
    /// leaf's extension, so the vault's own file name never touches the disk.
    pub fn create_private_checkout_file(&self, stem: &str, leaf: &str) -> (r: String)
        ensures
            r@ == path_join(
                path_join(self.root(), "checkout"@),
                stem@ + crate::path::ext_split(leaf@).1,
            ),
    {
        proof {
            use_type_invariant(self);
        }
        let (_, ext) = crate::path::split_ext(leaf);
        join_file(&self.checkout_dir, &concat2(stem, ext))
    }
}

/// The id of a new vault, from random bytes.
pub fn new_vault_id(random: &[u8; 16]) -> (r: String)
    ensures
        r@ == crate::fingerprint::hex_text(random@),
        r@.len() == 32,
{
    crate::fingerprint::hex(random)
}

/// Said when only a legacy form of something is found.
pub const LEGACY_MESSAGE: &'static str = "legacy state requires explicit recovery";

/// One thing to wipe.
pub struct WipeStep {
    pub folder: bool,
    pub path: String,
}

/// The values of a list of wipe steps.
pub open spec fn wipe_views(v: Seq<WipeStep>) -> Seq<(bool, Seq<char>)> {
    v.map_values(|w: WipeStep| (w.folder, w.path@))
}

/// Whether the legacy container left beside a vault is wiped: only once the vault
/// itself has been opened, so that a damaged vault never costs the recovery copy.
pub fn wipe_legacy_after_open(opened: bool, legacy_exists: bool) -> (r: bool)
    ensures
        r == (opened && legacy_exists),
{
    opened && legacy_exists
}

// ---------------------------------------------------------------------------
// Secure deletion
// ---------------------------------------------------------------------------

/// Size of the blocks that a file is overwritten with.
pub const WIPE_BLOCK: u64 = 65_536;

/// How many bytes are overwritten next, when `written` of `len` are.
pub open spec fn wipe_block(len: nat, written: nat) -> nat {
    if written >= len {
        0
    } else if len - written <= WIPE_BLOCK {
        (len - written) as nat
    } else {
        WIPE_BLOCK as nat
    }
}

/// How many random bytes to write next when `written` of `len` are overwritten.
pub fn next_wipe_block(len: u64, written: u64) -> (n: u64)
    ensures
        n == wipe_block(len as nat, written as nat),
{
    if written >= len {
        0
    } else if len - written <= WIPE_BLOCK {
        len - written
    } else {
        WIPE_BLOCK
    }
}

/// How many bytes are overwritten after `k` blocks.
pub open spec fn wiped_after(len: nat, k: nat) -> nat
    decreases k,
{
    if k == 0 {
        0
    } else {
        let w = wiped_after(len, (k - 1) as nat);
        w + wipe_block(len, w)
    }
}

/// Overwriting block by block covers the whole length and never goes past it.
pub proof fn law_wipe_covers_the_file(len: nat, k: nat)
    ensures
        wiped_after(len, k) <= len,
        k * 65_536 >= len ==> wiped_after(len, k) == len,
    decreases k,
{
    lemma_wiped(len, k);
}

proof fn lemma_wiped(len: nat, k: nat)
    ensures
        wiped_after(len, k) == (if k * 65_536 >= len {
            len
        } else {
            (k * 65_536) as nat
        }),
    decreases k,
{
    if k > 0 {
        lemma_wiped(len, (k - 1) as nat);
    }
}

/// The steps of deleting a file securely.
pub enum WipeStage {
    /// See whether the file is there, how long it is, and whether it can be written.
    Look,
    /// Give its owner back the right to write it.
    Release { len: u64 },
    /// Open it for writing, at its start.
    Open { len: u64 },
    /// Write the next block of random bytes over it.
    Overwrite { len: u64, written: u64 },
    /// Make what was written durable.
    Sync,
    /// Take it out of its directory.
    Unlink,
    Done,
    Failed(String),
}

/// How a step of deleting a file securely went.
pub enum WipeReply {
    /// There is no such file, or none that can be seen.
    Absent,
    Found { len: u64, readonly: bool },
    Went,
    Failed(String),
}

/// The stage in which `written` of `len` bytes are overwritten.
pub open spec fn overwriting(len: u64, written: nat) -> WipeStage {
    if written >= len {
        WipeStage::Sync
    } else {
        WipeStage::Overwrite { len, written: written as u64 }
    }
}

/// The stage after a step of deleting a file securely. Nothing is to be done about a
/// file that is not there; whether the right to write was given back shows when the
/// file is opened. A reply that answers another step changes nothing.
pub open spec fn wipe_after(stage: WipeStage, reply: WipeReply) -> WipeStage {
    match (stage, reply) {
        (WipeStage::Look, WipeReply::Absent) => WipeStage::Done,
        (WipeStage::Look, WipeReply::Found { len, readonly }) => if readonly {
            WipeStage::Release { len }
        } else {
            WipeStage::Open { len }
        },
        (WipeStage::Release { len }, _) => WipeStage::Open { len },
        (WipeStage::Open { len }, WipeReply::Went) => overwriting(len, 0),
        (WipeStage::Overwrite { len, written }, WipeReply::Went) => overwriting(
            len,
            written as nat + wipe_block(len as nat, written as nat),
        ),
        (WipeStage::Sync, WipeReply::Went) => WipeStage::Unlink,
        (WipeStage::Unlink, WipeReply::Went) => WipeStage::Done,
        (WipeStage::Done, _) => WipeStage::Done,
        (WipeStage::Failed(e), _) => WipeStage::Failed(e),
        (_, WipeReply::Failed(e)) => WipeStage::Failed(e),
        (other, _) => other,
    }
}

/// The stage in which `written` of `len` bytes are overwritten.
fn overwriting_stage(len: u64, written: u64) -> (r: WipeStage)
    ensures
        r == overwriting(len, written as nat),
{
    if written >= len {
        WipeStage::Sync
    } else {
        WipeStage::Overwrite { len, written }
    }
}

/// The next step of deleting a file securely: its whole length is overwritten with random
/// bytes and synced before it is unlinked.
pub fn secure_wipe(stage: WipeStage, reply: WipeReply) -> (r: WipeStage)
    ensures
        r == wipe_after(stage, reply),
{
    match (stage, reply) {
        (WipeStage::Look, WipeReply::Absent) => WipeStage::Done,
        (WipeStage::Look, WipeReply::Found { len, readonly }) => if readonly {
            WipeStage::Release { len }
        } else {
            WipeStage::Open { len }
        },
        (WipeStage::Release { len }, _) => WipeStage::Open { len },
        (WipeStage::Open { len }, WipeReply::Went) => overwriting_stage(len, 0),
        (WipeStage::Overwrite { len, written }, WipeReply::Went) => {
            let n: u64 = next_wipe_block(len, written);
            overwriting_stage(len, written + n)
        },
        (WipeStage::Sync, WipeReply::Went) => WipeStage::Unlink,
        (WipeStage::Unlink, WipeReply::Went) => WipeStage::Done,
        (WipeStage::Done, _) => WipeStage::Done,
        (WipeStage::Failed(e), _) => WipeStage::Failed(e),
        (_, WipeReply::Failed(e)) => WipeStage::Failed(e),
        (other, _) => other,
    }
}

/// A file that is to be deleted securely.
pub struct DoomedFile {
    pub exists: bool,
    pub readonly: bool,
    pub len: nat,
    /// How many bytes from its start are overwritten.
    pub overwritten: nat,
    /// Whether what is overwritten is durable.
    pub synced: bool,
}

/// Whether carrying out a step, or crashing inside it, may turn one file into the other.
/// A write may stop half way.
pub open spec fn wipe_effect(stage: WipeStage, a: DoomedFile, b: DoomedFile) -> bool {
    match stage {
        WipeStage::Release { len } => b == a || b == (DoomedFile { readonly: false, ..a }),
        WipeStage::Overwrite { len, written } => {
            &&& b == (DoomedFile { overwritten: b.overwritten, ..a })
            &&& a.overwritten <= b.overwritten <= written + wipe_block(len as nat, written as nat)
        },
        WipeStage::Sync => b == a || b == (DoomedFile { synced: true, ..a }),
        WipeStage::Unlink => b == a || b == (DoomedFile { exists: false, ..a }),
        _ => b == a,
    }
}

/// Whether a reply answers a step, and truly: it says what was seen, and where it says
/// that the step went, it did.
pub open spec fn wipe_answers(
    stage: WipeStage,
    reply: WipeReply,
    a: DoomedFile,
    b: DoomedFile,
) -> bool {
    match (stage, reply) {
        (WipeStage::Look, WipeReply::Absent) => !a.exists,
        (WipeStage::Look, WipeReply::Found { len, readonly }) => a.exists && a.len == len
            && a.readonly == readonly,
        (WipeStage::Look, _) => false,
        (_, WipeReply::Failed(_)) => true,
        (WipeStage::Overwrite { len, written }, WipeReply::Went) => b.overwritten == written
            + wipe_block(len as nat, written as nat),
        (WipeStage::Sync, WipeReply::Went) => b.synced,
        (WipeStage::Unlink, WipeReply::Went) => !b.exists,
        (_, reply) => reply is Went,
    }
}

/// What holds of the file when a stage is reached: it is unlinked only when all of it is
/// overwritten and synced, and it is gone when the stages are done.
pub open spec fn wipe_ready(stage: WipeStage, f: DoomedFile) -> bool {
    match stage {
        WipeStage::Release { len } | WipeStage::Open { len } => f.exists && f.len == len
            && f.overwritten == 0,
        WipeStage::Overwrite { len, written } => f.exists && f.len == len && written < len
            && f.overwritten == written,
        WipeStage::Sync => f.exists && f.overwritten == f.len,
        WipeStage::Unlink => f.exists && f.overwritten == f.len && f.synced,
        WipeStage::Done => !f.exists,
        WipeStage::Look | WipeStage::Failed(_) => true,
    }
}

/// Whether a file went through the states `files`, through these stages and replies, from
/// the start.
pub open spec fn wipe_ran(
    files: Seq<DoomedFile>,
    stages: Seq<WipeStage>,
    replies: Seq<WipeReply>,
) -> bool {
    &&& files.len() == stages.len() == replies.len() + 1
    &&& stages[0] is Look
    &&& files[0].overwritten == 0
    &&& forall|i: int|
        0 <= i < replies.len() ==> {
            &&& wipe_effect(stages[i], files[i], files[i + 1])
            &&& wipe_answers(stages[i], #[trigger] replies[i], files[i], files[i + 1])
            &&& stages[i + 1] == wipe_after(stages[i], replies[i])
        }
}

proof fn lemma_wipe_ready(
    files: Seq<DoomedFile>,
    stages: Seq<WipeStage>,
    replies: Seq<WipeReply>,
    k: int,
)
    requires
        wipe_ran(files, stages, replies),
        0 <= k < stages.len(),
    ensures
        wipe_ready(stages[k], files[k]),
        stages[k] is Look ==> k == 0,
        files[k].len == files[0].len,
    decreases k,
{
    if k > 0 {
        lemma_wipe_ready(files, stages, replies, k - 1);
        let r = replies[k - 1];
        assert(wipe_effect(stages[k - 1], files[k - 1], files[k - 1 + 1]));
    }
}

/// A file is unlinked only after every byte of it has been overwritten and synced,
/// whatever fails on the way, and a wipe that is done leaves no file.
pub proof fn law_a_file_is_overwritten_before_it_goes(
    files: Seq<DoomedFile>,
    stages: Seq<WipeStage>,
    replies: Seq<WipeReply>,
    k: int,
)
    requires
        wipe_ran(files, stages, replies),
        0 <= k < files.len(),
    ensures
        stages[k] is Done ==> !files[k].exists,
        files[0].exists && !files[k].exists ==> exists|j: int|
            0 <= j < k && (#[trigger] files[j]).exists && files[j].overwritten == files[0].len
                && files[j].synced,
    decreases k,
{
    lemma_wipe_ready(files, stages, replies, k);
    if k > 0 && files[0].exists && !files[k].exists {
        law_a_file_is_overwritten_before_it_goes(files, stages, replies, k - 1);
        lemma_wipe_ready(files, stages, replies, k - 1);
        let r = replies[k - 1];
        assert(wipe_effect(stages[k - 1], files[k - 1], files[k - 1 + 1]));
        if files[k - 1].exists {
            assert(files[k - 1].overwritten == files[0].len);
        }
    }
}

/// How many blocks a number of bytes takes.
pub open spec fn blocks_of(n: int) -> int {
    (n + 65_535) / 65_536
}

/// How many steps of a wipe are left at most, for a file of a length.
pub open spec fn wipe_steps_left(stage: WipeStage, len: nat) -> int {
    match stage {
        WipeStage::Look => 5 + blocks_of(len as int),
        WipeStage::Release { len } => 4 + blocks_of(len as int),
        WipeStage::Open { len } => 3 + blocks_of(len as int),
        WipeStage::Overwrite { len, written } => 2 + blocks_of(len - written),
        WipeStage::Sync => 2,
        WipeStage::Unlink => 1,
        WipeStage::Done | WipeStage::Failed(_) => 0,
    }
}

proof fn lemma_wipe_steps(
    files: Seq<DoomedFile>,
    stages: Seq<WipeStage>,
    replies: Seq<WipeReply>,
    k: int,
)
    requires
        wipe_ran(files, stages, replies),
        forall|i: int| 0 <= i < replies.len() ==> !(#[trigger] replies[i] is Failed),
        0 <= k < stages.len(),
    ensures
        !(stages[k] is Failed),
        wipe_steps_left(stages[k], files[0].len) <= 5 + blocks_of(files[0].len as int) - k
            || stages[k] is Done,
    decreases k,
{
    if k > 0 {
        lemma_wipe_steps(files, stages, replies, k - 1);
        lemma_wipe_ready(files, stages, replies, k - 1);
        let r = replies[k - 1];
        assert(wipe_effect(stages[k - 1], files[k - 1], files[k - 1 + 1]));
    }
}

/// A wipe in which no step fails succeeds: after its steps the file is gone, read-only or
/// not, however long it was.
pub proof fn law_a_wipe_ends(
    files: Seq<DoomedFile>,
    stages: Seq<WipeStage>,
    replies: Seq<WipeReply>,
)
    requires
        wipe_ran(files, stages, replies),
        forall|i: int| 0 <= i < replies.len() ==> !(#[trigger] replies[i] is Failed),
        replies.len() >= 5 + blocks_of(files[0].len as int),
    ensures
        stages.last() is Done,
        !files.last().exists,
{
    let k = stages.len() - 1;
    lemma_wipe_steps(files, stages, replies, k);
    lemma_wipe_ready(files, stages, replies, k);
}

/// Wiping what is not there does nothing and succeeds, so a second wipe is harmless.
pub proof fn law_wiping_twice_is_harmless(reply: WipeReply, a: DoomedFile, b: DoomedFile)
    requires
        !a.exists,
        wipe_effect(WipeStage::Look, a, b),
        wipe_answers(WipeStage::Look, reply, a, b),
    ensures
        wipe_after(WipeStage::Look, reply) is Done,
        b == a,
{
}

// ---------------------------------------------------------------------------
// Cleaning up after a crash
// ---------------------------------------------------------------------------

/// What to do with a directory found among the vaults.
#[derive(Clone, Copy, Debug, PartialEq, Eq, Structural)]
pub enum CleanStep {
    /// Leave it.
    Keep,
    /// Remove it: an aborted write, or a set-aside copy whose replacement is in place.
    Remove,
    /// Put it back: a set-aside copy whose replacement never came.
    RollBack,
}

/// Whether `t` ends with `p`.
pub open spec fn ends_with(t: Seq<char>, p: Seq<char>) -> bool {
    p.len() <= t.len() && t.skip(t.len() - p.len()) == p
}

/// Whether `s` ends with `p`.
pub fn has_suffix(s: &str, p: &str) -> (r: bool)
    ensures
        r == ends_with(s@, p@),
{
    let sv = to_chars(s);
    let pv = to_chars(p);
    let (n, m): (usize, usize) = (sv.len(), pv.len());
    if m > n {
        return false;
    }
    let tail = from_chars(&sv, n - m, n);
    assert(tail@ =~= s@.skip(s@.len() - p@.len()));
    same_text(&tail, p)
}

/// The directory that a set-aside copy stands for.
pub open spec fn set_aside_for(name: Seq<char>) -> Seq<char> {
    name.take(name.len() - 4)
}

/// What to do with a directory called `name`; `final_exists` tells whether what it
/// was set aside for exists.
pub open spec fn clean_rule(name: Seq<char>, final_exists: bool) -> CleanStep {
    if ends_with(name, ".fsv2.partial"@) {
        CleanStep::Remove
    } else if ends_with(name, ".fsv2.old"@) {
        if final_exists {
            CleanStep::Remove
        } else {
            CleanStep::RollBack
        }
    } else {
        CleanStep::Keep
    }
}

/// What to do, on unlock, with a directory left by an interrupted migration.
pub fn clean_partial_dirs(name: &str, final_exists: bool) -> (r: CleanStep)
    ensures
        r == clean_rule(name@, final_exists),
{
    if has_suffix(name, ".fsv2.partial") {
        CleanStep::Remove
    } else if has_suffix(name, ".fsv2.old") {
        if final_exists {
            CleanStep::Remove
        } else {
            CleanStep::RollBack
        }
    } else {
        CleanStep::Keep
    }
}

/// The name of the directory that a set-aside copy stands for, if it is one.
pub fn set_aside_name(name: &str) -> (r: Option<String>)
    ensures
        match r {
            Some(s) => ends_with(name@, ".fsv2.old"@) && s@ == set_aside_for(name@),
            None => !ends_with(name@, ".fsv2.old"@),
        },
{
    if has_suffix(name, ".fsv2.old") {
        proof {
            reveal_strlit(".fsv2.old");
        }
        let v = to_chars(name);
        let n: usize = v.len();
        let s = from_chars(&v, 0, n - 4);
        assert(s@ =~= set_aside_for(name@));
        Some(s)
    } else {
        None
    }
}

// ---------------------------------------------------------------------------
// Recovering a legacy vault
// ---------------------------------------------------------------------------

/// The steps of turning a legacy container into a vault directory.
pub enum MigrateStage {
    /// Remove any stray scratch directory.
    Clear,
    /// Open the legacy container.
    Open,
    /// Write the whole vault to the scratch directory.
    Build,
    /// Rename the scratch directory into place: the commit point.
    Commit,
    /// Make the rename durable.
    Sync,
    /// Wipe the legacy container.
    Wipe,
    /// Remove the scratch directory of a failed write.
    Undo(String),
    Done,
    Failed(String),
}

/// How a step went.
pub enum StepReply {
    Went,
    Failed(String),
}

/// The stage after a step of the recovery of a legacy vault.
pub open spec fn migrate_after(stage: MigrateStage, reply: StepReply) -> MigrateStage {
    match stage {
        MigrateStage::Clear => MigrateStage::Open,
        MigrateStage::Open => match reply {
            StepReply::Went => MigrateStage::Build,
            StepReply::Failed(e) => MigrateStage::Failed(e),
        },
        MigrateStage::Build => match reply {
            StepReply::Went => MigrateStage::Commit,
            StepReply::Failed(e) => MigrateStage::Undo(e),
        },
        MigrateStage::Commit => match reply {
            StepReply::Went => MigrateStage::Sync,
            StepReply::Failed(e) => MigrateStage::Failed(e),
        },
        MigrateStage::Sync => MigrateStage::Wipe,
        MigrateStage::Wipe => MigrateStage::Done,
        MigrateStage::Undo(e) => MigrateStage::Failed(e),
        MigrateStage::Done => MigrateStage::Done,
        MigrateStage::Failed(e) => MigrateStage::Failed(e),
    }
}

/// The next step of the recovery of a legacy vault.
pub fn migrate_vault_v1_to_v2(stage: MigrateStage, reply: StepReply) -> (r: MigrateStage)
    ensures
        r == migrate_after(stage, reply),
{
    match stage {
        MigrateStage::Clear => MigrateStage::Open,
        MigrateStage::Open => match reply {
            StepReply::Went => MigrateStage::Build,
            StepReply::Failed(e) => MigrateStage::Failed(e),
        },
        MigrateStage::Build => match reply {
            StepReply::Went => MigrateStage::Commit,
            StepReply::Failed(e) => MigrateStage::Undo(e),
        },
        MigrateStage::Commit => match reply {
            StepReply::Went => MigrateStage::Sync,
            StepReply::Failed(e) => MigrateStage::Failed(e),
        },
        MigrateStage::Sync => MigrateStage::Wipe,
        MigrateStage::Wipe => MigrateStage::Done,
        MigrateStage::Undo(e) => MigrateStage::Failed(e),
        MigrateStage::Done => MigrateStage::Done,
        MigrateStage::Failed(e) => MigrateStage::Failed(e),
    }
}

/// What is on disk of one vault.
pub struct VaultDisk {
    /// The legacy container.
    pub legacy: bool,
    /// A scratch directory that holds the whole vault.
    pub partial_whole: bool,
    /// The vault directory.
    pub current: bool,
    /// A copy set aside.
    pub aside: bool,
}

/// Whether the vault can still be had.
pub open spec fn vault_is_safe(d: VaultDisk) -> bool {
    d.legacy || d.current || d.aside
}

/// Whether carrying out a step of the recovery, or crashing inside it, may turn one
/// disk into the other. A rename happens or not; a write may stop half way.
pub open spec fn migrate_effect(stage: MigrateStage, a: VaultDisk, b: VaultDisk) -> bool {
    match stage {
        MigrateStage::Clear | MigrateStage::Undo(_) => b == a || b == (VaultDisk {
            partial_whole: false,
            ..a
        }),
        MigrateStage::Build => b == (VaultDisk { partial_whole: b.partial_whole, ..a }),
        MigrateStage::Commit => b == a || b == (VaultDisk {
            partial_whole: false,
            current: a.partial_whole,
            ..a
        }),
        MigrateStage::Wipe => b == a || b == (VaultDisk { legacy: false, ..a }),
        _ => b == a,
    }
}

/// What holds of the disk when a stage of the recovery is reached.
pub open spec fn migrate_ready(stage: MigrateStage, d: VaultDisk) -> bool {
    match stage {
        MigrateStage::Commit => d.legacy && d.partial_whole,
        MigrateStage::Sync | MigrateStage::Wipe | MigrateStage::Done => d.current,
        MigrateStage::Failed(_) => vault_is_safe(d),
        _ => d.legacy,
    }
}

/// The recovery of a legacy vault never loses it: whatever stage is carried out, or
/// interrupted, the vault can still be had afterwards. If the step went as reported,
/// the next stage finds what it needs.
pub proof fn law_recovery_never_loses_the_vault(
    stage: MigrateStage,
    reply: StepReply,
    a: VaultDisk,
    b: VaultDisk,
)
    requires
        migrate_ready(stage, a),
        migrate_effect(stage, a, b),
    ensures
        vault_is_safe(b),
        (reply is Went && stage is Build ==> b.partial_whole) && (reply is Went && stage is Commit
            ==> b.current) ==> migrate_ready(migrate_after(stage, reply), b),
{
}

// ---------------------------------------------------------------------------
// Re-keying a vault
// ---------------------------------------------------------------------------

/// The steps of re-encrypting a vault directory under another suite.
pub enum RekeyStage {
    /// Open the vault and read it.
    Open,
    /// Remove any stray scratch directory.
    Clear,
    /// Write the whole vault to the scratch directory under the new suite.
    Build,
    /// Set the current directory aside.
    SetAside,
    /// Rename the scratch directory into place.
    Promote,
    /// Remove the copy set aside.
    Drop,
    /// Remove the scratch directory of a failed write.
    Undo(String),
    Done,
    Failed(String),
}

/// What opening the vault for re-keying found.
pub enum RekeyReply {
    Went,
    /// The vault is on the wanted suite already.
    AlreadyThere,
    Failed(String),
}

/// The stage after a step of re-keying.
pub open spec fn rekey_after(stage: RekeyStage, reply: RekeyReply) -> RekeyStage {
    match (stage, reply) {
        (RekeyStage::Open, RekeyReply::AlreadyThere) => RekeyStage::Done,
        (RekeyStage::Open, RekeyReply::Failed(e)) => RekeyStage::Failed(e),
        (RekeyStage::Open, RekeyReply::Went) => RekeyStage::Clear,
        (RekeyStage::Clear, _) => RekeyStage::Build,
        (RekeyStage::Build, RekeyReply::Failed(e)) => RekeyStage::Undo(e),
        (RekeyStage::Build, _) => RekeyStage::SetAside,
        (RekeyStage::SetAside, RekeyReply::Failed(e)) => RekeyStage::Failed(e),
        (RekeyStage::SetAside, _) => RekeyStage::Promote,
        (RekeyStage::Promote, RekeyReply::Failed(e)) => RekeyStage::Failed(e),
        (RekeyStage::Promote, _) => RekeyStage::Drop,
        (RekeyStage::Drop, _) => RekeyStage::Done,
        (RekeyStage::Undo(e), _) => RekeyStage::Failed(e),
        (RekeyStage::Done, _) => RekeyStage::Done,
        (RekeyStage::Failed(e), _) => RekeyStage::Failed(e),
    }
}

/// The next step of re-keying a vault.
pub fn reencrypt_v2_vault(stage: RekeyStage, reply: RekeyReply) -> (r: RekeyStage)
    ensures
        r == rekey_after(stage, reply),
{
    match (stage, reply) {
        (RekeyStage::Open, RekeyReply::AlreadyThere) => RekeyStage::Done,
        (RekeyStage::Open, RekeyReply::Failed(e)) => RekeyStage::Failed(e),
        (RekeyStage::Open, RekeyReply::Went) => RekeyStage::Clear,
        (RekeyStage::Clear, _) => RekeyStage::Build,
        (RekeyStage::Build, RekeyReply::Failed(e)) => RekeyStage::Undo(e),
        (RekeyStage::Build, _) => RekeyStage::SetAside,
        (RekeyStage::SetAside, RekeyReply::Failed(e)) => RekeyStage::Failed(e),
        (RekeyStage::SetAside, _) => RekeyStage::Promote,
        (RekeyStage::Promote, RekeyReply::Failed(e)) => RekeyStage::Failed(e),
        (RekeyStage::Promote, _) => RekeyStage::Drop,
        (RekeyStage::Drop, _) => RekeyStage::Done,
        (RekeyStage::Undo(e), _) => RekeyStage::Failed(e),
        (RekeyStage::Done, _) => RekeyStage::Done,
        (RekeyStage::Failed(e), _) => RekeyStage::Failed(e),
    }
}

/// Whether carrying out a step of re-keying, or crashing inside it, may turn one disk
/// into the other.
pub open spec fn rekey_effect(stage: RekeyStage, a: VaultDisk, b: VaultDisk) -> bool {
    match stage {
        RekeyStage::Clear | RekeyStage::Undo(_) => b == a || b == (VaultDisk {
            partial_whole: false,
            ..a
        }),
        RekeyStage::Build => b == (VaultDisk { partial_whole: b.partial_whole, ..a }),
        RekeyStage::SetAside => b == a || b == (VaultDisk { current: false, aside: a.current, ..a }),
        RekeyStage::Promote => b == a || b == (VaultDisk {
            partial_whole: false,
            current: a.partial_whole,
            ..a
        }),
        RekeyStage::Drop => b == a || b == (VaultDisk { aside: false, ..a }),
        _ => b == a,
    }
}

/// What holds of the disk when a stage of re-keying is reached.
pub open spec fn rekey_ready(stage: RekeyStage, d: VaultDisk) -> bool {
    match stage {
        RekeyStage::SetAside => d.current && d.partial_whole,
        RekeyStage::Promote => d.aside && d.partial_whole && !d.current,
        RekeyStage::Failed(_) => d.current || d.aside,
        _ => d.current,
    }
}

/// The disk after the cleanup on the next unlock, for a vault directory of a name: what
/// [`clean_rule`] says of the scratch directory and of the copy set aside.
pub open spec fn cleaned_disk(name: Seq<char>, d: VaultDisk) -> VaultDisk {
    let scratch = clean_rule(name + ".partial"@, false);
    let aside = clean_rule(name + ".old"@, d.current);
    VaultDisk {
        legacy: d.legacy,
        partial_whole: d.partial_whole && scratch == CleanStep::Keep,
        current: d.current || (d.aside && aside == CleanStep::RollBack),
        aside: d.aside && aside == CleanStep::Keep,
    }
}

/// Re-keying never loses the vault, and the cleanup on the next unlock puts it back
/// in place from wherever an interruption left it.
pub proof fn law_rekeying_never_loses_the_vault(
    stage: RekeyStage,
    reply: RekeyReply,
    id: Seq<char>,
    a: VaultDisk,
    b: VaultDisk,
)
    requires
        rekey_ready(stage, a),
        rekey_effect(stage, a, b),
    ensures
        b.current || b.aside,
        ({
            let after = cleaned_disk(id + ".fsv2"@, b);
            after.current && !after.aside && !after.partial_whole
        }),
        (!(reply is Failed) && stage is Build ==> b.partial_whole) && (!(reply is Failed)
            && stage is SetAside ==> b.aside && !b.current) && (!(reply is Failed) && stage is Promote
            ==> b.current) ==> rekey_ready(rekey_after(stage, reply), b),
{
    reveal_strlit(".fsv2");
    reveal_strlit(".partial");
    reveal_strlit(".old");
    reveal_strlit(".fsv2.partial");
    reveal_strlit(".fsv2.old");
    let name = id + ".fsv2"@;
    let scratch = name + ".partial"@;
    let aside = name + ".old"@;
    assert(scratch.skip(scratch.len() - 13) =~= ".fsv2.partial"@);
    assert(aside.skip(aside.len() - 9) =~= ".fsv2.old"@);
    if ends_with(aside, ".fsv2.partial"@) {
        assert(aside.last() == 'd');
        assert(aside.skip(aside.len() - 13).last() == aside.last());
        assert(".fsv2.partial"@.last() == 'l');
    }
}

// ---------------------------------------------------------------------------
// Moving the store to a post-quantum identity
// ---------------------------------------------------------------------------

/// Who can open a store file.
#[derive(Clone, Copy, Debug, PartialEq, Eq, Structural)]
pub struct Readers {
    pub old: bool,
    pub new: bool,
}

/// The phases of moving the store to a new identity.
#[derive(Clone, Copy, Debug, PartialEq, Eq, Structural)]
pub enum UpgradePhase {
    /// Re-encrypt file `i` to both identities, under the classical suite.
    Bridge(usize),
    /// Re-seal the keystore to the new identity: the commit point.
    Commit,
    /// Re-encrypt file `i` to the new identity alone, under the hybrid suite.
    Harden(usize),
    /// Re-key the vault directories to the hybrid suite.
    Rekey,
    Done,
}

/// The phase after one that succeeded, in a store of `files` files.
pub open spec fn upgrade_after(phase: UpgradePhase, files: usize) -> UpgradePhase {
    match phase {
        UpgradePhase::Bridge(i) => if i + 1 < files {
            UpgradePhase::Bridge((i + 1) as usize)
        } else {
            UpgradePhase::Commit
        },
        UpgradePhase::Commit => if files > 0 {
            UpgradePhase::Harden(0)
        } else {
            UpgradePhase::Rekey
        },
        UpgradePhase::Harden(i) => if i + 1 < files {
            UpgradePhase::Harden((i + 1) as usize)
        } else {
            UpgradePhase::Rekey
        },
        UpgradePhase::Rekey => UpgradePhase::Done,
        UpgradePhase::Done => UpgradePhase::Done,
    }
}

/// The first phase of moving a store to a post-quantum identity; an identity that is
/// post-quantum already is refused.
pub fn migrate_to_hybrid(already_hybrid: bool, files: usize) -> (r: Result<UpgradePhase, String>)
    ensures
        match r {
            Ok(p) => !already_hybrid && p == (if files > 0 {
                UpgradePhase::Bridge(0)
            } else {
                UpgradePhase::Commit
            }),
            Err(e) => already_hybrid && e@ == "this identity is already post-quantum"@,
        },
{
    if already_hybrid {
        Err(owned("this identity is already post-quantum"))
    } else if files > 0 {
        Ok(UpgradePhase::Bridge(0))
    } else {
        Ok(UpgradePhase::Commit)
    }
}

/// The next phase, after one that succeeded.
pub fn next_upgrade_phase(phase: UpgradePhase, files: usize) -> (r: UpgradePhase)
    ensures
        r == upgrade_after(phase, files),
{
    match phase {
        UpgradePhase::Bridge(i) => if files > 0 && i < files - 1 {
            UpgradePhase::Bridge(i + 1)
        } else {
            UpgradePhase::Commit
        },
        UpgradePhase::Commit => if files > 0 {
            UpgradePhase::Harden(0)
        } else {
            UpgradePhase::Rekey
        },
        UpgradePhase::Harden(i) => if files > 0 && i < files - 1 {
            UpgradePhase::Harden(i + 1)
        } else {
            UpgradePhase::Rekey
        },
        UpgradePhase::Rekey => UpgradePhase::Done,
        UpgradePhase::Done => UpgradePhase::Done,
    }
}

/// A store on the way to a new identity: whether the keystore holds the new one, and
/// who can open each file.
pub struct UpgradeStore {
    pub keystore_new: bool,
    pub files: Seq<Readers>,
}

/// Whether the identity in the keystore opens every file.
pub open spec fn opens_everything(s: UpgradeStore) -> bool {
    forall|i: int|
        0 <= i < s.files.len() ==> (if s.keystore_new {
            (#[trigger] s.files[i]).new
        } else {
            s.files[i].old
        })
}

/// The store after a phase was carried out.
pub open spec fn upgraded(phase: UpgradePhase, s: UpgradeStore) -> UpgradeStore {
    match phase {
        UpgradePhase::Bridge(i) => UpgradeStore {
            files: s.files.update(i as int, Readers { old: true, new: true }),
            ..s
        },
        UpgradePhase::Commit => UpgradeStore { keystore_new: true, ..s },
        UpgradePhase::Harden(i) => UpgradeStore {
            files: s.files.update(i as int, Readers { old: false, new: true }),
            ..s
        },
        _ => s,
    }
}

/// What holds of the store when a phase is reached.
pub open spec fn upgrade_ready(phase: UpgradePhase, s: UpgradeStore) -> bool {
    match phase {
        UpgradePhase::Bridge(i) => !s.keystore_new && i < s.files.len() && (forall|k: int|
            0 <= k < s.files.len() ==> (#[trigger] s.files[k]).old) && (forall|k: int|
            0 <= k < i ==> (#[trigger] s.files[k]).new),
        UpgradePhase::Commit => !s.keystore_new && (forall|k: int|
            0 <= k < s.files.len() ==> (#[trigger] s.files[k]).old && s.files[k].new),
        UpgradePhase::Harden(i) => s.keystore_new && i < s.files.len() && (forall|k: int|
            0 <= k < s.files.len() ==> (#[trigger] s.files[k]).new) && (forall|k: int|
            0 <= k < i ==> !(#[trigger] s.files[k]).old),
        UpgradePhase::Rekey | UpgradePhase::Done => s.keystore_new && (forall|k: int|
            0 <= k < s.files.len() ==> (#[trigger] s.files[k]).new && !s.files[k].old),
    }
}

/// Moving the store to a post-quantum identity never locks anyone out: before and
/// after every phase, so also wherever it is interrupted, the identity in the
/// keystore opens every file. At the end only the new identity does.
pub proof fn law_upgrade_never_locks_out(phase: UpgradePhase, s: UpgradeStore, files: usize)
    requires
        s.files.len() == files,
        upgrade_ready(phase, s),
    ensures
        opens_everything(s),
        opens_everything(upgraded(phase, s)),
        upgrade_ready(upgrade_after(phase, files), upgraded(phase, s)),
{
}

/// The suite the store is encrypted under: it follows the identity.
pub fn self_suite(hybrid: bool) -> (r: SuiteId)
    ensures
        r == (if hybrid {
            SuiteId::Hybrid
        } else {
            SuiteId::Classic
        }),
{
    if hybrid {
        SuiteId::Hybrid
    } else {
        SuiteId::Classic
    }
}

/// Whether a file name has an extension, which is written with its dot: something has
/// to stand before it.
pub open spec fn has_extension(ext: Seq<char>) -> spec_fn(Seq<char>) -> bool {
    |name: Seq<char>| ends_with(name, ext) && name.len() > ext.len()
}

/// The names with an extension.
fn with_extension(names: &[String], ext: &str) -> (r: Vec<String>)
    ensures
        texts(r@) == texts(names@).filter(has_extension(ext@)),
{
    let ghost t = texts(names@);
    let ghost keep = has_extension(ext@);
    let len: usize = ext.unicode_len();
    let mut r: Vec<String> = Vec::new();
    let mut i: usize = 0;
    proof {
        reveal(Seq::filter);
        assert(texts(r@) =~= t.take(0).filter(keep));
    }
    while i < names.len()
        invariant
            i <= names@.len(),
            t == texts(names@),
            keep == has_extension(ext@),
            len == ext@.len(),
            texts(r@) == t.take(i as int).filter(keep),
        decreases names@.len() - i,
    {
        proof {
            reveal(Seq::filter);
            assert(t.take(i + 1).drop_last() =~= t.take(i as int));
            assert(t[i as int] == names@[i as int]@);
        }
        if has_suffix(&names[i], ext) && names[i].as_str().unicode_len() > len {
            let ghost before = texts(r@);
            r.push(names[i].clone());
            assert(texts(r@) =~= before.push(t[i as int]));
        }
        i += 1;
    }
    assert(t.take(i as int) =~= t);
    r
}

impl Store {
    /// The registry, given what was found where it is kept: an empty one where nothing is
    /// kept yet.
    pub fn load_registry(&self, found: Result<Option<Registry>, String>) -> (r: Result<
        Registry,
        String,
    >)
        ensures
            match found {
                Ok(Some(registry)) => r == Ok::<Registry, String>(registry),
                Ok(None) => r is Ok && r->Ok_0.vaults@.len() == 0,
                Err(e) => r == Err::<Registry, String>(e),
            },
    {
        match found {
            Ok(Some(registry)) => Ok(registry),
            Ok(None) => Ok(Registry::new()),
            Err(e) => Err(e),
        }
    }

    /// The self-encrypted files of the store that exist: the registry, the contact
    /// book, and, by name, the finished legacy containers among the vaults. The
    /// keystore is none of them: it is sealed with the passphrase.
    pub fn self_encrypted_files(&self, existing: &[String], vault_names: &[String]) -> (r: (
        Vec<String>,
        Vec<String>,
    ))
        ensures
            ({
                let index = path_join(self.root(), INDEX_FILE@);
                let contacts = path_join(self.root(), CONTACTS_FILE@);
                texts(r.0@) == (if texts(existing@).contains(index) {
                    seq![index]
                } else {
                    Seq::empty()
                }) + (if texts(existing@).contains(contacts) {
                    seq![contacts]
                } else {
                    Seq::empty()
                })
            }),
            texts(r.1@) == texts(vault_names@).filter(has_extension(".fsec"@)),
    {
        let index = self.index_path();
        let contacts = self.contacts_path();
        let ghost (iv, cv) = (index@, contacts@);
        let has_index = text_in(existing, &index);
        let has_contacts = text_in(existing, &contacts);
        let mut top: Vec<String> = Vec::new();
        if has_index {
            top.push(index);
        }
        if has_contacts {
            top.push(contacts);
        }
        assert(texts(top@) =~= (if has_index {
            seq![iv]
        } else {
            Seq::<Seq<char>>::empty()
        }) + (if has_contacts {
            seq![cv]
        } else {
            Seq::<Seq<char>>::empty()
        }));
        (top, with_extension(vault_names, ".fsec"))
    }

    /// The vault directories among the names of the directories found with the vaults.
    pub fn v2_vault_dirs(&self, dir_names: &[String]) -> (r: Vec<String>)
        ensures
            texts(r@) == texts(dir_names@).filter(has_extension(".fsv2"@)),
    {
        with_extension(dir_names, ".fsv2")
    }
}

// ---------------------------------------------------------------------------
// Writing a file whole
// ---------------------------------------------------------------------------

/// The steps of replacing a file whole.
pub enum WriteStage {
    /// Create a private temp file.
    Create,
    /// Write it and make it durable.
    Fill,
    /// Rename it into place: the commit point.
    Rename,
    /// Make the rename durable.
    Sync,
    /// Remove the temp file of a failed write.
    Undo(String),
    Done,
    Failed(String),
}

/// The stage after a step of replacing a file.
pub open spec fn write_after(stage: WriteStage, reply: StepReply) -> WriteStage {
    match (stage, reply) {
        (WriteStage::Create, StepReply::Went) => WriteStage::Fill,
        (WriteStage::Create, StepReply::Failed(e)) => WriteStage::Failed(e),
        (WriteStage::Fill, StepReply::Went) => WriteStage::Rename,
        (WriteStage::Fill, StepReply::Failed(e)) => WriteStage::Undo(e),
        (WriteStage::Rename, StepReply::Went) => WriteStage::Sync,
        (WriteStage::Rename, StepReply::Failed(e)) => WriteStage::Undo(e),
        (WriteStage::Sync, _) => WriteStage::Done,
        (WriteStage::Undo(e), _) => WriteStage::Failed(e),
        (WriteStage::Done, _) => WriteStage::Done,
        (WriteStage::Failed(e), _) => WriteStage::Failed(e),
    }
}

/// The next step of replacing a file whole.
pub fn write_private_atomic(stage: WriteStage, reply: StepReply) -> (r: WriteStage)
    ensures
        r == write_after(stage, reply),
{
    match (stage, reply) {
        (WriteStage::Create, StepReply::Went) => WriteStage::Fill,
        (WriteStage::Create, StepReply::Failed(e)) => WriteStage::Failed(e),
        (WriteStage::Fill, StepReply::Went) => WriteStage::Rename,
        (WriteStage::Fill, StepReply::Failed(e)) => WriteStage::Undo(e),
        (WriteStage::Rename, StepReply::Went) => WriteStage::Sync,
        (WriteStage::Rename, StepReply::Failed(e)) => WriteStage::Undo(e),
        (WriteStage::Sync, _) => WriteStage::Done,
        (WriteStage::Undo(e), _) => WriteStage::Failed(e),
        (WriteStage::Done, _) => WriteStage::Done,
        (WriteStage::Failed(e), _) => WriteStage::Failed(e),
    }
}

/// A file and the temp file that is to replace it.
pub struct FilePair {
    pub file: Seq<u8>,
    pub temp: Option<Seq<u8>>,
}

/// Whether carrying out a step of writing `bytes`, or crashing inside it, may turn one
/// pair into the other. A write may stop half way; a rename happens or not.
pub open spec fn write_effect(stage: WriteStage, bytes: Seq<u8>, a: FilePair, b: FilePair) -> bool {
    match stage {
        WriteStage::Create => b == a || b == (FilePair { temp: Some(Seq::empty()), ..a }),
        WriteStage::Fill => b == (FilePair { temp: b.temp, ..a }),
        WriteStage::Rename => b == a || (a.temp is Some && b == (FilePair {
            file: a.temp->0,
            temp: None,
        })),
        WriteStage::Undo(_) => b == a || b == (FilePair { temp: None, ..a }),
        _ => b == a,
    }
}

/// What holds when a stage is reached: until the rename the file is as it was, and the
/// rename finds the temp file complete.
pub open spec fn write_ready(stage: WriteStage, before: Seq<u8>, bytes: Seq<u8>, d: FilePair) -> bool {
    match stage {
        WriteStage::Create | WriteStage::Fill => d.file == before,
        WriteStage::Rename => d.file == before && d.temp == Some(bytes),
        WriteStage::Sync | WriteStage::Done => d.file == bytes,
        WriteStage::Undo(_) | WriteStage::Failed(_) => d.file == before || d.file == bytes,
    }
}

/// A crash leaves the old file or the new one, never a half-written one.
pub proof fn law_a_file_is_never_half_written(
    stage: WriteStage,
    reply: StepReply,
    before: Seq<u8>,
    bytes: Seq<u8>,
    a: FilePair,
    b: FilePair,
)
    requires
        write_ready(stage, before, bytes, a),
        write_effect(stage, bytes, a, b),
    ensures
        b.file == before || b.file == bytes,
        (reply is Went && stage is Fill ==> b.temp == Some(bytes)) && (reply is Went
            && stage is Rename ==> b.file == bytes) ==> write_ready(
            write_after(stage, reply),
            before,
            bytes,
            b,
        ),
{
}

// ---------------------------------------------------------------------------
// Extracting a vault
// ---------------------------------------------------------------------------

/// One thing to write outside: a folder to make, or a file to make with its folders.
pub struct ExtractStep {
    pub folder: bool,
    pub target: String,
}

/// The values of a list of extraction steps.
pub open spec fn extract_views(v: Seq<ExtractStep>) -> Seq<(bool, Seq<char>)> {
    v.map_values(|s: ExtractStep| (s.folder, s.target@))
}

/// What extracting a vault's entries to a folder writes, in order.
pub fn extract_vault(entries: &[Entry], dest: &str) -> (r: Vec<ExtractStep>)
    ensures
        extract_views(r@) == listing(entries@).map_values(
            |e: Item| (e.1 == EntryKind::Dir, path_join(dest@, e.0)),
        ),
{
    let ghost items = listing(entries@);
    let ghost step = |e: Item| (e.1 == EntryKind::Dir, path_join(dest@, e.0));
    let mut r: Vec<ExtractStep> = Vec::new();
    let mut i: usize = 0;
    assert(extract_views(r@) =~= items.take(0).map_values(step));
    while i < entries.len()
        invariant
            i <= entries@.len(),
            items == listing(entries@),
            step == (|e: Item| (e.1 == EntryKind::Dir, path_join(dest@, e.0))),
            extract_views(r@) == items.take(i as int).map_values(step),
        decreases entries@.len() - i,
    {
        let target = join_file(dest, &entries[i].0);
        let ghost before = extract_views(r@);
        let ghost tv = target@;
        let folder = entries[i].1 == EntryKind::Dir;
        r.push(ExtractStep { folder, target });
        proof {
            assert(items[i as int] == item(entries@[i as int]));
            assert(extract_views(r@) =~= before.push((folder, tv)));
            assert(extract_views(r@) =~= items.take(i + 1).map_values(step));
        }
        i += 1;
    }
    assert(items.take(i as int) =~= items);
    r
}

/// Whether a path starts nowhere else than in the folder it is joined to, and climbs out
/// of none.
pub open spec fn stays_inside(path: Seq<char>) -> bool {
    &&& !(path.len() > 0 && path[0] == '/')
    &&& forall|i: int|
        0 <= i < segments(path, '/').len() ==> #[trigger] segments(path, '/')[i] != ".."@
}

/// Whether an entry's path can be extracted below a folder.
pub fn is_extractable(path: &str) -> (r: bool)
    ensures
        r == stays_inside(path@),
{
    let v = to_chars(path);
    if v.len() > 0 && v[0] == '/' {
        return false;
    }
    let segs = split_on(path, '/');
    let mut i: usize = 0;
    while i < segs.len()
        invariant
            i <= segs@.len(),
            texts(segs@) == segments(path@, '/'),
            forall|k: int| 0 <= k < i ==> #[trigger] segments(path@, '/')[k] != ".."@,
        decreases segs@.len() - i,
    {
        assert(segments(path@, '/')[i as int] == segs@[i as int]@);
        if same_text(&segs[i], "..") {
            return false;
        }
        i += 1;
    }
    true
}

/// The segments of a folder's path, without the empty one after a slash at its end.
pub open spec fn folder_segments(dest: Seq<char>) -> Seq<Seq<char>> {
    if dest.len() == 0 {
        Seq::empty()
    } else if dest.last() == '/' {
        segments(dest.drop_last(), '/')
    } else {
        segments(dest, '/')
    }
}

/// The names among the segments of a path: an empty one and `.` lead nowhere.
pub open spec fn named(segs: Seq<Seq<char>>) -> Seq<Seq<char>>
    decreases segs.len(),
{
    if segs.len() == 0 {
        segs
    } else if segs.last().len() == 0 || segs.last() == "."@ {
        named(segs.drop_last())
    } else {
        named(segs.drop_last()).push(segs.last())
    }
}

/// Where a path leads, folder by folder: `..` goes back to the folder above, if one is
/// known.
pub open spec fn resolved(segs: Seq<Seq<char>>) -> Seq<Seq<char>>
    decreases segs.len(),
{
    if segs.len() == 0 {
        segs
    } else {
        let before = resolved(segs.drop_last());
        if segs.last().len() == 0 || segs.last() == "."@ {
            before
        } else if segs.last() == ".."@ && before.len() > 0 && before.last() != ".."@ {
            before.drop_last()
        } else {
            before.push(segs.last())
        }
    }
}

/// What is extracted cannot escape: the segments of a target are those of the
/// destination and then those of the entry's path, none of which climbs, so the target
/// leads into the destination and from there down by the entry's own names.
pub proof fn law_extracted_files_stay_below(dest: Seq<char>, path: Seq<char>)
    requires
        stays_inside(path),
    ensures
        segments(path_join(dest, path), '/') == folder_segments(dest) + segments(path, '/'),
        !segments(path, '/').contains(".."@),
        resolved(segments(path_join(dest, path), '/')) == resolved(folder_segments(dest)) + named(
            segments(path, '/'),
        ),
{
    let p = segments(path, '/');
    if dest.len() == 0 {
        assert(dest + path =~= path);
        assert(folder_segments(dest) + p =~= p);
    } else if dest.last() == '/' {
        assert(dest =~= dest.drop_last().push('/'));
        lemma_segments_join(dest.drop_last(), '/', path);
    } else {
        lemma_segments_join(dest, '/', path);
    }
    lemma_resolved_down(folder_segments(dest), p);
}

proof fn lemma_resolved_down(a: Seq<Seq<char>>, b: Seq<Seq<char>>)
    requires
        forall|i: int| 0 <= i < b.len() ==> #[trigger] b[i] != ".."@,
    ensures
        resolved(a + b) == resolved(a) + named(b),
    decreases b.len(),
{
    if b.len() == 0 {
        assert(a + b =~= a);
        assert(resolved(a) + named(b) =~= resolved(a));
    } else {
        let t = b.drop_last();
        assert forall|i: int| 0 <= i < t.len() implies #[trigger] t[i] != ".."@ by {
            assert(t[i] == b[i]);
        }
        lemma_resolved_down(a, t);
        assert((a + b).drop_last() =~= a + t);
        assert(b[b.len() - 1] != ".."@);
        assert(resolved(a) + named(t).push(b.last()) =~= (resolved(a) + named(t)).push(b.last()));
    }
}

// ---------------------------------------------------------------------------
// Whole runs
// ---------------------------------------------------------------------------

/// A legacy vault that can be read is recovered: it is opened, written anew in full, put in
/// place and made durable, and only then is the legacy container wiped.
pub proof fn law_a_legacy_vault_is_recovered(s: Seq<MigrateStage>)
    requires
        s.len() == 7,
        s[0] is Clear,
        call_ensures(migrate_vault_v1_to_v2, (s[0], StepReply::Went), s[1]),
        call_ensures(migrate_vault_v1_to_v2, (s[1], StepReply::Went), s[2]),
        call_ensures(migrate_vault_v1_to_v2, (s[2], StepReply::Went), s[3]),
        call_ensures(migrate_vault_v1_to_v2, (s[3], StepReply::Went), s[4]),
        call_ensures(migrate_vault_v1_to_v2, (s[4], StepReply::Went), s[5]),
        call_ensures(migrate_vault_v1_to_v2, (s[5], StepReply::Went), s[6]),
    ensures
        s[1] is Open,
        s[2] is Build,
        s[3] is Commit,
        s[4] is Sync,
        s[5] is Wipe,
        s[6] is Done,
{
}

/// A recovery that fails before the new vault is in place never reaches the wipe, and says
/// why it failed.
pub proof fn law_a_failed_recovery_wipes_nothing(
    e: String,
    opened: MigrateStage,
    built: MigrateStage,
    undone: MigrateStage,
    committed: MigrateStage,
)
    requires
        call_ensures(migrate_vault_v1_to_v2, (MigrateStage::Open, StepReply::Failed(e)), opened),
        call_ensures(migrate_vault_v1_to_v2, (MigrateStage::Build, StepReply::Failed(e)), built),
        call_ensures(migrate_vault_v1_to_v2, (built, StepReply::Went), undone),
        call_ensures(
            migrate_vault_v1_to_v2,
            (MigrateStage::Commit, StepReply::Failed(e)),
            committed,
        ),
    ensures
        opened == MigrateStage::Failed(e),
        built == MigrateStage::Undo(e),
        undone == MigrateStage::Failed(e),
        committed == MigrateStage::Failed(e),
{
}

/// A vault that is not yet on the suite is re-keyed: written anew beside itself, set aside,
/// replaced, and only then is the copy set aside dropped. One that is there already is left
/// alone.
pub proof fn law_a_vault_is_rekeyed(s: Seq<RekeyStage>, there: RekeyStage)
    requires
        s.len() == 7,
        s[0] is Open,
        call_ensures(reencrypt_v2_vault, (s[0], RekeyReply::Went), s[1]),
        call_ensures(reencrypt_v2_vault, (s[1], RekeyReply::Went), s[2]),
        call_ensures(reencrypt_v2_vault, (s[2], RekeyReply::Went), s[3]),
        call_ensures(reencrypt_v2_vault, (s[3], RekeyReply::Went), s[4]),
        call_ensures(reencrypt_v2_vault, (s[4], RekeyReply::Went), s[5]),
        call_ensures(reencrypt_v2_vault, (s[5], RekeyReply::Went), s[6]),
        call_ensures(reencrypt_v2_vault, (s[0], RekeyReply::AlreadyThere), there),
    ensures
        s[1] is Clear,
        s[2] is Build,
        s[3] is SetAside,
        s[4] is Promote,
        s[5] is Drop,
        s[6] is Done,
        there is Done,
{
}

/// Re-keying that fails says why, and never drops the copy set aside.
pub proof fn law_failed_rekeying_drops_nothing(stage: RekeyStage, e: String, r: RekeyStage)
    requires
        stage is Open || stage is Build || stage is SetAside || stage is Promote,
        call_ensures(reencrypt_v2_vault, (stage, RekeyReply::Failed(e)), r),
    ensures
        r == RekeyStage::Failed(e) || (stage is Build && r == RekeyStage::Undo(e)),
{
}

/// Whether the phase after the `i`-th is the one that the upgrade goes on with.
pub open spec fn upgrades_on(phases: Seq<UpgradePhase>, files: usize, i: int) -> bool {
    call_ensures(next_upgrade_phase, (phases[i], files), phases[i + 1])
}

proof fn lemma_upgrades_on(phases: Seq<UpgradePhase>, files: usize, i: int)
    requires
        upgrades_on(phases, files, i),
    ensures
        phases[i + 1] == upgrade_after(phases[i], files),
{
    let a = phases[i];
    let b = phases[i + 1];
    assert(call_ensures(next_upgrade_phase, (a, files), b));
}

/// An upgrade treats every file twice, in order: each is opened to both identities before
/// the keystore changes over, and each is closed to the old one after that; then the vaults
/// are re-keyed, and it is done. Nothing is upgraded twice.
pub proof fn law_an_upgrade_takes_every_file(
    files: usize,
    first: Result<UpgradePhase, String>,
    refused: Result<UpgradePhase, String>,
    phases: Seq<UpgradePhase>,
    i: int,
)
    requires
        call_ensures(migrate_to_hybrid, (false, files), first),
        call_ensures(migrate_to_hybrid, (true, files), refused),
        first is Ok ==> phases[0] == first->Ok_0,
        phases.len() == 2 * files + 3,
        forall|k: int| 0 <= k < 2 * files + 2 ==> #[trigger] upgrades_on(phases, files, k),
        0 <= i < 2 * files + 3,
    ensures
        first is Ok,
        refused is Err,
        i < files ==> phases[i] == UpgradePhase::Bridge(i as usize),
        i == files ==> phases[i] is Commit,
        files < i <= 2 * files ==> phases[i] == UpgradePhase::Harden((i - files - 1) as usize),
        i == 2 * files + 1 ==> phases[i] is Rekey,
        i == 2 * files + 2 ==> phases[i] is Done,
    decreases i,
{
    if i > 0 {
        law_an_upgrade_takes_every_file(files, first, refused, phases, i - 1);
        assert(upgrades_on(phases, files, i - 1));
        lemma_upgrades_on(phases, files, i - 1);
    }
}

/// A file is replaced by writing a temp file, renaming it and making that durable; where
/// writing or renaming fails the temp file is removed and the reason is given.
pub proof fn law_a_file_is_replaced_in_order(
    s: Seq<WriteStage>,
    stage: WriteStage,
    e: String,
    failed: WriteStage,
    undone: WriteStage,
)
    requires
        s.len() == 5,
        s[0] is Create,
        call_ensures(write_private_atomic, (s[0], StepReply::Went), s[1]),
        call_ensures(write_private_atomic, (s[1], StepReply::Went), s[2]),
        call_ensures(write_private_atomic, (s[2], StepReply::Went), s[3]),
        call_ensures(write_private_atomic, (s[3], StepReply::Went), s[4]),
        stage is Fill || stage is Rename,
        call_ensures(write_private_atomic, (stage, StepReply::Failed(e)), failed),
        call_ensures(write_private_atomic, (failed, StepReply::Went), undone),
    ensures
        s[1] is Fill,
        s[2] is Rename,
        s[3] is Sync,
        s[4] is Done,
        failed == WriteStage::Undo(e),
        undone == WriteStage::Failed(e),
{
}

/// Extracting writes every entry, a folder as a folder and a file as a file, each at the
/// entry's own path below the destination.
pub proof fn law_every_entry_is_extracted(
    entries: &[Entry],
    dest: &str,
    r: Vec<ExtractStep>,
    i: int,
)
    requires
        call_ensures(extract_vault, (entries, dest), r),
        0 <= i < entries@.len(),
        dest@.len() > 0,
        dest@.last() != '/',
        entries@[i].0@.len() > 0,
        entries@[i].0@[0] != '/',
    ensures
        r@.len() == entries@.len(),
        r@[i].folder == (entries@[i].1 == EntryKind::Dir),
        r@[i].target@ == dest@ + "/"@ + entries@[i].0@,
{
    reveal_strlit("/");
    let items = listing(entries@);
    assert(items[i] == item(entries@[i]));
    assert(extract_views(r@).len() == r@.len());
    assert(extract_views(r@)[i] == (r@[i].folder, r@[i].target@));
    assert(dest@ + "/"@ + entries@[i].0@ =~= dest@.push('/') + entries@[i].0@);
}

/// A vault is opened from its own directory alone: the one named by its id among the vaults,
/// if it is there. Without it nothing is opened, whatever else is there.
pub proof fn law_a_vault_is_opened_from_its_own_directory(
    store: Store,
    id: &str,
    existing: &[String],
    r: Result<String, String>,
    dir: String,
)
    requires
        call_ensures(Store::open_vault, (&store, id, existing), r),
        call_ensures(Store::vault_dir_v2, (&store, id), dir),
    ensures
        r is Ok <==> texts(existing@).contains(dir@),
        r is Ok ==> r->Ok_0@ == dir@,
{
}

/// Two vaults never share a place: their directories and their containers are at different
/// paths, below the vaults' own directory.
pub proof fn law_vaults_have_places_of_their_own(
    store: Store,
    a: &str,
    b: &str,
    dir_a: String,
    dir_b: String,
    file_a: String,
    file_b: String,
)
    requires
        call_ensures(Store::vault_dir_v2, (&store, a), dir_a),
        call_ensures(Store::vault_dir_v2, (&store, b), dir_b),
        call_ensures(Store::vault_path, (&store, a), file_a),
        call_ensures(Store::vault_path, (&store, b), file_b),
        a@.len() > 0,
        b@.len() > 0,
        a@[0] != '/',
        b@[0] != '/',
    ensures
        dir_a@ == dir_b@ ==> a@ == b@,
        file_a@ == file_b@ ==> a@ == b@,
        dir_a@ != file_b@,
{
    reveal_strlit(".fsv2");
    reveal_strlit(".fsec");
    reveal_strlit("vaults");
    let base = path_join(store.root(), "vaults"@);
    assert(base.last() == 's');
    let (da, db) = (a@ + ".fsv2"@, b@ + ".fsv2"@);
    let (fa, fb) = (a@ + ".fsec"@, b@ + ".fsec"@);
    assert(da[0] == a@[0] && db[0] == b@[0] && fa[0] == a@[0] && fb[0] == b@[0]);
    assert(dir_a@ == base.push('/') + da && dir_b@ == base.push('/') + db);
    assert(file_a@ == base.push('/') + fa && file_b@ == base.push('/') + fb);
    let n = base.len() + 1int;
    assert(dir_a@.subrange(n, dir_a@.len() - 5) =~= a@);
    assert(dir_b@.subrange(n, dir_b@.len() - 5) =~= b@);
    assert(file_a@.subrange(n, file_a@.len() - 5) =~= a@);
    assert(file_b@.subrange(n, file_b@.len() - 5) =~= b@);
    assert(dir_a@.last() == '2' && file_b@.last() == 'c');
}

/// Deleting a vault wipes its directory and its legacy container, as far as they are there,
/// and touches nothing else.
pub proof fn law_deleting_a_vault_wipes_all_of_it(
    store: Store,
    id: &str,
    existing: &[String],
    r: Vec<WipeStep>,
    dir: String,
    file: String,
    p: Seq<char>,
)
    requires
        call_ensures(Store::delete_vault_file, (&store, id, existing), r),
        call_ensures(Store::vault_dir_v2, (&store, id), dir),
        call_ensures(Store::vault_path, (&store, id), file),
    ensures
        (exists|i: int| 0 <= i < r@.len() && (#[trigger] r@[i]).path@ == p && r@[i].folder) <==> (p
            == dir@ && texts(existing@).contains(p)),
        (exists|i: int| 0 <= i < r@.len() && (#[trigger] r@[i]).path@ == p && !r@[i].folder) <==> (p
            == file@ && texts(existing@).contains(p)),
{
    let v = wipe_views(r@);
    assert(v.len() == r@.len());
    assert forall|i: int| 0 <= i < r@.len() implies v[i] == ((#[trigger] r@[i]).folder, r@[i].path@) by {}
    if p == dir@ && texts(existing@).contains(p) {
        assert(v[0] == (true, p));
        assert(r@[0].folder);
    }
    if p == file@ && texts(existing@).contains(p) {
        let k = v.len() - 1;
        assert(v[k] == (false, p));
        assert(!r@[k].folder);
    }
}

/// A temp file for a checkout says nothing of the name of what is in it but its extension.
pub proof fn law_a_temp_file_keeps_only_the_extension(
    store: Store,
    stem: &str,
    a: &str,
    b: &str,
    ra: String,
    rb: String,
)
    requires
        call_ensures(Store::create_private_checkout_file, (&store, stem, a), ra),
        call_ensures(Store::create_private_checkout_file, (&store, stem, b), rb),
        crate::path::ext_split(a@).1 == crate::path::ext_split(b@).1,
    ensures
        ra@ == rb@,
        ra@.skip(ra@.len() - crate::path::ext_split(a@).1.len()) == crate::path::ext_split(a@).1,
{
    let e = crate::path::ext_split(a@).1;
    let name = stem@ + e;
    assert(ra@.skip(ra@.len() - name.len()) =~= name);
    assert(ra@.skip(ra@.len() - e.len()) =~= e);
}

/// The local store is encrypted as well as the identity allows: under the post-quantum suite
/// exactly where the identity has post-quantum keys.
pub proof fn law_the_store_uses_the_best_suite(hybrid: bool, r: SuiteId)
    requires
        call_ensures(self_suite, (hybrid,), r),
    ensures
        r == SuiteId::Hybrid <==> hybrid,
        !hybrid ==> r == SuiteId::Classic,
{
}

/// A registered vault is found by its id with what was registered last, a removed one is
/// not, and every other vault is found as before.
pub proof fn law_a_registered_vault_is_found(
    a: &mut Registry,
    meta: VaultMeta,
    b: &mut Registry,
    id: &str,
    x: Registry,
    y: Registry,
    there: Option<usize>,
    gone: Option<usize>,
    v: VaultMeta,
)
    requires
        call_ensures(Registry::upsert, (a, meta), ()),
        x == *final(a),
        meta.id@ == id@,
        *old(b) == *final(a),
        call_ensures(Registry::remove, (b, id), ()),
        y == *final(b),
        call_ensures(Registry::position, (&x, id), there),
        call_ensures(Registry::position, (&y, id), gone),
        v.id@ != id@,
    ensures
        there is Some && there->0 < x.vaults@.len() && x.vaults@[there->0 as int] == meta,
        gone is None,
        x.vaults@.contains(v) <==> old(a).vaults@.contains(v),
        y.vaults@.contains(v) <==> old(a).vaults@.contains(v),
{
    let before = old(a).vaults@;
    lemma_vault_pos(before, meta.id@);
    lemma_vault_pos(x.vaults@, id@);
    law_other_vaults_stay(before, meta, v);
    law_removed_vault_is_gone(x.vaults@, id@, v);
    let k = vault_pos(before, meta.id@);
    let at = if k >= 0 {
        k
    } else {
        before.len() as int
    };
    assert(x.vaults@[at].id@ == id@);
    assert(forall|i: int| 0 <= i < at ==> (#[trigger] x.vaults@[i]) == before[i]);
}

/// A file is wiped in order: looked for, made writable if it must be, opened, overwritten to
/// its very end, synced and only then unlinked. One that is not there is done with at once.
pub proof fn law_a_file_is_wiped_in_order(len: u64, s: Seq<WipeStage>, gone: WipeStage)
    requires
        s.len() == 7,
        s[0] is Look,
        call_ensures(secure_wipe, (s[0], WipeReply::Absent), gone),
        call_ensures(secure_wipe, (s[0], WipeReply::Found { len, readonly: true }), s[1]),
        call_ensures(secure_wipe, (s[1], WipeReply::Went), s[2]),
        call_ensures(secure_wipe, (s[2], WipeReply::Went), s[3]),
        0 < len <= 65_536,
        call_ensures(secure_wipe, (s[3], WipeReply::Went), s[4]),
        call_ensures(secure_wipe, (s[4], WipeReply::Went), s[5]),
        call_ensures(secure_wipe, (s[5], WipeReply::Went), s[6]),
    ensures
        gone is Done,
        s[1] == (WipeStage::Release { len }),
        s[2] == (WipeStage::Open { len }),
        s[3] == (WipeStage::Overwrite { len, written: 0 }),
        s[4] is Sync && s[5] is Unlink && s[6] is Done,
{
}

/// While bytes are left they are overwritten block by block, from where the last block ended;
/// the file is synced only once none is left.
pub proof fn law_every_byte_is_overwritten(
    len: u64,
    written: u64,
    n: u64,
    r: WipeStage,
)
    requires
        written < len,
        call_ensures(next_wipe_block, (len, written), n),
        call_ensures(
            secure_wipe,
            (WipeStage::Overwrite { len, written }, WipeReply::Went),
            r,
        ),
    ensures
        0 < n <= 65_536 && written + n <= len,
        written + n == len ==> r is Sync,
        written + n < len ==> r == (WipeStage::Overwrite { len, written: (written + n) as u64 }),
        written + n < len ==> n == 65_536,
{
}

/// A failed step of a wipe is reported, never taken for success.
pub proof fn law_a_failed_wipe_is_reported(stage: WipeStage, e: String, r: WipeStage)
    requires
        call_ensures(secure_wipe, (stage, WipeReply::Failed(e)), r),
        !(stage is Done) && !(stage is Failed) && !(stage is Release),
    ensures
        r == WipeStage::Failed(e),
{
}

/// Left-overs of an interrupted migration never cost the vault: a half-written directory goes,
/// one that was set aside comes back under its own name unless the new one is there, and
/// everything else stays.
pub proof fn law_left_overs_are_put_right(
    name: &str,
    vault: Seq<char>,
    there: bool,
    r: CleanStep,
    aside: Option<String>,
)
    requires
        call_ensures(clean_partial_dirs, (name, there), r),
        call_ensures(set_aside_name, (name,), aside),
    ensures
        name@ == vault + ".fsv2.partial"@ ==> r is Remove,
        name@ == vault + ".fsv2.old"@ && there ==> r is Remove,
        name@ == vault + ".fsv2.old"@ && !there ==> r is RollBack,
        name@ == vault + ".fsv2.old"@ ==> aside is Some && aside->0@ == vault + ".fsv2"@,
        name@ == vault + ".fsv2"@ ==> r is Keep && aside is None,
        r is RollBack ==> !there && aside is Some,
{
    reveal_strlit(".fsv2.partial");
    reveal_strlit(".fsv2.old");
    reveal_strlit(".fsv2");
    let partial = ".fsv2.partial"@;
    let old_dir = ".fsv2.old"@;
    assert(partial.last() == 'l' && old_dir.last() == 'd' && ".fsv2"@.last() == '2');
    if name@ == vault + partial {
        assert(name@.skip(name@.len() - partial.len()) =~= partial);
    }
    if name@ == vault + old_dir {
        assert(name@.skip(name@.len() - old_dir.len()) =~= old_dir);
        assert(name@.last() == 'd');
        if ends_with(name@, partial) {
            assert(name@.skip(name@.len() - partial.len()).last() == name@.last());
        }
        assert(set_aside_for(name@) =~= vault + ".fsv2"@);
    }
    if name@ == vault + ".fsv2"@ {
        assert(name@.last() == '2');
        if ends_with(name@, partial) {
            assert(name@.skip(name@.len() - partial.len()).last() == name@.last());
        }
        if ends_with(name@, old_dir) {
            assert(name@.skip(name@.len() - old_dir.len()).last() == name@.last());
        }
    }
}

/// The self-encrypted files are the registry and the contact book, where they exist, and every
/// legacy container; the vault directories are those with their extension. Nothing else is.
pub proof fn law_every_stored_file_is_listed(
    store: Store,
    existing: &[String],
    names: &[String],
    r: (Vec<String>, Vec<String>),
    dirs: Vec<String>,
    index: String,
    contacts: String,
    x: Seq<char>,
)
    requires
        call_ensures(Store::self_encrypted_files, (&store, existing, names), r),
        call_ensures(Store::v2_vault_dirs, (&store, names), dirs),
        call_ensures(Store::index_path, (&store,), index),
        call_ensures(Store::contacts_path, (&store,), contacts),
    ensures
        texts(r.0@).contains(x) <==> (x == index@ || x == contacts@) && texts(existing@).contains(
            x,
        ),
        texts(r.1@).contains(x) <==> texts(names@).contains(x) && x.len() > 5 && x.skip(
            x.len() - 5,
        ) == ".fsec"@,
        texts(dirs@).contains(x) <==> texts(names@).contains(x) && x.len() > 5 && x.skip(
            x.len() - 5,
        ) == ".fsv2"@,
{
    reveal_strlit(".fsec");
    reveal_strlit(".fsv2");
    crate::order::lemma_filter_members(texts(names@), has_extension(".fsec"@), x);
    crate::order::lemma_filter_members(texts(names@), has_extension(".fsv2"@), x);
    let a = if texts(existing@).contains(index@) {
        seq![index@]
    } else {
        Seq::empty()
    };
    let b = if texts(existing@).contains(contacts@) {
        seq![contacts@]
    } else {
        Seq::empty()
    };
    assert(texts(r.0@) == a + b);
    if x == index@ && texts(existing@).contains(x) {
        assert((a + b)[0] == x);
    }
    if x == contacts@ && texts(existing@).contains(x) {
        assert((a + b)[a.len() as int] == x);
    }
}

/// What is extracted stays below its folder: a path that starts at the root, or goes up
/// anywhere, is not extracted, and every other is.
pub proof fn law_paths_that_go_up_are_not_extracted(
    path: &str,
    parts: Vec<String>,
    r: bool,
)
    requires
        call_ensures(split_on, (path, '/'), parts),
        call_ensures(is_extractable, (path,), r),
    ensures
        path@.len() > 0 && path@[0] == '/' ==> !r,
        texts(parts@).contains(".."@) ==> !r,
        !(path@.len() > 0 && path@[0] == '/') && !texts(parts@).contains(".."@) ==> r,
{
    let segs = segments(path@, '/');
    if segs.contains(".."@) {
        let k = segs.index_of(".."@);
        assert(segs[k] == ".."@);
    }
    if !segs.contains(".."@) {
        assert(forall|i: int| 0 <= i < segs.len() ==> #[trigger] segs[i] != ".."@);
    }
}

/// A store without a registry has no vaults yet; one that cannot be read is an error, never an
/// empty registry.
pub proof fn law_an_unreadable_registry_is_an_error(
    store: Store,
    found: Result<Option<Registry>, String>,
    r: Result<Registry, String>,
)
    requires
        call_ensures(Store::load_registry, (&store, found), r),
    ensures
        found is Err ==> r is Err && r->Err_0 == found->Err_0,
        found is Ok && found->Ok_0 is Some ==> r is Ok && r->Ok_0 == found->Ok_0->0,
        found is Ok && found->Ok_0 is None ==> r is Ok && r->Ok_0.vaults@.len() == 0,
{
}

} // verus!
