//! Files leaving and coming back to a vault: saving, viewing, editing outside,
//! exporting to recipients, and the keys of contacts.

use vstd::prelude::*;
use crate::browse::{item, listing, total_size, Entry, EntryKind, Item};
use crate::contacts::{Contact, PreviewStatus, PublicKey};
use crate::fingerprint::{decode_fpr, fingerprint_of, hex, hex_text, same_fpr};
use crate::forms::ConfirmForm;
use crate::names::{cleaned, safe_leaf, sanitize_filename, sanitize_leaf};
use crate::path::{leaf_name, leaf_of};
use crate::report::{finished_message, Finished, JobReport, Outcome};
use crate::requests::{find_entry, kind_at};
use crate::secret::{opt_secret, Secret};
use crate::session::{ActiveView, Checkout, ExportForm, Session, SuiteId};
use crate::store::{vault_pos, Registry, VaultMeta};
use crate::text::{concat2, concat3, decimal, decimal_text, from_utf8, opt_text, owned, same_text, trim, trimmed};
use crate::trash::{live_counts, live_files};
use vstd::utf8::{encode_utf8, valid_utf8};

verus! {

// ---------------------------------------------------------------------------
// One file out of the vault
// ---------------------------------------------------------------------------

/// Why an entry cannot be taken out as a file, if it cannot.
pub open spec fn file_fault(items: Seq<Item>, path: Seq<char>, folder: Seq<char>) -> Option<
    Seq<char>,
> {
    match kind_at(items, path) {
        Some(EntryKind::File) => None,
        Some(EntryKind::Dir) => Some(folder),
        None => Some("Entry not found."@),
    }
}

/// Why an entry cannot be taken out as a file, if it cannot.
fn check_file(entries: &[Entry], path: &str, folder: &str) -> (r: Option<String>)
    ensures
        opt_text(r) == file_fault(listing(entries@), path@, folder@),
{
    match find_entry(entries, path) {
        None => Some(owned("Entry not found.")),
        Some(k) => {
            assert(listing(entries@)[k as int] == item(entries@[k as int]));
            match entries[k].1 {
                EntryKind::File => None,
                EntryKind::Dir => Some(owned(folder)),
            }
        },
    }
}

/// A file to decrypt to a private temp file.
pub struct TempRequest {
    /// The name of the entry.
    pub leaf: String,
    /// The name made safe for the file system.
    pub temp_leaf: String,
}

/// What decrypting an entry to a temp file comes to.
pub open spec fn temp_copy(
    s: Session,
    path: Seq<char>,
    folder: Seq<char>,
    r: Result<Option<TempRequest>, String>,
) -> bool {
    if s.checkout is Some {
        r is Err && r->Err_0@ == "Finish your current edit first."@
    } else if s.open is None {
        r is Ok && r->Ok_0 is None
    } else {
        match file_fault(listing(s.open->0.entries@), path, folder) {
            Some(e) => r is Err && r->Err_0@ == e,
            None => {
                &&& r is Ok && r->Ok_0 is Some
                &&& r->Ok_0->0.leaf@ == leaf_of(path)
                &&& r->Ok_0->0.temp_leaf@ == safe_leaf(leaf_of(path))
            },
        }
    }
}

/// What saving an entry as a file comes to.
pub open spec fn save_as_asked(a: Session, path: Seq<char>, r: Result<Option<String>, String>) -> bool {
    match a.open {
        None => r is Ok && r->Ok_0 is None,
        Some(o) => match file_fault(listing(o.entries@), path, "Only files can be saved."@) {
            Some(e) => r is Err && r->Err_0@ == e,
            None => r is Ok && opt_text(r->Ok_0) == Some(leaf_of(path)),
        },
    }
}

impl Session {
    /// The name to propose when an entry is saved as a file.
    pub fn request_save_as(&self, path: &str) -> (r: Result<Option<String>, String>)
        ensures
            save_as_asked(*self, path@, r),
    {
        match &self.open {
            None => Ok(None),
            Some(o) => match check_file(&o.entries, path, "Only files can be saved.") {
                Some(e) => Err(e),
                None => Ok(Some(owned(leaf_name(path)))),
            },
        }
    }

    /// What decrypting an entry to a temp file comes to.
    fn request_temp(&self, path: &str, folder: &str) -> (r: Result<Option<TempRequest>, String>)
        ensures
            temp_copy(*self, path@, folder@, r),
    {
        if self.checkout.is_some() {
            return Err(owned("Finish your current edit first."));
        }
        match &self.open {
            None => Ok(None),
            Some(o) => match check_file(&o.entries, path, folder) {
                Some(e) => Err(e),
                None => {
                    let leaf = owned(leaf_name(path));
                    let temp_leaf = sanitize_leaf(&leaf);
                    Ok(Some(TempRequest { leaf, temp_leaf }))
                },
            },
        }
    }

    /// Viewing an entry read-only.
    pub fn request_view(&self, path: &str) -> (r: Result<Option<TempRequest>, String>)
        ensures
            temp_copy(*self, path@, "Only files can be viewed."@, r),
    {
        self.request_temp(path, "Only files can be viewed.")
    }

    /// Checking an entry out for editing.
    pub fn request_check_out(&self, path: &str) -> (r: Result<Option<TempRequest>, String>)
        ensures
            temp_copy(*self, path@, "Only files can be edited."@, r),
    {
        self.request_temp(path, "Only files can be edited.")
    }
}

/// The steps of decrypting an entry to a temp file.
#[derive(Clone, Copy, Debug, PartialEq, Eq, Structural)]
pub enum TempStep {
    Create,
    OpenFile,
    Decrypt,
    Flush,
    Done,
}

/// The step after one that succeeded.
pub open spec fn temp_after(step: TempStep) -> TempStep {
    match step {
        TempStep::Create => TempStep::OpenFile,
        TempStep::OpenFile => TempStep::Decrypt,
        TempStep::Decrypt => TempStep::Flush,
        TempStep::Flush => TempStep::Done,
        TempStep::Done => TempStep::Done,
    }
}

/// Whether the temp file exists when a step is reached.
pub open spec fn temp_exists(step: TempStep) -> bool {
    step != TempStep::Create
}

/// What to do after a step of decrypting to a temp file: go on, or stop, wiping the
/// temp file if it exists.
pub enum TempNext {
    Go(TempStep),
    Stop { wipe: bool, report: JobReport },
}

/// What to do after a step of decrypting to a temp file.
pub fn next_temp_step(step: TempStep, failure: Option<String>) -> (r: TempNext)
    ensures
        match failure {
            None => r == TempNext::Go(temp_after(step)),
            Some(e) => r is Stop && r->wipe == temp_exists(step) && r->report.outcome is Noop
                && r->report.toast == Some((e, true)),
        },
{
    match failure {
        None => TempNext::Go(
            match step {
                TempStep::Create => TempStep::OpenFile,
                TempStep::OpenFile => TempStep::Decrypt,
                TempStep::Decrypt => TempStep::Flush,
                TempStep::Flush => TempStep::Done,
                TempStep::Done => TempStep::Done,
            },
        ),
        Some(e) => TempNext::Stop { wipe: step != TempStep::Create, report: JobReport::err(e) },
    }
}

/// How launching a viewer went.
#[derive(Clone, Copy, Debug, PartialEq, Eq, Structural)]
pub enum ViewLaunch {
    /// Launched, and the temp file is wiped when the application closes.
    WatchingForClose,
    /// Launched; the temp file is wiped when the user leaves the vault.
    LaunchedNoWatch,
    /// The launcher could not be started.
    Failed,
}

/// What is said when a read-only copy is open.
pub open spec fn view_text(leaf: Seq<char>, launch: ViewLaunch, temp_path: Seq<char>) -> Seq<char> {
    match launch {
        ViewLaunch::WatchingForClose => "Viewing "@ + leaf
            + " (read-only) — wiped when you close it."@,
        ViewLaunch::LaunchedNoWatch => "Viewing "@ + leaf
            + " (read-only) — wiped when you leave the vault."@,
        ViewLaunch::Failed => "Decrypted a read-only copy to "@ + temp_path
            + " (couldn't launch an app)."@,
    }
}

/// Reports that a read-only copy is open.
pub fn view_report(leaf: String, launch: ViewLaunch, temp_path: String) -> (r: JobReport)
    ensures
        r.outcome == Outcome::StartView(ActiveView { leaf, temp_path }),
        r.toast is Some,
        (r.toast->0).0@ == view_text(leaf@, launch, temp_path@),
        !(r.toast->0).1,
{
    let msg = match launch {
        ViewLaunch::WatchingForClose => concat3(
            "Viewing ",
            &leaf,
            " (read-only) — wiped when you close it.",
        ),
        ViewLaunch::LaunchedNoWatch => concat3(
            "Viewing ",
            &leaf,
            " (read-only) — wiped when you leave the vault.",
        ),
        ViewLaunch::Failed => concat3(
            "Decrypted a read-only copy to ",
            &temp_path,
            " (couldn't launch an app).",
        ),
    };
    proof {
        reveal_strlit("Viewing ");
        reveal_strlit("Decrypted a read-only copy to ");
    }
    JobReport::ok(Outcome::StartView(ActiveView { leaf, temp_path }), msg)
}

/// Reports that a file is checked out.
pub fn check_out_report(c: Checkout, launched: bool) -> (r: JobReport)
    ensures
        r.outcome == Outcome::StartCheckout(c),
        r.toast is Some,
        (r.toast->0).0@ == (if launched {
            "Editing "@ + c.leaf@ + " — check in or discard when done."@
        } else {
            "Decrypted to "@ + c.temp_path@ + " (couldn't launch an editor — open it manually)."@
        }),
        !(r.toast->0).1,
{
    let msg = if launched {
        concat3("Editing ", &c.leaf, " — check in or discard when done.")
    } else {
        concat3(
            "Decrypted to ",
            &c.temp_path,
            " (couldn't launch an editor — open it manually).",
        )
    };
    proof {
        reveal_strlit("Editing ");
        reveal_strlit("Decrypted to ");
    }
    JobReport::ok(Outcome::StartCheckout(c), msg)
}

impl Session {
    /// The temp file to check in: the vault it came from has to be open.
    pub fn request_check_in(&self) -> (r: Result<Option<&Checkout>, String>)
        ensures
            match (self.checkout, self.open) {
                (Some(c), Some(o)) => if o.id@ == c.vault_id@ {
                    r is Ok && r->Ok_0 == Some(&c)
                } else {
                    r is Err && r->Err_0@ == "The checked-out vault is no longer open."@
                },
                _ => r is Ok && r->Ok_0 is None,
            },
    {
        match (&self.checkout, &self.open) {
            (Some(c), Some(o)) => {
                if same_text(&o.id, &c.vault_id) {
                    Ok(Some(c))
                } else {
                    Err(owned("The checked-out vault is no longer open."))
                }
            },
            _ => Ok(None),
        }
    }
}

/// What checking a file in comes to once it is hashed: an unchanged file is dropped,
/// a changed one is written back.
pub fn check_in_unchanged(c: &Checkout, new_hash: &[u8; 32]) -> (r: Option<JobReport>)
    ensures
        match r {
            Some(rep) => new_hash@ == c.orig_blake3@ && reports_end(
                rep,
                None,
                "No changes — edit discarded."@,
            ),
            None => new_hash@ != c.orig_blake3@,
        },
{
    if same_fpr(new_hash, &c.orig_blake3) {
        proof {
            reveal_strlit("No changes — edit discarded.");
        }
        Some(
            JobReport::ok(
                Outcome::EndCheckout { replace: None },
                owned("No changes — edit discarded."),
            ),
        )
    } else {
        None
    }
}

/// The steps of checking a file in.
pub enum CheckInStep {
    /// Hash the temp file.
    Hash,
    /// Write the temp file back into the vault.
    WriteBack,
    /// Wipe the temp file of an edit that changed nothing.
    WipeUnchanged(JobReport),
    /// Wipe the temp file of an edit that is in the vault now.
    WipeSaved,
    /// Open the saved vault again.
    Reopen,
    Done(JobReport),
}

/// How a step of checking a file in went.
pub enum CheckInReply {
    Went,
    Hashed([u8; 32]),
    Reopened { id: String, entries: Vec<Entry>, registry: Registry },
    Failed(String),
}

/// Whether a step wipes the temp file.
pub open spec fn wipes_temp(step: CheckInStep) -> bool {
    step is WipeUnchanged || step is WipeSaved
}

/// Whether a report is that of a failure, which leaves the edit checked out.
pub open spec fn reports_failure(r: JobReport, e: String) -> bool {
    r.outcome is Noop && r.toast == Some((e, true))
}

/// Whether a report ends an edit, with a text.
pub open spec fn reports_end(
    r: JobReport,
    replace: Option<(String, Vec<Entry>, Registry)>,
    msg: Seq<char>,
) -> bool {
    &&& r.outcome == (Outcome::EndCheckout { replace })
    &&& r.toast is Some
    &&& (r.toast->0).0@ == msg
    &&& !(r.toast->0).1
}

/// Whether `r` is the step after one of checking `c` in that went as `reply` says. A reply
/// that answers another step changes nothing, and whether a wipe succeeds makes no
/// difference.
pub open spec fn check_in_next_is(
    step: CheckInStep,
    c: Checkout,
    reply: CheckInReply,
    r: CheckInStep,
) -> bool {
    match (step, reply) {
        (CheckInStep::Hash, CheckInReply::Hashed(h)) => if h@ == c.orig_blake3@ {
            r is WipeUnchanged && reports_end(
                r->WipeUnchanged_0,
                None,
                "No changes — edit discarded."@,
            )
        } else {
            r is WriteBack
        },
        (CheckInStep::WriteBack, CheckInReply::Went) => r is WipeSaved,
        (CheckInStep::WipeUnchanged(report), _) => r == CheckInStep::Done(report),
        (CheckInStep::WipeSaved, _) => r is Reopen,
        (CheckInStep::Reopen, CheckInReply::Reopened { id, entries, registry }) => r is Done
            && reports_end(r->Done_0, Some((id, entries, registry)), "Checked in."@),
        (CheckInStep::Done(report), _) => r == step,
        (_, CheckInReply::Failed(e)) => r is Done && reports_failure(r->Done_0, e),
        _ => r == step,
    }
}

/// The next step of checking a file in. The temp file is wiped only once the vault holds
/// what is in it.
pub fn next_check_in_step(step: CheckInStep, c: &Checkout, reply: CheckInReply) -> (r: CheckInStep)
    ensures
        check_in_next_is(step, *c, reply, r),
{
    match (step, reply) {
        (CheckInStep::Hash, CheckInReply::Hashed(h)) => match check_in_unchanged(c, &h) {
            Some(report) => CheckInStep::WipeUnchanged(report),
            None => CheckInStep::WriteBack,
        },
        (CheckInStep::WriteBack, CheckInReply::Went) => CheckInStep::WipeSaved,
        (CheckInStep::WipeUnchanged(report), _) => CheckInStep::Done(report),
        (CheckInStep::WipeSaved, _) => CheckInStep::Reopen,
        (CheckInStep::Reopen, CheckInReply::Reopened { id, entries, registry }) => {
            proof {
                reveal_strlit("Checked in.");
            }
            CheckInStep::Done(
                JobReport::ok(
                    Outcome::EndCheckout { replace: Some((id, entries, registry)) },
                    finished_message(&Finished::CheckedIn),
                ),
            )
        },
        (CheckInStep::Done(report), _) => CheckInStep::Done(report),
        (_, CheckInReply::Failed(e)) => CheckInStep::Done(JobReport::err(e)),
        (step, _) => step,
    }
}

/// Whether `steps` are the steps of checking `c` in, one after the other, with these
/// replies.
pub open spec fn check_in_ran(
    c: Checkout,
    steps: Seq<CheckInStep>,
    replies: Seq<CheckInReply>,
) -> bool {
    &&& steps.len() == replies.len() + 1
    &&& steps[0] is Hash
    &&& forall|i: int|
        0 <= i < replies.len() ==> check_in_next_is(
            steps[i],
            c,
            #[trigger] replies[i],
            steps[i + 1],
        )
}

/// How far a step of checking in is.
spec fn check_in_rank(step: CheckInStep) -> int {
    match step {
        CheckInStep::Hash => 0,
        CheckInStep::WriteBack => 1,
        CheckInStep::WipeUnchanged(_) => 2,
        CheckInStep::WipeSaved => 2,
        CheckInStep::Reopen => 3,
        CheckInStep::Done(_) => 4,
    }
}

proof fn lemma_check_in_goes_on(
    c: Checkout,
    steps: Seq<CheckInStep>,
    replies: Seq<CheckInReply>,
    i: int,
    k: int,
)
    requires
        check_in_ran(c, steps, replies),
        0 <= i <= k < steps.len(),
    ensures
        check_in_rank(steps[i]) <= check_in_rank(steps[k]),
    decreases k - i,
{
    if i < k {
        lemma_check_in_goes_on(c, steps, replies, i, k - 1);
        assert(check_in_next_is(steps[k - 1], c, replies[k - 1], steps[k - 1 + 1]));
    }
}

/// An edit that could not be hashed or written back is kept: no step of such a check-in
/// wipes the temp file, and the report leaves it checked out.
pub proof fn law_failed_check_in_keeps_the_edit(
    c: Checkout,
    steps: Seq<CheckInStep>,
    replies: Seq<CheckInReply>,
    i: int,
    k: int,
)
    requires
        check_in_ran(c, steps, replies),
        0 <= i < replies.len(),
        steps[i] is Hash || steps[i] is WriteBack,
        replies[i] is Failed,
        0 <= k < steps.len(),
    ensures
        !wipes_temp(steps[k]),
        k > i ==> steps[k] is Done && reports_failure(steps[k]->Done_0, replies[i]->Failed_0),
    decreases k,
{
    if k <= i {
        lemma_check_in_goes_on(c, steps, replies, k, i);
    } else {
        assert(check_in_next_is(steps[k - 1], c, replies[k - 1], steps[k - 1 + 1]));
        if k > i + 1 {
            law_failed_check_in_keeps_the_edit(c, steps, replies, i, k - 1);
        }
    }
}

/// An edit is wiped only if it changed nothing, or once it has been written back.
pub proof fn law_wiped_edits_are_in_the_vault(
    c: Checkout,
    steps: Seq<CheckInStep>,
    replies: Seq<CheckInReply>,
    k: int,
)
    requires
        check_in_ran(c, steps, replies),
        0 <= k < steps.len(),
        wipes_temp(steps[k]),
    ensures
        exists|j: int|
            0 <= j < k && ((steps[j] is Hash && #[trigger] replies[j] is Hashed
                && replies[j]->Hashed_0@ == c.orig_blake3@) || (steps[j] is WriteBack
                && replies[j] is Went)),
{
    assert(check_in_next_is(steps[k - 1], c, replies[k - 1], steps[k - 1 + 1]));
}

// ---------------------------------------------------------------------------
// After a vault was saved
// ---------------------------------------------------------------------------

/// Whether the sizes of all entries add up to a number that fits.
pub fn sizes_fit(entries: &[Entry]) -> (r: bool)
    ensures
        r == (total_size(listing(entries@)) <= u64::MAX),
{
    let ghost items = listing(entries@);
    let mut sum: u64 = 0;
    let mut i: usize = 0;
    assert(items.take(0) =~= Seq::<Item>::empty());
    while i < entries.len()
        invariant
            i <= entries@.len(),
            items == listing(entries@),
            sum == total_size(items.take(i as int)),
        decreases entries@.len() - i,
    {
        proof {
            assert(items.take(i + 1).drop_last() =~= items.take(i as int));
            assert(items[i as int] == item(entries@[i as int]));
            lemma_total_grows(items, i + 1);
        }
        match sum.checked_add(entries[i].2) {
            Some(n) => {
                sum = n;
            },
            None => {
                return false;
            },
        }
        i += 1;
    }
    assert(items.take(i as int) =~= items);
    true
}

proof fn lemma_total_grows(items: Seq<Item>, k: int)
    requires
        0 <= k <= items.len(),
    ensures
        total_size(items.take(k)) <= total_size(items),
    decreases items.len(),
{
    if k < items.len() {
        assert(items.drop_last().take(k) =~= items.take(k));
        lemma_total_grows(items.drop_last(), k);
    } else {
        assert(items.take(k) =~= items);
    }
}

proof fn lemma_live_total(items: Seq<Item>)
    ensures
        total_size(live_files(items)) <= total_size(items),
    decreases items.len(),
{
    reveal(Seq::filter);
    if items.len() > 0 {
        lemma_live_total(items.drop_last());
        let f = live_files(items);
        let g = live_files(items.drop_last());
        assert(f =~= g || f =~= g.push(items.last()));
        if f =~= g.push(items.last()) {
            assert(f.drop_last() =~= g);
        }
    }
}

/// The registry entry of a vault that was just saved: it counts what the browser
/// shows, so not the trash.
pub fn saved_meta(id: &str, name: &str, created_at: i64, now: i64, entries: &[Entry]) -> (m: VaultMeta)
    requires
        total_size(listing(entries@)) <= u64::MAX,
    ensures
        m.id@ == id@ && m.name@ == name@ && m.created_at == created_at && m.modified_at == now,
        m.file_count == live_files(listing(entries@)).len(),
        m.total_size == total_size(live_files(listing(entries@))),
{
    proof {
        lemma_live_total(listing(entries@));
    }
    let (file_count, total_size) = live_counts(entries);
    VaultMeta {
        id: owned(id),
        name: owned(name),
        created_at,
        modified_at: now,
        file_count,
        total_size,
    }
}

/// The registry with a vault that was just saved brought up to date.
pub fn reopen_after_save(
    registry: Registry,
    id: &str,
    name: &str,
    created_at: i64,
    now: i64,
    entries: &[Entry],
) -> (r: Registry)
    requires
        total_size(listing(entries@)) <= u64::MAX,
    ensures
        exists|m: VaultMeta|
            {
                &&& m.id@ == id@ && m.name@ == name@ && m.created_at == created_at && m.modified_at
                    == now
                &&& m.file_count == live_files(listing(entries@)).len()
                &&& m.total_size == total_size(live_files(listing(entries@)))
                &&& r.vaults@ == #[trigger] crate::store::with_vault(registry.vaults@, m)
            },
{
    let mut reg = registry;
    let m = saved_meta(id, name, created_at, now, entries);
    let ghost mv = m;
    reg.upsert(m);
    assert(reg.vaults@ == crate::store::with_vault(registry.vaults@, mv));
    reg
}

// ---------------------------------------------------------------------------
// Exporting to recipients
// ---------------------------------------------------------------------------

/// An export to carry out.
pub struct ExportRequest {
    pub vault_id: String,
    pub recipients: Vec<PublicKey>,
    pub suite: SuiteId,
    /// The file name to propose.
    pub suggested: String,
}

/// Whether a contact is ticked in the export dialog.
pub open spec fn is_ticked(selected: Set<Seq<char>>) -> spec_fn(Contact) -> bool {
    |c: Contact| selected.contains(hex_text(c.key.fpr@))
}

/// The ticked contacts, in the order of the book, and the user if ticked.
pub open spec fn recipients_of(s: Session, form: ExportForm) -> Seq<PublicKey> {
    s.contacts.contacts@.filter(is_ticked(form.selected@)).map_values(|c: Contact| c.key) + (
    if form.include_self {
        seq![s.identity]
    } else {
        Seq::empty()
    })
}

/// The name of a vault in the registry, or a stand-in.
pub open spec fn vault_name_of(vaults: Seq<VaultMeta>, id: Seq<char>) -> Seq<char> {
    if vault_pos(vaults, id) >= 0 {
        vaults[vault_pos(vaults, id)].name@
    } else {
        "vault"@
    }
}

/// A file name made from a name.
pub open spec fn file_name_text(name: Seq<char>, ext: Seq<char>) -> Seq<char> {
    (if name.len() == 0 {
        "filesec"@
    } else {
        cleaned(name, false)
    }) + ext
}

/// Proposes a file name made from a name.
pub fn suggested_name(name: &str, ext: &str) -> (r: String)
    ensures
        r@ == file_name_text(name@, ext@),
{
    concat2(&sanitize_filename(name), ext)
}

/// Why an export is refused, if it is.
pub open spec fn export_fault(recipients: Seq<PublicKey>, suite: SuiteId) -> Option<Seq<char>> {
    if recipients.len() == 0 {
        Some("Select at least one recipient."@)
    } else if suite == SuiteId::Hybrid && exists|i: int|
        0 <= i < recipients.len() && !(#[trigger] recipients[i]).hybrid {
        Some(
            "Hybrid PQC requires every recipient to have post-quantum keys. Ask them to re-share an updated public key, or pick another suite."@,
        )
    } else {
        None
    }
}

/// What confirming the export dialog comes to.
pub open spec fn export_asked(a: Session, r: Result<Option<ExportRequest>, String>) -> bool {
    match a.export {
        None => r is Ok && r->Ok_0 is None,
        Some(form) => match export_fault(recipients_of(a, form), form.suite) {
            Some(e) => r is Err && r->Err_0@ == e,
            None => {
                &&& r is Ok && r->Ok_0 is Some
                &&& r->Ok_0->0.vault_id@ == form.vault_id@
                &&& r->Ok_0->0.recipients@ == recipients_of(a, form)
                &&& r->Ok_0->0.suite == form.suite
                &&& r->Ok_0->0.suggested@ == file_name_text(
                    vault_name_of(a.registry.vaults@, form.vault_id@),
                    ".fsec"@,
                )
            },
        },
    }
}

impl Session {
    /// The recipients that the export dialog has ticked.
    fn ticked(&self, form: &ExportForm) -> (r: Vec<PublicKey>)
        ensures
            r@ == recipients_of(*self, *form),
    {
        let ghost all = self.contacts.contacts@;
        let ghost keep = is_ticked(form.selected@);
        let ghost key = |c: Contact| c.key;
        let mut r: Vec<PublicKey> = Vec::new();
        let mut i: usize = 0;
        proof {
            reveal(Seq::filter);
            assert(all.take(0).filter(keep) =~= Seq::<Contact>::empty());
            assert(r@ =~= all.take(0).filter(keep).map_values(key));
        }
        while i < self.contacts.contacts.len()
            invariant
                i <= all.len(),
                all == self.contacts.contacts@,
                keep == is_ticked(form.selected@),
                key == (|c: Contact| c.key),
                r@ == all.take(i as int).filter(keep).map_values(key),
            decreases all.len() - i,
        {
            let c = &self.contacts.contacts[i];
            proof {
                reveal(Seq::filter);
                assert(all.take(i + 1).drop_last() =~= all.take(i as int));
            }
            if form.selected.contains(&hex(&c.key.fpr)) {
                let ghost before = r@;
                r.push(c.key.copy());
                assert(all.take(i + 1).filter(keep).map_values(key) =~= before.push(c.key));
            } else {
                assert(all.take(i + 1).filter(keep) =~= all.take(i as int).filter(keep));
            }
            i += 1;
        }
        assert(all.take(i as int) =~= all);
        if form.include_self {
            r.push(self.identity.copy());
        }
        assert(r@ =~= recipients_of(*self, *form));
        r
    }

    /// Confirms the export dialog.
    pub fn request_export(&self) -> (r: Result<Option<ExportRequest>, String>)
        ensures
            export_asked(*self, r),
    {
        match &self.export {
            None => Ok(None),
            Some(form) => {
                let recipients = self.ticked(form);
                if recipients.len() == 0 {
                    return Err(owned("Select at least one recipient."));
                }
                if form.suite == SuiteId::Hybrid {
                    let mut i: usize = 0;
                    while i < recipients.len()
                        invariant
                            i <= recipients@.len(),
                            forall|k: int| 0 <= k < i ==> (#[trigger] recipients@[k]).hybrid,
                            recipients@ == recipients_of(*self, *form),
                            self.export == Some(*form),
                            form.suite == SuiteId::Hybrid,
                            recipients@.len() > 0,
                        decreases recipients@.len() - i,
                    {
                        if !recipients[i].hybrid {
                            return Err(
                                owned(
                                    "Hybrid PQC requires every recipient to have post-quantum keys. Ask them to re-share an updated public key, or pick another suite.",
                                ),
                            );
                        }
                        i += 1;
                    }
                }
                let suggested = match self.registry.position(&form.vault_id) {
                    Some(k) => suggested_name(&self.registry.vaults[k].name, ".fsec"),
                    None => suggested_name("vault", ".fsec"),
                };
                Ok(
                    Some(
                        ExportRequest {
                            vault_id: owned(&form.vault_id),
                            recipients,
                            suite: form.suite,
                            suggested,
                        },
                    ),
                )
            },
        }
    }
}

/// What is said after an export; `suite_label` names the suite.
pub fn exported_message(target: &str, count: usize, suite_label: &str) -> (r: String)
    ensures
        r@ == "Exported to "@ + target@ + " for "@ + decimal_text(count as nat)
            + " recipient(s) using "@ + suite_label@ + "."@,
{
    let mut r = concat3("Exported to ", target, " for ");
    r.append(&decimal(count as u64));
    r.append(" recipient(s) using ");
    r.append(suite_label);
    r.append(".");
    r
}

/// The short name of a suite.
pub fn suite_short(s: SuiteId) -> (r: &'static str)
    ensures
        r@ == (match s {
            SuiteId::Classic => "Classic"@,
            SuiteId::Aes256Gcm => "AES-256-GCM"@,
            SuiteId::Hybrid => "Hybrid PQC"@,
        }),
{
    match s {
        SuiteId::Classic => "Classic",
        SuiteId::Aes256Gcm => "AES-256-GCM",
        SuiteId::Hybrid => "Hybrid PQC",
    }
}

/// Only chosen parties can open an export: every recipient is a ticked contact or,
/// if ticked, the user; and a post-quantum export goes to post-quantum keys alone.
pub proof fn law_only_chosen_recipients(s: Session, form: ExportForm, k: int)
    requires
        export_fault(recipients_of(s, form), form.suite) is None,
        0 <= k < recipients_of(s, form).len(),
    ensures
        ({
            let key = recipients_of(s, form)[k];
            ||| form.include_self && key == s.identity
            ||| exists|i: int|
                0 <= i < s.contacts.contacts@.len() && (#[trigger] s.contacts.contacts@[i]).key
                    == key && form.selected@.contains(hex_text(key.fpr@))
        }),
        form.suite == SuiteId::Hybrid ==> recipients_of(s, form)[k].hybrid,
{
    let all = s.contacts.contacts@;
    let keep = is_ticked(form.selected@);
    let f = all.filter(keep);
    if k < f.len() {
        assert(f.contains(f[k]));
        crate::order::lemma_filter_members(all, keep, f[k]);
        let i = choose|i: int| 0 <= i < all.len() && all[i] == f[k];
        assert(recipients_of(s, form)[k] == all[i].key);
    }
}

// ---------------------------------------------------------------------------
// Keys of contacts
// ---------------------------------------------------------------------------

/// The largest public key file that is read.
pub const MAX_PUBLIC_IDENTITY_FILE_LEN: u64 = 262_144;

/// The largest identity backup that is read.
pub const MAX_IDENTITY_BACKUP_FILE_LEN: u64 = 4_194_304;

/// Whether a file may be read at all: it has to be a file of at most `max_len` bytes.
pub fn check_bounded(is_file: bool, len: u64, max_len: u64, label: &str) -> (r: Result<(), String>)
    ensures
        match r {
            Ok(_) => is_file && len <= max_len,
            Err(e) => if !is_file {
                e@ == label@ + " is not a file."@
            } else {
                len > max_len && e@ == label@ + " is too large."@
            },
        },
{
    if !is_file {
        Err(concat2(label, " is not a file."))
    } else if len > max_len {
        Err(concat2(label, " is too large."))
    } else {
        Ok(())
    }
}

/// The bytes that were read, unless the file grew past `max_len` meanwhile.
pub fn read_bounded_file(bytes: Vec<u8>, max_len: u64, label: &str) -> (r: Result<Vec<u8>, String>)
    ensures
        match r {
            Ok(b) => b == bytes && bytes@.len() <= max_len,
            Err(e) => bytes@.len() > max_len && e@ == label@ + " is too large."@,
        },
{
    if bytes.len() as u64 > max_len {
        Err(concat2(label, " is too large."))
    } else {
        Ok(bytes)
    }
}

/// The text that was read.
pub fn read_bounded_text_file(bytes: Vec<u8>, max_len: u64, label: &str) -> (r: Result<
    String,
    String,
>)
    ensures
        match r {
            Ok(t) => bytes@.len() <= max_len && valid_utf8(bytes@) && encode_utf8(t@) == bytes@,
            Err(e) => if bytes@.len() > max_len {
                e@ == label@ + " is too large."@
            } else {
                !valid_utf8(bytes@) && e@ == label@ + " is not valid UTF-8."@
            },
        },
{
    match read_bounded_file(bytes, max_len, label) {
        Err(e) => Err(e),
        Ok(b) => match from_utf8(&b) {
            Some(t) => Ok(t),
            None => Err(concat2(label, " is not valid UTF-8.")),
        },
    }
}

/// What previewing the pasted key comes to.
pub open spec fn paste_asked(a: Session, r: Result<String, String>) -> bool {
    match r {
        Ok(t) => t@ == trimmed(a.contact_paste@) && t@.len() > 0,
        Err(e) => trimmed(a.contact_paste@).len() == 0 && e@
            == "Paste a public key first."@,
    }
}

/// What confirming the staged key comes to.
pub open spec fn add_contact_asked(a: Session, b: Session, r: Result<Option<PublicKey>, String>) -> bool {
    match a.contact_preview {
        None => r is Ok && r->Ok_0 is None && b == a,
        Some(p) => if p.status is SelfKey {
            &&& r is Err
            &&& r->Err_0@ == "That's your own key — no need to add yourself."@
            &&& b == a
        } else {
            &&& r == Ok::<Option<PublicKey>, String>(Some(p.key))
            &&& b.contact_paste@.len() == 0
            &&& b == (Session {
                contact_preview: None,
                contact_paste: b.contact_paste,
                ..a
            })
        },
    }
}

/// What confirming the upgrade dialog comes to.
pub open spec fn migrate_asked(a: Session, b: Session, r: Option<Secret>) -> bool {
    match a.migrate {
        None => r is None && b == a,
        Some(f) => if f.pass@.len() == 0 {
            &&& r is None
            &&& b.migrate is Some
            &&& crate::forms::shows(
                b.migrate->0.error,
                "Enter your passphrase to confirm."@,
            )
            &&& b == (Session {
                migrate: Some(ConfirmForm { error: b.migrate->0.error, ..f }),
                ..a
            })
        } else {
            &&& opt_secret(r) == Some(f.pass@)
            &&& b == (Session { migrate: None, ..a })
        },
    }
}

impl Session {
    /// The pasted text to parse as a public key.
    pub fn request_paste(&self) -> (r: Result<String, String>)
        ensures
            paste_asked(*self, r),
    {
        let t = trim(&self.contact_paste);
        if t.as_str().is_empty() {
            Err(owned("Paste a public key first."))
        } else {
            Ok(t)
        }
    }

    /// Confirms the staged key: it is handed out to be saved, unless it is the user's
    /// own.
    pub fn request_add_contact(&mut self) -> (r: Result<Option<PublicKey>, String>)
        ensures
            add_contact_asked(*old(self), *final(self), r),
    {
        match self.contact_preview.take() {
            None => Ok(None),
            Some(p) => {
                match p.status {
                    PreviewStatus::SelfKey => {
                        self.contact_preview = Some(p);
                        Err(owned("That's your own key — no need to add yourself."))
                    },
                    _ => {
                        self.contact_paste = String::new();
                        Ok(Some(p.key))
                    },
                }
            },
        }
    }

    /// Confirms the upgrade dialog.
    pub fn request_migrate(&mut self) -> (r: Option<Secret>)
        ensures
            migrate_asked(*old(self), *final(self), r),
    {
        match self.migrate.take() {
            None => None,
            Some(mut f) => {
                let r = f.request();
                if r.is_none() {
                    self.migrate = Some(f);
                }
                r
            },
        }
    }
}

/// A fingerprint that names a contact.
pub fn request_fingerprint(fpr_hex: &str) -> (r: Result<[u8; 32], String>)
    ensures
        match r {
            Ok(f) => fingerprint_of(fpr_hex@) == Some(f@),
            Err(e) => fingerprint_of(fpr_hex@) is None && e@ == "Bad fingerprint."@,
        },
{
    match decode_fpr(fpr_hex) {
        Some(f) => Ok(f),
        None => Err(owned("Bad fingerprint.")),
    }
}

/// An export goes to everyone who was chosen: each ticked contact and, if ticked, the user
/// is among the recipients, so each of them can open it; the vault and the suite are the
/// chosen ones.
pub proof fn law_everyone_chosen_can_open_the_export(
    s: Session,
    form: ExportForm,
    q: ExportRequest,
)
    requires
        s.export == Some(form),
        call_ensures(
            Session::request_export,
            (&s,),
            Ok::<Option<ExportRequest>, String>(Some(q)),
        ),
    ensures
        forall|i: int|
            0 <= i < s.contacts.contacts@.len() && form.selected@.contains(
                hex_text((#[trigger] s.contacts.contacts@[i]).key.fpr@),
            ) ==> q.recipients@.contains(s.contacts.contacts@[i].key),
        form.include_self ==> q.recipients@.contains(s.identity),
        q.recipients@.len() > 0,
        form.suite == SuiteId::Hybrid ==> forall|k: int|
            0 <= k < q.recipients@.len() ==> (#[trigger] q.recipients@[k]).hybrid,
        q.vault_id@ == form.vault_id@,
        q.suite == form.suite,
{
    let all = s.contacts.contacts@;
    let keep = is_ticked(form.selected@);
    let f = all.filter(keep);
    let r = q.recipients@;
    assert forall|i: int|
        0 <= i < all.len() && form.selected@.contains(
            hex_text((#[trigger] all[i]).key.fpr@),
        ) implies r.contains(all[i].key) by {
        assert(all.contains(all[i]));
        crate::order::lemma_filter_members(all, keep, all[i]);
        let k = choose|k: int| 0 <= k < f.len() && f[k] == all[i];
        assert(r[k] == all[i].key);
    }
    if form.include_self {
        assert(r[r.len() - 1] == s.identity);
    }
}

/// Nobody else can open an export: each recipient is a ticked contact or, if ticked, the
/// user.
pub proof fn law_nobody_else_can_open_the_export(
    s: Session,
    form: ExportForm,
    q: ExportRequest,
    k: int,
)
    requires
        s.export == Some(form),
        call_ensures(
            Session::request_export,
            (&s,),
            Ok::<Option<ExportRequest>, String>(Some(q)),
        ),
        0 <= k < q.recipients@.len(),
    ensures
        (form.include_self && q.recipients@[k] == s.identity) || exists|i: int|
            0 <= i < s.contacts.contacts@.len() && (#[trigger] s.contacts.contacts@[i]).key
                == q.recipients@[k] && form.selected@.contains(hex_text(q.recipients@[k].fpr@)),
{
    law_only_chosen_recipients(s, form, k);
}

/// An export is refused only where nobody is chosen, or where the hybrid suite meets a key
/// that cannot do it.
pub proof fn law_an_export_is_refused_only_for_its_recipients(
    s: Session,
    form: ExportForm,
    e: String,
)
    requires
        s.export == Some(form),
        call_ensures(Session::request_export, (&s,), Err::<Option<ExportRequest>, String>(e)),
    ensures
        (forall|i: int|
            0 <= i < s.contacts.contacts@.len() ==> !form.selected@.contains(
                hex_text((#[trigger] s.contacts.contacts@[i]).key.fpr@),
            )) && !form.include_self || form.suite == SuiteId::Hybrid && ((form.include_self
            && !s.identity.hybrid) || exists|i: int|
            0 <= i < s.contacts.contacts@.len() && !(#[trigger] s.contacts.contacts@[i]).key.hybrid
                && form.selected@.contains(hex_text(s.contacts.contacts@[i].key.fpr@))),
{
    let all = s.contacts.contacts@;
    let keep = is_ticked(form.selected@);
    let f = all.filter(keep);
    let r = recipients_of(s, form);
    if r.len() == 0 {
        assert forall|i: int| 0 <= i < all.len() implies !form.selected@.contains(
            hex_text((#[trigger] all[i]).key.fpr@),
        ) by {
            if form.selected@.contains(hex_text(all[i].key.fpr@)) {
                assert(all.contains(all[i]));
                crate::order::lemma_filter_members(all, keep, all[i]);
                assert(f.len() > 0);
            }
        }
    } else {
        let k = choose|k: int| 0 <= k < r.len() && !(#[trigger] r[k]).hybrid;
        if k < f.len() {
            assert(f.contains(f[k]));
            crate::order::lemma_filter_members(all, keep, f[k]);
            let i = choose|i: int| 0 <= i < all.len() && all[i] == f[k];
            assert(!all[i].key.hybrid);
        }
    }
}

/// A file of the open vault can be saved outside, viewed and checked out, under its own
/// name; a folder, or what is not there, cannot.
pub proof fn law_files_and_only_files_are_taken_out(
    s: Session,
    path: &str,
    i: int,
    saved: Result<Option<String>, String>,
    viewed: Result<Option<TempRequest>, String>,
    checked: Result<Option<TempRequest>, String>,
)
    requires
        call_ensures(Session::request_save_as, (&s, path), saved),
        call_ensures(Session::request_view, (&s, path), viewed),
        call_ensures(Session::request_check_out, (&s, path), checked),
        s.open is Some,
        s.checkout is None,
        0 <= i < s.open->0.entries@.len(),
        s.open->0.entries@[i].0@ == path@,
        forall|k: int| 0 <= k < i ==> (#[trigger] s.open->0.entries@[k]).0@ != path@,
    ensures
        s.open->0.entries@[i].1 == EntryKind::File ==> {
            &&& saved is Ok && opt_text(saved->Ok_0) == Some(leaf_of(path@))
            &&& viewed is Ok && viewed->Ok_0 is Some && viewed->Ok_0->0.leaf@ == leaf_of(path@)
            &&& checked is Ok && checked->Ok_0 is Some && checked->Ok_0->0.leaf@ == leaf_of(path@)
        },
        s.open->0.entries@[i].1 == EntryKind::Dir ==> saved is Err && viewed is Err
            && checked is Err,
{
    let items = listing(s.open->0.entries@);
    crate::requests::lemma_entry_pos(items, path@);
    assert(items[i] == item(s.open->0.entries@[i]));
    let k = crate::requests::entry_pos(items, path@);
    if 0 <= k < i {
        assert(items[k] == item(s.open->0.entries@[k]));
        assert(s.open->0.entries@[k].0@ != path@);
    }
}

/// While a file is checked out nothing else is taken out to be viewed or edited.
pub proof fn law_one_edit_at_a_time(
    s: Session,
    path: &str,
    viewed: Result<Option<TempRequest>, String>,
    checked: Result<Option<TempRequest>, String>,
)
    requires
        s.checkout is Some,
        call_ensures(Session::request_view, (&s, path), viewed),
        call_ensures(Session::request_check_out, (&s, path), checked),
    ensures
        viewed is Err,
        checked is Err,
{
}

/// A file is copied out by making a private temp file, opening it, decrypting into it and
/// flushing it; whatever fails after the file exists has it wiped.
pub proof fn law_a_copy_is_made_in_order(s: Seq<TempNext>, step: TempStep, e: String, failed: TempNext)
    requires
        s.len() == 4,
        call_ensures(next_temp_step, (TempStep::Create, None::<String>), s[0]),
        call_ensures(next_temp_step, (TempStep::OpenFile, None::<String>), s[1]),
        call_ensures(next_temp_step, (TempStep::Decrypt, None::<String>), s[2]),
        call_ensures(next_temp_step, (TempStep::Flush, None::<String>), s[3]),
        call_ensures(next_temp_step, (step, Some(e)), failed),
    ensures
        s[0] == TempNext::Go(TempStep::OpenFile),
        s[1] == TempNext::Go(TempStep::Decrypt),
        s[2] == TempNext::Go(TempStep::Flush),
        s[3] == TempNext::Go(TempStep::Done),
        failed is Stop,
        step != TempStep::Create ==> failed->wipe,
        step == TempStep::Create ==> !failed->wipe,
{
}

/// A changed file is checked in: written back, then wiped, then the vault is opened anew and
/// the edit is over, with the vault as it is now.
pub proof fn law_a_changed_file_is_checked_in(
    c: Checkout,
    hash: [u8; 32],
    s: Seq<CheckInStep>,
    id: String,
    entries: Vec<Entry>,
    registry: Registry,
)
    requires
        hash@ != c.orig_blake3@,
        s.len() == 5,
        s[0] is Hash,
        call_ensures(next_check_in_step, (s[0], &c, CheckInReply::Hashed(hash)), s[1]),
        call_ensures(next_check_in_step, (s[1], &c, CheckInReply::Went), s[2]),
        call_ensures(next_check_in_step, (s[2], &c, CheckInReply::Went), s[3]),
        call_ensures(
            next_check_in_step,
            (s[3], &c, CheckInReply::Reopened { id, entries, registry }),
            s[4],
        ),
    ensures
        s[1] is WriteBack,
        s[2] is WipeSaved,
        s[3] is Reopen,
        s[4] is Done,
        s[4]->Done_0.outcome == (Outcome::EndCheckout {
            replace: Some((id, entries, registry)),
        }),
{
}

/// Only the vault that a file came from takes it back.
pub proof fn law_an_edit_goes_back_to_its_own_vault(
    s: Session,
    r: Result<Option<&Checkout>, String>,
)
    requires
        call_ensures(Session::request_check_in, (&s,), r),
    ensures
        r is Ok && r->Ok_0 is Some <==> s.checkout is Some && s.open is Some && s.open->0.id@
            == s.checkout->0.vault_id@,
        r is Ok && r->Ok_0 is Some ==> *(r->Ok_0->0) == s.checkout->0,
{
}

/// After a vault was saved the registry tells its name, its times and what is in it now, the
/// trash aside; what it says of the other vaults stays.
pub proof fn law_the_registry_follows_the_vault(
    registry: Registry,
    id: &str,
    name: &str,
    created_at: i64,
    now: i64,
    entries: &[Entry],
    r: Registry,
    v: VaultMeta,
)
    requires
        call_ensures(reopen_after_save, (registry, id, name, created_at, now, entries), r),
        crate::store::unique_ids(registry.vaults@),
    ensures
        exists|k: int|
            0 <= k < r.vaults@.len() && (#[trigger] r.vaults@[k]).id@ == id@ && r.vaults@[k].name@
                == name@ && r.vaults@[k].created_at == created_at && r.vaults@[k].modified_at == now
                && r.vaults@[k].file_count == live_files(listing(entries@)).len()
                && r.vaults@[k].total_size == total_size(live_files(listing(entries@))),
        v.id@ != id@ ==> (r.vaults@.contains(v) <==> registry.vaults@.contains(v)),
{
    let before = registry.vaults@;
    let m = choose|m: VaultMeta|
        {
            &&& m.id@ == id@ && m.name@ == name@ && m.created_at == created_at && m.modified_at
                == now
            &&& m.file_count == live_files(listing(entries@)).len()
            &&& m.total_size == total_size(live_files(listing(entries@)))
            &&& r.vaults@ == #[trigger] crate::store::with_vault(before, m)
        };
    crate::store::law_upserted_vault_is_found(before, m);
    let k = vault_pos(r.vaults@, id@);
    assert(r.vaults@[k] == m);
    if v.id@ != id@ {
        crate::store::law_other_vaults_stay(before, m, v);
    }
}

/// A staged key is handed out to be saved, as it was staged, unless it is the user's own,
/// which is refused and stays where it is.
pub proof fn law_a_staged_key_is_saved_unless_it_is_ones_own(
    a: Session,
    b: Session,
    r: Result<Option<PublicKey>, String>,
    p: crate::contacts::ContactPreview,
)
    requires
        a.contact_preview == Some(p),
        add_contact_asked(a, b, r),
    ensures
        p.status is SelfKey ==> r is Err && b == a,
        !(p.status is SelfKey) ==> r is Ok && r->Ok_0 == Some(p.key) && b.contact_preview is None,
{
}

/// A file that is small enough is read whole, and one that is not is refused.
pub proof fn law_files_are_read_up_to_their_bound(
    bytes: Vec<u8>,
    max_len: u64,
    label: &str,
    r: Result<Vec<u8>, String>,
    is_file: bool,
    len: u64,
    checked: Result<(), String>,
)
    requires
        call_ensures(read_bounded_file, (bytes, max_len, label), r),
        call_ensures(check_bounded, (is_file, len, max_len, label), checked),
    ensures
        r is Ok <==> bytes@.len() <= max_len,
        r is Ok ==> r->Ok_0@ == bytes@,
        checked is Ok <==> is_file && len <= max_len,
{
}

/// A copy that was made is always noted with the file it stands in, whether or not an
/// application could be launched for it, so that it can be wiped or checked in.
pub proof fn law_every_copy_is_noted(
    leaf: String,
    launch: ViewLaunch,
    temp_path: String,
    v: JobReport,
    c: Checkout,
    launched: bool,
    o: JobReport,
)
    requires
        call_ensures(view_report, (leaf, launch, temp_path), v),
        call_ensures(check_out_report, (c, launched), o),
    ensures
        v.outcome is StartView && v.outcome->StartView_0.temp_path == temp_path
            && v.outcome->StartView_0.leaf == leaf,
        o.outcome == Outcome::StartCheckout(c),
        v.toast is Some && o.toast is Some,
{
}

/// Only a file that is byte for byte as it was checked out ends its edit without being written
/// back.
pub proof fn law_only_an_unchanged_file_is_not_written_back(
    c: Checkout,
    new_hash: [u8; 32],
    r: Option<JobReport>,
)
    requires
        call_ensures(check_in_unchanged, (&c, &new_hash), r),
    ensures
        r is Some <==> (forall|i: int| 0 <= i < 32 ==> new_hash@[i] == c.orig_blake3@[i]),
        r is Some ==> r->0.outcome is EndCheckout && r->0.outcome->EndCheckout_replace is None,
{
    if forall|i: int| 0 <= i < 32 ==> new_hash@[i] == c.orig_blake3@[i] {
        assert(new_hash@ =~= c.orig_blake3@);
    }
}

/// A staged key is saved once, as it was shown, and the dialog closes with it; one's own key
/// is refused and stays on show. What was pasted is read without the whitespace round it.
pub proof fn law_a_staged_key_is_saved_once(
    a: &mut Session,
    r: Result<Option<PublicKey>, String>,
    b: &mut Session,
    again: Result<Option<PublicKey>, String>,
    pasted: Result<String, String>,
)
    requires
        call_ensures(Session::request_add_contact, (a,), r),
        *old(b) == *final(a),
        call_ensures(Session::request_add_contact, (b,), again),
        call_ensures(Session::request_paste, (&*old(a),), pasted),
    ensures
        r is Err <==> old(a).contact_preview is Some && old(a).contact_preview->0.status is SelfKey,
        old(a).contact_preview is Some && r is Ok ==> r->Ok_0 == Some(
            old(a).contact_preview->0.key,
        ) && final(a).contact_preview is None && again is Ok && again->Ok_0 is None,
        r is Err ==> final(a).contact_preview == old(a).contact_preview,
        final(a).contacts == old(a).contacts,
        pasted is Ok <==> trimmed(old(a).contact_paste@).len() > 0,
        pasted is Ok ==> pasted->Ok_0@ == trimmed(old(a).contact_paste@),
{
}

/// A vault that was saved is registered under its own id and name, as made when it was made
/// and changed now.
pub proof fn law_a_saved_vault_is_registered_as_it_is(
    id: &str,
    name: &str,
    created_at: i64,
    now: i64,
    entries: &[Entry],
    m: VaultMeta,
    n: (u64, u64),
)
    requires
        total_size(listing(entries@)) <= u64::MAX,
        call_ensures(saved_meta, (id, name, created_at, now, entries), m),
        call_ensures(live_counts, (entries,), n),
    ensures
        m.id@ == id@ && m.name@ == name@,
        m.created_at == created_at && m.modified_at == now,
        m.file_count == n.0 && m.total_size == n.1,
{
}

/// A fingerprint that is written out names the contact that has it.
pub proof fn law_a_written_fingerprint_names_its_contact(
    fpr: &[u8],
    text: String,
    typed: &str,
    r: Result<[u8; 32], String>,
)
    requires
        fpr@.len() == 32,
        call_ensures(hex, (fpr,), text),
        typed@ == text@,
        call_ensures(request_fingerprint, (typed,), r),
    ensures
        r is Ok && r->Ok_0@ == fpr@,
{
    crate::fingerprint::law_fingerprint_round_trip(fpr@);
}

} // verus!
