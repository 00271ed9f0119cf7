//! Adding files and folders from disk: which vault path each source gets.
//!
//! What is on disk is observed by the caller and handed over as plain values; the
//! plan decides the paths.

use vstd::prelude::*;

use crate::path::{
    child_of, ext_split, join_path, leaf_name, leaf_of, parent_dir, parent_of, split_ext,
};
use crate::text::{
    concat3, decimal, decimal_text, last_pos, lemma_decimal_round_trip, lemma_last_pos, owned, texts,
};
use crate::text_set::text_in;

verus! {

// ---------------------------------------------------------------------------
// Unique names
// ---------------------------------------------------------------------------

/// `base` with " (i)" before the extension of its leaf. The folder stays the same.
pub open spec fn numbered(base: Seq<char>, i: nat) -> Seq<char> {
    let (stem, ext) = ext_split(leaf_of(base));
    child_of(parent_of(base), stem + (" ("@ + decimal_text(i) + ")"@) + ext)
}

/// The first of the numbered forms of `base`, from the `i`-th to the 9999th, that
/// is not taken; `base` itself if they all are.
pub open spec fn first_free(taken: Seq<Seq<char>>, base: Seq<char>, i: nat) -> Seq<char>
    decreases 10_000 - i,
{
    if i >= 10_000 {
        base
    } else if !taken.contains(numbered(base, i)) {
        numbered(base, i)
    } else {
        first_free(taken, base, i + 1)
    }
}

/// The path that a file wanting `base` gets.
pub open spec fn unique_name(taken: Seq<Seq<char>>, base: Seq<char>) -> Seq<char> {
    if taken.contains(base) {
        first_free(taken, base, 1)
    } else {
        base
    }
}

/// Picks a vault path for `base` that does not collide with any path in `existing`,
/// appending " (n)" before the extension if needed.
pub fn unique_name_in(existing: &[String], base: &str) -> (r: String)
    ensures
        r@ == unique_name(texts(existing@), base@),
{
    if !text_in(existing, base) {
        return owned(base);
    }
    let parent = parent_dir(base);
    let (stem, ext) = split_ext(leaf_name(base));
    let mut i: u64 = 1;
    while i < 10_000
        invariant
            1 <= i <= 10_000,
            texts(existing@).contains(base@),
            parent@ == parent_of(base@),
            (stem@, ext@) == ext_split(leaf_of(base@)),
            first_free(texts(existing@), base@, 1) == first_free(
                texts(existing@),
                base@,
                i as nat,
            ),
        decreases 10_000 - i,
    {
        let tag = concat3(" (", &decimal(i), ")");
        let candidate = join_path(parent, &concat3(stem, &tag, ext));
        assert(candidate@ == numbered(base@, i as nat));
        if !text_in(existing, &candidate) {
            return candidate;
        }
        i += 1;
    }
    owned(base)
}

/// The name that is picked is free, unless every numbered form is taken too.
pub proof fn law_unique_name_is_free(taken: Seq<Seq<char>>, base: Seq<char>, i: nat)
    requires
        1 <= i < 10_000,
        !taken.contains(numbered(base, i)),
    ensures
        !taken.contains(unique_name(taken, base)),
{
    if taken.contains(base) {
        lemma_first_free(taken, base, 1, i);
    }
}

proof fn lemma_first_free(taken: Seq<Seq<char>>, base: Seq<char>, from: nat, i: nat)
    requires
        from <= i < 10_000,
        !taken.contains(numbered(base, i)),
    ensures
        !taken.contains(first_free(taken, base, from)),
    decreases i - from,
{
    if taken.contains(numbered(base, from)) {
        lemma_first_free(taken, base, from + 1, i);
    }
}

/// The name that is picked lies in the folder that was asked for.
pub proof fn law_unique_name_stays_in_its_folder(taken: Seq<Seq<char>>, base: Seq<char>)
    ensures
        parent_of(unique_name(taken, base)) == parent_of(base),
{
    if taken.contains(base) {
        lemma_first_free_folder(taken, base, 1);
    }
}

proof fn lemma_first_free_folder(taken: Seq<Seq<char>>, base: Seq<char>, i: nat)
    ensures
        parent_of(first_free(taken, base, i)) == parent_of(base),
    decreases 10_000 - i,
{
    if i < 10_000 {
        lemma_numbered_folder(base, i);
        lemma_first_free_folder(taken, base, i + 1);
    }
}

proof fn lemma_numbered_folder(base: Seq<char>, i: nat)
    ensures
        parent_of(numbered(base, i)) == parent_of(base),
{
    let leaf = leaf_of(base);
    let (stem, ext) = ext_split(leaf);
    let tag = " ("@ + decimal_text(i) + ")"@;
    lemma_last_pos(base, '/');
    lemma_last_pos(leaf, '.');
    lemma_decimal_round_trip(i);
    reveal_strlit(" (");
    reveal_strlit(")");
    assert forall|k: int| 0 <= k < leaf.len() implies leaf[k] != '/' by {
        assert(leaf[k] == base[k + last_pos(base, '/') + 1]);
    }
    assert(!(stem + tag + ext).contains('/')) by {
        assert forall|k: int| 0 <= k < (stem + tag + ext).len() implies (stem + tag + ext)[k]
            != '/' by {
            if k >= stem.len() + tag.len() {
                assert(ext[k - stem.len() - tag.len()] != '/');
            }
        }
    }
    crate::path::law_child_is_in_its_folder(parent_of(base), stem + tag + ext);
}

// ---------------------------------------------------------------------------
// Planning
// ---------------------------------------------------------------------------

/// What a member of a walked folder is.
#[derive(Clone, Copy, Debug, PartialEq, Eq, Structural)]
pub enum MemberKind {
    Dir,
    File,
    Other,
}

/// One member of a walked folder.
pub struct Member {
    /// Its path relative to the folder ("" is the folder itself).
    pub rel: String,
    pub kind: MemberKind,
    /// Whether it could be opened for reading.
    pub readable: bool,
    pub mtime: Option<i64>,
    /// The caller's number for it.
    pub source: usize,
}

/// What was found at one of the source paths.
pub enum Source {
    /// Nothing, or something whose metadata cannot be read.
    Missing,
    /// A file that cannot be opened.
    Unreadable,
    /// A readable file, with its name if it has one.
    File { name: Option<String>, mtime: Option<i64>, source: usize },
    /// A folder, with its name if it has one, and what a walk of it found.
    Folder { name: Option<String>, members: Vec<Member> },
}

/// A file to add to the vault.
pub struct Addition {
    pub vault_path: String,
    /// The caller's number for the file on disk.
    pub source: usize,
    pub mtime: Option<i64>,
}

/// What to add to the vault.
pub struct Plan {
    pub added: Vec<Addition>,
    pub dirs: Vec<String>,
    /// How many sources could not be read.
    pub failed: usize,
}

/// A plan in the making: the paths in use, and what is planned so far.
pub struct Draft {
    pub taken: Seq<Seq<char>>,
    pub added: Seq<(Seq<char>, usize, Option<i64>)>,
    pub dirs: Seq<Seq<char>>,
    pub failed: nat,
}

/// The values of a list of additions.
pub open spec fn addition_views(v: Seq<Addition>) -> Seq<(Seq<char>, usize, Option<i64>)> {
    v.map_values(|a: Addition| (a.vault_path@, a.source, a.mtime))
}

/// The vault path of a member of the folder `root` placed under `into`.
pub open spec fn member_path(into: Seq<char>, root: Seq<char>, rel: Seq<char>) -> Seq<char> {
    child_of(into, root.push('/') + rel)
}

/// A draft with one member of a folder planned: the folder itself and paths already
/// in use are passed over, as is what is neither a folder nor a file. A file that
/// cannot be read is counted as failed.
pub open spec fn with_member(d: Draft, into: Seq<char>, root: Seq<char>, m: Member) -> Draft {
    let path = member_path(into, root, m.rel@);
    if m.rel@.len() == 0 || d.taken.contains(path) {
        d
    } else if m.kind == MemberKind::Dir {
        Draft { taken: d.taken.push(path), dirs: d.dirs.push(path), ..d }
    } else if m.kind == MemberKind::File && m.readable {
        Draft {
            taken: d.taken.push(path),
            added: d.added.push((path, m.source, m.mtime)),
            ..d
        }
    } else if m.kind == MemberKind::File {
        Draft { failed: d.failed + 1, ..d }
    } else {
        d
    }
}

/// A draft with the members of a folder planned in order.
pub open spec fn with_members(
    d: Draft,
    into: Seq<char>,
    root: Seq<char>,
    members: Seq<Member>,
) -> Draft
    decreases members.len(),
{
    if members.len() == 0 {
        d
    } else {
        with_member(with_members(d, into, root, members.drop_last()), into, root, members.last())
    }
}

/// A name, or `other` where there is none.
pub open spec fn name_or(name: Option<String>, other: Seq<char>) -> Seq<char> {
    match name {
        Some(n) => n@,
        None => other,
    }
}

/// A draft with one source planned.
pub open spec fn with_source(d: Draft, into: Seq<char>, s: Source) -> Draft {
    match s {
        Source::Missing => Draft { failed: d.failed + 1, ..d },
        Source::Unreadable => Draft { failed: d.failed + 1, ..d },
        Source::File { name, mtime, source } => {
            let path = unique_name(d.taken, child_of(into, name_or(name, "file"@)));
            Draft { taken: d.taken.push(path), added: d.added.push((path, source, mtime)), ..d }
        },
        Source::Folder { name, members } => with_members(
            d,
            into,
            name_or(name, "folder"@),
            members@,
        ),
    }
}

/// A draft with sources planned in order.
pub open spec fn with_sources(d: Draft, into: Seq<char>, sources: Seq<Source>) -> Draft
    decreases sources.len(),
{
    if sources.len() == 0 {
        d
    } else {
        with_source(with_sources(d, into, sources.drop_last()), into, sources.last())
    }
}

/// The draft before anything is planned.
pub open spec fn blank(existing: Seq<Seq<char>>) -> Draft {
    Draft { taken: existing, added: Seq::empty(), dirs: Seq::empty(), failed: 0 }
}

/// Whether a plan, with the paths it uses, is what a draft says.
spec fn drafted(taken: Seq<String>, plan: Plan, d: Draft) -> bool {
    &&& texts(taken) == d.taken
    &&& addition_views(plan.added@) == d.added
    &&& texts(plan.dirs@) == d.dirs
    &&& plan.failed == d.failed
}

/// Plans the members of one folder.
fn plan_members(
    taken: &mut Vec<String>,
    plan: &mut Plan,
    into: &str,
    root: &str,
    members: &[Member],
    Ghost(d): Ghost<Draft>,
)
    requires
        drafted(old(taken)@, *old(plan), d),
        with_members(d, into@, root@, members@).failed <= usize::MAX,
    ensures
        drafted(final(taken)@, *final(plan), with_members(d, into@, root@, members@)),
{
    let mut i: usize = 0;
    assert(members@.take(0) =~= Seq::<Member>::empty());
    while i < members.len()
        invariant
            i <= members@.len(),
            with_members(d, into@, root@, members@).failed <= usize::MAX,
            drafted(taken@, *plan, with_members(d, into@, root@, members@.take(i as int))),
        decreases members@.len() - i,
    {
        let m = &members[i];
        let ghost d0 = with_members(d, into@, root@, members@.take(i as int));
        proof {
            assert(members@.take(i + 1).drop_last() =~= members@.take(i as int));
            lemma_members_failed(d, into@, root@, members@, i + 1);
        }
        if !m.rel.as_str().is_empty() {
            let path = join_path(into, &concat3(root, "/", &m.rel));
            proof {
                reveal_strlit("/");
                assert(root@ + "/"@ + m.rel@ =~= root@.push('/') + m.rel@);
            }
            if !text_in(taken, &path) {
                if m.kind == MemberKind::Dir {
                    let ghost (t0, v0) = (taken@, plan.dirs@);
                    taken.push(path.clone());
                    plan.dirs.push(path);
                    assert(texts(taken@) =~= texts(t0).push(path@));
                    assert(texts(plan.dirs@) =~= texts(v0).push(path@));
                } else if m.kind == MemberKind::File && m.readable {
                    let ghost (t0, a0) = (taken@, plan.added@);
                    taken.push(path.clone());
                    plan.added.push(
                        Addition { vault_path: path, source: m.source, mtime: m.mtime },
                    );
                    assert(texts(taken@) =~= texts(t0).push(path@));
                    assert(addition_views(plan.added@) =~= addition_views(a0).push(
                        (path@, m.source, m.mtime),
                    ));
                } else if m.kind == MemberKind::File {
                    plan.failed = plan.failed + 1;
                }
            }
        }
        i += 1;
    }
    assert(members@.take(i as int) =~= members@);
}

/// Plans the entries to add for a set of sources placed under `into` (the current
/// folder; "" is the vault root). A file becomes `into/name` (made unique against
/// existing paths); a folder's members are added under `into/folder/rel`, skipping
/// path collisions. Files that cannot be read are counted as failed, in a folder too.
/// `existing` lists the paths of the vault.
pub fn plan_additions(existing: &[String], into: &str, sources: &[Source]) -> (r: Plan)
    requires
        with_sources(blank(texts(existing@)), into@, sources@).failed <= usize::MAX,
    ensures
        addition_views(r.added@) == with_sources(
            blank(texts(existing@)),
            into@,
            sources@,
        ).added,
        texts(r.dirs@) == with_sources(blank(texts(existing@)), into@, sources@).dirs,
        r.failed == with_sources(blank(texts(existing@)), into@, sources@).failed,
{
    let mut taken = crate::text::clone_texts(existing);
    let mut plan = Plan { added: Vec::new(), dirs: Vec::new(), failed: 0 };
    let ghost d = blank(texts(existing@));
    let mut i: usize = 0;
    assert(sources@.take(0) =~= Seq::<Source>::empty());
    assert(addition_views(plan.added@) =~= d.added);
    assert(texts(plan.dirs@) =~= d.dirs);
    while i < sources.len()
        invariant
            i <= sources@.len(),
            with_sources(d, into@, sources@).failed <= usize::MAX,
            drafted(taken@, plan, with_sources(d, into@, sources@.take(i as int))),
        decreases sources@.len() - i,
    {
        let ghost d0 = with_sources(d, into@, sources@.take(i as int));
        proof {
            assert(sources@.take(i + 1).drop_last() =~= sources@.take(i as int));
            lemma_sources_failed(d, into@, sources@, i + 1);
        }
        match &sources[i] {
            Source::Missing => {
                plan.failed = plan.failed + 1;
            },
            Source::Unreadable => {
                plan.failed = plan.failed + 1;
            },
            Source::File { name, mtime, source } => {
                let base = match name {
                    Some(n) => n.clone(),
                    None => owned("file"),
                };
                let path = unique_name_in(&taken, &join_path(into, &base));
                let ghost (t0, a0) = (taken@, plan.added@);
                taken.push(path.clone());
                plan.added.push(Addition { vault_path: path, source: *source, mtime: *mtime });
                assert(texts(taken@) =~= texts(t0).push(path@));
                assert(addition_views(plan.added@) =~= addition_views(a0).push(
                    (path@, *source, *mtime),
                ));
            },
            Source::Folder { name, members } => {
                let root = match name {
                    Some(n) => n.clone(),
                    None => owned("folder"),
                };
                plan_members(&mut taken, &mut plan, into, &root, members, Ghost(d0));
            },
        }
        i += 1;
    }
    assert(sources@.take(i as int) =~= sources@);
    plan
}

/// What the first members count as failed is never more than what all do.
proof fn lemma_members_failed(
    d: Draft,
    into: Seq<char>,
    root: Seq<char>,
    members: Seq<Member>,
    k: int,
)
    requires
        0 <= k <= members.len(),
    ensures
        with_members(d, into, root, members.take(k)).failed <= with_members(
            d,
            into,
            root,
            members,
        ).failed,
    decreases members.len() - k,
{
    if k < members.len() {
        assert(members.take(k + 1).drop_last() =~= members.take(k));
        lemma_members_failed(d, into, root, members, k + 1);
    } else {
        assert(members.take(k) =~= members);
    }
}

/// What the first sources count as failed is never more than what all do.
proof fn lemma_sources_failed(d: Draft, into: Seq<char>, sources: Seq<Source>, k: int)
    requires
        0 <= k <= sources.len(),
    ensures
        with_sources(d, into, sources.take(k)).failed <= with_sources(d, into, sources).failed,
    decreases sources.len() - k,
{
    if k < sources.len() {
        let before = with_sources(d, into, sources.take(k));
        assert(sources.take(k + 1).drop_last() =~= sources.take(k));
        if let Source::Folder { name, members } = sources[k] {
            assert(members@.take(0) =~= Seq::<Member>::empty());
            lemma_members_failed(before, into, name_or(name, "folder"@), members@, 0);
        }
        lemma_sources_failed(d, into, sources, k + 1);
    } else {
        assert(sources.take(k) =~= sources);
    }
}

// ---------------------------------------------------------------------------
// Laws
// ---------------------------------------------------------------------------

/// A file is added in the folder it was asked for, whatever number its name gets.
pub proof fn law_added_file_lies_in_the_folder(
    d: Draft,
    into: Seq<char>,
    name: Option<String>,
    mtime: Option<i64>,
    source: usize,
)
    requires
        !name_or(name, "file"@).contains('/'),
    ensures
        ({
            let after = with_source(d, into, Source::File { name, mtime, source });
            after.added.len() == d.added.len() + 1 && parent_of(after.added.last().0) == into
        }),
{
    let base = name_or(name, "file"@);
    crate::path::law_child_is_in_its_folder(into, base);
    law_unique_name_stays_in_its_folder(d.taken, child_of(into, base));
}

/// Whether a draft plans each folder once, and none that existed before.
pub open spec fn folders_are_new(d: Draft, existing: Seq<Seq<char>>) -> bool {
    &&& d.dirs.no_duplicates()
    &&& forall|i: int| 0 <= i < d.dirs.len() ==> d.taken.contains(#[trigger] d.dirs[i])
    &&& forall|i: int| 0 <= i < d.dirs.len() ==> !existing.contains(#[trigger] d.dirs[i])
    &&& forall|x: Seq<char>| existing.contains(x) ==> #[trigger] d.taken.contains(x)
}

/// A plan creates each folder once, and never one that the vault already has.
pub proof fn law_planned_folders_are_new(
    existing: Seq<Seq<char>>,
    into: Seq<char>,
    sources: Seq<Source>,
)
    ensures
        folders_are_new(with_sources(blank(existing), into, sources), existing),
    decreases sources.len(),
{
    if sources.len() > 0 {
        law_planned_folders_are_new(existing, into, sources.drop_last());
        let d = with_sources(blank(existing), into, sources.drop_last());
        match sources.last() {
            Source::File { name, mtime, source } => {
                let path = unique_name(d.taken, child_of(into, name_or(name, "file"@)));
                lemma_push_contains(d.taken, path);
            },
            Source::Folder { name, members } => {
                lemma_members_new(d, existing, into, name_or(name, "folder"@), members@);
            },
            _ => {},
        }
    }
}

proof fn lemma_push_contains(s: Seq<Seq<char>>, p: Seq<char>)
    ensures
        forall|x: Seq<char>| #[trigger] s.push(p).contains(x) <==> s.contains(x) || x == p,
{
    assert forall|x: Seq<char>| #[trigger] s.push(p).contains(x) <==> s.contains(x) || x == p by {
        if s.contains(x) {
            let k = choose|k: int| 0 <= k < s.len() && s[k] == x;
            assert(s.push(p)[k] == x);
        }
        if x == p {
            assert(s.push(p)[s.len() as int] == x);
        }
        if s.push(p).contains(x) && x != p {
            let k = choose|k: int| 0 <= k < s.push(p).len() && s.push(p)[k] == x;
            assert(s[k] == x);
        }
    }
}

proof fn lemma_members_new(
    d: Draft,
    existing: Seq<Seq<char>>,
    into: Seq<char>,
    root: Seq<char>,
    members: Seq<Member>,
)
    requires
        folders_are_new(d, existing),
    ensures
        folders_are_new(with_members(d, into, root, members), existing),
    decreases members.len(),
{
    if members.len() > 0 {
        lemma_members_new(d, existing, into, root, members.drop_last());
        let d0 = with_members(d, into, root, members.drop_last());
        let m = members.last();
        let path = member_path(into, root, m.rel@);
        lemma_push_contains(d0.taken, path);
        if !d0.taken.contains(path) {
            assert forall|i: int| 0 <= i < d0.dirs.len() implies d0.dirs[i] != path by {
                assert(d0.taken.contains(d0.dirs[i]));
            }
            assert(d0.dirs.push(path).no_duplicates());
        }
    }
}

/// The path of something below the folder `into`.
pub open spec fn placed(into: Seq<char>, rest: Seq<char>) -> Seq<char> {
    (if into.len() == 0 {
        Seq::<char>::empty()
    } else {
        into.push('/')
    }) + rest
}

/// The path in the vault of a member of the folder `name` that is added to `into`.
pub open spec fn placed_member(into: Seq<char>, name: Option<String>, m: Member) -> Seq<char> {
    placed(into, (match name {
        Some(n) => n@,
        None => "folder"@,
    }) + "/"@ + m.rel@)
}

/// Whether an addition is of a readable file among the members of a folder, under the path
/// that the member has there.
pub open spec fn is_of_member(into: Seq<char>, name: Option<String>, m: Member, a: Addition) -> bool {
    &&& m.kind == MemberKind::File
    &&& m.readable
    &&& a.vault_path@ == placed_member(into, name, m)
    &&& a.source == m.source
    &&& a.mtime == m.mtime
}

/// Whether an addition is of one of the files that a source holds.
pub open spec fn is_of_source(into: Seq<char>, s: Source, a: Addition) -> bool {
    match s {
        Source::File { name, mtime, source } => a.source == source && a.mtime == mtime,
        Source::Folder { name, members } => exists|j: int|
            0 <= j < members@.len() && is_of_member(into, name, #[trigger] members@[j], a),
        _ => false,
    }
}

/// Whether a plan or the vault has something at a path.
pub open spec fn is_there(existing: Seq<String>, r: Plan, p: Seq<char>) -> bool {
    ||| exists|i: int| 0 <= i < existing.len() && (#[trigger] existing[i])@ == p
    ||| exists|i: int| 0 <= i < r.dirs@.len() && (#[trigger] r.dirs@[i])@ == p
    ||| exists|i: int| 0 <= i < r.added@.len() && (#[trigger] r.added@[i]).vault_path@ == p
}

/// Whether the value of an addition is of one of the files that a source holds.
spec fn value_of_source(into: Seq<char>, s: Source, v: (Seq<char>, usize, Option<i64>)) -> bool {
    match s {
        Source::File { name, mtime, source } => v.1 == source && v.2 == mtime,
        Source::Folder { name, members } => exists|j: int|
            0 <= j < members@.len() && value_of_member(
                into,
                name_or(name, "folder"@),
                #[trigger] members@[j],
                v,
            ),
        _ => false,
    }
}

spec fn value_of_member(
    into: Seq<char>,
    root: Seq<char>,
    m: Member,
    v: (Seq<char>, usize, Option<i64>),
) -> bool {
    m.kind == MemberKind::File && m.readable && v == (
        member_path(into, root, m.rel@),
        m.source,
        m.mtime,
    )
}

/// What a draft uses is what was there, what is made and what is added.
spec fn accounted(d: Draft, existing: Seq<Seq<char>>) -> bool {
    &&& forall|x: Seq<char>| #[trigger]
        d.taken.contains(x) ==> existing.contains(x) || d.dirs.contains(x) || has_addition(d, x)
    &&& forall|x: Seq<char>| existing.contains(x) ==> #[trigger] d.taken.contains(x)
}

spec fn has_addition(d: Draft, x: Seq<char>) -> bool {
    exists|k: int| 0 <= k < d.added.len() && (#[trigger] d.added[k]).0 == x
}

/// What is planned stays planned.
spec fn extends(d: Draft, e: Draft) -> bool {
    &&& d.added.len() <= e.added.len()
    &&& forall|k: int| 0 <= k < d.added.len() ==> #[trigger] e.added[k] == d.added[k]
    &&& forall|x: Seq<char>| #[trigger] d.taken.contains(x) ==> e.taken.contains(x)
    &&& forall|x: Seq<char>| #[trigger] d.dirs.contains(x) ==> e.dirs.contains(x)
    &&& d.failed <= e.failed
}

proof fn lemma_extends_trans(a: Draft, b: Draft, c: Draft)
    requires
        extends(a, b),
        extends(b, c),
    ensures
        extends(a, c),
{
    assert forall|k: int| 0 <= k < a.added.len() implies #[trigger] c.added[k] == a.added[k] by {
        assert(b.added[k] == a.added[k]);
    }
}

proof fn lemma_has_addition(d: Draft, e: Draft, x: Seq<char>)
    requires
        has_addition(d, x),
        d.added.len() <= e.added.len(),
        forall|k: int| 0 <= k < d.added.len() ==> #[trigger] e.added[k] == d.added[k],
    ensures
        has_addition(e, x),
{
    let k = choose|k: int| 0 <= k < d.added.len() && (#[trigger] d.added[k]).0 == x;
    assert(e.added[k].0 == x);
}

proof fn lemma_member_step(
    d: Draft,
    existing: Seq<Seq<char>>,
    into: Seq<char>,
    root: Seq<char>,
    m: Member,
)
    requires
        accounted(d, existing),
    ensures
        accounted(with_member(d, into, root, m), existing),
        extends(d, with_member(d, into, root, m)),
        forall|k: int|
            d.added.len() <= k < with_member(d, into, root, m).added.len() ==> value_of_member(
                into,
                root,
                m,
                #[trigger] with_member(d, into, root, m).added[k],
            ),
        m.rel@.len() > 0 && (m.kind == MemberKind::Dir || (m.kind == MemberKind::File
            && m.readable)) ==> with_member(d, into, root, m).taken.contains(
            member_path(into, root, m.rel@),
        ),
{
    let e = with_member(d, into, root, m);
    let path = member_path(into, root, m.rel@);
    lemma_push_contains(d.taken, path);
    lemma_push_contains(d.dirs, path);
    assert forall|x: Seq<char>| #[trigger] e.taken.contains(x) implies existing.contains(x)
        || e.dirs.contains(x) || has_addition(e, x) by {
        if d.taken.contains(x) {
            if has_addition(d, x) {
                let k = choose|k: int| 0 <= k < d.added.len() && (#[trigger] d.added[k]).0 == x;
                assert(e.added[k].0 == x);
            }
        } else if e.added.len() > d.added.len() {
            assert(e.added[d.added.len() as int].0 == x);
        }
    }
}

proof fn lemma_members_step(
    d: Draft,
    existing: Seq<Seq<char>>,
    into: Seq<char>,
    root: Seq<char>,
    members: Seq<Member>,
)
    requires
        accounted(d, existing),
    ensures
        accounted(with_members(d, into, root, members), existing),
        extends(d, with_members(d, into, root, members)),
        forall|k: int|
            d.added.len() <= k < with_members(d, into, root, members).added.len() ==> exists|
                j: int,
            |
                0 <= j < members.len() && value_of_member(
                    into,
                    root,
                    #[trigger] members[j],
                    #[trigger] with_members(d, into, root, members).added[k],
                ),
        forall|j: int|
            0 <= j < members.len() && (#[trigger] members[j]).rel@.len() > 0 && (members[j].kind
                == MemberKind::Dir || (members[j].kind == MemberKind::File && members[j].readable))
                ==> with_members(d, into, root, members).taken.contains(
                member_path(into, root, members[j].rel@),
            ),
    decreases members.len(),
{
    if members.len() > 0 {
        let t = members.drop_last();
        let m = members.last();
        lemma_members_step(d, existing, into, root, t);
        let b = with_members(d, into, root, t);
        let e = with_members(d, into, root, members);
        lemma_member_step(b, existing, into, root, m);
        lemma_extends_trans(d, b, e);
        assert forall|k: int| d.added.len() <= k < e.added.len() implies exists|j: int|
            0 <= j < members.len() && value_of_member(
                into,
                root,
                #[trigger] members[j],
                #[trigger] e.added[k],
            ) by {
            if k < b.added.len() {
                assert(e.added[k] == b.added[k]);
                let j = choose|j: int|
                    0 <= j < t.len() && value_of_member(
                        into,
                        root,
                        #[trigger] t[j],
                        b.added[k],
                    );
                assert(members[j] == t[j]);
            } else {
                assert(members[members.len() - 1] == m);
            }
        }
        assert forall|j: int|
            0 <= j < members.len() && (#[trigger] members[j]).rel@.len() > 0 && (members[j].kind
                == MemberKind::Dir || (members[j].kind == MemberKind::File
                && members[j].readable)) implies e.taken.contains(
            member_path(into, root, members[j].rel@),
        ) by {
            if j < t.len() {
                assert(t[j] == members[j]);
                assert(b.taken.contains(member_path(into, root, t[j].rel@)));
            }
        }
    }
}

/// Whether a draft has done all that a source asks for.
spec fn source_done(d: Draft, into: Seq<char>, s: Source) -> bool {
    match s {
        Source::File { name, mtime, source } => exists|k: int|
            0 <= k < d.added.len() && (#[trigger] d.added[k]).1 == source && d.added[k].2 == mtime
                && d.taken.contains(child_of(into, name_or(name, "file"@))),
        Source::Folder { name, members } => forall|j: int|
            0 <= j < members@.len() && (#[trigger] members@[j]).rel@.len() > 0 && (members@[j].kind
                == MemberKind::Dir || (members@[j].kind == MemberKind::File
                && members@[j].readable)) ==> d.taken.contains(
                member_path(into, name_or(name, "folder"@), members@[j].rel@),
            ),
        _ => true,
    }
}

proof fn lemma_source_step(d: Draft, existing: Seq<Seq<char>>, into: Seq<char>, s: Source)
    requires
        accounted(d, existing),
    ensures
        accounted(with_source(d, into, s), existing),
        extends(d, with_source(d, into, s)),
        forall|k: int|
            d.added.len() <= k < with_source(d, into, s).added.len() ==> value_of_source(
                into,
                s,
                #[trigger] with_source(d, into, s).added[k],
            ),
        source_done(with_source(d, into, s), into, s),
{
    let e = with_source(d, into, s);
    match s {
        Source::File { name, mtime, source } => {
            let wanted = child_of(into, name_or(name, "file"@));
            let path = unique_name(d.taken, wanted);
            lemma_push_contains(d.taken, path);
            assert(e.added[d.added.len() as int] == (path, source, mtime));
            assert forall|x: Seq<char>| #[trigger] e.taken.contains(x) implies existing.contains(x)
                || e.dirs.contains(x) || has_addition(e, x) by {
                if d.taken.contains(x) {
                    if has_addition(d, x) {
                        lemma_has_addition(d, e, x);
                    }
                } else {
                    assert(e.added[d.added.len() as int].0 == x);
                }
            }
            assert(accounted(e, existing));
        },
        Source::Folder { name, members } => {
            lemma_members_step(d, existing, into, name_or(name, "folder"@), members@);
        },
        _ => {
            assert forall|x: Seq<char>| #[trigger] e.taken.contains(x) implies existing.contains(x)
                || e.dirs.contains(x) || has_addition(e, x) by {
                assert(d.taken.contains(x));
                if has_addition(d, x) {
                    lemma_has_addition(d, e, x);
                }
            }
        },
    }
}

proof fn lemma_sources_step(existing: Seq<Seq<char>>, into: Seq<char>, sources: Seq<Source>)
    ensures
        accounted(with_sources(blank(existing), into, sources), existing),
        forall|k: int|
            0 <= k < with_sources(blank(existing), into, sources).added.len() ==> exists|i: int|
                0 <= i < sources.len() && value_of_source(
                    into,
                    #[trigger] sources[i],
                    #[trigger] with_sources(blank(existing), into, sources).added[k],
                ),
        forall|i: int|
            0 <= i < sources.len() ==> source_done(
                with_sources(blank(existing), into, sources),
                into,
                #[trigger] sources[i],
            ),
    decreases sources.len(),
{
    if sources.len() > 0 {
        let t = sources.drop_last();
        let s = sources.last();
        lemma_sources_step(existing, into, t);
        let b = with_sources(blank(existing), into, t);
        let e = with_sources(blank(existing), into, sources);
        lemma_source_step(b, existing, into, s);
        assert forall|k: int| 0 <= k < e.added.len() implies exists|i: int|
            0 <= i < sources.len() && value_of_source(
                into,
                #[trigger] sources[i],
                #[trigger] e.added[k],
            ) by {
            if k < b.added.len() {
                assert(e.added[k] == b.added[k]);
                let i = choose|i: int|
                    0 <= i < t.len() && value_of_source(into, #[trigger] t[i], b.added[k]);
                assert(sources[i] == t[i]);
            } else {
                assert(sources[sources.len() - 1] == s);
            }
        }
        assert forall|i: int| 0 <= i < sources.len() implies source_done(
            e,
            into,
            #[trigger] sources[i],
        ) by {
            if i < t.len() {
                assert(t[i] == sources[i]);
                assert(source_done(b, into, t[i]));
                if let Source::File { name, mtime, source } = t[i] {
                    let k = choose|k: int|
                        0 <= k < b.added.len() && (#[trigger] b.added[k]).1 == source
                            && b.added[k].2 == mtime && b.taken.contains(
                            child_of(into, name_or(name, "file"@)),
                        );
                    assert(e.added[k] == b.added[k]);
                }
            }
        }
    }
}

proof fn lemma_placed(into: Seq<char>, name: Option<String>, m: Member)
    ensures
        placed_member(into, name, m) == member_path(into, name_or(name, "folder"@), m.rel@),
{
    reveal_strlit("/");
    let root = name_or(name, "folder"@);
    assert(root + "/"@ + m.rel@ =~= root.push('/') + m.rel@);
    if into.len() == 0 {
        assert(Seq::<char>::empty() + (root.push('/') + m.rel@) =~= root.push('/') + m.rel@);
    }
}

/// Everything that is added comes from what was asked for: the bytes and the time of a
/// vault path are those of the very file that was found for it, never of another.
pub proof fn law_additions_come_from_their_sources(
    existing: &[String],
    into: &str,
    sources: &[Source],
    r: Plan,
    k: int,
)
    requires
        call_ensures(plan_additions, (existing, into, sources), r),
        0 <= k < r.added@.len(),
    ensures
        exists|i: int|
            0 <= i < sources@.len() && is_of_source(into@, #[trigger] sources@[i], r.added@[k]),
{
    let e = texts(existing@);
    let d = with_sources(blank(e), into@, sources@);
    lemma_sources_step(e, into@, sources@);
    assert(addition_views(r.added@)[k] == d.added[k]);
    let i = choose|i: int|
        0 <= i < sources@.len() && value_of_source(into@, #[trigger] sources@[i], d.added[k]);
    if let Source::Folder { name, members } = sources@[i] {
        let j = choose|j: int|
            0 <= j < members@.len() && value_of_member(
                into@,
                name_or(name, "folder"@),
                #[trigger] members@[j],
                d.added[k],
            );
        lemma_placed(into@, name, members@[j]);
        assert(is_of_member(into@, name, members@[j], r.added@[k]));
    }
    assert(is_of_source(into@, sources@[i], r.added@[k]));
}

/// Nothing that can be read is left out: every folder and readable file in an added folder
/// is in the vault afterwards, under its path, unless something was there already.
pub proof fn law_readable_members_are_all_added(
    existing: &[String],
    into: &str,
    sources: &[Source],
    r: Plan,
    i: int,
    j: int,
)
    requires
        call_ensures(plan_additions, (existing, into, sources), r),
        0 <= i < sources@.len(),
        sources@[i] is Folder,
        0 <= j < sources@[i]->members@.len(),
        sources@[i]->members@[j].rel@.len() > 0,
        sources@[i]->members@[j].kind == MemberKind::Dir || (sources@[i]->members@[j].kind
            == MemberKind::File && sources@[i]->members@[j].readable),
    ensures
        is_there(
            existing@,
            r,
            placed_member(into@, sources@[i]->Folder_name, sources@[i]->members@[j]),
        ),
{
    let e = texts(existing@);
    let d = with_sources(blank(e), into@, sources@);
    lemma_sources_step(e, into@, sources@);
    let m = sources@[i]->members@[j];
    let name = sources@[i]->Folder_name;
    lemma_placed(into@, name, m);
    assert(source_done(d, into@, sources@[i]));
    lemma_is_there(existing@, r, d, placed_member(into@, name, m));
}

/// Every readable file that was chosen is added, with its own bytes and time, and its name
/// is in the vault afterwards.
pub proof fn law_chosen_files_are_all_added(
    existing: &[String],
    into: &str,
    sources: &[Source],
    r: Plan,
    i: int,
)
    requires
        call_ensures(plan_additions, (existing, into, sources), r),
        0 <= i < sources@.len(),
        sources@[i] is File,
    ensures
        exists|k: int|
            0 <= k < r.added@.len() && (#[trigger] r.added@[k]).source == sources@[i]->File_source
                && r.added@[k].mtime == sources@[i]->File_mtime,
        is_there(
            existing@,
            r,
            placed(into@, match sources@[i]->File_name {
                Some(n) => n@,
                None => "file"@,
            }),
        ),
{
    let e = texts(existing@);
    let d = with_sources(blank(e), into@, sources@);
    lemma_sources_step(e, into@, sources@);
    assert(source_done(d, into@, sources@[i]));
    let name = sources@[i]->File_name;
    let k = choose|k: int|
        0 <= k < d.added.len() && (#[trigger] d.added[k]).1 == sources@[i]->File_source
            && d.added[k].2 == sources@[i]->File_mtime;
    assert(addition_views(r.added@)[k] == d.added[k]);
    assert(r.added@[k].source == sources@[i]->File_source);
    let wanted = child_of(into@, name_or(name, "file"@));
    assert(placed(into@, name_or(name, "file"@)) =~= wanted);
    lemma_is_there(existing@, r, d, wanted);
}

proof fn lemma_is_there(existing: Seq<String>, r: Plan, d: Draft, p: Seq<char>)
    requires
        accounted(d, texts(existing)),
        addition_views(r.added@) == d.added,
        texts(r.dirs@) == d.dirs,
        d.taken.contains(p),
    ensures
        is_there(existing, r, p),
{
    if texts(existing).contains(p) {
        let i = choose|i: int| 0 <= i < texts(existing).len() && texts(existing)[i] == p;
        assert(existing[i]@ == p);
    } else if d.dirs.contains(p) {
        let i = choose|i: int| 0 <= i < d.dirs.len() && d.dirs[i] == p;
        assert(texts(r.dirs@)[i] == p);
        assert(r.dirs@[i]@ == p);
    } else {
        let k = choose|k: int| 0 <= k < d.added.len() && (#[trigger] d.added[k]).0 == p;
        assert(addition_views(r.added@)[k].0 == p);
        assert(r.added@[k].vault_path@ == p);
    }
}

/// How many of the members of a folder are files that cannot be read.
pub open spec fn unreadable_members(members: Seq<Member>) -> nat
    decreases members.len(),
{
    if members.len() == 0 {
        0
    } else {
        unreadable_members(members.drop_last()) + (if members.last().kind == MemberKind::File
            && !members.last().readable {
            1nat
        } else {
            0
        })
    }
}

/// How many of the sources, and of the files in them, cannot be read; those in a folder
/// only if `inside` is set.
pub open spec fn unreadable_sources(sources: Seq<Source>, inside: bool) -> nat
    decreases sources.len(),
{
    if sources.len() == 0 {
        0
    } else {
        unreadable_sources(sources.drop_last(), inside) + (match sources.last() {
            Source::Missing | Source::Unreadable => 1nat,
            Source::File { name, mtime, source } => 0,
            Source::Folder { name, members } => if inside {
                unreadable_members(members@)
            } else {
                0
            },
        })
    }
}

/// What could not be read is counted, and nothing that could: every source that is missing
/// or unreadable counts, and beyond those at most the unreadable files in folders.
pub proof fn law_only_what_cannot_be_read_is_counted(
    existing: &[String],
    into: &str,
    sources: &[Source],
    r: Plan,
)
    requires
        call_ensures(plan_additions, (existing, into, sources), r),
    ensures
        unreadable_sources(sources@, false) <= r.failed <= unreadable_sources(sources@, true),
{
    lemma_failed_bounds(blank(texts(existing@)), into@, sources@);
}

proof fn lemma_failed_bounds(d: Draft, into: Seq<char>, sources: Seq<Source>)
    ensures
        d.failed + unreadable_sources(sources, false) <= with_sources(d, into, sources).failed
            <= d.failed + unreadable_sources(sources, true),
    decreases sources.len(),
{
    if sources.len() > 0 {
        lemma_failed_bounds(d, into, sources.drop_last());
        if let Source::Folder { name, members } = sources.last() {
            lemma_members_bounds(
                with_sources(d, into, sources.drop_last()),
                into,
                name_or(name, "folder"@),
                members@,
            );
        }
    }
}

proof fn lemma_members_bounds(d: Draft, into: Seq<char>, root: Seq<char>, members: Seq<Member>)
    ensures
        d.failed <= with_members(d, into, root, members).failed <= d.failed + unreadable_members(
            members,
        ),
    decreases members.len(),
{
    if members.len() > 0 {
        lemma_members_bounds(d, into, root, members.drop_last());
    }
}

/// An unreadable file in an added folder counts as failed, if its place was free.
pub proof fn law_an_unreadable_member_is_counted(
    existing: &[String],
    into: &str,
    name: Option<String>,
    members: Vec<Member>,
    sources: &[Source],
    r: Plan,
    j: int,
)
    requires
        sources@ == seq![Source::Folder { name, members }],
        call_ensures(plan_additions, (existing, into, sources), r),
        0 <= j < members@.len(),
        members@[j].kind == MemberKind::File,
        !members@[j].readable,
        members@[j].rel@.len() > 0,
        !is_there(existing@, r, placed_member(into@, name, members@[j])),
    ensures
        r.failed > 0,
{
    let e = texts(existing@);
    let root = name_or(name, "folder"@);
    let d = with_sources(blank(e), into@, sources@);
    assert(sources@.drop_last() =~= Seq::<Source>::empty());
    assert(sources@.last() == Source::Folder { name, members });
    reveal_with_fuel(with_sources, 2);
    assert(d == with_members(blank(e), into@, root, members@));
    lemma_sources_step(e, into@, sources@);
    lemma_placed(into@, name, members@[j]);
    let p = member_path(into@, root, members@[j].rel@);
    if d.taken.contains(p) {
        lemma_is_there(existing@, r, d, p);
    }
    lemma_counted(blank(e), e, into@, root, members@, j);
}

proof fn lemma_counted(
    d: Draft,
    existing: Seq<Seq<char>>,
    into: Seq<char>,
    root: Seq<char>,
    members: Seq<Member>,
    j: int,
)
    requires
        accounted(d, existing),
        0 <= j < members.len(),
        members[j].kind == MemberKind::File,
        !members[j].readable,
        members[j].rel@.len() > 0,
        !with_members(d, into, root, members).taken.contains(
            member_path(into, root, members[j].rel@),
        ),
    ensures
        with_members(d, into, root, members).failed > d.failed,
    decreases members.len(),
{
    let t = members.drop_last();
    let b = with_members(d, into, root, t);
    lemma_members_step(d, existing, into, root, t);
    lemma_member_step(b, existing, into, root, members.last());
    if j < t.len() {
        assert(t[j] == members[j]);
        lemma_counted(d, existing, into, root, t, j);
    }
}

/// `base` with the number `i` inserted at `at`.
pub open spec fn with_number(base: Seq<char>, at: int, i: nat) -> Seq<char> {
    base.take(at) + (" ("@ + decimal_text(i) + ")"@) + base.skip(at)
}

/// A free name is kept as it is, and a taken one only gets a number: in front of the
/// extension of its leaf, the folder and the rest of the name as they were. What is picked
/// is free, unless every number is taken too.
pub proof fn law_a_taken_name_only_gets_a_number(existing: &[String], base: &str, r: String)
    requires
        call_ensures(unique_name_in, (existing, base), r),
        last_pos(base@, '/') != 0,
    ensures
        !texts(existing@).contains(base@) ==> r@ == base@,
        texts(existing@).contains(base@) ==> r@ == base@ || exists|at: int, i: nat|
            1 <= i < 10_000 && r@ == #[trigger] with_number(base@, at, i) && crate::path::extension_at(
                base@,
                at,
            ),
        (exists|i: nat| 1 <= i < 10_000 && !texts(existing@).contains(#[trigger] numbered(base@, i)))
            ==> !texts(existing@).contains(r@),
{
    let taken = texts(existing@);
    if exists|i: nat| 1 <= i < 10_000 && !taken.contains(#[trigger] numbered(base@, i)) {
        let i = choose|i: nat| 1 <= i < 10_000 && !taken.contains(#[trigger] numbered(base@, i));
        law_unique_name_is_free(taken, base@, i);
    }
    if taken.contains(base@) {
        lemma_first_free_form(taken, base@, 1);
        if r@ != base@ {
            let i = choose|i: nat| 1 <= i < 10_000 && r@ == #[trigger] numbered(base@, i);
            lemma_number_inserted(base@, i);
        }
    }
}

proof fn lemma_first_free_form(taken: Seq<Seq<char>>, base: Seq<char>, from: nat)
    requires
        1 <= from,
    ensures
        first_free(taken, base, from) == base || exists|i: nat|
            1 <= i < 10_000 && first_free(taken, base, from) == #[trigger] numbered(base, i),
    decreases 10_000 - from,
{
    if from < 10_000 && taken.contains(numbered(base, from)) {
        lemma_first_free_form(taken, base, from + 1);
    }
}

proof fn lemma_number_inserted(base: Seq<char>, i: nat)
    requires
        last_pos(base, '/') != 0,
    ensures
        exists|at: int|
            numbered(base, i) == #[trigger] with_number(base, at, i) && crate::path::extension_at(base, at),
{
    let at = crate::path::lemma_before_the_extension(base, " ("@ + decimal_text(i) + ")"@);
    assert(numbered(base, i) == with_number(base, at, i));
}

} // verus!
