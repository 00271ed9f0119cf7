//! Moving entries: which of a selection to act on, and where they may go.

use vstd::prelude::*;

use crate::browse::{item, listing, Entry, EntryKind, Item};
use crate::order::{
    lemma_filter_members, lemma_text_order, sort_stable, stably_sorted, text_at_most, text_le,
};
use crate::path::{below, is_below, is_trashed, is_within, leaf_name, leaf_of, trashed, within};
use crate::text::{owned, segments, split_on, texts};

verus! {

/// Whether `path` lies below one of `paths`.
pub open spec fn below_any(path: Seq<char>, paths: Seq<Seq<char>>) -> bool {
    exists|i: int| 0 <= i < paths.len() && below(path, #[trigger] paths[i])
}

/// Whether `path` is one of `paths` or lies below one of them.
pub open spec fn within_any(path: Seq<char>, paths: Seq<Seq<char>>) -> bool {
    exists|i: int| 0 <= i < paths.len() && within(path, #[trigger] paths[i])
}

/// The paths that lie below none of the others, in order.
pub open spec fn top_level(paths: Seq<Seq<char>>) -> Seq<Seq<char>> {
    paths.filter(|p: Seq<char>| !below_any(p, paths))
}

/// Whether `path` lies below one of `paths`.
fn is_below_any(path: &str, paths: &[String]) -> (r: bool)
    ensures
        r == below_any(path@, texts(paths@)),
{
    let mut i: usize = 0;
    while i < paths.len()
        invariant
            i <= paths@.len(),
            forall|k: int| 0 <= k < i ==> !below(path@, #[trigger] texts(paths@)[k]),
        decreases paths@.len() - i,
    {
        assert(texts(paths@)[i as int] == paths@[i as int]@);
        if is_below(path, &paths[i]) {
            return true;
        }
        i += 1;
    }
    false
}

/// Whether `path` is one of `paths` or lies below one of them.
fn is_within_any(path: &str, paths: &[String]) -> (r: bool)
    ensures
        r == within_any(path@, texts(paths@)),
{
    let mut i: usize = 0;
    while i < paths.len()
        invariant
            i <= paths@.len(),
            forall|k: int| 0 <= k < i ==> !within(path@, #[trigger] texts(paths@)[k]),
        decreases paths@.len() - i,
    {
        assert(texts(paths@)[i as int] == paths@[i as int]@);
        if is_within(path, &paths[i]) {
            return true;
        }
        i += 1;
    }
    false
}

/// Keeps only the top-level entries of a selection: drops any path that is a
/// descendant of another selected path. (A global search can select both a folder
/// and a file inside it; moving both would act on the inner one twice.)
pub fn prune_nested(paths: &[String]) -> (r: Vec<String>)
    ensures
        texts(r@) == top_level(texts(paths@)),
{
    let ghost t = texts(paths@);
    let ghost keep = |p: Seq<char>| !below_any(p, t);
    let mut out: Vec<String> = Vec::new();
    let mut i: usize = 0;
    proof {
        reveal(Seq::filter);
        assert(texts(out@) =~= t.take(0).filter(keep));
    }
    while i < paths.len()
        invariant
            i <= paths@.len(),
            t == texts(paths@),
            keep == (|p: Seq<char>| !below_any(p, t)),
            texts(out@) == t.take(i as int).filter(keep),
        decreases paths@.len() - i,
    {
        proof {
            reveal(Seq::filter);
            assert(t.take(i + 1).drop_last() =~= t.take(i as int));
            assert(t[i as int] == paths@[i as int]@);
        }
        if !is_below_any(&paths[i], paths) {
            let ghost before = texts(out@);
            out.push(paths[i].clone());
            assert(texts(out@) =~= before.push(t[i as int]));
        }
        i += 1;
    }
    assert(t.take(i as int) =~= t);
    out
}

/// A folder offered as a destination: its path, its name, and its depth.
pub open spec fn option_of(path: Seq<char>) -> (Seq<char>, Seq<char>, nat) {
    (path, leaf_of(path), segments(path, '/').len())
}

/// The folders that entries `moving` may be moved to: the live folders that are
/// neither being moved nor inside what is.
pub open spec fn destinations(items: Seq<Item>, moving: Seq<Seq<char>>) -> Seq<Seq<char>> {
    items.filter(
        |e: Item| e.1 == EntryKind::Dir && !trashed(e.0) && !within_any(e.0, moving),
    ).map_values(|e: Item| e.0)
}

/// The rank of texts.
pub open spec fn by_text() -> spec_fn(Seq<char>, Seq<char>) -> bool {
    |a: Seq<char>, b: Seq<char>| text_le(a, b)
}

/// The destination folders offered by the move dialog: the vault root plus every
/// live folder, minus the folders being moved (and their subtrees, so a folder
/// cannot be moved into itself). Each is `(path, display leaf, depth)` for an
/// indented tree-style picker.
pub fn move_folder_options(entries: &[Entry], moving: &[String]) -> (r: Vec<
    (String, String, usize),
>)
    ensures
        r@.len() > 0,
        r@[0].0@ == ""@ && r@[0].1@ == "Top level"@ && r@[0].2 == 0,
        stably_sorted(
            destinations(listing(entries@), texts(moving@)),
            r@.skip(1).map_values(|o: (String, String, usize)| o.0@),
            by_text(),
        ),
        forall|i: int|
            1 <= i < r@.len() ==> ((#[trigger] r@[i]).0@, r@[i].1@, r@[i].2 as nat) == option_of(
                r@[i].0@,
            ),
{
    let ghost items = listing(entries@);
    let ghost keep = |e: Item|
        e.1 == EntryKind::Dir && !trashed(e.0) && !within_any(e.0, texts(moving@));
    let ghost path = |e: Item| e.0;
    let mut dirs: Vec<String> = Vec::new();
    let mut i: usize = 0;
    proof {
        reveal(Seq::filter);
        assert(texts(dirs@) =~= items.take(0).filter(keep).map_values(path));
    }
    while i < entries.len()
        invariant
            i <= entries@.len(),
            items == listing(entries@),
            keep == (|e: Item|
                e.1 == EntryKind::Dir && !trashed(e.0) && !within_any(e.0, texts(moving@))),
            path == (|e: Item| e.0),
            texts(dirs@) == items.take(i as int).filter(keep).map_values(path),
        decreases entries@.len() - i,
    {
        let ghost f0 = items.take(i as int).filter(keep);
        let ghost f1 = items.take(i + 1).filter(keep);
        proof {
            reveal(Seq::filter);
            assert(items.take(i + 1).drop_last() =~= items.take(i as int));
            assert(items[i as int] == item(entries@[i as int]));
        }
        let p = &entries[i].0;
        if entries[i].1 == EntryKind::Dir && !is_trashed(p) && !is_within_any(p, moving) {
            let ghost before = texts(dirs@);
            dirs.push(p.clone());
            proof {
                assert(f1 == f0.push(items[i as int]));
                assert(texts(dirs@) =~= before.push(p@));
                assert(f1.map_values(path) =~= f0.map_values(path).push(p@));
            }
        }
        i += 1;
    }
    assert(items.take(i as int) =~= items);
    let ghost input = dirs@;
    let ghost le = |a: String, b: String| text_le(a@, b@);
    proof {
        assert forall|a: String, b: String| #[trigger] le(a, b) || le(b, a) by {
            lemma_text_order(a@, b@, a@);
        }
        assert forall|a: String, b: String, c: String| #[trigger] le(a, b) && #[trigger] le(
            b,
            c,
        ) implies le(a, c) by {
            lemma_text_order(a@, b@, c@);
        }
    }
    let at_most = |a: &String, b: &String| -> (r: bool)
        ensures
            r == text_le(a@, b@),
        { text_at_most(a, b) };
    let sorted = sort_stable(dirs, at_most, Ghost(le));
    let mut opts: Vec<(String, String, usize)> = Vec::new();
    opts.push((owned(""), owned("Top level"), 0));
    let ghost first = |o: (String, String, usize)| o.0@;
    assert(opts@.skip(1).map_values(first) =~= texts(sorted@).take(0));
    let mut k: usize = 0;
    while k < sorted.len()
        invariant
            k <= sorted@.len(),
            opts@.len() == k + 1,
            opts@[0].0@ == ""@ && opts@[0].1@ == "Top level"@ && opts@[0].2 == 0,
            first == (|o: (String, String, usize)| o.0@),
            opts@.skip(1).map_values(first) == texts(sorted@).take(k as int),
            forall|i: int|
                1 <= i < opts@.len() ==> ((#[trigger] opts@[i]).0@, opts@[i].1@, opts@[i].2 as nat)
                    == option_of(opts@[i].0@),
        decreases sorted@.len() - k,
    {
        let d = &sorted[k];
        let parts = split_on(d, '/');
        let depth: usize = parts.len();
        let ghost before = opts@;
        opts.push((d.clone(), owned(leaf_name(d)), depth));
        proof {
            assert(texts(parts@).len() == depth);
            assert(opts@.skip(1) =~= before.skip(1).push(opts@[k + 1]));
            assert(opts@.skip(1).map_values(first) =~= before.skip(1).map_values(first).push(d@));
            assert(texts(sorted@).take(k + 1) =~= texts(sorted@).take(k as int).push(d@));
        }
        k += 1;
    }
    proof {
        assert(texts(sorted@).take(k as int) =~= texts(sorted@));
        let p = choose|p: Seq<int>| #[trigger] crate::order::arranged(input, sorted@, le, p);
        assert forall|i: int| 0 <= i < sorted@.len() implies #[trigger] texts(sorted@)[i] == texts(
            input,
        )[p[i]] by {
            assert(sorted@[i] == input[p[i]]);
        }
        assert forall|i: int, j: int| 0 <= i < j < sorted@.len() implies by_text()(
            texts(sorted@)[i],
            texts(sorted@)[j],
        ) && (by_text()(texts(sorted@)[j], texts(sorted@)[i]) ==> p[i] < p[j]) by {
            assert(le(sorted@[i], sorted@[j]) && (le(sorted@[j], sorted@[i]) ==> p[i] < p[j]));
        }
        assert(crate::order::arranged(texts(input), texts(sorted@), by_text(), p));
    }
    opts
}

// ---------------------------------------------------------------------------
// Laws
// ---------------------------------------------------------------------------

/// No path that is kept lies below another selected path.
pub proof fn law_pruned_paths_are_not_nested(paths: Seq<Seq<char>>, a: Seq<char>, b: Seq<char>)
    requires
        top_level(paths).contains(a),
        top_level(paths).contains(b),
    ensures
        !below(a, b),
{
    let keep = |p: Seq<char>| !below_any(p, paths);
    lemma_filter_members(paths, keep, a);
    lemma_filter_members(paths, keep, b);
    assert(keep(a));
    if below(a, b) {
        let i = choose|i: int| 0 <= i < paths.len() && paths[i] == b;
        assert(below(a, paths[i]));
    }
}

/// Every selected path is kept or lies below one that is: nothing escapes the
/// action.
pub proof fn law_pruning_covers_the_selection(paths: Seq<Seq<char>>, a: Seq<char>)
    requires
        paths.contains(a),
    ensures
        within_any(a, top_level(paths)),
    decreases a.len(),
{
    let keep = |p: Seq<char>| !below_any(p, paths);
    if below_any(a, paths) {
        let i = choose|i: int| 0 <= i < paths.len() && below(a, paths[i]);
        let b = paths[i];
        assert(paths.contains(b));
        law_pruning_covers_the_selection(paths, b);
        let j = choose|j: int| 0 <= j < top_level(paths).len() && within(b, top_level(paths)[j]);
        if below(b, top_level(paths)[j]) {
            crate::path::law_below_is_transitive(a, b, top_level(paths)[j]);
        }
        assert(within(a, top_level(paths)[j]));
    } else {
        lemma_filter_members(paths, keep, a);
        let j = choose|j: int| 0 <= j < top_level(paths).len() && top_level(paths)[j] == a;
        assert(within(a, top_level(paths)[j]));
    }
}

/// A folder is never offered as a destination for itself or for what is above it,
/// and the trash is never offered.
pub proof fn law_no_folder_moves_into_itself(
    items: Seq<Item>,
    moving: Seq<Seq<char>>,
    dest: Seq<char>,
    m: Seq<char>,
)
    requires
        destinations(items, moving).contains(dest),
        moving.contains(m),
    ensures
        !within(dest, m),
        !trashed(dest),
        crate::browse::is_folder(items, dest),
{
    let keep = |e: Item| e.1 == EntryKind::Dir && !trashed(e.0) && !within_any(e.0, moving);
    let f = items.filter(keep);
    let k = choose|k: int| 0 <= k < destinations(items, moving).len() && destinations(
        items,
        moving,
    )[k] == dest;
    assert(f.contains(f[k]));
    lemma_filter_members(items, keep, f[k]);
    let j = choose|j: int| 0 <= j < items.len() && items[j] == f[k];
    assert(items[j].0 == dest);
    if within(dest, m) {
        let i = choose|i: int| 0 <= i < moving.len() && moving[i] == m;
        assert(within(dest, moving[i]));
    }
}

/// Whether a path lies behind a folder and a slash.
pub open spec fn lies_in(p: Seq<char>, dir: Seq<char>) -> bool {
    p.len() > dir.len() && p.take(dir.len() as int) == dir && p[dir.len() as int] == '/'
}

/// Of a selection exactly those paths are kept that lie in no other selected one.
pub proof fn law_only_nested_paths_are_pruned(paths: &[String], r: Vec<String>, p: Seq<char>)
    requires
        call_ensures(prune_nested, (paths,), r),
    ensures
        texts(r@).contains(p) <==> texts(paths@).contains(p) && !(exists|i: int|
            0 <= i < paths@.len() && lies_in(p, (#[trigger] paths@[i])@)),
{
    let t = texts(paths@);
    let keep = |q: Seq<char>| !below_any(q, t);
    lemma_filter_members(t, keep, p);
    if below_any(p, t) {
        let i = choose|i: int| 0 <= i < t.len() && below(p, #[trigger] t[i]);
        crate::path::lemma_behind_a_slash(p, t[i]);
        assert(lies_in(p, paths@[i]@));
    }
    if exists|i: int| 0 <= i < paths@.len() && lies_in(p, (#[trigger] paths@[i])@) {
        let i = choose|i: int| 0 <= i < paths@.len() && lies_in(p, (#[trigger] paths@[i])@);
        crate::path::lemma_behind_a_slash(p, paths@[i]@);
        assert(t[i] == paths@[i]@);
        assert(below(p, t[i]));
    }
}

/// Things can be moved to the top level and to every folder of the vault outside the trash
/// that is neither moved itself nor inside what is moved; and to nothing else.
pub proof fn law_every_other_folder_is_a_destination(
    entries: &[Entry],
    moving: &[String],
    r: Vec<(String, String, usize)>,
    d: Seq<char>,
)
    requires
        call_ensures(move_folder_options, (entries, moving), r),
        d.len() > 0,
    ensures
        r@.len() > 0 && r@[0].0@.len() == 0,
        (exists|k: int| 1 <= k < r@.len() && (#[trigger] r@[k]).0@ == d) <==> (exists|i: int|
            0 <= i < entries@.len() && (#[trigger] entries@[i]).0@ == d && entries@[i].1
                == EntryKind::Dir) && d != ".trash"@ && !lies_in(d, ".trash"@) && !(exists|m: int|
            0 <= m < moving@.len() && (d == (#[trigger] moving@[m])@ || lies_in(d, moving@[m]@))),
{
    reveal_strlit("");
    reveal_strlit(".trash");
    crate::path::lemma_trash_dir();
    crate::path::lemma_behind_a_slash(d, ".trash"@);
    let items = listing(entries@);
    let mv = texts(moving@);
    let keep = |e: Item| e.1 == EntryKind::Dir && !trashed(e.0) && !within_any(e.0, mv);
    let f = items.filter(keep);
    let dests = destinations(items, mv);
    let first = |o: (String, String, usize)| o.0@;
    let shown = r@.skip(1).map_values(first);
    crate::order::law_sorting_keeps_the_values(dests, shown, by_text(), d);
    if exists|k: int| 1 <= k < r@.len() && (#[trigger] r@[k]).0@ == d {
        let k = choose|k: int| 1 <= k < r@.len() && (#[trigger] r@[k]).0@ == d;
        assert(shown[k - 1] == d);
        assert(shown.contains(d));
        let j = choose|j: int| 0 <= j < dests.len() && dests[j] == d;
        assert(f.contains(f[j]));
        lemma_filter_members(items, keep, f[j]);
        let i = choose|i: int| 0 <= i < items.len() && items[i] == f[j];
        assert(items[i] == item(entries@[i]));
        assert(entries@[i].0@ == d);
        assert forall|m: int| 0 <= m < moving@.len() implies !(d == (#[trigger] moving@[m])@
            || lies_in(d, moving@[m]@)) by {
            crate::path::lemma_behind_a_slash(d, moving@[m]@);
            assert(mv[m] == moving@[m]@);
            if d == moving@[m]@ || lies_in(d, moving@[m]@) {
                assert(within(d, mv[m]));
            }
        }
    }
    if (exists|i: int|
        0 <= i < entries@.len() && (#[trigger] entries@[i]).0@ == d && entries@[i].1
            == EntryKind::Dir) && d != ".trash"@ && !lies_in(d, ".trash"@) && !(exists|m: int|
        0 <= m < moving@.len() && (d == (#[trigger] moving@[m])@ || lies_in(d, moving@[m]@))) {
        let i = choose|i: int|
            0 <= i < entries@.len() && (#[trigger] entries@[i]).0@ == d && entries@[i].1
                == EntryKind::Dir;
        let e = items[i];
        assert(e == item(entries@[i]));
        if within_any(d, mv) {
            let m = choose|m: int| 0 <= m < mv.len() && within(d, #[trigger] mv[m]);
            crate::path::lemma_behind_a_slash(d, mv[m]);
            assert(moving@[m]@ == mv[m]);
        }
        assert(keep(e));
        assert(items.contains(e));
        lemma_filter_members(items, keep, e);
        let j = choose|j: int| 0 <= j < f.len() && f[j] == e;
        assert(dests[j] == d);
        assert(dests.contains(d));
        let k = choose|k: int| 0 <= k < shown.len() && shown[k] == d;
        assert(r@[k + 1].0@ == d);
    }
}

/// A destination is shown by its name, one step deeper than the folder it is in, with the
/// folders in order of their paths.
pub proof fn law_destinations_are_shown_as_a_tree(
    entries: &[Entry],
    moving: &[String],
    r: Vec<(String, String, usize)>,
    parent: int,
    child: int,
    name: Seq<char>,
)
    requires
        call_ensures(move_folder_options, (entries, moving), r),
        1 <= parent < r@.len(),
        1 <= child < r@.len(),
        !name.contains('/'),
    ensures
        r@[child].0@ == r@[parent].0@ + "/"@ + name ==> r@[child].1@ == name && r@[child].2
            == r@[parent].2 + 1,
        r@[child].0@ == name ==> r@[child].1@ == name && r@[child].2 == 1,
        parent < child ==> text_le(r@[parent].0@, r@[child].0@),
{
    reveal_strlit("/");
    assert((r@[parent].0@, r@[parent].1@, r@[parent].2 as nat) == option_of(r@[parent].0@));
    assert((r@[child].0@, r@[child].1@, r@[child].2 as nat) == option_of(r@[child].0@));
    crate::text::lemma_one_segment(name, '/');
    let p = r@[parent].0@;
    if r@[child].0@ == p + "/"@ + name {
        assert(p + "/"@ + name =~= p.push('/') + name);
        crate::text::lemma_segments_join(p, '/', name);
        let c = r@[child].0@;
        assert forall|i: int| p.len() < i < c.len() implies c[i] != '/' by {
            assert(name.contains(name[i - p.len() - 1]));
        }
        crate::text::lemma_last_pos_unique(c, '/', p.len() as int);
        assert(c.skip(p.len() + 1int) =~= name);
    }
    if r@[child].0@ == name {
        assert forall|i: int| -1 < i < name.len() implies name[i] != '/' by {
            assert(name.contains(name[i]));
        }
        crate::text::lemma_last_pos_unique(name, '/', -1);
        assert(name.skip(0) =~= name);
    }
    if parent < child {
        let first = |o: (String, String, usize)| o.0@;
        let shown = r@.skip(1).map_values(first);
        let dests = destinations(listing(entries@), texts(moving@));
        let q = choose|q: Seq<int>| #[trigger] crate::order::arranged(dests, shown, by_text(), q);
        assert(by_text()(shown[parent - 1], shown[child - 1]));
        assert(shown[parent - 1] == r@[parent].0@ && shown[child - 1] == r@[child].0@);
    }
}

} // verus!
