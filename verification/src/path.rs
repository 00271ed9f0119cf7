//! Vault paths: `/`-separated, relative, with "" naming the vault root.

use vstd::prelude::*;
use crate::text::{
    begins_with, last_pos, lemma_last_pos, owned, rfind, same_text,
    segments, split_on, starts_with, texts, to_chars,
};

verus! {

/// The hidden directory that holds soft-deleted entries.
pub const TRASH_DIR: &'static str = ".trash";

/// The text of [`TRASH_DIR`].
pub open spec fn trash_dir() -> Seq<char> {
    seq!['.', 't', 'r', 'a', 's', 'h']
}

/// `dir/name`, or just `name` at the root.
pub open spec fn child_of(dir: Seq<char>, name: Seq<char>) -> Seq<char> {
    if dir.len() == 0 {
        name
    } else {
        dir.push('/') + name
    }
}

/// The part of a path before its last `/`, or "" when there is none.
pub open spec fn parent_of(path: Seq<char>) -> Seq<char> {
    if last_pos(path, '/') < 0 {
        Seq::empty()
    } else {
        path.take(last_pos(path, '/'))
    }
}

/// The part of a path after its last `/`.
pub open spec fn leaf_of(path: Seq<char>) -> Seq<char> {
    path.skip(last_pos(path, '/') + 1)
}

/// Whether `path` lies strictly below the folder `dir`.
pub open spec fn below(path: Seq<char>, dir: Seq<char>) -> bool {
    begins_with(path, dir.push('/'))
}

/// Whether `path` is `dir` itself or lies below it.
pub open spec fn within(path: Seq<char>, dir: Seq<char>) -> bool {
    path == dir || below(path, dir)
}

/// Whether `path` is in the trash.
pub open spec fn trashed(path: Seq<char>) -> bool {
    within(path, trash_dir())
}

/// The text of a leaf before its extension, and the extension with its dot. A
/// dot in front belongs to the stem.
pub open spec fn ext_split(leaf: Seq<char>) -> (Seq<char>, Seq<char>) {
    if last_pos(leaf, '.') > 0 {
        (leaf.take(last_pos(leaf, '.')), leaf.skip(last_pos(leaf, '.')))
    } else {
        (leaf, Seq::empty())
    }
}

/// The breadcrumbs for a list of path segments, each a label and the folder it
/// leads to. Empty segments give none.
pub open spec fn crumbs(segs: Seq<Seq<char>>) -> Seq<(Seq<char>, Seq<char>)>
    decreases segs.len(),
{
    if segs.len() == 0 {
        seq![("Home"@, Seq::<char>::empty())]
    } else {
        let before = crumbs(segs.drop_last());
        if segs.last().len() == 0 {
            before
        } else {
            before.push((segs.last(), child_of(before.last().1, segs.last())))
        }
    }
}

/// The texts of a list of pairs of strings.
pub open spec fn pair_texts(v: Seq<(String, String)>) -> Seq<(Seq<char>, Seq<char>)> {
    v.map_values(|p: (String, String)| (p.0@, p.1@))
}

/// The parent directory of a normalized vault path ("" for a top-level entry).
pub fn parent_dir(path: &str) -> (r: &str)
    ensures
        r@ == parent_of(path@),
{
    let v = to_chars(path);
    match rfind(&v, '/') {
        Some(k) => path.substring_char(0, k),
        None => path.substring_char(0, 0),
    }
}

/// The final path segment (the display name) of a vault path.
pub fn leaf_name(path: &str) -> (r: &str)
    ensures
        r@ == leaf_of(path@),
{
    let v = to_chars(path);
    let n: usize = v.len();
    match rfind(&v, '/') {
        Some(k) => path.substring_char(k + 1, n),
        None => path.substring_char(0, n),
    }
}

/// `(parent path, final component)` of a path.
pub fn split_parent(path: &str) -> (r: (&str, &str))
    ensures
        r.0@ == parent_of(path@),
        r.1@ == leaf_of(path@),
{
    (parent_dir(path), leaf_name(path))
}

/// Splits a leaf into `(stem, extension with its dot)`. A leading dot belongs to
/// the stem: `.bashrc` has no extension.
pub fn split_ext(leaf: &str) -> (r: (&str, &str))
    ensures
        (r.0@, r.1@) == ext_split(leaf@),
{
    let v = to_chars(leaf);
    match rfind(&v, '.') {
        Some(k) if k > 0 => (leaf.substring_char(0, k), leaf.substring_char(k, v.len())),
        _ => (leaf, leaf.substring_char(0, 0)),
    }
}

/// `dir/name`, or just `name` at the root.
pub fn join_path(dir: &str, name: &str) -> (r: String)
    ensures
        r@ == child_of(dir@, name@),
{
    if dir.is_empty() {
        owned(name)
    } else {
        let mut r = owned(dir);
        r.push('/');
        r.append(name);
        r
    }
}

/// Whether `path` lies strictly below the folder `dir`.
pub fn is_below(path: &str, dir: &str) -> (r: bool)
    ensures
        r == below(path@, dir@),
{
    let mut prefix = owned(dir);
    prefix.push('/');
    starts_with(path, &prefix)
}

/// Whether `path` is `dir` itself or lies below it.
pub fn is_within(path: &str, dir: &str) -> (r: bool)
    ensures
        r == within(path@, dir@),
{
    same_text(path, dir) || is_below(path, dir)
}

/// Whether `path` is in the trash.
pub fn is_trashed(path: &str) -> (r: bool)
    ensures
        r == trashed(path@),
{
    proof {
        lemma_trash_dir();
    }
    is_within(path, TRASH_DIR)
}

/// [`TRASH_DIR`] reads as [`trash_dir`].
pub proof fn lemma_trash_dir()
    ensures
        TRASH_DIR@ == trash_dir(),
{
    reveal_strlit(".trash");
    assert(TRASH_DIR@ =~= trash_dir());
}

/// Breadcrumb segments for `dir`, each `(label, navigation target)`. Always starts
/// with `("Home", "")`; "a/b" gives Home to "", a to "a", b to "a/b".
pub fn breadcrumb_segments(dir: &str) -> (r: Vec<(String, String)>)
    ensures
        pair_texts(r@) == crumbs(segments(dir@, '/')),
{
    let segs = split_on(dir, '/');
    let mut out: Vec<(String, String)> = Vec::new();
    let mut acc = String::new();
    out.push((owned("Home"), String::new()));
    let mut i: usize = 0;
    assert(texts(segs@).take(0) =~= Seq::<Seq<char>>::empty());
    assert(pair_texts(out@) =~= crumbs(texts(segs@).take(0)));
    while i < segs.len()
        invariant
            i <= segs@.len(),
            texts(segs@) == segments(dir@, '/'),
            pair_texts(out@) == crumbs(texts(segs@).take(i as int)),
            out@.len() > 0,
            acc@ == pair_texts(out@).last().1,
        decreases segs@.len() - i,
    {
        let ghost t = texts(segs@);
        assert(t.take(i + 1).drop_last() =~= t.take(i as int));
        let seg = &segs[i];
        if !seg.as_str().is_empty() {
            let ghost before = pair_texts(out@);
            acc = join_path(&acc, seg);
            out.push((seg.clone(), acc.clone()));
            assert(pair_texts(out@) =~= before.push((seg@, acc@)));
        }
        i += 1;
    }
    assert(texts(segs@).take(i as int) =~= texts(segs@));
    out
}

// ---------------------------------------------------------------------------
// Laws
// ---------------------------------------------------------------------------

/// Splitting a path and joining the two parts again gives the path back,
/// whenever its parent is not the root or it has no `/` at all.
pub proof fn law_parent_and_leaf_rebuild_the_path(path: Seq<char>)
    requires
        last_pos(path, '/') != 0,
    ensures
        child_of(parent_of(path), leaf_of(path)) == path,
{
    lemma_last_pos(path, '/');
    let k = last_pos(path, '/');
    if k < 0 {
        assert(path.skip(0) =~= path);
    } else {
        assert(path.take(k).push('/') + path.skip(k + 1) =~= path);
    }
}

/// A name placed in a folder is found there again.
pub proof fn law_child_is_in_its_folder(dir: Seq<char>, name: Seq<char>)
    requires
        !name.contains('/'),
    ensures
        parent_of(child_of(dir, name)) == dir,
        leaf_of(child_of(dir, name)) == name,
{
    let p = child_of(dir, name);
    let k: int = if dir.len() == 0 { -1 } else { dir.len() as int };
    assert forall|i: int| k < i < p.len() implies p[i] != '/' by {
        assert(p[i] == name[i - k - 1]);
    }
    crate::text::lemma_last_pos_unique(p, '/', k);
    if dir.len() == 0 {
        assert(p.skip(0) =~= name);
        assert(parent_of(p) =~= dir);
    } else {
        assert(p.take(k) =~= dir);
        assert(p.skip(k + 1) =~= name);
    }
}

/// The two parts of a split leaf, put together, are the leaf.
pub proof fn law_ext_split_rebuilds_the_leaf(leaf: Seq<char>)
    ensures
        ext_split(leaf).0 + ext_split(leaf).1 == leaf,
{
    lemma_last_pos(leaf, '.');
    let k = last_pos(leaf, '.');
    if k > 0 {
        assert(leaf.take(k) + leaf.skip(k) =~= leaf);
    } else {
        assert(leaf + Seq::<char>::empty() =~= leaf);
    }
}

/// A folder's subtree is closed: what lies below something below `dir` lies
/// below `dir`.
pub proof fn law_below_is_transitive(a: Seq<char>, b: Seq<char>, c: Seq<char>)
    requires
        below(a, b),
        below(b, c),
    ensures
        below(a, c),
{
    let bp = b.push('/');
    let cp = c.push('/');
    assert(a.take(bp.len() as int) == bp);
    assert(b.take(cp.len() as int) == cp);
    assert forall|i: int| 0 <= i < cp.len() implies a.take(cp.len() as int)[i] == cp[i] by {
        assert(a[i] == a.take(bp.len() as int)[i]);
        assert(b[i] == b.take(cp.len() as int)[i]);
    }
    assert(a.take(cp.len() as int) =~= cp);
}

/// The breadcrumb trail of any folder starts with the vault root.
pub proof fn law_breadcrumbs_start_at_home(dir: Seq<char>)
    ensures
        crumbs(segments(dir, '/')).len() >= 1,
        crumbs(segments(dir, '/'))[0] == ("Home"@, Seq::<char>::empty()),
{
    lemma_crumbs_head(segments(dir, '/'));
}

proof fn lemma_crumbs_head(segs: Seq<Seq<char>>)
    ensures
        crumbs(segs).len() >= 1,
        crumbs(segs)[0] == ("Home"@, Seq::<char>::empty()),
    decreases segs.len(),
{
    if segs.len() > 0 {
        lemma_crumbs_head(segs.drop_last());
    }
}

/// The last breadcrumb of a normalized folder path leads to that folder.
pub proof fn law_breadcrumbs_end_at_the_folder(dir: Seq<char>)
    requires
        dir.len() > 0,
        forall|i: int|
            0 <= i < segments(dir, '/').len() ==> (#[trigger] segments(dir, '/')[i]).len() > 0,
    ensures
        crumbs(segments(dir, '/')).last().1 == dir,
{
    let segs = segments(dir, '/');
    crate::text::lemma_segments_nonempty(dir, '/');
    assert forall|i: int| 0 <= i < segs.len() - 1 implies (#[trigger] segs[i]).len() > 0 by {}
    lemma_trail(dir);
    assert(segs[segs.len() - 1].len() > 0);
    lemma_crumbs_head(segs.drop_last());
}

proof fn lemma_trail(s: Seq<char>)
    requires
        forall|i: int|
            0 <= i < segments(s, '/').len() - 1 ==> (#[trigger] segments(s, '/')[i]).len() > 0,
    ensures
        segments(s, '/').len() >= 1,
        child_of(crumbs(segments(s, '/').drop_last()).last().1, segments(s, '/').last()) == s || (
        segments(s, '/').last().len() == 0 && segments(s, '/').len() > 1 && crumbs(
            segments(s, '/').drop_last(),
        ).last().1.push('/') == s && s.len() > 1),
    decreases s.len(),
{
    let segs = segments(s, '/');
    crate::text::lemma_segments_nonempty(s, '/');
    if s.len() == 0 {
        assert(segs.drop_last() =~= Seq::<Seq<char>>::empty());
    } else {
        let t = s.drop_last();
        let before = segments(t, '/');
        crate::text::lemma_segments_nonempty(t, '/');
        assert(s =~= t.push(s.last()));
        assert forall|i: int| 0 <= i < before.len() - 1 implies (#[trigger] before[i]).len() > 0 by {
            assert(segs[i] == before[i]);
        }
        lemma_trail(t);
        if s.last() == '/' {
            assert(segs.drop_last() =~= before);
            assert(segs[before.len() - 1] == before.last());
            assert(before.last().len() > 0);
            assert(crumbs(before).last().1 == child_of(
                crumbs(before.drop_last()).last().1,
                before.last(),
            ));
            assert(crumbs(before).last().1 == t);
            lemma_crumbs_head(before.drop_last());
        } else {
            assert(segs.drop_last() =~= before.drop_last());
            let d = crumbs(before.drop_last()).last().1;
            assert(child_of(d, before.last().push(s.last())) =~= s);
        }
    }
}

/// A path is its folder, a slash and its name, which holds no slash; at the top level it is
/// its name alone.
pub proof fn law_a_path_is_its_folder_and_its_name<'a>(path: &'a str, parent: &'a str, leaf: &'a str)
    requires
        call_ensures(parent_dir, (path,), parent),
        call_ensures(leaf_name, (path,), leaf),
    ensures
        path@.contains('/') ==> path@ == parent@ + "/"@ + leaf@,
        !path@.contains('/') ==> parent@.len() == 0 && leaf@ == path@,
        !leaf@.contains('/'),
{
    reveal_strlit("/");
    let k = last_pos(path@, '/');
    lemma_last_pos(path@, '/');
    if k >= 0 {
        assert(path@[k] == '/');
        assert(path@ =~= path@.take(k) + "/"@ + path@.skip(k + 1));
    } else {
        assert(path@.skip(0) =~= path@);
        assert(!path@.contains('/'));
    }
    assert forall|i: int| 0 <= i < leaf@.len() implies leaf@[i] != '/' by {
        assert(leaf@[i] == path@[i + k + 1]);
    }
}

/// A name is its stem and its extension. An extension begins with the last dot of the name,
/// and something stands before it.
pub proof fn law_a_name_is_its_stem_and_its_extension<'a>(leaf: &'a str, r: (&'a str, &'a str))
    requires
        call_ensures(split_ext, (leaf,), r),
    ensures
        leaf@ == r.0@ + r.1@,
        r.1@.len() > 0 ==> r.0@.len() > 0 && r.1@[0] == '.' && !r.1@.skip(1).contains('.'),
        r.1@.len() == 0 ==> forall|i: int| 0 < i < leaf@.len() ==> #[trigger] leaf@[i] != '.',
{
    let k = last_pos(leaf@, '.');
    lemma_last_pos(leaf@, '.');
    law_ext_split_rebuilds_the_leaf(leaf@);
    if k > 0 {
        let t = r.1@.skip(1);
        assert forall|i: int| 0 <= i < t.len() implies t[i] != '.' by {
            assert(t[i] == leaf@[i + 1 + k]);
        }
    }
}

/// A name in a folder is the folder, a slash and the name; at the top level the name alone.
pub proof fn law_a_name_is_put_into_its_folder(dir: &str, name: &str, r: String)
    requires
        call_ensures(join_path, (dir, name), r),
    ensures
        dir@.len() > 0 ==> r@ == dir@ + "/"@ + name@,
        dir@.len() == 0 ==> r@ == name@,
{
    reveal_strlit("/");
    assert(dir@ + "/"@ + name@ =~= dir@.push('/') + name@);
}

/// What lies below a folder begins with the folder and a slash. The trash and what is below
/// it is trashed, and nothing else.
pub proof fn law_below_means_behind_a_slash(
    path: &str,
    dir: &str,
    below_r: bool,
    within_r: bool,
    trashed_r: bool,
)
    requires
        call_ensures(is_below, (path, dir), below_r),
        call_ensures(is_within, (path, dir), within_r),
        call_ensures(is_trashed, (path,), trashed_r),
    ensures
        below_r <==> path@.len() > dir@.len() && path@.take(dir@.len() as int) == dir@
            && path@[dir@.len() as int] == '/',
        within_r <==> path@ == dir@ || below_r,
        trashed_r <==> path@ == ".trash"@ || (path@.len() > 6 && path@.take(6) == ".trash"@
            && path@[6] == '/'),
{
    lemma_trash_dir();
    reveal_strlit(".trash");
    lemma_behind_a_slash(path@, dir@);
    lemma_behind_a_slash(path@, ".trash"@);
}

/// To lie below a folder is to begin with it and a slash.
pub proof fn lemma_behind_a_slash(p: Seq<char>, d: Seq<char>)
    ensures
        below(p, d) <==> p.len() > d.len() && p.take(d.len() as int) == d && p[d.len() as int]
            == '/',
{
    let n = d.len() as int;
    if below(p, d) {
        assert(p.take(n + 1) == d.push('/'));
        assert(p.take(n + 1)[n] == '/');
        assert(p.take(n) =~= p.take(n + 1).take(n));
        assert(d.push('/').take(n) =~= d);
    }
    if p.len() > d.len() && p.take(n) == d && p[n] == '/' {
        assert(p.take(n + 1) =~= d.push('/'));
    }
}

/// An entry stands directly in a folder if its path is the folder, a slash and a name
/// without one.
pub proof fn lemma_directly_in(p: Seq<char>, d: Seq<char>)
    requires
        p.len() > 0 ==> p[0] != '/',
    ensures
        d.len() > 0 ==> (parent_of(p) == d <==> p.len() > d.len() && p.take(d.len() as int) == d
            && p[d.len() as int] == '/' && forall|i: int|
            d.len() < i < p.len() ==> #[trigger] p[i] != '/'),
        d.len() == 0 ==> (parent_of(p) == d <==> forall|i: int|
            0 <= i < p.len() ==> #[trigger] p[i] != '/'),
{
    let k = last_pos(p, '/');
    lemma_last_pos(p, '/');
    if d.len() > 0 {
        if parent_of(p) == d {
            assert(p.take(k).len() == k);
        }
        if p.len() > d.len() && p[d.len() as int] == '/' && forall|i: int|
            d.len() < i < p.len() ==> #[trigger] p[i] != '/' {
            crate::text::lemma_last_pos_unique(p, '/', d.len() as int);
        }
    } else {
        if parent_of(p) == d && k >= 0 {
            assert(p.take(k).len() == k);
        }
        if forall|i: int| 0 <= i < p.len() ==> #[trigger] p[i] != '/' {
            if k >= 0 {
                assert(p[k] == '/');
            }
            assert(parent_of(p) =~= d);
        }
    }
}

/// The breadcrumbs of a normalized folder path lead, one name at a time, from the top level
/// to the folder.
pub proof fn law_breadcrumbs_go_down_name_by_name(dir: &str, r: Vec<(String, String)>, i: int)
    requires
        call_ensures(breadcrumb_segments, (dir,), r),
        0 < i < r@.len(),
    ensures
        r@[0].0@ == "Home"@ && r@[0].1@.len() == 0,
        r@[i].0@.len() > 0,
        i == 1 ==> r@[i].1@ == r@[i].0@,
        i > 1 ==> r@[i].1@ == r@[i - 1].1@ + "/"@ + r@[i].0@,
{
    reveal_strlit("/");
    let c = crumbs(segments(dir@, '/'));
    lemma_crumbs_head(segments(dir@, '/'));
    lemma_crumbs_step(segments(dir@, '/'), i);
    assert(c[i] == (r@[i].0@, r@[i].1@));
    assert(c[i - 1] == (r@[i - 1].0@, r@[i - 1].1@));
    assert(c[0] == (r@[0].0@, r@[0].1@));
    assert(r@[i - 1].1@ + "/"@ + r@[i].0@ =~= r@[i - 1].1@.push('/') + r@[i].0@);
}

proof fn lemma_crumbs_step(segs: Seq<Seq<char>>, i: int)
    requires
        0 < i < crumbs(segs).len(),
    ensures
        crumbs(segs)[i].0.len() > 0,
        crumbs(segs)[i].1 == child_of(crumbs(segs)[i - 1].1, crumbs(segs)[i].0),
        crumbs(segs)[i].1.len() > 0,
        i == 1 ==> crumbs(segs)[i - 1].1.len() == 0,
        i > 1 ==> crumbs(segs)[i - 1].1.len() > 0,
    decreases segs.len(), i,
{
    let t = segs.drop_last();
    let before = crumbs(t);
    if i < before.len() {
        lemma_crumbs_step(t, i);
    } else if i > 1 {
        lemma_crumbs_step(t, i - 1);
    } else {
        lemma_crumbs_head(t);
    }
}

/// Where the extension of a path's leaf starts: at its last dot, unless that stands in front
/// of the leaf, or else at the end.
pub open spec fn extension_at(path: Seq<char>, at: int) -> bool {
    let leaf = last_pos(path, '/') + 1;
    &&& leaf <= at <= path.len()
    &&& at < path.len() ==> path[at] == '.' && at > leaf
    &&& forall|x: int| at < x < path.len() ==> #[trigger] path[x] != '.'
    &&& at == path.len() ==> forall|x: int| leaf < x < path.len() ==> #[trigger] path[x] != '.'
}

/// What is put in front of the extension of a path's leaf stands there in the path.
pub proof fn lemma_before_the_extension(path: Seq<char>, tag: Seq<char>) -> (at: int)
    requires
        last_pos(path, '/') != 0,
    ensures
        extension_at(path, at),
        child_of(parent_of(path), ext_split(leaf_of(path)).0 + tag + ext_split(leaf_of(path)).1)
            == path.take(at) + tag + path.skip(at),
{
    let k = last_pos(path, '/');
    lemma_last_pos(path, '/');
    let leaf = leaf_of(path);
    let dot = last_pos(leaf, '.');
    lemma_last_pos(leaf, '.');
    let (stem, ext) = ext_split(leaf);
    let at = path.len() - ext.len();
    lemma_extension_at(path);
    assert(path.skip(at) =~= ext);
    assert(path.take(at) =~= child_of(parent_of(path), stem)) by {
        law_parent_and_leaf_rebuild_the_path(path);
    }
    assert(child_of(parent_of(path), stem + tag + ext) =~= child_of(parent_of(path), stem) + tag
        + ext);
    at
}

proof fn lemma_extension_at(path: Seq<char>)
    ensures
        extension_at(path, path.len() - ext_split(leaf_of(path)).1.len()),
{
    let k = last_pos(path, '/');
    lemma_last_pos(path, '/');
    let leaf = leaf_of(path);
    lemma_last_pos(leaf, '.');
    let at = path.len() - ext_split(leaf).1.len();
    assert forall|x: int| at < x < path.len() implies #[trigger] path[x] != '.' by {
        assert(path[x] == leaf[x - k - 1]);
    }
    if at == path.len() {
        assert forall|x: int| k + 1 < x < path.len() implies #[trigger] path[x] != '.' by {
            assert(path[x] == leaf[x - k - 1]);
        }
    } else {
        assert(path[at] == leaf[at - k - 1]);
    }
}

} // verus!
