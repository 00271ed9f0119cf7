//! The file browser's model: folder navigation, filtering and sorting over a
//! vault's metadata (path, kind and plaintext size).

use vstd::prelude::*;

use crate::order::{is_ranking, lemma_text_order, sort_stable, stably_sorted, text_at_most, text_le};
use crate::path::{is_trashed, leaf_name, leaf_of, parent_dir, parent_of, trashed};
use crate::text::{
    concat2, contains, contains_text, decimal, decimal_text, join, joined, last_pos, lowercase,
    owned, rfind, same_text, texts, to_chars, to_lowercase, trim, trimmed,
};

verus! {

// ---------------------------------------------------------------------------
// Entries
// ---------------------------------------------------------------------------

/// Whether a vault entry is a file or a folder.
#[derive(Clone, Copy, Debug, PartialEq, Eq, Structural)]
pub enum EntryKind {
    File,
    Dir,
}

/// The metadata of one vault entry: its path, kind and plaintext size.
pub type Entry = (String, EntryKind, u64);

/// An entry as a mathematical value.
pub type Item = (Seq<char>, EntryKind, u64);

/// The value of an entry.
pub open spec fn item(e: Entry) -> Item {
    (e.0@, e.1, e.2)
}

/// The values of a list of entries.
pub open spec fn listing(entries: Seq<Entry>) -> Seq<Item> {
    entries.map_values(|e: Entry| item(e))
}

/// Whether `dir` is a folder of the vault.
pub open spec fn is_folder(items: Seq<Item>, dir: Seq<char>) -> bool {
    exists|i: int| 0 <= i < items.len() && (#[trigger] items[i]).0 == dir && items[i].1
        == EntryKind::Dir
}

/// The nearest of `dir` and its ancestors that is a folder of the vault, or the
/// root.
pub open spec fn clamped(items: Seq<Item>, dir: Seq<char>) -> Seq<char>
    decreases dir.len(),
    via clamped_decreases
{
    if dir.len() == 0 || is_folder(items, dir) {
        dir
    } else {
        clamped(items, parent_of(dir))
    }
}

#[via_fn]
proof fn clamped_decreases(items: Seq<Item>, dir: Seq<char>) {
    crate::text::lemma_last_pos(dir, '/');
}

/// The total size of a list of entries.
pub open spec fn total_size(items: Seq<Item>) -> nat
    decreases items.len(),
{
    if items.len() == 0 {
        0
    } else {
        total_size(items.drop_last()) + items.last().2 as nat
    }
}

/// Clamps `dir` to the nearest existing ancestor directory (or the root, ""), so a
/// folder removed or renamed out from under the browser never strands the view.
pub fn clamp_dir(entries: &[Entry], dir: &str) -> (r: String)
    ensures
        r@ == clamped(listing(entries@), dir@),
{
    let mut cur = owned(dir);
    while !cur.as_str().is_empty() && !has_folder(entries, &cur)
        invariant
            clamped(listing(entries@), dir@) == clamped(listing(entries@), cur@),
        decreases cur@.len(),
    {
        proof {
            crate::text::lemma_last_pos(cur@, '/');
        }
        cur = owned(parent_dir(&cur));
    }
    cur
}

/// Whether `dir` is a folder of the vault.
pub fn has_folder(entries: &[Entry], dir: &str) -> (r: bool)
    ensures
        r == is_folder(listing(entries@), dir@),
{
    let mut i: usize = 0;
    while i < entries.len()
        invariant
            i <= entries@.len(),
            forall|k: int|
                0 <= k < i ==> !((#[trigger] listing(entries@)[k]).0 == dir@ && listing(
                    entries@,
                )[k].1 == EntryKind::Dir),
        decreases entries@.len() - i,
    {
        assert(listing(entries@)[i as int] == item(entries@[i as int]));
        if entries[i].1 == EntryKind::Dir && same_text(&entries[i].0, dir) {
            return true;
        }
        i += 1;
    }
    false
}

/// Whether an entry stands directly inside `dir`.
pub open spec fn directly_in(dir: Seq<char>) -> spec_fn(Item) -> bool {
    |e: Item| parent_of(e.0) == dir
}

/// How many entries sit directly inside `dir`.
pub open spec fn child_count(items: Seq<Item>, dir: Seq<char>) -> nat {
    items.filter(directly_in(dir)).len()
}

/// How many entries sit directly inside `dir`.
pub fn dir_child_count(entries: &[Entry], dir: &str) -> (n: usize)
    ensures
        n == child_count(listing(entries@), dir@),
{
    let mut n: usize = 0;
    let mut i: usize = 0;
    let ghost items = listing(entries@);
    proof {
        reveal(Seq::filter);
    }
    while i < entries.len()
        invariant
            i <= entries@.len(),
            n <= i,
            items == listing(entries@),
            n == items.take(i as int).filter(directly_in(dir@)).len(),
        decreases entries@.len() - i,
    {
        proof {
            reveal(Seq::filter);
            assert(items.take(i + 1).drop_last() =~= items.take(i as int));
            assert(items[i as int] == item(entries@[i as int]));
        }
        if same_text(parent_dir(&entries[i].0), dir) {
            n += 1;
        }
        i += 1;
    }
    assert(items.take(i as int) =~= items);
    n
}

// ---------------------------------------------------------------------------
// Rows
// ---------------------------------------------------------------------------

/// Sort order for the browser. Folders always sort before files; this only orders
/// within each group.
#[derive(Clone, Copy, Debug, PartialEq, Eq, Structural)]
pub enum SortMode {
    NameAsc,
    NameDesc,
    SizeDesc,
    SizeAsc,
}

impl Default for SortMode {
    /// By name, ascending.
    fn default() -> (m: SortMode)
        ensures
            m == SortMode::NameAsc,
    {
        SortMode::NameAsc
    }
}

impl SortMode {
    /// Label for the sort selector.
    pub fn label(self) -> (t: &'static str)
        ensures
            t@ == (match self {
                SortMode::NameAsc => "Name (A–Z)"@,
                SortMode::NameDesc => "Name (Z–A)"@,
                SortMode::SizeDesc => "Size (large first)"@,
                SortMode::SizeAsc => "Size (small first)"@,
            }),
    {
        match self {
            SortMode::NameAsc => "Name (A–Z)",
            SortMode::NameDesc => "Name (Z–A)",
            SortMode::SizeDesc => "Size (large first)",
            SortMode::SizeAsc => "Size (small first)",
        }
    }
}

/// A single browser row: a file or folder to display.
pub struct Row {
    pub path: String,
    pub kind: EntryKind,
    pub size: u64,
    /// For a folder, the number of entries directly inside it (0 for files).
    pub children: usize,
}

/// A row as a mathematical value.
pub struct RowView {
    pub path: Seq<char>,
    pub kind: EntryKind,
    pub size: u64,
    pub children: nat,
}

impl View for Row {
    type V = RowView;

    open spec fn view(&self) -> RowView {
        RowView {
            path: self.path@,
            kind: self.kind,
            size: self.size,
            children: self.children as nat,
        }
    }
}

/// The values of a list of rows.
pub open spec fn row_views(rows: Seq<Row>) -> Seq<RowView> {
    rows.map_values(|r: Row| r@)
}

/// The row that shows an entry.
pub open spec fn row_of(items: Seq<Item>, e: Item) -> RowView {
    RowView {
        path: e.0,
        kind: e.1,
        size: e.2,
        children: if e.1 == EntryKind::Dir {
            child_count(items, e.0)
        } else {
            0
        },
    }
}

/// Whether an entry is shown: never one in the trash; the direct children of `dir`
/// or, with a query, every entry whose name holds it.
pub open spec fn is_shown(dir: Seq<char>, query: Seq<char>) -> spec_fn(Item) -> bool {
    |e: Item|
        !trashed(e.0) && (if query.len() == 0 {
            parent_of(e.0) == dir
        } else {
            contains_text(lowercase(leaf_of(e.0)), query)
        })
}

/// What a search text asks for: trimmed and in lower case.
pub open spec fn query_of(search: Seq<char>) -> Seq<char> {
    lowercase(trimmed(search))
}

/// The rows to show, in the order of the entries.
pub open spec fn shown_rows(items: Seq<Item>, dir: Seq<char>, search: Seq<char>) -> Seq<RowView> {
    items.filter(is_shown(dir, query_of(search))).map_values(|e: Item| row_of(items, e))
}

/// What names are compared by: the leaf in lower case.
pub open spec fn name_key(r: RowView) -> Seq<char> {
    lowercase(leaf_of(r.path))
}

/// The rank of rows under a sort order.
pub open spec fn row_le(sort: SortMode) -> spec_fn(RowView, RowView) -> bool {
    |a: RowView, b: RowView|
        if (a.kind == EntryKind::Dir) != (b.kind == EntryKind::Dir) {
            a.kind == EntryKind::Dir
        } else {
            match sort {
                SortMode::NameAsc => text_le(name_key(a), name_key(b)),
                SortMode::NameDesc => text_le(name_key(b), name_key(a)),
                SortMode::SizeDesc => a.size > b.size || (a.size == b.size && text_le(
                    name_key(a),
                    name_key(b),
                )),
                SortMode::SizeAsc => a.size < b.size || (a.size == b.size && text_le(
                    name_key(a),
                    name_key(b),
                )),
            }
        }
}

proof fn lemma_row_ranking(sort: SortMode)
    ensures
        is_ranking(row_le(sort)),
        is_ranking(|a: Row, b: Row| row_le(sort)(a@, b@)),
{
    let le = row_le(sort);
    assert forall|a: RowView, b: RowView| #[trigger] le(a, b) || le(b, a) by {
        lemma_text_order(name_key(a), name_key(b), name_key(a));
    }
    assert forall|a: RowView, b: RowView, c: RowView| #[trigger] le(a, b) && #[trigger] le(
        b,
        c,
    ) implies le(a, c) by {
        lemma_text_order(name_key(a), name_key(b), name_key(c));
        lemma_text_order(name_key(c), name_key(b), name_key(a));
    }
    let lr = |a: Row, b: Row| row_le(sort)(a@, b@);
    assert forall|a: Row, b: Row| #[trigger] lr(a, b) || lr(b, a) by {
        assert(le(a@, b@) || le(b@, a@));
    }
    assert forall|a: Row, b: Row, c: Row| #[trigger] lr(a, b) && #[trigger] lr(b, c) implies lr(
        a,
        c,
    ) by {
        assert(le(a@, b@) && le(b@, c@));
    }
}

/// Whether row `a` ranks before or with `b`.
fn row_at_most(a: &Row, b: &Row, sort: SortMode) -> (r: bool)
    ensures
        r == row_le(sort)(a@, b@),
{
    let a_dir = a.kind == EntryKind::Dir;
    let b_dir = b.kind == EntryKind::Dir;
    if a_dir != b_dir {
        return a_dir;
    }
    let an = to_lowercase(leaf_name(&a.path));
    let bn = to_lowercase(leaf_name(&b.path));
    match sort {
        SortMode::NameAsc => text_at_most(&an, &bn),
        SortMode::NameDesc => text_at_most(&bn, &an),
        SortMode::SizeDesc => a.size > b.size || (a.size == b.size && text_at_most(&an, &bn)),
        SortMode::SizeAsc => a.size < b.size || (a.size == b.size && text_at_most(&an, &bn)),
    }
}

/// Sorts rows in place: folders first, then by the chosen key. Names compare
/// case-insensitively by leaf; size ties break by name; rows that still rank the
/// same keep their order.
pub fn sort_rows(rows: &mut Vec<Row>, sort: SortMode)
    ensures
        stably_sorted(row_views(old(rows)@), row_views(final(rows)@), row_le(sort)),
{
    let mut taken: Vec<Row> = Vec::new();
    std::mem::swap(&mut taken, rows);
    let ghost le = |a: Row, b: Row| row_le(sort)(a@, b@);
    proof {
        lemma_row_ranking(sort);
    }
    let ghost input = taken@;
    let at_most = |a: &Row, b: &Row| -> (r: bool)
        ensures
            r == row_le(sort)(a@, b@),
        { row_at_most(a, b, sort) };
    let sorted = sort_stable(taken, at_most, Ghost(le));
    proof {
        let p = choose|p: Seq<int>| #[trigger] crate::order::arranged(input, sorted@, le, p);
        assert forall|i: int| 0 <= i < sorted@.len() implies #[trigger] row_views(sorted@)[i]
            == row_views(input)[p[i]] by {
            assert(sorted@[i] == input[p[i]]);
        }
        assert forall|i: int, j: int| 0 <= i < j < sorted@.len() implies row_le(sort)(
            row_views(sorted@)[i],
            row_views(sorted@)[j],
        ) && (row_le(sort)(row_views(sorted@)[j], row_views(sorted@)[i]) ==> p[i] < p[j]) by {
            assert(le(sorted@[i], sorted@[j]) && (le(sorted@[j], sorted@[i]) ==> p[i] < p[j]));
        }
        assert(crate::order::arranged(row_views(input), row_views(sorted@), row_le(sort), p));
    }
    *rows = sorted;
}

/// Builds the ordered rows to show: either the direct children of `dir`, or, when
/// `search` is not blank, every entry in the vault whose name matches, anywhere.
/// Folders always sort before files; `sort` orders within each group.
pub fn visible_rows(entries: &[Entry], dir: &str, search: &str, sort: SortMode) -> (rows: Vec<Row>)
    ensures
        stably_sorted(
            shown_rows(listing(entries@), dir@, search@),
            row_views(rows@),
            row_le(sort),
        ),
{
    let q = to_lowercase(&trim(search));
    let mut rows: Vec<Row> = Vec::new();
    let mut i: usize = 0;
    let ghost items = listing(entries@);
    let ghost keep = is_shown(dir@, q@);
    let ghost mk = |e: Item| row_of(items, e);
    proof {
        reveal(Seq::filter);
        assert(items.take(0).filter(keep).map_values(mk) =~= Seq::<RowView>::empty());
        assert(row_views(rows@) =~= Seq::<RowView>::empty());
    }
    while i < entries.len()
        invariant
            i <= entries@.len(),
            items == listing(entries@),
            keep == is_shown(dir@, q@),
            mk == (|e: Item| row_of(items, e)),
            row_views(rows@) == items.take(i as int).filter(keep).map_values(mk),
        decreases entries@.len() - i,
    {
        let ghost f0 = items.take(i as int).filter(keep);
        let ghost f1 = items.take(i + 1).filter(keep);
        let ghost e = items[i as int];
        proof {
            reveal(Seq::filter);
            assert(items.take(i + 1).drop_last() =~= items.take(i as int));
            assert(e == item(entries@[i as int]));
        }
        let p = &entries[i].0;
        let shown = if is_trashed(p) {
            false
        } else if q.as_str().is_empty() {
            same_text(parent_dir(p), dir)
        } else {
            contains(&to_lowercase(leaf_name(p)), &q)
        };
        assert(shown == keep(e));
        if shown {
            let children: usize = if entries[i].1 == EntryKind::Dir {
                dir_child_count(entries, p)
            } else {
                0
            };
            let ghost before = row_views(rows@);
            rows.push(Row { path: p.clone(), kind: entries[i].1, size: entries[i].2, children });
            proof {
                assert(f1 == f0.push(e));
                assert(row_views(rows@) =~= before.push(row_of(items, e)));
                assert(f1.map_values(mk) =~= f0.map_values(mk).push(mk(e)));
            }
        }
        i += 1;
    }
    assert(items.take(i as int) =~= items);
    sort_rows(&mut rows, sort);
    rows
}

/// How many rows are of a kind.
pub open spec fn rows_of_kind(rows: Seq<RowView>, kind: EntryKind) -> Seq<RowView> {
    rows.filter(|r: RowView| r.kind == kind)
}

/// The total size of the files among the rows.
pub open spec fn file_bytes(rows: Seq<RowView>) -> nat
    decreases rows.len(),
{
    if rows.len() == 0 {
        0
    } else {
        file_bytes(rows.drop_last()) + (if rows.last().kind == EntryKind::File {
            rows.last().size as nat
        } else {
            0
        })
    }
}

/// A number followed by a word in the singular or the plural.
pub open spec fn counted_text(n: nat, one: Seq<char>, many: Seq<char>) -> Seq<char> {
    decimal_text(n) + (if n == 1 {
        one
    } else {
        many
    })
}

/// A number followed by a word in the singular or the plural.
pub fn counted(n: u64, one: &str, many: &str) -> (r: String)
    ensures
        r@ == counted_text(n as nat, one@, many@),
{
    let d = decimal(n);
    if n == 1 {
        concat2(&d, one)
    } else {
        concat2(&d, many)
    }
}

/// The parts of a view's summary.
pub open spec fn summary_parts(dirs: nat, files: nat, size_text: Seq<char>) -> Seq<Seq<char>> {
    (if dirs > 0 {
        seq![counted_text(dirs, " folder"@, " folders"@)]
    } else {
        Seq::<Seq<char>>::empty()
    }).push(counted_text(files, " file"@, " files"@)) + (if files > 0 {
        seq![size_text]
    } else {
        Seq::<Seq<char>>::empty()
    })
}

/// The summary of a browser view.
pub open spec fn summary_text(rows: Seq<RowView>, searching: bool, size_text: Seq<char>) -> Seq<
    char,
> {
    if searching {
        counted_text(rows.len(), " match"@, " matches"@)
    } else {
        joined(
            summary_parts(
                rows_of_kind(rows, EntryKind::Dir).len(),
                rows_of_kind(rows, EntryKind::File).len(),
                size_text,
            ),
            " · "@,
        )
    }
}

/// How many rows are of a kind.
pub fn count_kind(rows: &[Row], kind: EntryKind) -> (n: usize)
    ensures
        n == rows_of_kind(row_views(rows@), kind).len(),
{
    let mut n: usize = 0;
    let mut i: usize = 0;
    let ghost v = row_views(rows@);
    let ghost keep = |r: RowView| r.kind == kind;
    proof {
        reveal(Seq::filter);
    }
    while i < rows.len()
        invariant
            i <= rows@.len(),
            n <= i,
            v == row_views(rows@),
            keep == (|r: RowView| r.kind == kind),
            n == v.take(i as int).filter(keep).len(),
        decreases rows@.len() - i,
    {
        proof {
            reveal(Seq::filter);
            assert(v.take(i + 1).drop_last() =~= v.take(i as int));
            assert(v[i as int] == rows@[i as int]@);
        }
        if rows[i].kind == kind {
            n += 1;
        }
        i += 1;
    }
    assert(v.take(i as int) =~= v);
    n
}

/// The total size of the files among the rows: what a summary shows as a size.
pub fn rows_bytes(rows: &[Row]) -> (n: u64)
    requires
        file_bytes(row_views(rows@)) <= u64::MAX,
    ensures
        n == file_bytes(row_views(rows@)),
{
    let mut n: u64 = 0;
    let mut i: usize = 0;
    let ghost v = row_views(rows@);
    while i < rows.len()
        invariant
            i <= rows@.len(),
            v == row_views(rows@),
            file_bytes(v) <= u64::MAX,
            n == file_bytes(v.take(i as int)),
        decreases rows@.len() - i,
    {
        proof {
            assert(v.take(i + 1).drop_last() =~= v.take(i as int));
            assert(v[i as int] == rows@[i as int]@);
            lemma_file_bytes_grow(v, i + 1);
        }
        if rows[i].kind == EntryKind::File {
            n += rows[i].size;
        }
        i += 1;
    }
    assert(v.take(i as int) =~= v);
    n
}

proof fn lemma_file_bytes_grow(v: Seq<RowView>, k: int)
    requires
        0 <= k <= v.len(),
    ensures
        file_bytes(v.take(k)) <= file_bytes(v),
    decreases v.len() - k,
{
    if k < v.len() {
        assert(v.take(k + 1).drop_last() =~= v.take(k));
        lemma_file_bytes_grow(v, k + 1);
    } else {
        assert(v.take(k) =~= v);
    }
}

/// A one-line summary of a browser view: "2 folders · 5 files · 4.2 MB", or
/// "N matches" while searching. `size_text` is the rendered [`rows_bytes`].
pub fn view_summary(rows: &[Row], searching: bool, size_text: &str) -> (r: String)
    ensures
        r@ == summary_text(row_views(rows@), searching, size_text@),
{
    if searching {
        return counted(rows.len() as u64, " match", " matches");
    }
    let dirs: usize = count_kind(rows, EntryKind::Dir);
    let files: usize = count_kind(rows, EntryKind::File);
    let mut parts: Vec<String> = Vec::new();
    if dirs > 0 {
        parts.push(counted(dirs as u64, " folder", " folders"));
    }
    parts.push(counted(files as u64, " file", " files"));
    if files > 0 {
        parts.push(owned(size_text));
    }
    assert(texts(parts@) =~= summary_parts(dirs as nat, files as nat, size_text@));
    join(&parts, " · ")
}

// ---------------------------------------------------------------------------
// File categories
// ---------------------------------------------------------------------------

/// Broad file categories, used only to tint the file icon for quick scanning.
#[derive(Clone, Copy, Debug, PartialEq, Eq, Structural)]
pub enum FileCat {
    Image,
    Media,
    Archive,
    Code,
    Other,
}

/// Extensions of images.
pub open spec fn image_exts() -> Seq<Seq<char>> {
    seq![
        "png"@, "jpg"@, "jpeg"@, "gif"@, "bmp"@, "webp"@, "svg"@, "heic"@, "tif"@, "tiff"@, "ico"@,
    ]
}

/// Extensions of sound and video.
pub open spec fn media_exts() -> Seq<Seq<char>> {
    seq![
        "mp3"@, "wav"@, "flac"@, "aac"@, "ogg"@, "m4a"@, "mp4"@, "mov"@, "mkv"@, "avi"@, "webm"@,
        "wmv"@, "m4v"@,
    ]
}

/// Extensions of archives.
pub open spec fn archive_exts() -> Seq<Seq<char>> {
    seq!["zip"@, "tar"@, "gz"@, "tgz"@, "bz2"@, "7z"@, "rar"@, "xz"@, "zst"@]
}

/// Extensions of source code and markup.
pub open spec fn code_exts() -> Seq<Seq<char>> {
    seq![
        "rs"@, "py"@, "js"@, "ts"@, "tsx"@, "jsx"@, "c"@, "h"@, "cpp"@, "hpp"@, "java"@, "go"@,
        "rb"@, "php"@, "html"@, "css"@, "json"@, "toml"@, "yaml"@, "yml"@, "sh"@,
    ]
}

/// The category of an extension in lower case.
pub open spec fn category_of(ext: Seq<char>) -> FileCat {
    if image_exts().contains(ext) {
        FileCat::Image
    } else if media_exts().contains(ext) {
        FileCat::Media
    } else if archive_exts().contains(ext) {
        FileCat::Archive
    } else if code_exts().contains(ext) {
        FileCat::Code
    } else {
        FileCat::Other
    }
}

/// The category of a file name: that of the text after its last dot, if any.
pub open spec fn name_category(name: Seq<char>) -> FileCat {
    if last_pos(name, '.') < 0 {
        FileCat::Other
    } else {
        category_of(lowercase(name.skip(last_pos(name, '.') + 1)))
    }
}

/// The texts of a list of string slices.
pub open spec fn str_texts(v: Seq<&str>) -> Seq<Seq<char>> {
    v.map_values(|s: &str| s@)
}

/// Whether `t` is one of `list`.
pub fn one_of(t: &str, list: &[&str]) -> (r: bool)
    ensures
        r == str_texts(list@).contains(t@),
{
    let mut i: usize = 0;
    while i < list.len()
        invariant
            i <= list@.len(),
            forall|k: int| 0 <= k < i ==> (#[trigger] str_texts(list@)[k]) != t@,
        decreases list@.len() - i,
    {
        assert(str_texts(list@)[i as int] == list@[i as int]@);
        if same_text(list[i], t) {
            return true;
        }
        i += 1;
    }
    false
}

/// Classifies an extension in lower case.
pub fn ext_category(ext: &str) -> (r: FileCat)
    ensures
        r == category_of(ext@),
{
    let images = [
        "png", "jpg", "jpeg", "gif", "bmp", "webp", "svg", "heic", "tif", "tiff", "ico",
    ];
    let media = [
        "mp3", "wav", "flac", "aac", "ogg", "m4a", "mp4", "mov", "mkv", "avi", "webm", "wmv", "m4v",
    ];
    let archives = ["zip", "tar", "gz", "tgz", "bz2", "7z", "rar", "xz", "zst"];
    let code = [
        "rs", "py", "js", "ts", "tsx", "jsx", "c", "h", "cpp", "hpp", "java", "go", "rb", "php",
        "html", "css", "json", "toml", "yaml", "yml", "sh",
    ];
    assert(str_texts(images@) =~= image_exts());
    assert(str_texts(media@) =~= media_exts());
    assert(str_texts(archives@) =~= archive_exts());
    assert(str_texts(code@) =~= code_exts());
    if one_of(ext, &images) {
        FileCat::Image
    } else if one_of(ext, &media) {
        FileCat::Media
    } else if one_of(ext, &archives) {
        FileCat::Archive
    } else if one_of(ext, &code) {
        FileCat::Code
    } else {
        FileCat::Other
    }
}

/// Classifies a filename by extension into a coarse [`FileCat`].
pub fn file_category(name: &str) -> (r: FileCat)
    ensures
        r == name_category(name@),
{
    let v = to_chars(name);
    let n: usize = v.len();
    match rfind(&v, '.') {
        Some(k) => ext_category(&to_lowercase(name.substring_char(k + 1, n))),
        None => FileCat::Other,
    }
}

// ---------------------------------------------------------------------------
// Laws
// ---------------------------------------------------------------------------

/// The folder that is shown exists: it is a folder of the vault, or the root.
pub proof fn law_clamped_folder_exists(items: Seq<Item>, dir: Seq<char>)
    ensures
        clamped(items, dir).len() == 0 || is_folder(items, clamped(items, dir)),
        dir.len() == 0 || is_folder(items, dir) ==> clamped(items, dir) == dir,
    decreases dir.len(),
{
    if dir.len() > 0 && !is_folder(items, dir) {
        lemma_parent_is_shorter(dir);
        law_clamped_folder_exists(items, parent_of(dir));
    }
}

proof fn lemma_parent_is_shorter(dir: Seq<char>)
    requires
        dir.len() > 0,
    ensures
        parent_of(dir).len() < dir.len(),
{
    crate::text::lemma_last_pos(dir, '/');
}

/// The browser never shows what is in the trash, in a folder or in search results.
pub proof fn law_trash_is_never_shown(
    items: Seq<Item>,
    dir: Seq<char>,
    search: Seq<char>,
    rows: Seq<RowView>,
    sort: SortMode,
    k: int,
)
    requires
        stably_sorted(shown_rows(items, dir, search), rows, row_le(sort)),
        0 <= k < rows.len(),
    ensures
        !crate::path::trashed(rows[k].path),
        exists|i: int| 0 <= i < items.len() && (#[trigger] items[i]).0 == rows[k].path,
{
    let shown = shown_rows(items, dir, search);
    crate::order::law_sorting_keeps_the_values(shown, rows, row_le(sort), rows[k]);
    assert(rows.contains(rows[k]));
    let j = choose|j: int| 0 <= j < shown.len() && shown[j] == rows[k];
    let keep = is_shown(dir, query_of(search));
    let f = items.filter(keep);
    assert(f.contains(f[j]));
    crate::order::lemma_filter_members(items, keep, f[j]);
    let i = choose|i: int| 0 <= i < items.len() && items[i] == f[j];
    assert(items[i].0 == rows[k].path);
}

/// Folders come before files, whatever the order.
pub proof fn law_folders_come_first(
    items: Seq<Item>,
    dir: Seq<char>,
    search: Seq<char>,
    rows: Seq<RowView>,
    sort: SortMode,
    i: int,
    j: int,
)
    requires
        stably_sorted(shown_rows(items, dir, search), rows, row_le(sort)),
        0 <= i < j < rows.len(),
        rows[j].kind == EntryKind::Dir,
    ensures
        rows[i].kind == EntryKind::Dir,
{
    let p = choose|p: Seq<int>|
        #[trigger] crate::order::arranged(shown_rows(items, dir, search), rows, row_le(sort), p);
    assert(row_le(sort)(rows[i], rows[j]));
}

/// Whether an entry is outside the trash.
pub open spec fn is_outside_trash(p: Seq<char>) -> bool {
    p != ".trash"@ && !(p.len() > 6 && p.take(6) == ".trash"@ && p[6] == '/')
}

/// Whether a path is that of something directly in a folder.
pub open spec fn is_child_path(p: Seq<char>, dir: Seq<char>) -> bool {
    if dir.len() == 0 {
        forall|i: int| 0 <= i < p.len() ==> #[trigger] p[i] != '/'
    } else {
        &&& p.len() > dir.len()
        &&& p.take(dir.len() as int) == dir
        &&& p[dir.len() as int] == '/'
        &&& forall|i: int| dir.len() < i < p.len() ==> #[trigger] p[i] != '/'
    }
}

/// Whether some row shows an entry, with its kind and size.
pub open spec fn is_in_view(rows: Seq<Row>, e: Entry) -> bool {
    exists|k: int|
        0 <= k < rows.len() && (#[trigger] rows[k]).path@ == e.0@ && rows[k].kind == e.1
            && rows[k].size == e.2
}

proof fn lemma_outside_trash(p: Seq<char>)
    ensures
        is_outside_trash(p) <==> !trashed(p),
{
    reveal_strlit(".trash");
    crate::path::lemma_trash_dir();
    crate::path::lemma_behind_a_slash(p, ".trash"@);
}

proof fn lemma_shown_in_view(
    entries: Seq<Entry>,
    dir: Seq<char>,
    search: Seq<char>,
    sort: SortMode,
    rows: Seq<Row>,
    i: int,
)
    requires
        stably_sorted(shown_rows(listing(entries), dir, search), row_views(rows), row_le(sort)),
        0 <= i < entries.len(),
    ensures
        is_shown(dir, query_of(search))(item(entries[i])) ==> is_in_view(rows, entries[i]),
{
    let items = listing(entries);
    let keep = is_shown(dir, query_of(search));
    let e = items[i];
    assert(e == item(entries[i]));
    if keep(e) {
        assert(items.contains(e));
        crate::order::lemma_filter_members(items, keep, e);
        let f = items.filter(keep);
        let j = choose|j: int| 0 <= j < f.len() && f[j] == e;
        let shown = shown_rows(items, dir, search);
        assert(shown[j] == row_of(items, e));
        assert(shown.contains(row_of(items, e)));
        crate::order::law_sorting_keeps_the_values(
            shown,
            row_views(rows),
            row_le(sort),
            row_of(items, e),
        );
        let k = choose|k: int|
            0 <= k < row_views(rows).len() && row_views(rows)[k] == row_of(items, e);
        assert(rows[k]@ == row_of(items, e));
        assert(rows[k].path@ == entries[i].0@);
    }
}

proof fn lemma_in_view_shown(
    entries: Seq<Entry>,
    dir: Seq<char>,
    search: Seq<char>,
    sort: SortMode,
    rows: Seq<Row>,
    k: int,
) -> (i: int)
    requires
        stably_sorted(shown_rows(listing(entries), dir, search), row_views(rows), row_le(sort)),
        0 <= k < rows.len(),
    ensures
        0 <= i < entries.len(),
        is_shown(dir, query_of(search))(item(entries[i])),
        rows[k]@ == row_of(listing(entries), item(entries[i])),
{
    let items = listing(entries);
    let keep = is_shown(dir, query_of(search));
    let shown = shown_rows(items, dir, search);
    let v = row_views(rows);
    assert(v[k] == rows[k]@);
    assert(v.contains(v[k]));
    crate::order::law_sorting_keeps_the_values(shown, v, row_le(sort), v[k]);
    let j = choose|j: int| 0 <= j < shown.len() && shown[j] == v[k];
    let f = items.filter(keep);
    assert(f.contains(f[j]));
    crate::order::lemma_filter_members(items, keep, f[j]);
    let i = choose|i: int| 0 <= i < items.len() && items[i] == f[j];
    assert(items[i] == item(entries[i]));
    i
}

/// A folder shows all that stands directly in it and is not in the trash, and nothing else;
/// what it shows is as in the vault.
pub proof fn law_a_folder_shows_all_that_is_in_it(
    entries: &[Entry],
    dir: &str,
    search: &str,
    sort: SortMode,
    rows: Vec<Row>,
    i: int,
)
    requires
        call_ensures(visible_rows, (entries, dir, search, sort), rows),
        search@.len() == 0,
        0 <= i < entries@.len(),
        entries@[i].0@.len() > 0,
        entries@[i].0@[0] != '/',
    ensures
        is_child_path(entries@[i].0@, dir@) && is_outside_trash(entries@[i].0@) ==> is_in_view(
            rows@,
            entries@[i],
        ),
{
    assert(trimmed(search@) =~= Seq::<char>::empty());
    assert(query_of(search@) =~= Seq::<char>::empty());
    lemma_outside_trash(entries@[i].0@);
    crate::path::lemma_directly_in(entries@[i].0@, dir@);
    lemma_shown_in_view(entries@, dir@, search@, sort, rows@, i);
}

/// What a folder shows is an entry of the vault, directly in the folder and outside the
/// trash, with its own kind and size; a folder tells whether something is in it.
pub proof fn law_a_folder_shows_nothing_else(
    entries: &[Entry],
    dir: &str,
    search: &str,
    sort: SortMode,
    rows: Vec<Row>,
    k: int,
)
    requires
        call_ensures(visible_rows, (entries, dir, search, sort), rows),
        search@.len() == 0,
        0 <= k < rows@.len(),
        rows@[k].path@.len() > 0,
        rows@[k].path@[0] != '/',
    ensures
        is_child_path(rows@[k].path@, dir@),
        is_outside_trash(rows@[k].path@),
        exists|i: int|
            0 <= i < entries@.len() && (#[trigger] entries@[i]).0@ == rows@[k].path@
                && entries@[i].1 == rows@[k].kind && entries@[i].2 == rows@[k].size,
        rows@[k].kind == EntryKind::File ==> rows@[k].children == 0,
{
    assert(trimmed(search@) =~= Seq::<char>::empty());
    assert(query_of(search@) =~= Seq::<char>::empty());
    lemma_outside_trash(rows@[k].path@);
    crate::path::lemma_directly_in(rows@[k].path@, dir@);
    let i = lemma_in_view_shown(entries@, dir@, search@, sort, rows@, k);
    assert(entries@[i].0@ == rows@[k].path@);
}

/// A search finds every entry outside the trash whose name holds what is searched for, in
/// whatever folder it is.
pub proof fn law_a_search_finds_every_name_that_holds_it(
    entries: &[Entry],
    dir: &str,
    search: &str,
    sort: SortMode,
    rows: Vec<Row>,
    i: int,
    at: int,
)
    requires
        call_ensures(visible_rows, (entries, dir, search, sort), rows),
        search@.len() > 0,
        trimmed(search@) == search@,
        0 <= i < entries@.len(),
        vstd::utf8::is_ascii_chars(leaf_of(entries@[i].0@)),
        0 <= at,
        at + search@.len() <= leaf_of(entries@[i].0@).len(),
        leaf_of(entries@[i].0@).subrange(at, at + search@.len()) == search@,
        is_outside_trash(entries@[i].0@),
    ensures
        is_in_view(rows@, entries@[i]),
{
    let leaf = leaf_of(entries@[i].0@);
    let q = search@;
    lemma_outside_trash(entries@[i].0@);
    assert forall|x: int| 0 <= x < q.len() implies q[x] == leaf[at + x] by {
        assert(leaf.subrange(at, at + q.len())[x] == leaf[at + x]);
    }
    assert(vstd::utf8::is_ascii_chars(q)) by {
        assert forall|x: int| 0 <= x < q.len() implies q[x] as u32 <= 127 by {
            assert(leaf[at + x] as u32 <= 127);
        }
    }
    assert(lowercase(leaf).subrange(at, at + q.len()) =~= lowercase(q));
    assert(crate::text::occurs_at(lowercase(leaf), lowercase(q), at));
    assert(query_of(search@).len() > 0);
    lemma_shown_in_view(entries@, dir@, search@, sort, rows@, i);
}

/// Whatever a search shows has a name that holds what is searched for, upper and lower case
/// aside.
pub proof fn law_a_search_shows_only_matches(
    entries: &[Entry],
    dir: &str,
    search: &str,
    sort: SortMode,
    rows: Vec<Row>,
    k: int,
)
    requires
        call_ensures(visible_rows, (entries, dir, search, sort), rows),
        lowercase(trimmed(search@)).len() > 0,
        0 <= k < rows@.len(),
    ensures
        is_outside_trash(rows@[k].path@),
        exists|at: int|
            0 <= at && at + lowercase(trimmed(search@)).len() <= lowercase(
                leaf_of(rows@[k].path@),
            ).len() && #[trigger] lowercase(leaf_of(rows@[k].path@)).subrange(
                at,
                at + lowercase(trimmed(search@)).len(),
            ) == lowercase(trimmed(search@)),
        exists|i: int|
            0 <= i < entries@.len() && (#[trigger] entries@[i]).0@ == rows@[k].path@
                && entries@[i].1 == rows@[k].kind && entries@[i].2 == rows@[k].size,
{
    lemma_outside_trash(rows@[k].path@);
    let i = lemma_in_view_shown(entries@, dir@, search@, sort, rows@, k);
    assert(entries@[i].0@ == rows@[k].path@);
    let at = choose|at: int|
        crate::text::occurs_at(
            lowercase(leaf_of(rows@[k].path@)),
            lowercase(trimmed(search@)),
            at,
        );
    assert(lowercase(leaf_of(rows@[k].path@)).subrange(
        at,
        at + lowercase(trimmed(search@)).len(),
    ) == lowercase(trimmed(search@)));
}

/// Rows stand in the chosen order, folders before files: by name, upper and lower case
/// aside, from the first or from the last; or by size, from the largest or the smallest, and
/// by name where sizes are equal.
pub proof fn law_rows_stand_in_the_chosen_order(
    entries: &[Entry],
    dir: &str,
    search: &str,
    sort: SortMode,
    rows: Vec<Row>,
    i: int,
    j: int,
)
    requires
        call_ensures(visible_rows, (entries, dir, search, sort), rows),
        0 <= i < j < rows@.len(),
    ensures
        rows@[j].kind == EntryKind::Dir ==> rows@[i].kind == EntryKind::Dir,
        rows@[i].kind == rows@[j].kind && sort == SortMode::SizeDesc ==> rows@[i].size
            >= rows@[j].size,
        rows@[i].kind == rows@[j].kind && sort == SortMode::SizeAsc ==> rows@[i].size
            <= rows@[j].size,
        rows@[i].kind == rows@[j].kind && (sort == SortMode::NameAsc || (sort != SortMode::NameDesc
            && rows@[i].size == rows@[j].size)) ==> text_le(
            lowercase(leaf_of(rows@[i].path@)),
            lowercase(leaf_of(rows@[j].path@)),
        ),
        rows@[i].kind == rows@[j].kind && sort == SortMode::NameDesc ==> text_le(
            lowercase(leaf_of(rows@[j].path@)),
            lowercase(leaf_of(rows@[i].path@)),
        ),
{
    let v = row_views(rows@);
    let shown = shown_rows(listing(entries@), dir@, search@);
    let p = choose|p: Seq<int>| #[trigger] crate::order::arranged(shown, v, row_le(sort), p);
    assert(row_le(sort)(v[i], v[j]));
    assert(v[i] == rows@[i]@ && v[j] == rows@[j]@);
}

/// The number of entries directly in a folder counts each of them once, and no other.
pub proof fn law_children_are_counted_one_by_one(
    a: &[Entry],
    b: &[Entry],
    e: Entry,
    dir: &str,
    na: usize,
    nb: usize,
)
    requires
        call_ensures(dir_child_count, (a, dir), na),
        call_ensures(dir_child_count, (b, dir), nb),
        b@ == a@.push(e),
        e.0@.len() > 0,
        e.0@[0] != '/',
    ensures
        a@.len() == 0 ==> na == 0,
        nb == na + (if is_child_path(e.0@, dir@) {
            1int
        } else {
            0
        }),
{
    reveal(Seq::filter);
    crate::path::lemma_directly_in(e.0@, dir@);
    assert(listing(b@).drop_last() =~= listing(a@));
    assert(listing(b@).last() == item(e));
}

/// The bytes of a view are those of its files: each file's size is counted once, and no
/// folder's.
pub proof fn law_bytes_are_summed_over_the_files(
    a: &[Row],
    b: &[Row],
    r: Row,
    na: u64,
    nb: u64,
)
    requires
        call_ensures(rows_bytes, (a,), na),
        call_ensures(rows_bytes, (b,), nb),
        b@ == a@.push(r),
    ensures
        a@.len() == 0 ==> na == 0,
        nb == na + (if r.kind == EntryKind::File {
            r.size as int
        } else {
            0
        }),
{
    assert(row_views(b@).drop_last() =~= row_views(a@));
    assert(row_views(b@).last() == r@);
}

/// A folder that is gone gives way to the nearest of those around it that is there: the
/// browser goes up no further than it must.
pub proof fn law_the_browser_goes_up_no_further_than_it_must(
    entries: &[Entry],
    dir: &str,
    r: String,
    i: int,
)
    requires
        call_ensures(clamp_dir, (entries, dir), r),
        0 <= i < entries@.len(),
        entries@[i].1 == EntryKind::Dir,
    ensures
        r@.len() == 0 || r@ == dir@ || (dir@.len() > r@.len() && dir@.take(r@.len() as int) == r@
            && dir@[r@.len() as int] == '/'),
        r@.len() > 0 ==> exists|k: int|
            0 <= k < entries@.len() && (#[trigger] entries@[k]).0@ == r@ && entries@[k].1
                == EntryKind::Dir,
        entries@[i].0@ == dir@ || (dir@.len() > entries@[i].0@.len() && dir@.take(
            entries@[i].0@.len() as int,
        ) == entries@[i].0@ && dir@[entries@[i].0@.len() as int] == '/') ==> r@.len()
            >= entries@[i].0@.len(),
{
    let items = listing(entries@);
    assert(items[i] == item(entries@[i]));
    law_clamped_folder_exists(items, dir@);
    if r@.len() > 0 {
        let k = choose|k: int|
            0 <= k < items.len() && (#[trigger] items[k]).0 == r@ && items[k].1 == EntryKind::Dir;
        assert(items[k] == item(entries@[k]));
    }
    lemma_clamped_nearest(items, dir@, entries@[i].0@);
}

proof fn lemma_clamped_nearest(items: Seq<Item>, dir: Seq<char>, f: Seq<char>)
    requires
        is_folder(items, f),
    ensures
        ({
            let r = clamped(items, dir);
            &&& r.len() == 0 || r == dir || (dir.len() > r.len() && dir.take(r.len() as int) == r
                && dir[r.len() as int] == '/')
            &&& (f == dir || (dir.len() > f.len() && dir.take(f.len() as int) == f
                && dir[f.len() as int] == '/')) ==> r.len() >= f.len()
        }),
    decreases dir.len(),
{
    if dir.len() > 0 && !is_folder(items, dir) {
        lemma_parent_is_shorter(dir);
        let up = parent_of(dir);
        lemma_clamped_nearest(items, up, f);
        let k = last_pos(dir, '/');
        crate::text::lemma_last_pos(dir, '/');
        let r = clamped(items, dir);
        if k >= 0 {
            if r.len() > 0 && r != up {
                assert(dir.take(r.len() as int) =~= up.take(r.len() as int));
                assert(dir[r.len() as int] == up[r.len() as int]);
            }
            if dir.len() > f.len() && dir.take(f.len() as int) == f && dir[f.len() as int] == '/' {
                assert(f.len() <= k);
                if f.len() == k {
                    assert(up =~= f);
                } else {
                    assert(up.take(f.len() as int) =~= f);
                    assert(up[f.len() as int] == '/');
                }
            }
        } else if dir.len() > f.len() && dir[f.len() as int] == '/' {
            assert(false);
        }
    }
}

/// A search is summed up by the number of its matches; a folder by its folders, if there are
/// any, and by its files, with their size if there are any.
pub proof fn law_a_view_is_summed_up(
    rows: &[Row],
    searching: bool,
    size_text: &str,
    dirs: usize,
    files: usize,
    r: String,
)
    requires
        call_ensures(view_summary, (rows, searching, size_text), r),
        call_ensures(count_kind, (rows, EntryKind::Dir), dirs),
        call_ensures(count_kind, (rows, EntryKind::File), files),
    ensures
        searching && rows@.len() == 1 ==> r@ == decimal_text(1) + " match"@,
        searching && rows@.len() != 1 ==> r@ == decimal_text(rows@.len()) + " matches"@,
        !searching && dirs == 0 && files == 0 ==> r@ == decimal_text(0) + " files"@,
        !searching && dirs == 0 && files == 1 ==> r@ == decimal_text(1) + " file"@ + " · "@
            + size_text@,
        !searching && dirs == 0 && files > 1 ==> r@ == decimal_text(files as nat) + " files"@
            + " · "@ + size_text@,
        !searching && dirs == 1 && files == 0 ==> r@ == decimal_text(1) + " folder"@ + " · "@
            + (decimal_text(0) + " files"@),
        !searching && dirs > 1 && files > 1 ==> r@ == decimal_text(dirs as nat) + " folders"@
            + " · "@ + (decimal_text(files as nat) + " files"@) + " · "@ + size_text@,
{
    assert(row_views(rows@).len() == rows@.len());
    if !searching {
        let parts = summary_parts(dirs as nat, files as nat, size_text@);
        reveal_with_fuel(joined, 4);
        let d = counted_text(dirs as nat, " folder"@, " folders"@);
        let f = counted_text(files as nat, " file"@, " files"@);
        if dirs == 0 && files == 0 {
            assert(parts =~= seq![f]);
        } else if dirs == 0 {
            assert(parts =~= seq![f, size_text@]);
            assert(parts.drop_last() =~= seq![f]);
        } else if files == 0 {
            assert(parts =~= seq![d, f]);
            assert(parts.drop_last() =~= seq![d]);
        } else {
            assert(parts =~= seq![d, f, size_text@]);
            assert(parts.drop_last() =~= seq![d, f]);
            assert(parts.drop_last().drop_last() =~= seq![d]);
        }
    }
}

/// Rows are counted one by one, by their kind.
pub proof fn law_rows_are_counted_one_by_one(
    rows: &[Row],
    more: &[Row],
    row: Row,
    kind: EntryKind,
    n: usize,
    m: usize,
)
    requires
        more@ == rows@.push(row),
        call_ensures(count_kind, (rows, kind), n),
        call_ensures(count_kind, (more, kind), m),
    ensures
        row.kind == kind ==> m == n + 1,
        row.kind != kind ==> m == n,
{
    reveal(Seq::filter);
    assert(row_views(more@) =~= row_views(rows@).push(row@));
    assert(row_views(more@).drop_last() =~= row_views(rows@));
}

/// A file's category is told by its extension: an image, sound or film, an archive, source code
/// or markup, in this order, and anything else is none of these.
pub proof fn law_known_extensions_have_their_category(ext: &str, r: FileCat)
    requires
        call_ensures(ext_category, (ext,), r),
    ensures
        is_image(ext@) <==> r == FileCat::Image,
        !is_image(ext@) ==> (is_media(ext@) <==> r == FileCat::Media),
        !is_image(ext@) && !is_media(ext@) ==> (is_archive(ext@) <==> r == FileCat::Archive),
        !is_image(ext@) && !is_media(ext@) && !is_archive(ext@) ==> (is_code(ext@) <==> r
            == FileCat::Code),
{
    let image = image_exts();
    assert(image[0] == "png"@);
    assert(image[1] == "jpg"@);
    assert(image[2] == "jpeg"@);
    assert(image[3] == "gif"@);
    assert(image[4] == "bmp"@);
    assert(image[5] == "webp"@);
    assert(image[6] == "svg"@);
    assert(image[7] == "heic"@);
    assert(image[8] == "tif"@);
    assert(image[9] == "tiff"@);
    assert(image[10] == "ico"@);
    let media = media_exts();
    assert(media[0] == "mp3"@);
    assert(media[1] == "wav"@);
    assert(media[2] == "flac"@);
    assert(media[3] == "aac"@);
    assert(media[4] == "ogg"@);
    assert(media[5] == "m4a"@);
    assert(media[6] == "mp4"@);
    assert(media[7] == "mov"@);
    assert(media[8] == "mkv"@);
    assert(media[9] == "avi"@);
    assert(media[10] == "webm"@);
    assert(media[11] == "wmv"@);
    assert(media[12] == "m4v"@);
    let archive = archive_exts();
    assert(archive[0] == "zip"@);
    assert(archive[1] == "tar"@);
    assert(archive[2] == "gz"@);
    assert(archive[3] == "tgz"@);
    assert(archive[4] == "bz2"@);
    assert(archive[5] == "7z"@);
    assert(archive[6] == "rar"@);
    assert(archive[7] == "xz"@);
    assert(archive[8] == "zst"@);
    let code = code_exts();
    assert(code[0] == "rs"@);
    assert(code[1] == "py"@);
    assert(code[2] == "js"@);
    assert(code[3] == "ts"@);
    assert(code[4] == "tsx"@);
    assert(code[5] == "jsx"@);
    assert(code[6] == "c"@);
    assert(code[7] == "h"@);
    assert(code[8] == "cpp"@);
    assert(code[9] == "hpp"@);
    assert(code[10] == "java"@);
    assert(code[11] == "go"@);
    assert(code[12] == "rb"@);
    assert(code[13] == "php"@);
    assert(code[14] == "html"@);
    assert(code[15] == "css"@);
    assert(code[16] == "json"@);
    assert(code[17] == "toml"@);
    assert(code[18] == "yaml"@);
    assert(code[19] == "yml"@);
    assert(code[20] == "sh"@);
}

/// Whether an extension is that of an image.
pub open spec fn is_image(ext: Seq<char>) -> bool {
    ||| ext == "png"@
    ||| ext == "jpg"@
    ||| ext == "jpeg"@
    ||| ext == "gif"@
    ||| ext == "bmp"@
    ||| ext == "webp"@
    ||| ext == "svg"@
    ||| ext == "heic"@
    ||| ext == "tif"@
    ||| ext == "tiff"@
    ||| ext == "ico"@
}

/// Whether an extension is that of sound or film.
pub open spec fn is_media(ext: Seq<char>) -> bool {
    ||| ext == "mp3"@
    ||| ext == "wav"@
    ||| ext == "flac"@
    ||| ext == "aac"@
    ||| ext == "ogg"@
    ||| ext == "m4a"@
    ||| ext == "mp4"@
    ||| ext == "mov"@
    ||| ext == "mkv"@
    ||| ext == "avi"@
    ||| ext == "webm"@
    ||| ext == "wmv"@
    ||| ext == "m4v"@
}

/// Whether an extension is that of an archive.
pub open spec fn is_archive(ext: Seq<char>) -> bool {
    ||| ext == "zip"@
    ||| ext == "tar"@
    ||| ext == "gz"@
    ||| ext == "tgz"@
    ||| ext == "bz2"@
    ||| ext == "7z"@
    ||| ext == "rar"@
    ||| ext == "xz"@
    ||| ext == "zst"@
}

/// Whether an extension is that of source code or markup.
pub open spec fn is_code(ext: Seq<char>) -> bool {
    ||| ext == "rs"@
    ||| ext == "py"@
    ||| ext == "js"@
    ||| ext == "ts"@
    ||| ext == "tsx"@
    ||| ext == "jsx"@
    ||| ext == "c"@
    ||| ext == "h"@
    ||| ext == "cpp"@
    ||| ext == "hpp"@
    ||| ext == "java"@
    ||| ext == "go"@
    ||| ext == "rb"@
    ||| ext == "php"@
    ||| ext == "html"@
    ||| ext == "css"@
    ||| ext == "json"@
    ||| ext == "toml"@
    ||| ext == "yaml"@
    ||| ext == "yml"@
    ||| ext == "sh"@
}

} // verus!
