//! The file browser over plain vault metadata.

use filesec::browse::{
    clamp_dir, dir_child_count, ext_category, file_category, view_summary, visible_rows, Entry,
    EntryKind, FileCat, Row, SortMode,
};
use filesec::path::{
    breadcrumb_segments, is_below, is_trashed, join_path, leaf_name, parent_dir, split_ext,
    TRASH_DIR,
};
use filesec::select::resolve_single_click;
use filesec::moving::{move_folder_options, prune_nested};
use filesec::text::trim;
use filesec::text_set::TextSet;
use filesec::trash::{
    dedup_path, has_live_entries, live_counts, parse_trash_token, pct_decode_seg, pct_encode_seg,
    trash_dest, trashed_items,
};

fn ent(path: &str, kind: EntryKind, size: u64) -> Entry {
    (path.to_string(), kind, size)
}

/// docs/ {a.txt(10), b.txt(30), sub/ {deep.bin(5)}}, photo.png(100), notes.md(20)
fn sample() -> Vec<Entry> {
    vec![
        ent("docs", EntryKind::Dir, 0),
        ent("docs/a.txt", EntryKind::File, 10),
        ent("docs/b.txt", EntryKind::File, 30),
        ent("docs/sub", EntryKind::Dir, 0),
        ent("docs/sub/deep.bin", EntryKind::File, 5),
        ent("photo.png", EntryKind::File, 100),
        ent("notes.md", EntryKind::File, 20),
    ]
}

/// docs/{a.txt} live, plus two trashed items (a file and a folder subtree).
fn sample_with_trash() -> Vec<Entry> {
    vec![
        ent("docs", EntryKind::Dir, 0),
        ent("docs/a.txt", EntryKind::File, 10),
        ent(TRASH_DIR, EntryKind::Dir, 0),
        ent(".trash/100-aa-old.txt", EntryKind::File, 7),
        ent(".trash/200-bb-photos", EntryKind::Dir, 0),
        ent(".trash/200-bb-photos/p1.jpg", EntryKind::File, 50),
        ent(".trash/200-bb-photos/p2.jpg", EntryKind::File, 30),
    ]
}

fn names(rows: &[Row]) -> Vec<&str> {
    rows.iter().map(|r| leaf_name(&r.path)).collect()
}

#[test]
fn parent_and_leaf() {
    assert_eq!(parent_dir("a/b/c"), "a/b");
    assert_eq!(parent_dir("top"), "");
    assert_eq!(leaf_name("a/b/c.txt"), "c.txt");
    assert_eq!(leaf_name("solo"), "solo");
}

#[test]
fn breadcrumbs() {
    assert_eq!(
        breadcrumb_segments(""),
        vec![("Home".to_string(), String::new())]
    );
    assert_eq!(
        breadcrumb_segments("a/b"),
        vec![
            ("Home".to_string(), String::new()),
            ("a".to_string(), "a".to_string()),
            ("b".to_string(), "a/b".to_string()),
        ]
    );
}

#[test]
fn clamp_keeps_existing_drops_missing() {
    let e = sample();
    assert_eq!(clamp_dir(&e, "docs/sub"), "docs/sub");
    assert_eq!(clamp_dir(&e, ""), "");
    // A folder that no longer exists clamps to the nearest real ancestor.
    assert_eq!(clamp_dir(&e, "docs/gone"), "docs");
    assert_eq!(clamp_dir(&e, "gone/deeper"), "");
}

#[test]
fn root_view_lists_direct_children_dirs_first() {
    let e = sample();
    let rows = visible_rows(&e, "", "", SortMode::NameAsc);
    // The folder before files; files alphabetical.
    assert_eq!(names(&rows), vec!["docs", "notes.md", "photo.png"]);
    // The folder reports its direct child count (a.txt, b.txt, sub = 3).
    let docs = rows.iter().find(|r| r.path == "docs").unwrap();
    assert_eq!(docs.children, 3);
}

#[test]
fn subfolder_view_is_scoped() {
    let e = sample();
    let rows = visible_rows(&e, "docs", "", SortMode::NameAsc);
    assert_eq!(names(&rows), vec!["sub", "a.txt", "b.txt"]);
}

#[test]
fn size_sort_orders_files_within_group() {
    let e = sample();
    let rows = visible_rows(&e, "docs", "", SortMode::SizeDesc);
    // Dir first, then files largest→smallest: b.txt(30), a.txt(10).
    assert_eq!(names(&rows), vec!["sub", "b.txt", "a.txt"]);
}

#[test]
fn the_other_orders() {
    let e = sample();
    let rows = visible_rows(&e, "docs", "", SortMode::SizeAsc);
    assert_eq!(names(&rows), vec!["sub", "a.txt", "b.txt"]);
    let rows = visible_rows(&e, "", "", SortMode::NameDesc);
    assert_eq!(names(&rows), vec!["docs", "photo.png", "notes.md"]);
    assert_eq!(SortMode::default(), SortMode::NameAsc);
    assert_eq!(SortMode::SizeDesc.label(), "Size (large first)");
}

#[test]
fn search_is_global_and_case_insensitive() {
    let e = sample();
    let rows = visible_rows(&e, "docs", "TXT", SortMode::NameAsc);
    let mut found = names(&rows);
    found.sort();
    assert_eq!(found, vec!["a.txt", "b.txt"]);
    // Matches reach into other folders, not just the current one.
    let deep = visible_rows(&e, "", "deep", SortMode::NameAsc);
    assert_eq!(deep.len(), 1);
    assert_eq!(deep[0].path, "docs/sub/deep.bin");
}

#[test]
fn search_folds_case_beyond_ascii() {
    let e = vec![ent("GRÜSSE.txt", EntryKind::File, 1)];
    let rows = visible_rows(&e, "", "\u{a0}grüsse ", SortMode::NameAsc);
    assert_eq!(names(&rows), vec!["GRÜSSE.txt"]);
}

#[test]
fn categories() {
    assert_eq!(file_category("a.PNG"), FileCat::Image);
    assert_eq!(file_category("song.mp3"), FileCat::Media);
    assert_eq!(file_category("bundle.tar.gz"), FileCat::Archive);
    assert_eq!(file_category("main.rs"), FileCat::Code);
    assert_eq!(file_category("README"), FileCat::Other);
    assert_eq!(file_category("data.unknownext"), FileCat::Other);
}

#[test]
fn extensions_are_told_apart() {
    assert_eq!(ext_category("mp4"), FileCat::Media);
    assert_eq!(ext_category(""), FileCat::Other);
    assert_eq!(split_ext("a.tar.gz"), ("a.tar", ".gz"));
    assert_eq!(split_ext(".env"), (".env", ""));
    assert_eq!(join_path("", "a"), "a");
    assert_eq!(join_path("d", "a"), "d/a");
    assert!(is_below("a/b", "a"));
    assert!(!is_below("ab", "a"));
    assert!(is_trashed(".trash"));
    assert!(is_trashed(".trash/x"));
    assert!(!is_trashed(".trashy"));
    assert_eq!(dir_child_count(&sample(), "docs"), 3);
}

#[test]
fn pct_roundtrips_paths_with_separators_and_escapes() {
    for orig in [
        "report.pdf",
        "docs/2026/q1 plan.xlsx",
        "weird %name%/a-b-c.txt",
        "100%/done/já.md",
    ] {
        assert_eq!(pct_decode_seg(&pct_encode_seg(orig)), orig);
    }
    // The encoding never leaves a raw separator in the segment.
    assert!(!pct_encode_seg("a/b/c").contains('/'));
}

#[test]
fn escapes_are_decoded_one_by_one() {
    assert_eq!(pct_encode_seg("a/b%c"), "a%2Fb%25c");
    assert_eq!(pct_decode_seg("%41%2f%zz%4"), "A/%zz%4");
    // Bytes that are no text are replaced.
    assert_eq!(pct_decode_seg("x%FFy"), "x\u{fffd}y");
}

#[test]
fn trash_dest_and_token_roundtrip() {
    // A nested original path survives the move-to-trash → parse round-trip,
    // even though the destination is a single (slash-free) segment.
    let orig = "docs/2026/q1 plan-final.xlsx";
    let dest = trash_dest(1_717_000_000, "ab12cd34", orig);
    assert_eq!(parent_dir(&dest), TRASH_DIR);
    assert!(!leaf_name(&dest).contains('/'));
    let (at, decoded) = parse_trash_token(&dest).expect("parse");
    assert_eq!(at, 1_717_000_000);
    assert_eq!(decoded, orig);
    // A garbage token is rejected, not shown wrong.
    assert!(parse_trash_token(".trash/not-a-token").is_none());
    assert!(parse_trash_token("docs/file.txt").is_none());
}

#[test]
fn browser_hides_the_trash_subtree() {
    let e = sample_with_trash();
    // Neither the folder view nor a global search ever surfaces `.trash`.
    let root = visible_rows(&e, "", "", SortMode::NameAsc);
    assert_eq!(names(&root), vec!["docs"]);
    let search = visible_rows(&e, "", "p1", SortMode::NameAsc);
    assert!(search.is_empty(), "trashed files must not match search");
    // Live-only views of the vault.
    assert!(has_live_entries(&e));
    assert_eq!(live_counts(&e), (1, 10)); // docs/a.txt only
}

#[test]
fn trashed_items_are_parsed_grouped_and_sorted() {
    let items = trashed_items(&sample_with_trash());
    assert_eq!(
        items.len(),
        2,
        "two top-level trashed items, not subtree files"
    );
    // Most-recent first (deleted_at 200 before 100).
    assert_eq!(items[0].orig_path, "photos");
    assert_eq!(items[0].kind, EntryKind::Dir);
    assert_eq!((items[0].files, items[0].size), (2, 80));
    assert_eq!(items[1].orig_path, "old.txt");
    assert_eq!(items[1].kind, EntryKind::File);
    assert_eq!(items[1].size, 7);
}

#[test]
fn trash_is_listed_however_large_the_rest_is() {
    let mut e = sample_with_trash();
    e.push(("huge".to_string(), EntryKind::File, u64::MAX));
    assert_eq!(trashed_items(&e).len(), 2);
}

#[test]
fn restore_dedups_against_a_live_collision() {
    let mut taken: Vec<String> = Vec::new();
    taken.push("docs/a.txt".to_string());
    // Free path is returned unchanged.
    assert_eq!(dedup_path(&taken, "docs/b.txt"), "docs/b.txt");
    // A collision gets " (restored)" before the extension.
    assert_eq!(dedup_path(&taken, "docs/a.txt"), "docs/a (restored).txt");
    taken.push("docs/a (restored).txt".to_string());
    assert_eq!(dedup_path(&taken, "docs/a.txt"), "docs/a (restored 2).txt");
    // A dotfile keeps its leading dot in the stem.
    taken.push(".env".to_string());
    assert_eq!(dedup_path(&taken, ".env"), ".env (restored)");
}

#[test]
fn move_options_offer_root_and_live_folders_minus_self() {
    let e = sample_with_trash();
    // Moving a file: every live folder is a valid target; trash is excluded.
    let opts = move_folder_options(&e, &["docs/a.txt".to_string()]);
    let paths: Vec<&str> = opts.iter().map(|(p, _, _)| p.as_str()).collect();
    assert_eq!(paths, vec!["", "docs"]);
    // Moving the "docs" folder: it (and any subtree) is not offered as a target.
    let opts = move_folder_options(&e, &["docs".to_string()]);
    let paths: Vec<&str> = opts.iter().map(|(p, _, _)| p.as_str()).collect();
    assert_eq!(paths, vec![""]);
}

#[test]
fn summary_describes_the_view() {
    let rows = visible_rows(&sample(), "", "", SortMode::NameAsc);
    // root holds docs/ + notes.md + photo.png.
    assert!(view_summary(&rows, false, "120 B").starts_with("1 folder · 2 files · "));
    assert_eq!(view_summary(&rows, true, "120 B"), "3 matches");
}

#[test]
fn prune_nested_keeps_only_top_level() {
    let paths = vec![
        "docs".to_string(),
        "docs/a.txt".to_string(),
        "docs/sub/b.txt".to_string(),
        "photo.png".to_string(),
    ];
    let mut kept = prune_nested(&paths);
    kept.sort();
    // Only "docs" (its descendants are dropped) and the unrelated "photo.png".
    assert_eq!(kept, vec!["docs".to_string(), "photo.png".to_string()]);
}

/// The root view rows (folders first), used to exercise click selection.
fn root_rows() -> Vec<Row> {
    // docs/ (dir), notes.md, photo.png  — see `sample()`.
    visible_rows(&sample(), "", "", SortMode::NameAsc)
}

fn sel(set: &TextSet) -> Vec<String> {
    let mut v: Vec<String> = set.to_vec();
    v.sort();
    v
}

#[test]
fn plain_click_selects_only_that_row_and_sets_anchor() {
    let rows = root_rows();
    let mut s = TextSet::new();
    let mut anchor = None;
    // Pre-existing selection is replaced by a plain click.
    s.insert("notes.md");
    resolve_single_click(&mut s, &mut anchor, &rows, 0, false, false);
    assert_eq!(sel(&s), vec!["docs".to_string()]);
    assert_eq!(anchor.as_deref(), Some("docs"));
}

#[test]
fn ctrl_click_toggles_membership() {
    let rows = root_rows();
    let mut s = TextSet::new();
    let mut anchor = None;
    resolve_single_click(&mut s, &mut anchor, &rows, 0, false, true); // +docs
    resolve_single_click(&mut s, &mut anchor, &rows, 1, false, true); // +notes.md
    assert_eq!(sel(&s), vec!["docs".to_string(), "notes.md".to_string()]);
    resolve_single_click(&mut s, &mut anchor, &rows, 0, false, true); // -docs
    assert_eq!(sel(&s), vec!["notes.md".to_string()]);
}

#[test]
fn shift_click_selects_the_range_from_the_anchor() {
    let rows = root_rows(); // [docs, notes.md, photo.png]
    let mut s = TextSet::new();
    let mut anchor = None;
    resolve_single_click(&mut s, &mut anchor, &rows, 0, false, false); // anchor=docs
    resolve_single_click(&mut s, &mut anchor, &rows, 2, true, false); // shift→0..=2
    assert_eq!(
        sel(&s),
        vec![
            "docs".to_string(),
            "notes.md".to_string(),
            "photo.png".to_string()
        ]
    );
    // Shift again to a closer row replaces the range (anchor unchanged).
    resolve_single_click(&mut s, &mut anchor, &rows, 1, true, false);
    assert_eq!(sel(&s), vec!["docs".to_string(), "notes.md".to_string()]);
}

#[test]
fn shift_ctrl_click_adds_a_range_to_the_selection() {
    let rows = root_rows();
    let mut s = TextSet::new();
    let mut anchor = None;
    resolve_single_click(&mut s, &mut anchor, &rows, 2, false, true); // +photo.png, anchor=photo
    resolve_single_click(&mut s, &mut anchor, &rows, 0, true, true); // additive range 0..=2
    assert_eq!(
        sel(&s),
        vec![
            "docs".to_string(),
            "notes.md".to_string(),
            "photo.png".to_string()
        ]
    );
}

#[test]
fn every_character_is_classed_as_listed() {
    // The characters with the property White_Space.
    let listed = |n: u32| {
        matches!(n, 0x09..=0x0d | 0x20 | 0x85 | 0xa0 | 0x1680 | 0x2000..=0x200a | 0x2028 | 0x2029
            | 0x202f | 0x205f | 0x3000)
    };
    for n in 0..=0x10_ffff_u32 {
        if let Some(c) = char::from_u32(n) {
            let mut s = String::new();
            s.push(c);
            assert_eq!(trim(&s).is_empty(), listed(n), "{n:x}");
        }
    }
}
