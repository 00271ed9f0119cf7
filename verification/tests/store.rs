//! The registry, the store's paths, and the order of its steps.

use filesec::adding::{plan_additions, unique_name_in, Member, MemberKind, Source};
use filesec::anchors::{quarantine_name, AnchorEntry, Anchors, Stamp, StateFault, StateObjectType};
use filesec::browse::EntryKind;
use filesec::mount::{mount_readonly, read_result, FsError, MountError, MountReply, VaultEntry, VaultNodes, ROOT_INO};
use filesec::session::SuiteId;
use filesec::store::{
    clean_partial_dirs, extract_vault, is_extractable, migrate_to_hybrid, migrate_vault_v1_to_v2,
    new_vault_id, next_upgrade_phase, next_wipe_block, reencrypt_v2_vault, secure_wipe, self_suite, set_aside_name,
    wipe_legacy_after_open, write_private_atomic, CleanStep, MigrateStage, Registry,
    RekeyReply, RekeyStage, StepReply, Store, UpgradePhase, VaultMeta, WipeReply, WipeStage, WriteStage,
};

fn meta(id: &str, name: &str) -> VaultMeta {
    VaultMeta {
        id: id.to_string(),
        name: name.to_string(),
        created_at: 1,
        modified_at: 2,
        file_count: 3,
        total_size: 4,
    }
}

fn names(r: &Registry) -> Vec<String> {
    r.vaults.iter().map(|v| v.name.clone()).collect()
}

#[test]
fn a_vault_is_registered_once() {
    let mut r = Registry::default();
    r.upsert(meta("a", "A"));
    r.upsert(meta("b", "B"));
    r.upsert(meta("a", "A2"));
    assert_eq!(names(&r), vec!["A2", "B"]);
    assert_eq!(r.position("b"), Some(1));
    assert_eq!(names(&r.copy()), vec!["A2", "B"]);
    r.remove("a");
    assert_eq!(names(&r), vec!["B"]);
    r.remove("zzz");
    assert_eq!(r.position("a"), None);
}

#[test]
fn paths_of_the_store() {
    let s = Store::at("/data".to_string());
    assert_eq!(s.data_dir(), "/data");
    assert_eq!(s.vaults_dir(), "/data/vaults");
    assert_eq!(s.checkout_dir(), "/data/checkout");
    assert_eq!(s.keystore_path(), "/data/keystore.fsk");
    assert_eq!(s.contacts_path(), "/data/contacts.fsec");
    assert_eq!(s.index_path(), "/data/index.fsec");
    assert_eq!(s.vault_path("ab"), "/data/vaults/ab.fsec");
    assert_eq!(s.vault_dir_v2("ab"), "/data/vaults/ab.fsv2");
    assert_eq!(s.partial_dir("ab"), "/data/vaults/ab.fsv2.partial");
    assert_eq!(Store::at("/d/".to_string()).vaults_dir(), "/d/vaults");
    assert!(s.keystore_exists(&["/data/keystore.fsk".to_string()]));
    assert!(!s.keystore_exists(&[]));
    assert_eq!(
        s.create_private_checkout_file("0a1b", "tax report.pdf"),
        "/data/checkout/0a1b.pdf"
    );
    assert_eq!(
        s.create_private_checkout_file("0a1b", "README"),
        "/data/checkout/0a1b"
    );
    assert_eq!(new_vault_id(&[0xab; 16]), "ab".repeat(16));
}

#[test]
fn deleting_and_opening_a_vault() {
    let s = Store::at("/d".to_string());
    let mut kept = Registry::default();
    kept.upsert(meta("a", "A"));
    assert_eq!(names(&s.load_registry(Ok(Some(kept))).unwrap()), vec!["A"]);
    assert!(s.load_registry(Ok(None)).unwrap().vaults.is_empty());
    assert_eq!(s.load_registry(Err("bad".to_string())).err().as_deref(), Some("bad"));
    let both = vec!["/d/vaults/x.fsv2".to_string(), "/d/vaults/x.fsec".to_string()];
    let steps = s.delete_vault_file("x", &both);
    assert_eq!(steps.len(), 2);
    assert!(steps[0].folder && !steps[1].folder);
    assert_eq!(steps[1].path, "/d/vaults/x.fsec");
    assert!(s.delete_vault_file("y", &both).is_empty());
    assert_eq!(s.open_vault("x", &both), Ok("/d/vaults/x.fsv2".to_string()));
    assert_eq!(
        s.open_vault("x", &both[1..]),
        Err("legacy state requires explicit recovery".to_string())
    );
    assert_eq!(
        s.open_vault("q", &both),
        Err("vault not found: q".to_string())
    );
    assert!(wipe_legacy_after_open(true, true));
    assert!(!wipe_legacy_after_open(false, true));
}

#[test]
fn the_store_lists_what_is_encrypted_to_the_user() {
    let s = Store::at("/d".to_string());
    let existing = vec!["/d/contacts.fsec".to_string(), "/d/keystore.fsk".to_string()];
    let vaults = vec![
        "a.fsec".to_string(),
        "a.migrate-tmp".to_string(),
        ".fsec".to_string(),
        "b.fsv2".to_string(),
    ];
    let (top, legacy) = s.self_encrypted_files(&existing, &vaults);
    assert_eq!(top, vec!["/d/contacts.fsec"]);
    assert_eq!(legacy, vec!["a.fsec"]);
    assert_eq!(s.v2_vault_dirs(&vaults), vec!["b.fsv2"]);
    assert_eq!(self_suite(true), SuiteId::Hybrid);
    assert_eq!(self_suite(false), SuiteId::Classic);
}

#[test]
fn wiping_goes_block_by_block() {
    let len = 150_000u64;
    let mut written = 0;
    let mut blocks = Vec::new();
    while written < len {
        let n = next_wipe_block(len, written);
        blocks.push(n);
        written += n;
    }
    assert_eq!(blocks, vec![65_536, 65_536, 18_928]);
    assert_eq!(next_wipe_block(0, 0), 0);
}

/// Wipes a file of a length, and lists what was done to it, in order.
fn wiped(len: Option<u64>, readonly: bool) -> Vec<String> {
    let mut log = Vec::new();
    let mut stage = WipeStage::Look;
    loop {
        let reply = match &stage {
            WipeStage::Look => match len {
                Some(len) => WipeReply::Found { len, readonly },
                None => WipeReply::Absent,
            },
            WipeStage::Release { .. } => {
                log.push("release".to_string());
                WipeReply::Failed("not the owner".to_string())
            }
            WipeStage::Open { .. } => {
                log.push("open".to_string());
                WipeReply::Went
            }
            WipeStage::Overwrite { len, written } => {
                log.push(format!("write {}", next_wipe_block(*len, *written)));
                WipeReply::Went
            }
            WipeStage::Sync => {
                log.push("sync".to_string());
                WipeReply::Went
            }
            WipeStage::Unlink => {
                log.push("unlink".to_string());
                WipeReply::Went
            }
            WipeStage::Done => return log,
            WipeStage::Failed(e) => panic!("{e}"),
        };
        stage = secure_wipe(stage, reply);
    }
}

#[test]
fn a_file_is_overwritten_and_synced_before_it_is_unlinked() {
    assert_eq!(
        wiped(Some(70_000), false),
        vec!["open", "write 65536", "write 4464", "sync", "unlink"]
    );
    assert_eq!(
        wiped(Some(15), true),
        vec!["release", "open", "write 15", "sync", "unlink"]
    );
    assert_eq!(wiped(Some(0), false), vec!["open", "sync", "unlink"]);
    // What is gone already is no failure.
    assert!(wiped(None, false).is_empty());
}

#[test]
fn a_wipe_that_fails_unlinks_nothing() {
    let failed = || WipeReply::Failed("disk".to_string());
    for stage in [
        WipeStage::Open { len: 9 },
        WipeStage::Overwrite { len: 9, written: 0 },
        WipeStage::Sync,
    ] {
        assert!(matches!(secure_wipe(stage, failed()), WipeStage::Failed(e) if e == "disk"));
    }
    assert!(matches!(
        secure_wipe(WipeStage::Unlink, failed()),
        WipeStage::Failed(_)
    ));
}

#[test]
fn paths_that_climb_are_not_extracted() {
    for path in ["docs/a.txt", "a", "..hidden", "a/...", "a/./b", ""] {
        assert!(is_extractable(path), "{path}");
    }
    for path in ["../x", "a/../b", "a/..", "..", "/etc/passwd"] {
        assert!(!is_extractable(path), "{path}");
    }
}

#[test]
fn leftovers_of_a_crash_are_cleaned() {
    assert_eq!(clean_partial_dirs("a.fsv2.partial", false), CleanStep::Remove);
    assert_eq!(clean_partial_dirs("a.fsv2.old", true), CleanStep::Remove);
    assert_eq!(clean_partial_dirs("a.fsv2.old", false), CleanStep::RollBack);
    assert_eq!(clean_partial_dirs("a.fsv2", false), CleanStep::Keep);
    assert_eq!(set_aside_name("a.fsv2.old"), Some("a.fsv2".to_string()));
    assert_eq!(set_aside_name("a.fsv2"), None);
    // What else is called "old" is left alone.
    assert_eq!(clean_partial_dirs("notes.old", true), CleanStep::Keep);
    assert_eq!(clean_partial_dirs("notes.old", false), CleanStep::Keep);
    assert_eq!(set_aside_name("notes.old"), None);
}

#[test]
fn a_legacy_vault_is_recovered_in_order() {
    let mut stage = MigrateStage::Clear;
    let mut n = 0;
    while !matches!(stage, MigrateStage::Done) {
        stage = migrate_vault_v1_to_v2(stage, StepReply::Went);
        n += 1;
    }
    assert_eq!(n, 6);
    let s = migrate_vault_v1_to_v2(MigrateStage::Build, StepReply::Failed("full".to_string()));
    assert!(matches!(&s, MigrateStage::Undo(e) if e == "full"));
    let s = migrate_vault_v1_to_v2(s, StepReply::Went);
    assert!(matches!(&s, MigrateStage::Failed(e) if e == "full"));
    let s = migrate_vault_v1_to_v2(MigrateStage::Open, StepReply::Failed("bad".to_string()));
    assert!(matches!(s, MigrateStage::Failed(_)));
}

#[test]
fn rekeying_sets_the_vault_aside() {
    let mut stage = RekeyStage::Open;
    let mut n = 0;
    while !matches!(stage, RekeyStage::Done) {
        stage = reencrypt_v2_vault(stage, RekeyReply::Went);
        n += 1;
    }
    assert_eq!(n, 6);
    assert!(matches!(
        reencrypt_v2_vault(RekeyStage::Open, RekeyReply::AlreadyThere),
        RekeyStage::Done
    ));
    assert!(matches!(
        reencrypt_v2_vault(RekeyStage::Promote, RekeyReply::Failed("x".to_string())),
        RekeyStage::Failed(_)
    ));
}

#[test]
fn the_upgrade_bridges_commits_and_hardens() {
    assert_eq!(
        migrate_to_hybrid(true, 2),
        Err("this identity is already post-quantum".to_string())
    );
    let mut p = migrate_to_hybrid(false, 2).unwrap();
    let mut seen = vec![p];
    while p != UpgradePhase::Done {
        p = next_upgrade_phase(p, 2);
        seen.push(p);
    }
    assert_eq!(
        seen,
        vec![
            UpgradePhase::Bridge(0),
            UpgradePhase::Bridge(1),
            UpgradePhase::Commit,
            UpgradePhase::Harden(0),
            UpgradePhase::Harden(1),
            UpgradePhase::Rekey,
            UpgradePhase::Done
        ]
    );
    assert_eq!(migrate_to_hybrid(false, 0), Ok(UpgradePhase::Commit));
}

#[test]
fn a_file_is_replaced_whole() {
    let s = write_private_atomic(WriteStage::Create, StepReply::Went);
    assert!(matches!(s, WriteStage::Fill));
    let s = write_private_atomic(s, StepReply::Failed("full".to_string()));
    assert!(matches!(s, WriteStage::Undo(_)));
    let s = write_private_atomic(s, StepReply::Went);
    assert!(matches!(s, WriteStage::Failed(_)));
    assert!(matches!(
        write_private_atomic(WriteStage::Rename, StepReply::Went),
        WriteStage::Sync
    ));
}

fn stamp(id: &str, epoch: u64, hash: u8) -> Stamp {
    Stamp {
        object_id: id.to_string(),
        epoch,
        hash: [hash; 32],
    }
}

#[test]
fn older_states_are_refused() {
    let mut anchors = Anchors::new();
    let kind = StateObjectType::Keystore;
    // Nothing is known yet: whatever is found counts.
    assert!(anchors.check(kind, "k", &Some(stamp("k", 1, 1))).is_ok());
    anchors.remember(kind, "k", &stamp("k", 5, 1));
    assert!(anchors.check(kind, "k", &Some(stamp("k", 5, 1))).is_ok());
    assert!(anchors.check(kind, "k", &Some(stamp("k", 6, 2))).is_ok());
    let fault = anchors.check(kind, "k", &Some(stamp("k", 4, 1))).unwrap_err();
    assert_eq!(fault, StateFault::Rollback);
    assert!(fault.message().contains("rollback detected"));
    assert_eq!(quarantine_name("keystore.fsk", "ab"), "keystore.fsk.rollback-ab");
    let fault = anchors.check(kind, "k", &Some(stamp("k", 5, 2))).unwrap_err();
    assert!(fault.message().contains("state-anchor mismatch"));
    // Another object is not concerned.
    let other = StateObjectType::Contacts;
    assert!(anchors.check(other, "k", &Some(stamp("k", 1, 1))).is_ok());
}

#[test]
fn accepted_states_are_remembered() {
    let kind = StateObjectType::Registry;
    let mut anchors = Anchors::new();
    assert_eq!(anchors.next_epoch(kind, "r"), Some(1));
    assert!(anchors.accept(kind, "r", &Some(stamp("r", 4, 1))).is_ok());
    assert_eq!(anchors.next_epoch(kind, "r"), Some(5));
    // A refused state leaves no trace.
    assert_eq!(
        anchors.accept(kind, "r", &Some(stamp("r", 3, 1))),
        Err(StateFault::Rollback)
    );
    assert_eq!(anchors.accept(kind, "r", &None), Err(StateFault::Legacy));
    assert_eq!(anchors.next_epoch(kind, "r"), Some(5));
    // What is kept reads back.
    let kept: Vec<AnchorEntry> = anchors
        .entries()
        .iter()
        .map(|e| AnchorEntry {
            kind: e.kind,
            id: e.id.clone(),
            epoch: e.epoch,
            hash: e.hash,
        })
        .collect();
    let mut again = Anchors::from_entries(kept);
    assert_eq!(
        again.check(kind, "r", &Some(stamp("r", 4, 2))),
        Err(StateFault::Mismatch)
    );
    assert!(again.accept(kind, "r", &Some(stamp("r", u64::MAX, 2))).is_ok());
    assert_eq!(again.next_epoch(kind, "r"), None);
}

#[test]
fn a_vault_cannot_stand_in_for_another() {
    let anchors = Anchors::new();
    let kind = StateObjectType::VaultManifest;
    let fault = anchors
        .check(kind, "first", &Some(stamp("second", 1, 1)))
        .unwrap_err();
    assert!(fault.message().contains("object id"));
    let fault = anchors.check(kind, "first", &None).unwrap_err();
    assert!(fault.message().contains("explicit recovery"));
    assert!(!fault.quarantines());
    assert!(StateFault::Rollback.quarantines());
}

#[test]
fn a_vault_is_extracted_below_its_folder() {
    let entries = vec![
        ("docs".to_string(), EntryKind::Dir, 0),
        ("docs/a.txt".to_string(), EntryKind::File, 3),
    ];
    let steps = extract_vault(&entries, "/out");
    assert!(steps[0].folder && !steps[1].folder);
    assert_eq!(steps[0].target, "/out/docs");
    assert_eq!(steps[1].target, "/out/docs/a.txt");
}

#[test]
fn added_names_do_not_collide() {
    let taken = vec!["a.txt".to_string(), "a (1).txt".to_string()];
    assert_eq!(unique_name_in(&taken, "a.txt"), "a (2).txt");
    assert_eq!(unique_name_in(&taken, "b.txt"), "b.txt");
    // The number goes before the extension of the leaf, and the folder stays.
    let taken_there = vec!["v1.0/readme".to_string(), "v1.0/a.tar.gz".to_string(), ".env".to_string()];
    assert_eq!(unique_name_in(&taken_there, "v1.0/readme"), "v1.0/readme (1)");
    assert_eq!(unique_name_in(&taken_there, "v1.0/a.tar.gz"), "v1.0/a.tar (1).gz");
    assert_eq!(unique_name_in(&taken_there, ".env"), ".env (1)");
    let none: Vec<Source> = Vec::new();
    let plan = plan_additions(&taken, "", &none);
    assert!(plan.added.is_empty() && plan.dirs.is_empty());
    assert_eq!(plan.failed, 0);
}

#[test]
fn unreadable_files_are_counted() {
    let member = |rel: &str, kind: MemberKind, readable: bool| Member {
        rel: rel.to_string(),
        kind,
        readable,
        mtime: None,
        source: 7,
    };
    let sources = vec![
        Source::Missing,
        Source::Unreadable,
        Source::File {
            name: Some("readme".to_string()),
            mtime: Some(3),
            source: 1,
        },
        Source::Folder {
            name: Some("src".to_string()),
            members: vec![
                member("", MemberKind::Dir, true),
                member("lib", MemberKind::Dir, true),
                member("lib/a.rs", MemberKind::File, true),
                member("lib/locked", MemberKind::File, false),
                member("lib/taken", MemberKind::File, false),
                member("pipe", MemberKind::Other, false),
            ],
        },
    ];
    let existing = vec!["v1.0/readme".to_string(), "v1.0/src/lib/taken".to_string()];
    let plan = plan_additions(&existing, "v1.0", &sources);
    let paths: Vec<&str> = plan.added.iter().map(|a| a.vault_path.as_str()).collect();
    assert_eq!(paths, vec!["v1.0/readme (1)", "v1.0/src/lib/a.rs"]);
    assert_eq!(plan.dirs, vec!["v1.0/src/lib"]);
    assert_eq!(plan.failed, 3);
}

#[test]
fn a_mounted_vault_is_a_tree() {
    let file = |path: &str, size: u64| VaultEntry {
        path: path.to_string(),
        kind: EntryKind::File,
        size,
        mtime: Some(7),
        mode: None,
    };
    let nodes = VaultNodes::build(3, &[file("docs/a.txt", 5), file("b.txt", 6)]);
    let docs = nodes.lookup(ROOT_INO, "docs").expect("folder is made up");
    let a = nodes.lookup(docs, "a.txt").expect("file");
    assert_eq!(nodes.read_target(a), Ok("docs/a.txt"));
    assert_eq!(nodes.read_target(docs), Err(FsError::IsDir));
    assert_eq!(nodes.read_target(999), Err(FsError::NotFound));
    assert!(nodes.lookup(ROOT_INO, "nope").is_none());
    assert!(nodes.readdir(a).is_none());
    let listing = nodes.listing_from(docs, 0).expect("folder");
    let shown: Vec<&str> = listing.iter().map(|(_, _, n)| n.as_str()).collect();
    assert_eq!(shown, vec![".", "..", "a.txt"]);
    assert_eq!(listing[1].0, ROOT_INO);
    assert_eq!(nodes.listing_from(docs, 2).expect("folder").len(), 1);
    assert!(nodes.attr(a).is_some());
    assert_eq!(read_result(vec![1, 2, 3], None), Err(FsError::Io));
    assert_eq!(read_result(vec![1, 2, 3], Some(2)), Ok(vec![1, 2]));
    assert!(mount_readonly(MountReply::Mounted).is_ok());
    assert!(mount_readonly(MountReply::Unsupported).is_err());
    assert!(mount_readonly(MountReply::Pending).is_err());
    assert!(mount_readonly(MountReply::Failed("x".to_string())).is_err());
    assert_eq!(MountError::new("m".to_string()).message(), "m");
}
