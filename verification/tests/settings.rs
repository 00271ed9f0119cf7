//! Passphrases, preferences, keychain, security keys, and the small helpers.

use filesec::autounlock::{
    clear_device_token, device_binding_warning, is_saved, load_device_token, load_state_anchors,
    save_device_token, save_state_anchors, AutoUnlockError, Changed, Fetched, NO_SUPPORT,
};
use filesec::dates::{civil_from_days, fmt_date};
use filesec::fingerprint::{decode_fpr, hex, same_fpr};
use filesec::names::{sanitize_filename, sanitize_leaf};
use filesec::passkey::{
    check_credential, derive_hmac_secret, enroll, key_error, HardwareKey, KeyFailure, PasskeyError,
    PASSKEY_ALT_UNLOCK_DESC, RP_ID,
};
use filesec::passphrase::{
    passphrase_policy_error, MIN_PASSPHRASE_CHARS, PASSPHRASE_STRENGTH_MESSAGE,
};
use filesec::prefs::{Prefs, ThemeChoice, MAX_PREFS_LEN, PREFS_VERSION};
use filesec::sharing::{
    check_bounded, read_bounded_file, read_bounded_text_file, MAX_IDENTITY_BACKUP_FILE_LEN,
    MAX_PUBLIC_IDENTITY_FILE_LEN,
};
use filesec::theme::{badge_color, colors, file_tint, BadgeKind, Rgb};
use filesec::wipe::Wiper;

#[test]
fn passphrase_policy_rejects_short_and_weak_inputs() {
    assert_eq!(
        passphrase_policy_error("short").unwrap(),
        format!("Passphrase must be at least {MIN_PASSPHRASE_CHARS} characters.")
    );
    assert_eq!(
        passphrase_policy_error("password1234").unwrap(),
        PASSPHRASE_STRENGTH_MESSAGE
    );
    assert_eq!(
        passphrase_policy_error("aaaaaaaaaaaaaaaa").unwrap(),
        PASSPHRASE_STRENGTH_MESSAGE
    );
    assert_eq!(
        passphrase_policy_error("verylongbutonlylowercase").unwrap(),
        PASSPHRASE_STRENGTH_MESSAGE
    );
}

#[test]
fn passphrase_policy_accepts_strong_local_passphrases() {
    assert!(passphrase_policy_error("correct horse battery staple").is_none());
    assert!(passphrase_policy_error("LongEnough123!").is_none());
}

#[test]
fn security_key_wording_says_alternative_not_two_factor() {
    let d = PASSKEY_ALT_UNLOCK_DESC.to_lowercase();
    assert!(
        d.contains("alternative"),
        "must call it an alternative unlock"
    );
    assert!(
        d.contains("not a second factor"),
        "must explicitly disclaim two-factor framing"
    );
    assert!(
        !d.contains("in addition to"),
        "must not imply layering on the passphrase"
    );
    assert!(
        !d.contains("two-factor") && !d.contains("two factor"),
        "must not call itself two-factor authentication"
    );
}

#[test]
fn device_binding_warning_matches_platform_support() {
    for supported in [false, true] {
        for device_bound in [false, true] {
            let warning = device_binding_warning(supported, device_bound);
            if supported && !device_bound {
                assert!(warning.is_some(), "non-device-bound storage must warn");
            } else {
                assert!(warning.is_none(), "device-bound/unsupported must not warn");
            }
        }
    }
}

#[test]
fn bounded_identity_import_reads_reject_oversized_files() {
    let label = "FileSec public key file";
    assert!(check_bounded(
        true,
        MAX_PUBLIC_IDENTITY_FILE_LEN + 1,
        MAX_PUBLIC_IDENTITY_FILE_LEN,
        label
    )
    .is_err());
    assert!(read_bounded_text_file(
        vec![0; MAX_IDENTITY_BACKUP_FILE_LEN as usize + 1],
        MAX_IDENTITY_BACKUP_FILE_LEN,
        "FileSec identity backup"
    )
    .is_err());
    assert!(check_bounded(true, 5, 5, label).is_ok());
    assert_eq!(
        check_bounded(false, 0, 5, label),
        Err("FileSec public key file is not a file.".to_string())
    );
    assert_eq!(read_bounded_file(vec![1, 2], 2, label), Ok(vec![1, 2]));
    assert_eq!(
        read_bounded_file(vec![1, 2, 3], 2, label),
        Err("FileSec public key file is too large.".to_string())
    );
    assert_eq!(
        read_bounded_text_file(vec![0xc3, 0xa9], 9, "X"),
        Ok("é".to_string())
    );
    assert_eq!(
        read_bounded_text_file(vec![0xc3], 9, "X"),
        Err("X is not valid UTF-8.".to_string())
    );
}

#[test]
fn the_default_follows_the_system() {
    assert_eq!(ThemeChoice::default(), ThemeChoice::System);
    assert_eq!(Prefs::default().theme, ThemeChoice::System);
    assert_eq!(Prefs::default().version, PREFS_VERSION);
}

#[test]
fn all_lists_every_variant_exactly_once() {
    let mut seen = ThemeChoice::ALL.to_vec();
    seen.dedup();
    assert_eq!(seen.len(), 3);
    assert!(ThemeChoice::ALL.contains(&ThemeChoice::System));
}

#[test]
fn preferences_of_a_newer_build_fall_back() {
    let mine = Prefs {
        version: PREFS_VERSION,
        theme: ThemeChoice::Dark,
    };
    assert_eq!(Prefs::accepted(Some(mine)), mine);
    let newer = Prefs {
        version: PREFS_VERSION + 1,
        theme: ThemeChoice::Dark,
    };
    assert_eq!(Prefs::accepted(Some(newer)), Prefs::default());
    assert_eq!(Prefs::accepted(None), Prefs::default());
    assert!(Prefs::is_readable(MAX_PREFS_LEN));
    assert!(!Prefs::is_readable(128 * 1024));
    assert_eq!(ThemeChoice::Light.label(), "Light");
    assert_eq!(ThemeChoice::toggled(true), ThemeChoice::Light);
}

#[test]
fn no_pin_ceremonies_request_user_verification_by_default() {
    // With no PIN a ceremony must still request UV (uv = Some(true)).
    let c = HardwareKey.ceremony(None);
    assert_eq!(c.uv, Some(true), "a ceremony must require user verification");
    assert!(c.pin.is_none());
}

#[test]
fn pin_ceremonies_authenticate_with_the_pin() {
    // A supplied PIN is used to verify; the separate uv hint is cleared because
    // the PIN itself performs verification.
    let c = HardwareKey.ceremony(Some("1234"));
    assert_eq!(c.pin.as_deref(), Some("1234"));
    assert_eq!(c.uv, None);
}

#[test]
fn the_first_secret_of_the_first_assertion_counts() {
    let one = [1u8; 32];
    let two = [2u8; 32];
    let got = derive_hmac_secret(&[vec![None, Some(one), Some(two)], vec![Some(two)]]);
    assert_eq!(got.ok().unwrap(), one);
    assert!(matches!(
        derive_hmac_secret(&[vec![None], vec![Some(two)]]),
        Err(KeyFailure::NoSecret)
    ));
    assert!(matches!(
        derive_hmac_secret(&[]),
        Err(KeyFailure::NoAssertion)
    ));
    assert!(check_credential(&[]).is_some());
    let e = enroll(vec![9], one, "Blue key", 42, two).ok().unwrap();
    assert_eq!((e.rp_id.as_str(), e.label.as_str()), (RP_ID, "Blue key"));
    assert_eq!((e.added_at, e.hmac_salt, e.hmac_output), (42, one, two));
    assert!(enroll(Vec::new(), one, "x", 0, two).is_err());
}

#[test]
fn security_key_failures_read_well() {
    let cases = [
        (KeyFailure::NoDevice("e".to_string()), "no security key found: e"),
        (KeyFailure::NoRandom, "secure random number generation failed"),
        (KeyFailure::Create("e".to_string()), "could not create a passkey: e"),
        (
            KeyFailure::EmptyCredential,
            "the security key returned an empty credential id",
        ),
        (KeyFailure::Authenticate("e".to_string()), "authentication failed: e"),
        (KeyFailure::NoAssertion, "the security key returned no assertion"),
        (
            KeyFailure::NoSecret,
            "the security key did not return an hmac-secret — it may not support that extension",
        ),
        (
            KeyFailure::Unsupported,
            "this build has no passkey support — rebuild FileSec with `--features passkey`",
        ),
    ];
    for (f, text) in &cases {
        assert_eq!(key_error(f).message(), *text);
    }
    assert_eq!(PasskeyError::new("m".to_string()).0, "m");
}

#[test]
fn the_keychain_replies_are_told_apart() {
    let text = |r: Result<(), AutoUnlockError>| r.err().unwrap().0;
    assert!(save_device_token(Changed::Done).is_ok());
    assert_eq!(text(save_device_token(Changed::Unsupported)), NO_SUPPORT);
    assert_eq!(
        text(save_device_token(Changed::Unavailable("d".to_string()))),
        "the OS keychain is unavailable: d"
    );
    assert_eq!(
        text(save_device_token(Changed::Failed("d".to_string()))),
        "could not save to the OS keychain: d"
    );
    assert_eq!(
        text(save_state_anchors(Changed::NoEntry("d".to_string()))),
        "could not save rollback anchors to the OS keychain: d"
    );
    assert!(clear_device_token(Changed::NoEntry("d".to_string())).is_ok());
    assert_eq!(
        text(clear_device_token(Changed::Failed("d".to_string()))),
        "could not update the OS keychain: d"
    );
    assert_eq!(
        load_device_token(Fetched::Secret(vec![7])).ok().unwrap(),
        Some(vec![7])
    );
    assert_eq!(load_device_token(Fetched::Unsupported).ok().unwrap(), None);
    assert_eq!(load_device_token(Fetched::NoEntry).ok().unwrap(), None);
    assert_eq!(
        load_device_token(Fetched::Failed("d".to_string()))
            .err()
            .unwrap()
            .message(),
        "could not read the OS keychain: d"
    );
    assert_eq!(
        load_state_anchors(Fetched::Unsupported).err().unwrap().0,
        NO_SUPPORT
    );
    assert_eq!(
        load_state_anchors(Fetched::Failed("d".to_string()))
            .err()
            .unwrap()
            .0,
        "could not read rollback anchors from the OS keychain: d"
    );
    assert!(is_saved(Fetched::Secret(Vec::new())));
    assert!(!is_saved(Fetched::Unavailable("x".to_string())));
}

#[test]
fn enqueued_files_are_wiped_and_pending_returns_to_zero() {
    let mut wiper = Wiper::new();
    let paths: Vec<String> = (0..4).map(|i| format!("filesec-wipe-{i}")).collect();
    for p in &paths {
        wiper.enqueue(p);
    }
    assert_eq!(wiper.pending(), 4);
    let mut wiped = Vec::new();
    while wiper.finish(0, 10) {
        if let Some(p) = wiper.take_next() {
            assert!(wiper.take_next().is_none(), "one at a time");
            wiped.push(p);
            wiper.wiped();
        }
    }
    assert_eq!(wiper.pending(), 0);
    assert_eq!(wiped, paths);
}

#[test]
fn enqueue_does_not_block_the_caller() {
    let mut wiper = Wiper::default();
    wiper.enqueue("nonblocking");
    let seen = wiper.pending();
    assert!(seen <= 1);
    let _ = wiper.take_next();
    assert_eq!(wiper.pending(), 1, "not wiped yet");
    wiper.wiped();
    assert!(!wiper.finish(0, 10));
    wiper.enqueue("too late");
    assert_eq!(wiper.pending(), 0);
}

#[test]
fn a_slow_wipe_is_not_waited_for_forever() {
    let mut wiper = Wiper::new();
    wiper.enqueue("x");
    assert!(wiper.finish(9, 10));
    assert!(!wiper.finish(10, 10));
}

#[test]
fn fingerprints_round_trip() {
    let mut f = [0u8; 32];
    for (i, b) in f.iter_mut().enumerate() {
        *b = (i as u8).wrapping_mul(37);
    }
    let text = hex(&f);
    assert_eq!(text.len(), 64);
    assert_eq!(decode_fpr(&text), Some(f));
    assert_eq!(decode_fpr(&text.to_uppercase()), Some(f));
    assert_eq!(decode_fpr(&text[1..]), None);
    assert_eq!(decode_fpr(&format!("g{}", &text[1..])), None);
    assert_eq!(hex(&[0, 255, 16]), "00ff10");
    assert!(same_fpr(&f, &f));
    assert!(!same_fpr(&f, &[0; 32]));
}

#[test]
fn dates_of_known_days() {
    assert_eq!(fmt_date(0), "1970-01-01");
    assert_eq!(fmt_date(951_782_400), "2000-02-29");
    assert_eq!(fmt_date(1_717_000_000), "2024-05-29");
    assert_eq!(fmt_date(-1), "1969-12-31");
    assert_eq!(civil_from_days(-719_468), (0, 3, 1));
}

#[test]
fn names_are_made_safe() {
    assert_eq!(sanitize_filename("My vault/2026"), "My_vault_2026");
    assert_eq!(sanitize_filename(""), "filesec");
    assert_eq!(sanitize_filename("größe"), "größe");
    assert_eq!(sanitize_leaf("a b.txt"), "a_b.txt");
    assert_eq!(sanitize_leaf(".."), "file");
    assert_eq!(sanitize_leaf("../x"), ".._x");
}

#[test]
fn colours_stand_for_what_they_mean() {
    let c = colors(true);
    assert_eq!(c.accent, Rgb { r: 0x4c, g: 0x8d, b: 0xf0 });
    assert_eq!(colors(false).text, Rgb { r: 0x1b, g: 0x1e, b: 0x25 });
    assert_eq!(badge_color(BadgeKind::Bad, c), c.err);
    assert_eq!(badge_color(BadgeKind::Neutral, c), c.text_muted);
    assert_eq!(file_tint("a.zip", c), c.warn);
    assert_eq!(file_tint("a", c), c.text_muted);
}
