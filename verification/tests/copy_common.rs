use neetan_dos::copy_common::{
    dos_display, dos_leaf_basename, dos_now, dos_timestamp_from_unix, is_leap, join_dos,
    split_dos_parent, trim_trailing_separator, unix_to_local, validate_dos_basename,
    validate_dos_components,
};

#[test]
fn validate_dos_basename_accepts_8_3() {
    assert_eq!(validate_dos_basename(b"FILE.TXT").unwrap(), b"FILE.TXT");
    assert_eq!(validate_dos_basename(b"file.txt").unwrap(), b"FILE.TXT");
    assert_eq!(validate_dos_basename(b"ABCDEFGH").unwrap(), b"ABCDEFGH");
    assert_eq!(validate_dos_basename(b"A.B").unwrap(), b"A.B");
    assert_eq!(validate_dos_basename(b"NOEXT").unwrap(), b"NOEXT");
}

#[test]
fn validate_dos_basename_rejects_too_long_base() {
    assert!(validate_dos_basename(b"too_long_name.txt").is_err());
    assert!(validate_dos_basename(b"ABCDEFGHI.TXT").is_err());
}

#[test]
fn validate_dos_basename_rejects_too_long_ext() {
    assert!(validate_dos_basename(b"file.text").is_err());
}

#[test]
fn validate_dos_basename_rejects_reserved_chars() {
    for &c in b"<>:\"|?*/\\" {
        let mut name = b"FILE".to_vec();
        name.push(c);
        assert!(
            validate_dos_basename(&name).is_err(),
            "char {c:#04x} should be rejected"
        );
    }
}

#[test]
fn validate_dos_basename_rejects_empty_and_dot() {
    assert!(validate_dos_basename(b"").is_err());
    assert!(validate_dos_basename(b".").is_err());
    assert!(validate_dos_basename(b"..").is_err());
    assert!(validate_dos_basename(b".only_ext").is_err());
}

#[test]
fn validate_dos_basename_rejects_non_ascii() {
    assert!(validate_dos_basename(b"f\xE3\x81\x82le.txt").is_err());
    assert!(validate_dos_basename(b"FILE.\x01XT").is_err());
}

#[test]
fn validate_dos_basename_error_messages() {
    assert_eq!(validate_dos_basename(b"").unwrap_err(), "name is empty");
    assert_eq!(validate_dos_basename(b"..").unwrap_err(), "name is reserved");
    assert_eq!(
        validate_dos_basename(b"A\x01").unwrap_err(),
        "non-ASCII or control character"
    );
    assert_eq!(
        validate_dos_basename(b"A*B").unwrap_err(),
        "character is reserved in DOS names"
    );
    assert_eq!(validate_dos_basename(b".TXT").unwrap_err(), "name has no base");
    assert_eq!(
        validate_dos_basename(b"abcdefghi.txt").unwrap_err(),
        "base 'abcdefghi' exceeds 8 characters"
    );
    assert_eq!(
        validate_dos_basename(b"file.text").unwrap_err(),
        "extension 'text' exceeds 3 characters"
    );
    assert_eq!(validate_dos_basename(b"NAME.").unwrap(), b"NAME");
}

#[test]
fn validate_dos_components_walks_components() {
    assert!(validate_dos_components(b"A:\\FOO\\BAR.TXT").is_ok());
    assert!(validate_dos_components(b"\\FOO\\BAR.TXT").is_ok());
    assert!(validate_dos_components(b"BAR.TXT").is_ok());
    assert!(validate_dos_components(b"").is_ok());
    assert!(validate_dos_components(b"A:\\toolong_name").is_err());
    assert!(validate_dos_components(b"\\FOO\\toolong_name\\X.TXT").is_err());
}

#[test]
fn validate_dos_components_edge_cases() {
    assert_eq!(
        validate_dos_components(b"1:\\FOO").unwrap_err(),
        "invalid drive letter"
    );
    assert!(validate_dos_components(b"a:\\FOO").is_ok());
    assert!(validate_dos_components(b"FOO\0toolong_name").is_ok());
    assert!(validate_dos_components(b"FOO//BAR").is_ok());
}

#[test]
fn join_dos_concatenates_with_backslash() {
    assert_eq!(join_dos(b"A:", b"FOO"), b"A:\\FOO");
    assert_eq!(join_dos(b"A:\\FOO", b"BAR"), b"A:\\FOO\\BAR");
    assert_eq!(join_dos(b"A:\\FOO\\", b"BAR"), b"A:\\FOO\\BAR");
    assert_eq!(join_dos(b"", b"FOO"), b"FOO");
}

#[test]
fn trim_trailing_separator_strips_slashes() {
    assert_eq!(trim_trailing_separator(b"A:\\FOO\\"), b"A:\\FOO");
    assert_eq!(trim_trailing_separator(b"A:\\FOO"), b"A:\\FOO");
    assert_eq!(trim_trailing_separator(b"/foo//"), b"/foo");
    assert_eq!(trim_trailing_separator(b""), b"");
}

#[test]
fn split_dos_parent_returns_dirname() {
    assert_eq!(
        split_dos_parent(b"A:\\FOO\\BAR.TXT"),
        Some(b"A:\\FOO".to_vec())
    );
    assert_eq!(split_dos_parent(b"A:\\BAR.TXT"), Some(b"A:".to_vec()));
    assert_eq!(split_dos_parent(b"BAR.TXT"), None);
    assert_eq!(
        split_dos_parent(b"\\BAR.TXT"),
        Some(b"".to_vec()).filter(|p| !p.is_empty())
    );
}

#[test]
fn dos_leaf_basename_returns_last_component() {
    assert_eq!(
        dos_leaf_basename(b"A:\\FOO\\BAR.TXT"),
        Some(b"BAR.TXT".to_vec())
    );
    assert_eq!(dos_leaf_basename(b"A:\\FOO\\"), Some(b"FOO".to_vec()));
    assert_eq!(dos_leaf_basename(b"BAR.TXT"), Some(b"BAR.TXT".to_vec()));
    assert_eq!(dos_leaf_basename(b"\\"), None);
}

#[test]
fn dos_leaf_basename_stops_at_drive_colon() {
    assert_eq!(dos_leaf_basename(b"A:FOO"), Some(b"FOO".to_vec()));
    assert_eq!(dos_leaf_basename(b"A:"), None);
}

#[test]
fn dos_display_keeps_ascii() {
    assert_eq!(dos_display(b"A:\\FOO"), "A:\\FOO");
}

#[test]
fn dos_now_encodes_current_year() {
    let (_time, date) = dos_now();
    let year = (date >> 9) + 1980;
    assert!((2025..2200).contains(&year), "got year {year}");
}

#[test]
fn leap_years_follow_gregorian_rule() {
    assert!(is_leap(2000));
    assert!(is_leap(2024));
    assert!(!is_leap(1900));
    assert!(!is_leap(2023));
}

#[test]
fn unix_to_local_known_dates() {
    assert_eq!(unix_to_local(0), (1970, 1, 1, 0, 0, 0));
    // 2000-02-29 12:34:56 UTC
    assert_eq!(unix_to_local(951_827_696), (2000, 2, 29, 12, 34, 56));
    // 2024-12-31 23:59:59 UTC
    assert_eq!(unix_to_local(1_735_689_599), (2024, 12, 31, 23, 59, 59));
}

#[test]
fn dos_timestamp_packs_fat_fields() {
    // 2000-02-29 12:34:56 -> time 12<<11 | 34<<5 | 28, date 20<<9 | 2<<5 | 29
    assert_eq!(
        dos_timestamp_from_unix(951_827_696),
        ((12 << 11) | (34 << 5) | 28, (20 << 9) | (2 << 5) | 29)
    );
    // Before 1980 the date is 0.
    assert_eq!(dos_timestamp_from_unix(0).1, 0);
}

#[test]
fn joined_path_splits_back() {
    for (dir, leaf) in [
        (&b"A:"[..], &b"FOO"[..]),
        (&b"A:\\GAMES\\SAVE"[..], &b"SLOT1.DAT"[..]),
        (&b"DOCS"[..], &b"README.TXT"[..]),
    ] {
        let joined = join_dos(dir, leaf);
        assert_eq!(split_dos_parent(&joined), Some(dir.to_vec()));
        assert_eq!(dos_leaf_basename(&joined), Some(leaf.to_vec()));
    }
}

#[test]
fn only_one_dot_in_a_name() {
    assert_eq!(
        validate_dos_basename(b"A.B.C").unwrap_err(),
        "extension may not contain '.'"
    );
    assert_eq!(
        validate_dos_basename(b"FILE..").unwrap_err(),
        "extension may not contain '.'"
    );
    assert!(validate_components_rejects_second_dot());
    assert_eq!(validate_dos_basename(b"FILE.").unwrap(), b"FILE");
}

fn validate_components_rejects_second_dot() -> bool {
    neetan_dos::copy_common::validate_dos_components(b"A:\\DIR.X.Y\\FILE.TXT").is_err()
}

#[test]
fn validating_a_canonical_name_gives_it_back() {
    for name in [&b"readme.txt"[..], b"a", b"Game.exe", b"x.", b"abcdefgh.ijk"] {
        let once = validate_dos_basename(name).unwrap();
        assert_eq!(validate_dos_basename(&once).unwrap(), once);
    }
}

#[test]
fn joined_path_splits_back_for_every_directory() {
    assert_eq!(split_dos_parent(&join_dos(b"A:\\GAMES\\", b"X.DAT")), Some(b"A:\\GAMES".to_vec()));
    assert_eq!(split_dos_parent(&join_dos(b"A:\\", b"X.DAT")), Some(b"A:".to_vec()));
    assert_eq!(split_dos_parent(&join_dos(b"", b"X.DAT")), None);
    assert_eq!(split_dos_parent(&join_dos(b"\\", b"X.DAT")), None);
    for dir in [&b""[..], b"\\", b"A:", b"A:\\", b"A:\\D\\\\", b"/X/"] {
        assert_eq!(dos_leaf_basename(&join_dos(dir, b"LEAF")), Some(b"LEAF".to_vec()));
    }
}

#[test]
fn dos_display_decodes_valid_utf8() {
    assert_eq!(dos_display(&[0xC3, 0xA9]), "\u{e9}");
    assert_eq!(dos_display(&[0x41, 0xFF]), "A\u{fffd}");
}
