//! The hyprlock integration.

use facelock::hyprlock::{
    add_face_icon, backup_path, conf_has_fingerprint_enabled, disable, enable,
    extract_ignore_empty_input, extract_placeholder_text, hyprlock_conf_path,
    inject_into_general_block, locate_hyprlock_conf, pam_contains, pam_has_fingerprint,
    refuse_root, remove_face_icon, set_ignore_empty_input, status, value_of, BACKUP_SUFFIX,
    FACE_ICON, FP_ICON,
};

const STOCK_OMARCHY: &str = "general {\n    grace = 0\n    hide_cursor = true\n    ignore_empty_input = true\n}\n\ninput-field {\n    placeholder_text = Enter Password\n}\n";

#[test]
fn enable_stock_omarchy_adds_icon_and_flips_flag() {
    let (after, changed, already) = add_face_icon(STOCK_OMARCHY);
    assert!(changed);
    assert!(!already);
    assert!(after.contains(FACE_ICON));
    assert!(after.contains("Enter Password"));

    let (after2, flag_changed) = set_ignore_empty_input(&after, false);
    assert!(flag_changed);
    assert!(after2.contains("ignore_empty_input = false"));
    assert!(!after2.contains("ignore_empty_input = true"));
}

#[test]
fn enable_preserves_fingerprint_icon() {
    let input = format!(
        "input-field {{\n    placeholder_text = <span> Enter Password {FP_ICON} </span>\n}}\n"
    );
    let (after, changed, already) = add_face_icon(&input);
    assert!(changed);
    assert!(!already);
    assert!(after.contains(FACE_ICON));
    assert!(after.contains(FP_ICON));
}

#[test]
fn enable_is_idempotent() {
    let (after, _, _) = add_face_icon(STOCK_OMARCHY);
    let (after2, changed, already) = add_face_icon(&after);
    assert!(!changed);
    assert!(already);
    assert_eq!(after, after2);

    let (flag1, _) = set_ignore_empty_input(&after, false);
    let (flag2, changed) = set_ignore_empty_input(&flag1, false);
    assert!(!changed);
    assert_eq!(flag1, flag2);
}

#[test]
fn disable_removes_face_icon_preserves_fingerprint() {
    let input = format!(
        "input-field {{\n    placeholder_text = <span> Enter Password {FACE_ICON} {FP_ICON} </span>\n}}\n"
    );
    let (after, changed) = remove_face_icon(&input);
    assert!(changed);
    assert!(!after.contains(FACE_ICON));
    assert!(after.contains(FP_ICON));
}

#[test]
fn disable_restores_ignore_empty_when_no_fingerprint() {
    let input = format!(
        "general {{\n    ignore_empty_input = false\n}}\n\ninput-field {{\n    placeholder_text = <span> Enter Password {FACE_ICON} </span>\n}}\n"
    );
    let (after, _) = remove_face_icon(&input);
    let (after2, changed) = set_ignore_empty_input(&after, true);
    assert!(changed);
    assert!(after2.contains("ignore_empty_input = true"));
}

#[test]
fn disable_preserves_ignore_empty_when_fingerprint_enabled_in_conf() {
    let input = format!(
        "general {{\n    ignore_empty_input = false\n    fingerprint:enabled = true\n}}\n\ninput-field {{\n    placeholder_text = <span> Enter Password {FACE_ICON} {FP_ICON} </span>\n}}\n"
    );
    assert!(conf_has_fingerprint_enabled(&input));
    let (after, _) = remove_face_icon(&input);
    assert!(conf_has_fingerprint_enabled(&after));
    assert_eq!(extract_ignore_empty_input(&after), Some(false));
}

#[test]
fn missing_general_block_is_prepended() {
    let input = "input-field {\n    placeholder_text = Enter Password\n}\n";
    let (after, changed) = set_ignore_empty_input(input, false);
    assert!(changed);
    assert!(after.starts_with("general {"));
    assert!(after.contains("ignore_empty_input = false"));
    assert!(after.contains("input-field {"));
}

#[test]
fn existing_general_with_other_keys_only_touches_target() {
    let input = "general {\n    grace = 5\n    hide_cursor = true\n}\n";
    let (after, changed) = set_ignore_empty_input(input, false);
    assert!(changed);
    assert!(after.contains("grace = 5"));
    assert!(after.contains("hide_cursor = true"));
    assert!(after.contains("ignore_empty_input = false"));
}

#[test]
fn extract_placeholder_and_flag() {
    assert_eq!(
        extract_placeholder_text("    placeholder_text = Enter Password\n"),
        Some("Enter Password".to_string())
    );
    assert_eq!(
        extract_ignore_empty_input("    ignore_empty_input = false\n"),
        Some(false)
    );
    assert_eq!(
        extract_ignore_empty_input("    ignore_empty_input = true\n"),
        Some(true)
    );
    assert_eq!(extract_ignore_empty_input("nothing here"), None);
}

#[test]
fn fingerprint_enabled_detection() {
    assert!(conf_has_fingerprint_enabled("fingerprint:enabled = true\n"));
    assert!(!conf_has_fingerprint_enabled(
        "fingerprint:enabled = false\n"
    ));
    assert!(!conf_has_fingerprint_enabled(
        "# fingerprint:enabled = true\n"
    ));
}

#[test]
fn pam_contains_ignores_comments() {
    let pam = Some(
        "auth required pam_unix.so\n# auth x pam_facelock.so\nauth sufficient pam_fprintd.so\n"
            .to_string(),
    );
    assert!(pam_has_fingerprint(&pam));
    assert!(pam_contains(&pam, "pam_unix.so"));
    assert!(!pam_contains(&pam, "pam_facelock.so"));
    assert!(!pam_contains(&None, "pam_unix.so"));
}

#[test]
fn enabling_and_disabling_end_to_end() {
    let enabled = enable(STOCK_OMARCHY, false);
    assert!(enabled.back_up);
    assert_eq!(
        enabled.lines,
        vec![
            "Added face icon to placeholder_text.",
            "Set general.ignore_empty_input = false.",
        ]
    );
    let after = enabled.write.unwrap();
    assert!(after.contains(FACE_ICON));
    assert!(after.contains("ignore_empty_input = false"));

    let again = enable(&after, true);
    assert!(!again.back_up && again.write.is_none());
    assert_eq!(
        again.lines,
        vec!["Face icon already present and ignore_empty_input already false."]
    );

    let disabled = disable("/c", &after, &None, true);
    assert_eq!(
        disabled.lines,
        vec![
            "Removed face icon from placeholder_text.".to_string(),
            "Restored general.ignore_empty_input = true.".to_string(),
            format!(
                "Backup left in place at /c{BACKUP_SUFFIX} (delete manually if no longer needed)."
            ),
        ]
    );
    let back = disabled.write.unwrap();
    assert!(!back.contains(FACE_ICON));
    assert!(back.contains("ignore_empty_input = true"));

    let nothing = disable("/c", &back, &None, false);
    assert!(nothing.write.is_none());
    assert_eq!(
        nothing.lines,
        vec!["Face icon not present and ignore_empty_input unchanged. Nothing to do."]
    );
}

#[test]
fn disabling_leaves_the_flag_to_a_fingerprint_in_the_pam_stack() {
    let pam = Some("auth sufficient pam_fprintd.so\n".to_string());
    let input = format!(
        "general {{\n    ignore_empty_input = false\n}}\ninput-field {{\n    placeholder_text = Password {FACE_ICON}\n}}\n"
    );
    let edit = disable("/c", &input, &pam, false);
    let after = edit.write.unwrap();
    assert_eq!(extract_ignore_empty_input(&after), Some(false));
    assert_eq!(
        edit.lines[1],
        "Fingerprint integration detected — leaving ignore_empty_input alone so fingerprint still works."
    );
}

#[test]
fn a_set_flag_is_what_is_read_back() {
    for input in ["", "general {\n}\n", STOCK_OMARCHY, "general {\n  ignore_empty_input = no\n}\n"] {
        for value in [false, true] {
            let (after, _) = set_ignore_empty_input(input, value);
            assert_eq!(extract_ignore_empty_input(&after), Some(value), "{input:?}");
        }
    }
}

#[test]
fn the_flag_goes_into_an_existing_block_and_nowhere_else() {
    assert_eq!(
        inject_into_general_block("general {\n    grace = 5\n}\n", false),
        Some("general {\n    grace = 5\n    ignore_empty_input = false\n}\n".to_string())
    );
    assert_eq!(inject_into_general_block("input-field {\n}\n", true), None);
}

#[test]
fn the_status_lists_everything() {
    let pam = Some("auth sufficient pam_facelock.so\n".to_string());
    let lines = status("/h/hyprlock.conf", STOCK_OMARCHY, &pam, true);
    assert_eq!(lines[0], "hyprlock.conf:        /h/hyprlock.conf");
    assert_eq!(lines[1], "placeholder_text:     Enter Password");
    assert_eq!(lines[2], format!("  face icon ({FACE_ICON}): no"));
    assert_eq!(lines[3], format!("  fingerprint icon ({FP_ICON}): no"));
    assert_eq!(lines[4], "ignore_empty_input:   true");
    assert_eq!(lines[6], "  pam_facelock.so:    yes");
    assert_eq!(lines[7], "  pam_fprintd.so:     no");
    assert_eq!(lines[8], format!("backup file:          /h/hyprlock.conf{BACKUP_SUFFIX}"));
    assert_eq!(backup_path("/h/x"), format!("/h/x{BACKUP_SUFFIX}"));
}

#[test]
fn the_configuration_is_found_by_the_environment() {
    let some = |s: &str| Some(s.to_string());
    assert_eq!(
        hyprlock_conf_path(&some("/x"), &some("/home/a")),
        Ok("/x/hypr/hyprlock.conf".to_string())
    );
    assert_eq!(
        hyprlock_conf_path(&some(""), &some("/home/a")),
        Ok("/home/a/.config/hypr/hyprlock.conf".to_string())
    );
    assert_eq!(
        hyprlock_conf_path(&None, &None),
        Err("could not determine XDG_CONFIG_HOME or HOME")
    );
    assert_eq!(locate_hyprlock_conf("/c".into(), true), Ok("/c".to_string()));
    assert_eq!(
        locate_hyprlock_conf("/c".into(), false),
        Err("hyprlock config not found at /c.\nInstall hyprlock and create the config first."
            .to_string())
    );
}

#[test]
fn root_is_refused() {
    assert!(refuse_root(false).is_ok());
    assert!(refuse_root(true).unwrap_err().starts_with("facelock hyprlock must run"));
}

#[test]
fn a_value_follows_its_key() {
    assert_eq!(value_of("  key = a = b ", "key"), Some("a = b".to_string()));
    assert_eq!(value_of("  other = a", "key"), None);
    assert_eq!(value_of("key", "key"), None);
}
