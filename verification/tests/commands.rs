use envbro::commands::{
    check_env_name, decode_stored, diff_lines, encrypt_local_file, full_listing, local_passphrase,
    plan_change, plan_register, plan_remove, project_listing, remote_filename, share_message,
    show_text, ChangePlan, CommandError, RemovePlan,
};
use envbro::security::{decrypt_with_passphrase, encrypt_with_passphrase, SecurityError};

#[test]
fn env_name_rules() {
    assert_eq!(check_env_name("prod"), Ok(()));
    assert_eq!(check_env_name("dev/local"), Err(CommandError::InvalidEnvName));
    assert_eq!(check_env_name("/"), Err(CommandError::InvalidEnvName));
    assert_eq!(check_env_name(""), Ok(()));
    assert_eq!(
        CommandError::InvalidEnvName.message(),
        "Environment name cannot contain /"
    );
}

#[test]
fn remote_filename_defaults_to_dotenv() {
    assert_eq!(remote_filename(None), ".env");
    assert_eq!(remote_filename(Some("prod.env".to_string())), "prod.env");
}

#[test]
fn local_registration_needs_passphrase() {
    assert_eq!(local_passphrase(Some("x")), Ok("x"));
    assert_eq!(local_passphrase(None), Err(CommandError::PassphraseRequired));
}

#[test]
fn local_file_must_be_utf8() {
    assert_eq!(
        encrypt_local_file(&[0xff, 0xfe], "testpass"),
        Err(CommandError::TargetNotUtf8)
    );
}

#[test]
fn local_file_is_sealed_under_passphrase() {
    let blob = encrypt_local_file(b"FOO=bar", "testpass").unwrap();
    assert_eq!(decrypt_with_passphrase(&blob, "testpass").unwrap(), b"FOO=bar".to_vec());
}

#[test]
fn plan_change_cases() {
    assert!(matches!(plan_change(None, "A=1".to_string(), false), ChangePlan::Proceed));
    assert!(matches!(
        plan_change(Some("A=1".to_string()), "A=1".to_string(), false),
        ChangePlan::Proceed
    ));
    match plan_change(Some("A=1".to_string()), "A=2".to_string(), false) {
        ChangePlan::ShowDiff { old, new, confirm } => {
            assert_eq!(old, "A=1");
            assert_eq!(new, "A=2");
            assert!(confirm);
        }
        _ => panic!("expected a diff"),
    }
    match plan_change(Some("A=1".to_string()), "A=2".to_string(), true) {
        ChangePlan::ShowDiff { confirm, .. } => assert!(!confirm),
        _ => panic!("expected a diff"),
    }
}

#[test]
fn register_without_existing_proceeds() {
    assert!(matches!(plan_register(None, b"", None, false), Ok(ChangePlan::Proceed)));
}

#[test]
fn register_without_passphrase_asks_unless_forced() {
    assert!(matches!(
        plan_register(Some(b"old"), b"new", None, false),
        Ok(ChangePlan::ConfirmOverwrite)
    ));
    assert!(matches!(plan_register(Some(b"old"), b"new", None, true), Ok(ChangePlan::Proceed)));
}

#[test]
fn register_compares_decrypted_texts() {
    let old = encrypt_with_passphrase(b"A=1", "pw").unwrap();
    let new = encrypt_with_passphrase(b"A=2", "pw").unwrap();
    match plan_register(Some(&old), &new, Some("pw"), false) {
        Ok(ChangePlan::ShowDiff { old, new, confirm }) => {
            assert_eq!(old, "A=1");
            assert_eq!(new, "A=2");
            assert!(confirm);
        }
        _ => panic!("expected a diff"),
    }
}

#[test]
fn register_reports_undecryptable_existing() {
    let new = encrypt_with_passphrase(b"A=2", "pw").unwrap();
    assert_eq!(
        plan_register(Some(b"short"), &new, Some("pw"), false).err(),
        Some(CommandError::DecryptExisting(SecurityError::EnvelopeTooShort))
    );
}

#[test]
fn register_reports_undecryptable_new() {
    let old = encrypt_with_passphrase(b"A=1", "pw").unwrap();
    assert_eq!(
        plan_register(Some(&old), b"short", Some("pw"), true).err(),
        Some(CommandError::DecryptNew(SecurityError::EnvelopeTooShort))
    );
}

#[test]
fn set_decodes_stored_text() {
    let blob = encrypt_with_passphrase(b"SECRET=123", "testpass").unwrap();
    assert_eq!(decode_stored(&blob, "testpass").unwrap(), "SECRET=123");
    let binary = encrypt_with_passphrase(&[0xff], "testpass").unwrap();
    assert_eq!(decode_stored(&binary, "testpass"), Err(CommandError::StoredNotUtf8));
    assert_eq!(
        decode_stored(b"x", "testpass"),
        Err(CommandError::DecryptStored(SecurityError::EnvelopeTooShort))
    );
}

#[test]
fn remove_plans() {
    assert!(matches!(plan_remove(None, "pw", false), Ok(RemovePlan::NotFound)));
    let blob = encrypt_with_passphrase(b"DELETE_ME=1", "pw").unwrap();
    assert!(matches!(plan_remove(Some(&blob), "pw", true), Ok(RemovePlan::Delete)));
    match plan_remove(Some(&blob), "pw", false) {
        Ok(RemovePlan::ConfirmThenDelete { content }) => assert_eq!(content, "DELETE_ME=1"),
        _ => panic!("expected a confirmation"),
    }
    assert!(matches!(
        plan_remove(Some(b"x"), "pw", true),
        Err(CommandError::DecryptForConfirmation(SecurityError::EnvelopeTooShort))
    ));
}

#[test]
fn show_prints_decrypted_text() {
    let blob = encrypt_with_passphrase(b"KEY=VALUE", "testpass").unwrap();
    assert_eq!(show_text(Some(&blob), "testpass").unwrap(), "KEY=VALUE");
    assert_eq!(show_text(None, "testpass"), Err(CommandError::EnvironmentNotFound));
    assert_eq!(CommandError::EnvironmentNotFound.message(), "Environment not found");
    let err = show_text(Some(b"x"), "testpass").unwrap_err();
    assert_eq!(err, CommandError::Decrypt(SecurityError::EnvelopeTooShort));
    assert_eq!(err.message(), "Encrypted environment too short");
}

#[test]
fn show_replaces_invalid_utf8() {
    let blob = encrypt_with_passphrase(&[b'A', 0xff], "testpass").unwrap();
    assert_eq!(show_text(Some(&blob), "testpass").unwrap(), "A\u{FFFD}");
}

#[test]
fn listing_one_project() {
    assert_eq!(
        project_listing("myproject", &vec!["prod".to_string(), "dev".to_string()]),
        vec!["myproject", "  prod", "  dev"]
    );
    assert_eq!(
        project_listing("myproject", &vec![]),
        vec!["myproject", "  (no environments)"]
    );
}

#[test]
fn listing_all_projects() {
    assert_eq!(full_listing(&vec![]), vec!["No projects found."]);
    let groups = vec![
        ("a".to_string(), vec!["dev".to_string()]),
        ("b".to_string(), vec![]),
    ];
    assert_eq!(full_listing(&groups), vec!["a", "  dev", "b"]);
}

#[test]
fn share_instructions() {
    assert_eq!(
        share_message("myproject", "prod", "blobabc"),
        "\nTo clone this environment, run:\n  envbro register myproject prod --ticket blobabc\n\nPress Ctrl+C to stop sharing...\n"
    );
}

#[test]
fn diff_marks_changed_lines() {
    let lines = diff_lines("A=1\nB=2\n", "A=1\nB=3\n");
    let rendered: Vec<(char, String)> = lines.into_iter().map(|l| (l.sign, l.text)).collect();
    assert_eq!(
        rendered,
        vec![
            (' ', "A=1\n".to_string()),
            ('-', "B=2\n".to_string()),
            ('+', "B=3\n".to_string()),
        ]
    );
}

#[test]
fn diff_adds_missing_line_break() {
    let lines = diff_lines("A=1", "A=1");
    assert_eq!(lines.len(), 1);
    assert_eq!(lines[0].sign, ' ');
    assert_eq!(lines[0].text, "A=1\n");
}

#[test]
fn error_causes() {
    let err = CommandError::DecryptExisting(SecurityError::KeyUnwrapFailed);
    assert_eq!(err.message(), "Failed to decrypt existing env file");
    assert_eq!(err.cause(), Some(SecurityError::KeyUnwrapFailed));
    assert_eq!(CommandError::TargetNotUtf8.cause(), None);
    assert_eq!(
        CommandError::Encrypt(SecurityError::Argon2Failure("invalid password".to_string())).message(),
        "Argon2 error: invalid password"
    );
}

#[test]
fn set_after_register_gives_file_text() {
    let blob = encrypt_local_file(b"SECRET=123", "testpass").unwrap();
    assert_eq!(decode_stored(&blob, "testpass").unwrap(), "SECRET=123");
}
