use tokenguard::other;
use tokenguard::secrets::{
    self, check_fresh_read, check_key, check_same_entry_read, env_var_name, expected_backend, get,
    get_optional, keyring_err, troubleshooting, KeychainRead, KeyringError, KeyringErrorKind, SelftestAction,
    SelftestEvent,
};
use tokenguard::win_cred;

fn err(kind: KeyringErrorKind, message: &str) -> KeyringError {
    KeyringError { kind, message: message.to_string() }
}

#[test]
fn expected_backend_per_os() {
    assert_eq!(expected_backend("windows"), "Windows Credential Manager");
    assert_eq!(expected_backend("macos"), "macOS Keychain");
    assert_eq!(expected_backend("linux"), "Linux Secret Service (D-Bus)");
    assert!(troubleshooting("linux").starts_with("On Linux/WSL"));
    assert!(troubleshooting("windows").starts_with("On Windows"));
}

#[test]
fn keyring_errors_carry_actionable_detail() {
    let m = keyring_err("set_password", &err(KeyringErrorKind::PlatformFailure, "boom"), "macos");
    assert_eq!(
        m,
        "set_password: boom \u{2014} OS keychain backend failure. Expected backend: macOS Keychain. \
On macOS: make sure Keychain Access is available and the app has the required keychain entitlements."
    );
    let m = keyring_err("x", &err(KeyringErrorKind::Other, "bad"), "linux");
    assert_eq!(m, "x: bad \u{2014} see https://github.com/hwchen/keyring-rs for backend requirements");
}

#[test]
fn env_var_names_are_upper_case_and_safe() {
    assert_eq!(env_var_name("openai"), "TOKENGUARD_KEY_OPENAI");
    assert_eq!(env_var_name("my provider-1"), "TOKENGUARD_KEY_MY_PROVIDER_1");
}

#[test]
fn keys_fall_back_to_the_environment() {
    assert_eq!(get_optional(KeychainRead::Missing, None, "linux"), Ok(None));
    assert_eq!(
        get_optional(KeychainRead::Missing, Some("k".into()), "linux"),
        Ok(Some("k".to_string()))
    );
    assert_eq!(
        get_optional(KeychainRead::ReadFailed(err(KeyringErrorKind::Other, "e")), Some("env".into()), "linux"),
        Ok(Some("env".to_string()))
    );
    assert_eq!(
        get_optional(KeychainRead::Found("stored".into()), Some("env".into()), "linux"),
        Ok(Some("stored".to_string()))
    );
    let e = get_optional(KeychainRead::EntryFailed(err(KeyringErrorKind::Other, "e")), None, "linux").unwrap_err();
    assert!(e.starts_with("Entry::new: e"));
    let e = get(KeychainRead::Missing, None, "linux").unwrap_err();
    assert!(e.starts_with("get_password: No matching entry found in secure storage \u{2014} the entry disappeared"));
}

#[test]
fn status_treats_a_missing_key_as_normal() {
    assert_eq!(secrets::status(&KeychainRead::Missing, false, "linux"), (false, None));
    assert_eq!(secrets::status(&KeychainRead::Missing, true, "linux"), (true, None));
    assert_eq!(secrets::status(&KeychainRead::Found("k".into()), false, "linux"), (true, None));
    let (present, e) = secrets::status(&KeychainRead::ReadFailed(err(KeyringErrorKind::Other, "e")), false, "linux");
    assert!(!present);
    assert!(e.unwrap().starts_with("status: e"));
}

#[test]
fn stored_keys_are_read_back() {
    assert_eq!(check_key(""), Err("empty key".to_string()));
    assert_eq!(check_key("k"), Ok(()));
    assert_eq!(check_same_entry_read("k", &Ok("k".into()), "linux"), Ok(()));
    assert_eq!(
        check_same_entry_read("k", &Ok("other".into()), "linux"),
        Err("same-entry read-back mismatch".to_string())
    );
    assert_eq!(check_fresh_read("k", &Ok("x".into()), "linux"), Err("fresh read-back mismatch".to_string()));
    let e = check_same_entry_read("k", &Err(err(KeyringErrorKind::NoEntry, "gone")), "linux").unwrap_err();
    assert!(e.starts_with("same-entry read-back failed: same-entry read-back: gone"));
    assert!(e.ends_with(". The backend did not persist the credential."));
}

fn drive(step: fn(&mut String, SelftestEvent) -> SelftestAction, os: &str, store: Result<(), String>, read: Result<String, String>) -> String {
    let mut report = String::new();
    let mut action = step(&mut report, SelftestEvent::Started { os: os.to_string() });
    let mut store = Some(store);
    let mut read = Some(read);
    loop {
        action = match action {
            SelftestAction::Store => step(&mut report, SelftestEvent::Stored(store.take().unwrap())),
            SelftestAction::Read => step(&mut report, SelftestEvent::Read(read.take().unwrap())),
            SelftestAction::Delete => step(&mut report, SelftestEvent::Deleted(Ok(()))),
            SelftestAction::Finish => return report,
        };
    }
}

#[test]
fn keyring_selftest_reports_each_step() {
    let r = drive(secrets::selftest, "linux", Ok(()), Ok("tokenguard-test".into()));
    assert_eq!(
        r,
        "OS: linux\nexpected backend: Linux Secret Service (D-Bus)\nservice: tokenguard\nusername: __tokenguard_selftest__\n\
set (write + same-entry + fresh-read-back): OK\nfresh read: OK\n(keyring-rs backend)"
    );
    let r = drive(secrets::selftest, "macos", Err("nope".into()), Ok(String::new()));
    assert!(r.ends_with("set FAILED: nope"));
    let r = drive(secrets::selftest, "linux", Ok(()), Ok("other".into()));
    assert!(r.contains("fresh read: MISMATCH\n"));
}

#[test]
fn other_backend_selftest_and_status() {
    let r = drive(other::selftest, "macos", Ok(()), Ok("tokenguard-test".into()));
    assert_eq!(r, "set (write + read-back): OK\nfresh read: OK\n(keyring backend)");
    let r = drive(other::selftest, "macos", Ok(()), Err("locked".into()));
    assert_eq!(r, "fresh read FAILED: locked");
    assert_eq!(other::status(&KeychainRead::Missing), (false, None));
    assert_eq!(
        other::status(&KeychainRead::EntryFailed(err(KeyringErrorKind::Other, "x"))),
        (false, Some("Entry::new failed".to_string()))
    );
    assert_eq!(other::check_read_back("k", &Ok("j".into())), Err("read-back mismatch".to_string()));
    assert_eq!(other::delete_result(&Err(err(KeyringErrorKind::NoEntry, "gone"))), Ok(()));
    assert_eq!(
        other::delete_result(&Err(err(KeyringErrorKind::Other, "denied"))),
        Err("delete_credential: denied".to_string())
    );
    assert_eq!(
        other::get(KeychainRead::Missing),
        Err("get_password: No matching entry found in secure storage".to_string())
    );
}

#[test]
fn win_cred_targets_are_utf16_and_zero_terminated() {
    let t = win_cred::target("a\u{1F600}");
    let expected: Vec<u16> = "tokenguard:a\u{1F600}".encode_utf16().chain(std::iter::once(0)).collect();
    assert_eq!(t, expected);
    assert_eq!(win_cred::status(&Err("NoEntry".into())), (false, None));
    assert_eq!(win_cred::status(&Err("CredReadW failed (err 5)".into())), (false, Some("CredReadW failed (err 5)".to_string())));
    assert_eq!(win_cred::status(&Ok("k".into())), (true, None));
    let r = drive(win_cred::selftest, "windows", Ok(()), Ok("tokenguard-test".into()));
    assert_eq!(r, "set (write + read-back): OK\nfresh read: OK\ndelete: OK\n(win32 Credential Manager)");
}
