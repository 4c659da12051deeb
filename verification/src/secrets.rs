//! Rules of the OS keychain secret store: which backend to expect, how its
//! failures are reported, the environment-variable fallback, and the
//! self-test report. The keychain calls themselves are made by the caller,
//! which hands their outcomes in.

use vstd::prelude::*;
use crate::text::{chars_of, str_eq, string_push, string_push_str};

verus! {

/// Keychain service name under which every key is stored.
pub const SERVICE: &'static str = "tokenguard";

/// Entry name used by the self-test.
pub const SELFTEST_NAME: &'static str = "__tokenguard_selftest__";

/// Value written and read back by the self-test.
pub const SELFTEST_VALUE: &'static str = "tokenguard-test";

/// The keychain backend expected on an operating system.
pub open spec fn expected_backend_spec(os: Seq<char>) -> Seq<char> {
    if os == "windows"@ {
        "Windows Credential Manager"@
    } else if os == "macos"@ {
        "macOS Keychain"@
    } else {
        "Linux Secret Service (D-Bus)"@
    }
}

/// The keychain backend expected on `os` (as `std::env::consts::OS` names it).
pub fn expected_backend(os: &str) -> (r: &'static str)
    ensures
        r@ == expected_backend_spec(os@),
{
    if str_eq(os, "windows") {
        "Windows Credential Manager"
    } else if str_eq(os, "macos") {
        "macOS Keychain"
    } else {
        "Linux Secret Service (D-Bus)"
    }
}

/// What to check when the keychain of an operating system fails.
pub open spec fn troubleshooting_spec(os: Seq<char>) -> Seq<char> {
    if os == "windows"@ {
        "On Windows: make sure Credential Manager (the 'Credential Manager' Windows service) is running, and that you are not running inside a sandbox/container that blocks Win32 credential APIs. If you are running from WSL, the binary is Linux and needs a Linux secret-service provider instead."@
    } else if os == "macos"@ {
        "On macOS: make sure Keychain Access is available and the app has the required keychain entitlements."@
    } else {
        "On Linux/WSL: install and start a secret-service provider such as GNOME Keyring (`gnome-keyring-daemon --start --components=secrets`), KeePassXC with secret-service integration, or KWallet with the secret-service interface."@
    }
}

/// Advice for a failing keychain on `os`.
pub fn troubleshooting(os: &str) -> (r: String)
    ensures
        r@ == troubleshooting_spec(os@),
{
    if str_eq(os, "windows") {
        "On Windows: make sure Credential Manager (the 'Credential Manager' Windows service) is running, and that you are not running inside a sandbox/container that blocks Win32 credential APIs. If you are running from WSL, the binary is Linux and needs a Linux secret-service provider instead.".to_owned()
    } else if str_eq(os, "macos") {
        "On macOS: make sure Keychain Access is available and the app has the required keychain entitlements.".to_owned()
    } else {
        "On Linux/WSL: install and start a secret-service provider such as GNOME Keyring (`gnome-keyring-daemon --start --components=secrets`), KeePassXC with secret-service integration, or KWallet with the secret-service interface.".to_owned()
    }
}

/// The kind of a keychain failure, as far as the messages tell them apart.
#[derive(Clone, Copy, Debug, PartialEq, Eq, Structural)]
pub enum KeyringErrorKind {
    /// No credential is stored under the name.
    NoEntry,
    /// The platform's secure storage failed.
    PlatformFailure,
    /// Any other failure.
    Other,
}

/// A keychain failure: its kind and its message.
pub struct KeyringError {
    pub kind: KeyringErrorKind,
    pub message: String,
}

/// The advice that follows a keychain failure of this kind.
pub open spec fn failure_detail(kind: KeyringErrorKind, os: Seq<char>) -> Seq<char> {
    match kind {
        KeyringErrorKind::NoEntry => "the entry disappeared after being saved. Expected backend: "@
            + expected_backend_spec(os) + ". "@ + troubleshooting_spec(os),
        KeyringErrorKind::PlatformFailure => "OS keychain backend failure. Expected backend: "@
            + expected_backend_spec(os) + ". "@ + troubleshooting_spec(os),
        KeyringErrorKind::Other => "see https://github.com/hwchen/keyring-rs for backend requirements"@,
    }
}

/// An actionable message for a keychain failure during `context`.
pub open spec fn keyring_message(context: Seq<char>, kind: KeyringErrorKind, message: Seq<char>, os: Seq<char>) -> Seq<char> {
    context + ": "@ + message + " \u{2014} "@ + failure_detail(kind, os)
}

/// Turn a keychain failure during `context` into an actionable message.
pub fn keyring_err(context: &str, e: &KeyringError, os: &str) -> (r: String)
    ensures
        r@ == keyring_message(context@, e.kind, e.message@, os@),
{
    let mut r = context.to_owned();
    string_push_str(&mut r, ": ");
    string_push_str(&mut r, e.message.as_str());
    string_push_str(&mut r, " \u{2014} ");
    match e.kind {
        KeyringErrorKind::Other => {
            string_push_str(&mut r, "see https://github.com/hwchen/keyring-rs for backend requirements");
        },
        _ => {
            if e.kind == KeyringErrorKind::NoEntry {
                string_push_str(&mut r, "the entry disappeared after being saved. Expected backend: ");
            } else {
                string_push_str(&mut r, "OS keychain backend failure. Expected backend: ");
            }
            string_push_str(&mut r, expected_backend(os));
            string_push_str(&mut r, ". ");
            let t = troubleshooting(os);
            string_push_str(&mut r, t.as_str());
        },
    }
    r
}

/// The message the keychain crate gives when no credential is stored.
#[verifier::external_body]
fn no_entry_message() -> (r: String)
    ensures
        r@ == "No matching entry found in secure storage"@,
{
    keyring::Error::NoEntry.to_string()
}

/// The failure reported when no credential is stored under a name.
pub fn no_entry_error() -> (e: KeyringError)
    ensures
        e.kind == KeyringErrorKind::NoEntry,
        e.message@ == "No matching entry found in secure storage"@,
{
    KeyringError { kind: KeyringErrorKind::NoEntry, message: no_entry_message() }
}

/// A key may not be empty.
pub fn check_key(key: &str) -> (r: Result<(), String>)
    ensures
        r is Ok <==> key@.len() > 0,
        r matches Err(m) ==> m@ == "empty key"@,
{
    if crate::text::char_count(key) == 0 {
        Err("empty key".to_owned())
    } else {
        Ok(())
    }
}

/// The verdict on reading a key back through the entry that wrote it.
pub open spec fn same_entry_verdict(key: Seq<char>, read: Result<Seq<char>, (KeyringErrorKind, Seq<char>)>, os: Seq<char>) -> Result<(), Seq<char>> {
    match read {
        Ok(v) => if v == key { Ok(()) } else { Err("same-entry read-back mismatch"@) },
        Err((kind, msg)) => Err("same-entry read-back failed: "@
            + keyring_message("same-entry read-back"@, kind, msg, os)
            + ". The backend did not persist the credential."@),
    }
}

/// The verdict on reading a key back through a fresh entry.
pub open spec fn fresh_verdict(key: Seq<char>, read: Result<Seq<char>, (KeyringErrorKind, Seq<char>)>, os: Seq<char>) -> Result<(), Seq<char>> {
    match read {
        Ok(v) => if v == key { Ok(()) } else { Err("fresh read-back mismatch"@) },
        Err((kind, msg)) => Err(keyring_message("fresh read-back"@, kind, msg, os)),
    }
}

/// A read outcome by value.
pub open spec fn read_view(read: &Result<String, KeyringError>) -> Result<Seq<char>, (KeyringErrorKind, Seq<char>)> {
    match read {
        Ok(v) => Ok(v@),
        Err(e) => Err((e.kind, e.message@)),
    }
}

/// A unit outcome with its message by value.
pub open spec fn unit_view(r: Result<(), String>) -> Result<(), Seq<char>> {
    match r {
        Ok(()) => Ok(()),
        Err(m) => Err(m@),
    }
}

/// Judge the read-back through the entry that just stored `key`.
pub fn check_same_entry_read(key: &str, read: &Result<String, KeyringError>, os: &str) -> (r: Result<(), String>)
    ensures
        unit_view(r) == same_entry_verdict(key@, read_view(read), os@),
{
    match read {
        Ok(v) => {
            if str_eq(v.as_str(), key) {
                Ok(())
            } else {
                Err("same-entry read-back mismatch".to_owned())
            }
        },
        Err(e) => {
            let mut m = "same-entry read-back failed: ".to_owned();
            let inner = keyring_err("same-entry read-back", e, os);
            string_push_str(&mut m, inner.as_str());
            string_push_str(&mut m, ". The backend did not persist the credential.");
            Err(m)
        },
    }
}

/// Judge the read-back of `key` through a freshly opened entry.
pub fn check_fresh_read(key: &str, read: &Result<String, KeyringError>, os: &str) -> (r: Result<(), String>)
    ensures
        unit_view(r) == fresh_verdict(key@, read_view(read), os@),
{
    match read {
        Ok(v) => {
            if str_eq(v.as_str(), key) {
                Ok(())
            } else {
                Err("fresh read-back mismatch".to_owned())
            }
        },
        Err(e) => Err(keyring_err("fresh read-back", e, os)),
    }
}

// ---------------------------------------------------------------------------
// Environment fallback
// ---------------------------------------------------------------------------

/// What `str::to_uppercase` gives for a string: the Unicode upper-case
/// mapping of each character.
pub uninterp spec fn uppercase(s: Seq<char>) -> Seq<char>;

/// What `char::is_alphanumeric` says of a character.
pub uninterp spec fn alphanumeric(c: char) -> bool;

/// `str::to_uppercase`.
#[verifier::external_body]
fn to_uppercase(s: &str) -> (r: String)
    ensures
        r@ == uppercase(s@),
{
    s.to_uppercase()
}

/// `char::is_alphanumeric`.
#[verifier::external_body]
fn is_alphanumeric(c: char) -> (b: bool)
    ensures
        b == alphanumeric(c),
{
    c.is_alphanumeric()
}

/// The environment variable that may hold the key of `name`: upper-cased,
/// every character that is not alphanumeric replaced by `_`.
pub open spec fn env_var_name_spec(name: Seq<char>) -> Seq<char> {
    "TOKENGUARD_KEY_"@ + uppercase(name).map_values(|c: char| if alphanumeric(c) { c } else { '_' })
}

/// Name of the environment variable that can supply the key of `name` when
/// no keychain is available.
pub fn env_var_name(name: &str) -> (r: String)
    ensures
        r@ == env_var_name_spec(name@),
{
    let upper = to_uppercase(name);
    let v = chars_of(upper.as_str());
    let mut out = "TOKENGUARD_KEY_".to_owned();
    let mut i: usize = 0;
    while i < v.len()
        invariant
            i <= v@.len(),
            v@ == uppercase(name@),
            out@ == "TOKENGUARD_KEY_"@ + v@.subrange(0, i as int).map_values(|c: char| if alphanumeric(c) { c } else { '_' }),
        decreases v.len() - i,
    {
        let c = v[i];
        if is_alphanumeric(c) {
            string_push(&mut out, c);
        } else {
            string_push(&mut out, '_');
        }
        i = i + 1;
        assert(out@ =~= "TOKENGUARD_KEY_"@ + v@.subrange(0, i as int).map_values(|c: char| if alphanumeric(c) { c } else { '_' }));
    }
    assert(v@.subrange(0, v@.len() as int) =~= v@);
    out
}

// ---------------------------------------------------------------------------
// Reading a key
// ---------------------------------------------------------------------------

/// How reading a key from the keychain went.
pub enum KeychainRead {
    /// The keychain entry could not be opened.
    EntryFailed(KeyringError),
    /// The key was found.
    Found(String),
    /// No key is stored under the name.
    Missing,
    /// The entry opened but reading it failed otherwise.
    ReadFailed(KeyringError),
}

/// The stored key, falling back to the environment variable; absence is
/// `Ok(None)`, a keychain failure with no fallback is an error.
pub open spec fn lookup_spec(read: KeychainRead, env_key: Option<Seq<char>>, os: Seq<char>) -> Result<Option<Seq<char>>, Seq<char>> {
    match read {
        KeychainRead::EntryFailed(e) => match env_key {
            Some(k) => Ok(Some(k)),
            None => Err(keyring_message("Entry::new"@, e.kind, e.message@, os)),
        },
        KeychainRead::Found(k) => Ok(Some(k@)),
        KeychainRead::Missing => Ok(env_key),
        KeychainRead::ReadFailed(e) => match env_key {
            Some(k) => Ok(Some(k)),
            None => Err(keyring_message("get_password"@, e.kind, e.message@, os)),
        },
    }
}

/// An optional key with its message by value.
pub open spec fn opt_key_view(r: Result<Option<String>, String>) -> Result<Option<Seq<char>>, Seq<char>> {
    match r {
        Ok(Some(k)) => Ok(Some(k@)),
        Ok(None) => Ok(None),
        Err(m) => Err(m@),
    }
}

/// An optional string by value.
pub open spec fn opt_view(o: Option<String>) -> Option<Seq<char>> {
    match o {
        Some(s) => Some(s@),
        None => None,
    }
}

/// The key of an entry, given how reading the keychain went and what the
/// environment variable holds. "No key stored yet" is `Ok(None)`.
pub fn get_optional(read: KeychainRead, env_key: Option<String>, os: &str) -> (r: Result<Option<String>, String>)
    ensures
        opt_key_view(r) == lookup_spec(read, opt_view(env_key), os@),
{
    match read {
        KeychainRead::EntryFailed(e) => match env_key {
            Some(k) => Ok(Some(k)),
            None => Err(keyring_err("Entry::new", &e, os)),
        },
        KeychainRead::Found(k) => Ok(Some(k)),
        KeychainRead::Missing => Ok(env_key),
        KeychainRead::ReadFailed(e) => match env_key {
            Some(k) => Ok(Some(k)),
            None => Err(keyring_err("get_password", &e, os)),
        },
    }
}

/// A key with its message by value.
pub open spec fn key_view(r: Result<String, String>) -> Result<Seq<char>, Seq<char>> {
    match r {
        Ok(k) => Ok(k@),
        Err(m) => Err(m@),
    }
}

/// The key of an entry; its absence is an error too.
pub fn get(read: KeychainRead, env_key: Option<String>, os: &str) -> (r: Result<String, String>)
    ensures
        key_view(r) == match lookup_spec(read, opt_view(env_key), os@) {
            Ok(Some(k)) => Ok(k),
            Ok(None) => Err(keyring_message("get_password"@, KeyringErrorKind::NoEntry,
                "No matching entry found in secure storage"@, os@)),
            Err(m) => Err(m),
        },
{
    match get_optional(read, env_key, os) {
        Ok(Some(k)) => Ok(k),
        Ok(None) => {
            let e = no_entry_error();
            Err(keyring_err("get_password", &e, os))
        },
        Err(m) => Err(m),
    }
}

/// Whether a key is present and, if the keychain failed with no fallback,
/// the message. "No key yet" is not an error; a key supplied through the
/// environment counts as present.
pub open spec fn status_spec(read: KeychainRead, env_present: bool, os: Seq<char>) -> (bool, Option<Seq<char>>) {
    match read {
        KeychainRead::Found(_) => (true, None),
        KeychainRead::ReadFailed(e) => if env_present {
            (true, None)
        } else {
            (false, Some(keyring_message("status"@, e.kind, e.message@, os)))
        },
        _ => (env_present, None),
    }
}

/// Key presence and error, given how reading the keychain went and whether
/// the environment variable is set.
pub fn status(read: &KeychainRead, env_present: bool, os: &str) -> (r: (bool, Option<String>))
    ensures
        (r.0, opt_view(r.1)) == status_spec(*read, env_present, os@),
{
    match read {
        KeychainRead::Found(_) => (true, None),
        KeychainRead::ReadFailed(e) => {
            if env_present {
                (true, None)
            } else {
                (false, Some(keyring_err("status", e, os)))
            }
        },
        _ => (env_present, None),
    }
}

// ---------------------------------------------------------------------------
// Self-test
// ---------------------------------------------------------------------------

/// What the self-test caller reports back after each step.
pub enum SelftestEvent {
    /// The test begins on this operating system.
    Started { os: String },
    /// The test key was stored (or storing failed with this message).
    Stored(Result<(), String>),
    /// The test key was read back (or reading failed with this message).
    Read(Result<String, String>),
    /// The test key was deleted (or deleting failed with this message).
    Deleted(Result<(), String>),
}

/// What the self-test caller does next.
#[derive(Clone, Copy, Debug, PartialEq, Eq, Structural)]
pub enum SelftestAction {
    /// Store `SELFTEST_VALUE` under `SELFTEST_NAME`.
    Store,
    /// Read the key stored under `SELFTEST_NAME`.
    Read,
    /// Delete the key stored under `SELFTEST_NAME`.
    Delete,
    /// The report is complete.
    Finish,
}

/// The first lines of the report.
pub open spec fn selftest_header(os: Seq<char>) -> Seq<char> {
    "OS: "@ + os + "\nexpected backend: "@ + expected_backend_spec(os) + "\nservice: tokenguard\nusername: __tokenguard_selftest__\n"@
}

/// The line that judges the value read back.
pub open spec fn fresh_read_line(v: Seq<char>) -> Seq<char> {
    "fresh read: "@ + (if v == "tokenguard-test"@ { "OK"@ } else { "MISMATCH"@ }) + "\n"@
}

/// The report and the next action after an event.
pub open spec fn selftest_step(report: Seq<char>, event: SelftestEvent) -> (Seq<char>, SelftestAction) {
    match event {
        SelftestEvent::Started { os } => (selftest_header(os@), SelftestAction::Store),
        SelftestEvent::Stored(Ok(())) => (report + "set (write + same-entry + fresh-read-back): OK\n"@, SelftestAction::Read),
        SelftestEvent::Stored(Err(e)) => (report + "set FAILED: "@ + e@, SelftestAction::Finish),
        SelftestEvent::Read(Ok(v)) => (report + fresh_read_line(v@), SelftestAction::Delete),
        SelftestEvent::Read(Err(e)) => (report + "fresh read FAILED: "@ + e@, SelftestAction::Finish),
        SelftestEvent::Deleted(_) => (report + "(keyring-rs backend)"@, SelftestAction::Finish),
    }
}

pub(crate) fn push_fresh_read_line(report: &mut String, v: &str)
    ensures
        final(report)@ == old(report)@ + fresh_read_line(v@),
{
    string_push_str(report, "fresh read: ");
    if str_eq(v, "tokenguard-test") {
        string_push_str(report, "OK");
    } else {
        string_push_str(report, "MISMATCH");
    }
    string_push_str(report, "\n");
}

/// One step of the keychain self-test: the caller starts with an empty
/// report and `Started`, performs each action it is given on the keychain,
/// reports the outcome, and stops at `Finish` with the complete report. A
/// delete failure does not fail the test.
pub fn selftest(report: &mut String, event: SelftestEvent) -> (a: SelftestAction)
    ensures
        (final(report)@, a) == selftest_step(old(report)@, event),
{
    match event {
        SelftestEvent::Started { os } => {
            let mut r = "OS: ".to_owned();
            string_push_str(&mut r, os.as_str());
            string_push_str(&mut r, "\nexpected backend: ");
            string_push_str(&mut r, expected_backend(os.as_str()));
            string_push_str(&mut r, "\nservice: tokenguard\nusername: __tokenguard_selftest__\n");
            *report = r;
            SelftestAction::Store
        },
        SelftestEvent::Stored(Ok(())) => {
            string_push_str(report, "set (write + same-entry + fresh-read-back): OK\n");
            SelftestAction::Read
        },
        SelftestEvent::Stored(Err(e)) => {
            string_push_str(report, "set FAILED: ");
            string_push_str(report, e.as_str());
            SelftestAction::Finish
        },
        SelftestEvent::Read(Ok(v)) => {
            push_fresh_read_line(report, v.as_str());
            SelftestAction::Delete
        },
        SelftestEvent::Read(Err(e)) => {
            string_push_str(report, "fresh read FAILED: ");
            string_push_str(report, e.as_str());
            SelftestAction::Finish
        },
        SelftestEvent::Deleted(_) => {
            string_push_str(report, "(keyring-rs backend)");
            SelftestAction::Finish
        },
    }
}

} // verus!
