//! Rules of the macOS / Linux keychain backend: how its outcomes are
//! reported, and its self-test report.

use vstd::prelude::*;
use crate::secrets::{
    KeychainRead, KeyringError, KeyringErrorKind, SelftestAction, SelftestEvent, no_entry_error, opt_view,
    key_view, unit_view, fresh_read_line, push_fresh_read_line,
};
use crate::text::{str_eq, string_push_str};

verus! {

/// The verdict on reading a just-stored key back.
pub open spec fn read_back_verdict(key: Seq<char>, read: Result<Seq<char>, Seq<char>>) -> Result<(), Seq<char>> {
    match read {
        Ok(v) => if v == key { Ok(()) } else { Err("read-back mismatch"@) },
        Err(e) => Err("saved but unreadable: "@ + e),
    }
}

/// Judge the read-back of a just-stored `key`; `read` holds the value read
/// or the message of the failure.
pub fn check_read_back(key: &str, read: &Result<String, String>) -> (r: Result<(), String>)
    ensures
        unit_view(r) == read_back_verdict(key@, key_view(*read)),
{
    match read {
        Ok(v) => {
            if str_eq(v.as_str(), key) {
                Ok(())
            } else {
                Err("read-back mismatch".to_owned())
            }
        },
        Err(e) => {
            let mut m = "saved but unreadable: ".to_owned();
            string_push_str(&mut m, e.as_str());
            Err(m)
        },
    }
}

/// `prefix` followed by a failure's message.
fn prefixed(prefix: &str, e: &KeyringError) -> (r: String)
    ensures
        r@ == prefix@ + e.message@,
{
    let mut m = prefix.to_owned();
    string_push_str(&mut m, e.message.as_str());
    m
}

/// The key read from the keychain, or why it could not be.
pub open spec fn get_spec(read: KeychainRead) -> Result<Seq<char>, Seq<char>> {
    match read {
        KeychainRead::EntryFailed(e) => Err("Entry::new: "@ + e.message@),
        KeychainRead::Found(k) => Ok(k@),
        KeychainRead::Missing => Err("get_password: "@ + "No matching entry found in secure storage"@),
        KeychainRead::ReadFailed(e) => Err("get_password: "@ + e.message@),
    }
}

/// The key, given how reading the keychain went.
pub fn get(read: KeychainRead) -> (r: Result<String, String>)
    ensures
        key_view(r) == get_spec(read),
{
    match read {
        KeychainRead::EntryFailed(e) => Err(prefixed("Entry::new: ", &e)),
        KeychainRead::Found(k) => Ok(k),
        KeychainRead::Missing => Err(prefixed("get_password: ", &no_entry_error())),
        KeychainRead::ReadFailed(e) => Err(prefixed("get_password: ", &e)),
    }
}

/// Whether a key is present, and the failure if reading it failed.
pub open spec fn status_spec(read: KeychainRead) -> (bool, Option<Seq<char>>) {
    match read {
        KeychainRead::EntryFailed(_) => (false, Some("Entry::new failed"@)),
        KeychainRead::Found(_) => (true, None),
        KeychainRead::Missing => (false, None),
        KeychainRead::ReadFailed(e) => (false, Some(e.message@)),
    }
}

/// Key presence and error. "No key yet" is the normal state, not an error.
pub fn status(read: &KeychainRead) -> (r: (bool, Option<String>))
    ensures
        (r.0, opt_view(r.1)) == status_spec(*read),
{
    match read {
        KeychainRead::EntryFailed(_) => (false, Some("Entry::new failed".to_owned())),
        KeychainRead::Found(_) => (true, None),
        KeychainRead::Missing => (false, None),
        KeychainRead::ReadFailed(e) => (false, Some(e.message.clone())),
    }
}

/// Deleting succeeds when the credential is gone, also when there was none.
pub open spec fn delete_spec(outcome: Result<(), (KeyringErrorKind, Seq<char>)>) -> Result<(), Seq<char>> {
    match outcome {
        Ok(()) => Ok(()),
        Err((KeyringErrorKind::NoEntry, _)) => Ok(()),
        Err((_, m)) => Err("delete_credential: "@ + m),
    }
}

/// A deletion outcome by value.
pub open spec fn deletion_view(outcome: &Result<(), KeyringError>) -> Result<(), (KeyringErrorKind, Seq<char>)> {
    match outcome {
        Ok(()) => Ok(()),
        Err(e) => Err((e.kind, e.message@)),
    }
}

/// The result of deleting a key, given how the keychain call went.
pub fn delete_result(outcome: &Result<(), KeyringError>) -> (r: Result<(), String>)
    ensures
        unit_view(r) == delete_spec(deletion_view(outcome)),
{
    match outcome {
        Ok(()) => Ok(()),
        Err(e) => {
            if e.kind == KeyringErrorKind::NoEntry {
                Ok(())
            } else {
                Err(prefixed("delete_credential: ", e))
            }
        },
    }
}

/// The report and the next action after an event.
pub open spec fn selftest_step(report: Seq<char>, event: SelftestEvent) -> (Seq<char>, SelftestAction) {
    match event {
        SelftestEvent::Started { .. } => (Seq::empty(), SelftestAction::Store),
        SelftestEvent::Stored(Ok(())) => (report, SelftestAction::Read),
        SelftestEvent::Stored(Err(e)) => ("set FAILED: "@ + e@, SelftestAction::Finish),
        SelftestEvent::Read(Ok(v)) => ("set (write + read-back): OK\n"@ + fresh_read_line(v@), SelftestAction::Delete),
        SelftestEvent::Read(Err(e)) => ("fresh read FAILED: "@ + e@, SelftestAction::Finish),
        SelftestEvent::Deleted(_) => (report + "(keyring backend)"@, SelftestAction::Finish),
    }
}

/// One step of the keychain self-test, driven as `secrets::selftest` is.
pub fn selftest(report: &mut String, event: SelftestEvent) -> (a: SelftestAction)
    ensures
        (final(report)@, a) == selftest_step(old(report)@, event),
{
    match event {
        SelftestEvent::Started { .. } => {
            *report = String::new();
            SelftestAction::Store
        },
        SelftestEvent::Stored(Ok(())) => SelftestAction::Read,
        SelftestEvent::Stored(Err(e)) => {
            let mut r = "set FAILED: ".to_owned();
            string_push_str(&mut r, e.as_str());
            *report = r;
            SelftestAction::Finish
        },
        SelftestEvent::Read(Ok(v)) => {
            let mut r = "set (write + read-back): OK\n".to_owned();
            push_fresh_read_line(&mut r, v.as_str());
            *report = r;
            SelftestAction::Delete
        },
        SelftestEvent::Read(Err(e)) => {
            let mut r = "fresh read FAILED: ".to_owned();
            string_push_str(&mut r, e.as_str());
            *report = r;
            SelftestAction::Finish
        },
        SelftestEvent::Deleted(_) => {
            string_push_str(report, "(keyring backend)");
            SelftestAction::Finish
        },
    }
}

} // verus!
