//! Rules of the Windows Credential Manager backend: credential target names,
//! how its outcomes are reported, and its self-test report.

use vstd::prelude::*;
use crate::secrets::{SelftestAction, SelftestEvent, opt_view, fresh_read_line, push_fresh_read_line};
use crate::text::{chars_of, str_eq, string_push_str};

verus! {

/// The UTF-16 code units of one character.
pub open spec fn utf16_units(c: char) -> Seq<u16> {
    let v = c as u32;
    if v < 0x10000 {
        seq![v as u16]
    } else {
        let w = (v - 0x10000) as u32;
        seq![(0xD800 + w / 0x400) as u16, (0xDC00 + w % 0x400) as u16]
    }
}

/// The UTF-16 encoding of a string.
pub open spec fn utf16(s: Seq<char>) -> Seq<u16>
    decreases s.len(),
{
    if s.len() == 0 {
        Seq::empty()
    } else {
        utf16(s.drop_last()) + utf16_units(s.last())
    }
}

/// The credential target of an entry: `tokenguard:` and the name, in UTF-16,
/// with a terminating zero.
pub open spec fn target_spec(name: Seq<char>) -> Seq<u16> {
    utf16("tokenguard:"@ + name).push(0u16)
}

/// Credential target name of an entry, UTF-16 and zero-terminated.
pub fn target(name: &str) -> (r: Vec<u16>)
    ensures
        r@ == target_spec(name@),
{
    let mut full = "tokenguard:".to_owned();
    string_push_str(&mut full, name);
    let v = chars_of(full.as_str());
    let mut out: Vec<u16> = Vec::new();
    let mut i: usize = 0;
    while i < v.len()
        invariant
            i <= v@.len(),
            out@ == utf16(v@.subrange(0, i as int)),
        decreases v.len() - i,
    {
        let c = v[i];
        let code = c as u32;
        assert(v@.subrange(0, i + 1).drop_last() =~= v@.subrange(0, i as int));
        assert(v@.subrange(0, i + 1).last() == c);
        if code < 0x10000 {
            out.push(code as u16);
        } else {
            let w = code - 0x10000;
            out.push((0xD800 + w / 0x400) as u16);
            out.push((0xDC00 + w % 0x400) as u16);
        }
        i = i + 1;
        assert(out@ =~= utf16(v@.subrange(0, i as int)));
    }
    assert(v@.subrange(0, v@.len() as int) =~= v@);
    out.push(0u16);
    out
}

/// Key presence and error after a read: "NoEntry" is the normal "no key
/// yet" state; any other failure is reported.
pub open spec fn status_spec(read: Result<Seq<char>, Seq<char>>) -> (bool, Option<Seq<char>>) {
    match read {
        Ok(_) => (true, None),
        Err(e) => if e == "NoEntry"@ { (false, None) } else { (false, Some(e)) },
    }
}

/// A read outcome by value.
pub open spec fn read_view(read: &Result<String, String>) -> Result<Seq<char>, Seq<char>> {
    match read {
        Ok(v) => Ok(v@),
        Err(e) => Err(e@),
    }
}

/// Key presence and error, given how reading the credential went.
pub fn status(read: &Result<String, String>) -> (r: (bool, Option<String>))
    ensures
        (r.0, opt_view(r.1)) == status_spec(read_view(read)),
{
    match read {
        Ok(_) => (true, None),
        Err(e) => {
            if str_eq(e.as_str(), "NoEntry") {
                (false, None)
            } else {
                (false, Some(e.clone()))
            }
        },
    }
}

/// The report and the next action after an event.
pub open spec fn selftest_step(report: Seq<char>, event: SelftestEvent) -> (Seq<char>, SelftestAction) {
    match event {
        SelftestEvent::Started { .. } => (Seq::empty(), SelftestAction::Store),
        SelftestEvent::Stored(Ok(())) => (report + "set (write + read-back): OK\n"@, SelftestAction::Read),
        SelftestEvent::Stored(Err(e)) => ("set FAILED: "@ + e@, SelftestAction::Finish),
        SelftestEvent::Read(Ok(v)) => (report + fresh_read_line(v@), SelftestAction::Delete),
        SelftestEvent::Read(Err(e)) => (report + "fresh read FAILED: "@ + e@, SelftestAction::Finish),
        SelftestEvent::Deleted(Ok(())) => (report + "delete: OK\n"@ + "(win32 Credential Manager)"@, SelftestAction::Finish),
        SelftestEvent::Deleted(Err(e)) => (report + "delete FAILED: "@ + e@ + "\n"@ + "(win32 Credential Manager)"@, SelftestAction::Finish),
    }
}

/// One step of the credential self-test, driven as `secrets::selftest` is.
pub fn selftest(report: &mut String, event: SelftestEvent) -> (a: SelftestAction)
    ensures
        (final(report)@, a) == selftest_step(old(report)@, event),
{
    match event {
        SelftestEvent::Started { .. } => {
            *report = String::new();
            SelftestAction::Store
        },
        SelftestEvent::Stored(Ok(())) => {
            string_push_str(report, "set (write + read-back): OK\n");
            SelftestAction::Read
        },
        SelftestEvent::Stored(Err(e)) => {
            let mut r = "set FAILED: ".to_owned();
            string_push_str(&mut r, e.as_str());
            *report = r;
            SelftestAction::Finish
        },
        SelftestEvent::Read(Ok(v)) => {
            push_fresh_read_line(report, v.as_str());
            SelftestAction::Delete
        },
        SelftestEvent::Read(Err(e)) => {
            string_push_str(report, "fresh read FAILED: ");
            string_push_str(report, e.as_str());
            SelftestAction::Finish
        },
        SelftestEvent::Deleted(Ok(())) => {
            string_push_str(report, "delete: OK\n");
            string_push_str(report, "(win32 Credential Manager)");
            SelftestAction::Finish
        },
        SelftestEvent::Deleted(Err(e)) => {
            string_push_str(report, "delete FAILED: ");
            string_push_str(report, e.as_str());
            string_push_str(report, "\n");
            string_push_str(report, "(win32 Credential Manager)");
            SelftestAction::Finish
        },
    }
}

} // verus!
