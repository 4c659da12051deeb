//! Supporter licence: the licence worker's address and the device list it
//! returns.

use vstd::prelude::*;
use crate::json::{Json, JsonView, get_arr, get_bool, get_str, get_u64, lemma_views, views};
use crate::text::string_push_str;
use sha2::Digest;

verus! {

/// Base URL of the worker that issues and validates supporter codes.
pub const WORKER_BASE: &'static str = "https://tokenguard-license.qingquanshi65.workers.dev";

/// Device allowance when the worker does not say, matching the worker's own
/// default.
pub const DEFAULT_MAX_DEVICES: usize = 2;

/// A device registered against the licence.
pub struct RegisteredDevice {
    pub fingerprint: String,
    pub registered_at: String,
    pub current: bool,
}

/// The registered devices and how many the licence allows.
pub struct DeviceListDto {
    pub devices: Vec<RegisteredDevice>,
    pub max_devices: usize,
}

/// A device by value: fingerprint, registration time, and whether it is the
/// device asking.
pub open spec fn device_view(d: RegisteredDevice) -> (Seq<char>, Seq<char>, bool) {
    (d.fingerprint@, d.registered_at@, d.current)
}

/// A device entry of the worker's answer: it needs a string fingerprint and
/// a string registration time; `current` is false unless it says true.
pub open spec fn device_entry(d: JsonView) -> Option<(Seq<char>, Seq<char>, bool)> {
    match (get_str(d, "fingerprint"@), get_str(d, "registeredAt"@)) {
        (Some(f), Some(t)) => Some((f, t, match get_bool(d, "current"@) {
            Some(b) => b,
            None => false,
        })),
        _ => None,
    }
}

/// The usable device entries, in order; malformed ones are dropped.
pub open spec fn device_entries(a: Seq<JsonView>) -> Seq<(Seq<char>, Seq<char>, bool)>
    decreases a.len(),
{
    if a.len() == 0 {
        Seq::empty()
    } else {
        let rest = device_entries(a.drop_last());
        match device_entry(a.last()) {
            Some(d) => rest.push(d),
            None => rest,
        }
    }
}

/// Read the worker's `/api/license/devices` answer: the allowance defaults to
/// [`DEFAULT_MAX_DEVICES`], and an absent or mistyped device array gives no
/// devices.
pub fn parse_device_list(json: &Json) -> (r: DeviceListDto)
    ensures
        r.max_devices == match get_u64(json.view(), "maxDevices"@) {
            Some(n) => n as usize,
            None => DEFAULT_MAX_DEVICES,
        },
        r.devices@.map_values(|d: RegisteredDevice| device_view(d)) == match get_arr(json.view(), "devices"@) {
            Some(a) => device_entries(a),
            None => Seq::empty(),
        },
{
    let max_devices = match json.get_u64("maxDevices") {
        Some(n) => n as usize,
        None => DEFAULT_MAX_DEVICES,
    };
    let mut devices: Vec<RegisteredDevice> = Vec::new();
    match json.get_array("devices") {
        Some(arr) => {
            proof {
                lemma_views(arr@);
            }
            let ghost a = views(arr@);
            let mut i: usize = 0;
            assert(a.subrange(0, 0) =~= Seq::<JsonView>::empty());
            while i < arr.len()
                invariant
                    i <= arr@.len(),
                    a == views(arr@),
                    a.len() == arr@.len(),
                    forall|k: int| 0 <= k < arr@.len() ==> #[trigger] a[k] == arr@[k].view(),
                    devices@.map_values(|d: RegisteredDevice| device_view(d)) == device_entries(a.subrange(0, i as int)),
                decreases arr.len() - i,
            {
                let d = &arr[i];
                assert(a.subrange(0, i + 1).drop_last() =~= a.subrange(0, i as int));
                assert(a.subrange(0, i + 1).last() == d.view());
                match (d.get_str("fingerprint"), d.get_str("registeredAt")) {
                    (Some(f), Some(t)) => {
                        let current = match d.get_bool("current") {
                            Some(b) => b,
                            None => false,
                        };
                        let ghost before = devices@;
                        devices.push(RegisteredDevice {
                            fingerprint: f.to_owned(),
                            registered_at: t.to_owned(),
                            current,
                        });
                        assert(devices@.map_values(|d: RegisteredDevice| device_view(d)) =~= before.map_values(
                            |d: RegisteredDevice| device_view(d),
                        ).push(device_view(devices@.last())));
                    },
                    _ => {},
                }
                i = i + 1;
            }
            assert(a.subrange(0, a.len() as int) =~= a);
        },
        None => {
            assert(devices@.map_values(|d: RegisteredDevice| device_view(d)) =~= Seq::empty());
        },
    }
    DeviceListDto { devices, max_devices }
}

// ---------------------------------------------------------------------------
// Device fingerprint
// ---------------------------------------------------------------------------

/// The SHA-256 digest of some bytes, as `sha2` computes it.
pub uninterp spec fn sha256_digest(bytes: Seq<u8>) -> Seq<u8>;

/// `sha2::Sha256::digest`: the 32-byte SHA-256 digest of the input.
#[verifier::external_body]
pub(crate) fn sha256(bytes: &[u8]) -> (r: Vec<u8>)
    ensures
        r@ == sha256_digest(bytes@),
        r@.len() == 32,
{
    sha2::Sha256::digest(bytes).to_vec()
}

/// A digit of lower-case hexadecimal.
pub open spec fn hex_digit(n: int) -> char {
    if n < 10 {
        (('0' as int) + n) as char
    } else {
        (('a' as int) + n - 10) as char
    }
}

/// Bytes in lower-case hexadecimal, two digits a byte, high nibble first.
pub open spec fn hex_text(bytes: Seq<u8>) -> Seq<char>
    decreases bytes.len(),
{
    if bytes.len() == 0 {
        Seq::empty()
    } else {
        hex_text(bytes.drop_last()) + seq![hex_digit(bytes.last() as int / 16), hex_digit(bytes.last() as int % 16)]
    }
}

/// `hex::encode`: each byte as two lower-case hexadecimal digits, high
/// nibble first.
#[verifier::external_body]
pub(crate) fn hex_encode(bytes: &[u8]) -> (r: String)
    ensures
        r@ == hex_text(bytes@),
{
    hex::encode(bytes)
}

/// What a device fingerprint is computed from: host name, user name and
/// operating system, joined by `|`.
pub open spec fn fingerprint_input(hostname: Seq<char>, username: Seq<char>, os: Seq<char>) -> Seq<char> {
    hostname + "|"@ + username + "|"@ + os
}

/// The fingerprint of a device: the SHA-256 of its UTF-8 input, in hex.
pub open spec fn fingerprint_spec(hostname: Seq<char>, username: Seq<char>, os: Seq<char>) -> Seq<char> {
    hex_text(sha256_digest(vstd::utf8::encode_utf8(fingerprint_input(hostname, username, os))))
}

proof fn lemma_hex_text_len(bytes: Seq<u8>)
    ensures
        hex_text(bytes).len() == 2 * bytes.len(),
        forall|i: int| 0 <= i < hex_text(bytes).len() ==> is_hex_digit(#[trigger] hex_text(bytes)[i]),
    decreases bytes.len(),
{
    if bytes.len() > 0 {
        lemma_hex_text_len(bytes.drop_last());
        let b = bytes.last();
        assert(0 <= b / 16 < 16);
        assert(0 <= b % 16 < 16);
        let prev = hex_text(bytes.drop_last());
        assert forall|i: int| 0 <= i < hex_text(bytes).len() implies is_hex_digit(#[trigger] hex_text(bytes)[i]) by {
            if i >= prev.len() {
                let n = if i == prev.len() { b / 16 } else { b % 16 };
                assert(hex_text(bytes)[i] == hex_digit(n as int));
            } else {
                assert(hex_text(bytes)[i] == prev[i]);
            }
        }
    }
}

/// A lower-case hexadecimal digit.
pub open spec fn is_hex_digit(c: char) -> bool {
    ('0' <= c && c <= '9') || ('a' <= c && c <= 'f')
}

/// The SHA-256 of a text's UTF-8 bytes, as 64 lower-case hex digits.
pub fn sha256_hex(input: &str) -> (r: String)
    ensures
        r@ == hex_text(sha256_digest(vstd::utf8::encode_utf8(input@))),
        r@.len() == 64,
        forall|i: int| 0 <= i < r@.len() ==> is_hex_digit(#[trigger] r@[i]),
{
    let digest = sha256(input.as_bytes());
    let r = hex_encode(digest.as_slice());
    proof {
        lemma_hex_text_len(digest@);
    }
    r
}

/// A stable per-device identity, that names neither the host nor the user:
/// the SHA-256 of `hostname|username|os`, as 64 lower-case hex digits.
pub fn device_fingerprint(hostname: &str, username: &str, os: &str) -> (r: String)
    ensures
        r@ == fingerprint_spec(hostname@, username@, os@),
        r@.len() == 64,
        forall|i: int| 0 <= i < r@.len() ==> is_hex_digit(#[trigger] r@[i]),
{
    let mut input = hostname.to_owned();
    string_push_str(&mut input, "|");
    string_push_str(&mut input, username);
    string_push_str(&mut input, "|");
    string_push_str(&mut input, os);
    assert(input@ == fingerprint_input(hostname@, username@, os@));
    sha256_hex(input.as_str())
}

/// The fingerprint the command line registers: the SHA-256 of
/// `hostname-username`, in hex.
pub fn cli_device_fingerprint(hostname: &str, username: &str) -> (r: String)
    ensures
        r@ == hex_text(sha256_digest(vstd::utf8::encode_utf8(hostname@ + "-"@ + username@))),
        r@.len() == 64,
{
    let mut input = hostname.to_owned();
    string_push_str(&mut input, "-");
    string_push_str(&mut input, username);
    sha256_hex(input.as_str())
}

} // verus!
