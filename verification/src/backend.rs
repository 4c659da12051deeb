//! Startup helpers: database restore scheduling and CSV export fields.

use vstd::prelude::*;
use crate::text::{
    char_from_digit, chars_of, decimal_string, digit_char, has_char, has_char_exec, string_push,
    string_push_str, u128_to_decimal,
};

verus! {

/// Path of the marker file that schedules a database restore on next boot:
/// the database path with `.restore-pending` appended.
pub fn restore_marker_path(db_path: &str) -> (r: String)
    ensures
        r@ == db_path@ + ".restore-pending"@,
{
    let mut s = db_path.to_owned();
    string_push_str(&mut s, ".restore-pending");
    s
}

/// `s` with every `"` doubled.
pub open spec fn double_quotes(s: Seq<char>) -> Seq<char>
    decreases s.len(),
{
    if s.len() == 0 {
        Seq::empty()
    } else {
        double_quotes(s.drop_last()) + if s.last() == '"' { seq!['"', '"'] } else { seq![s.last()] }
    }
}

/// A CSV field: quoted, with inner quotes doubled, when it holds a comma, a
/// quote or a newline; as is otherwise.
pub open spec fn csv_escape_spec(s: Seq<char>) -> Seq<char> {
    if has_char(s, ',') || has_char(s, '"') || has_char(s, '\n') {
        seq!['"'] + double_quotes(s) + seq!['"']
    } else {
        s
    }
}

/// Escape one CSV field.
pub fn csv_escape(s: &str) -> (r: String)
    ensures
        r@ == csv_escape_spec(s@),
{
    let v = chars_of(s);
    if has_char_exec(&v, ',') || has_char_exec(&v, '"') || has_char_exec(&v, '\n') {
        let mut out = String::new();
        string_push(&mut out, '"');
        let mut i: usize = 0;
        while i < v.len()
            invariant
                i <= v@.len(),
                out@ == seq!['"'] + double_quotes(v@.subrange(0, i as int)),
            decreases v.len() - i,
        {
            assert(v@.subrange(0, i + 1).drop_last() =~= v@.subrange(0, i as int));
            if v[i] == '"' {
                string_push(&mut out, '"');
                string_push(&mut out, '"');
            } else {
                string_push(&mut out, v[i]);
            }
            i = i + 1;
            assert(out@ =~= seq!['"'] + double_quotes(v@.subrange(0, i as int)));
        }
        string_push(&mut out, '"');
        assert(v@.subrange(0, v@.len() as int) =~= v@);
        out
    } else {
        s.to_owned()
    }
}

/// Milliseconds in a day.
pub const DAY_MS: i64 = 86_400_000;

/// Whether the scheduled export is due: it is enabled (an interval of at
/// least a day, and a folder that is set and exists) and it never ran or
/// its interval has passed since it last did (`last_ms`, `now_ms` in
/// milliseconds since the epoch).
pub fn is_auto_export_due(days: u32, folder: Option<&str>, folder_exists: bool, last_ms: Option<i64>, now_ms: i64) -> (b: bool)
    ensures
        b == (days > 0 && (folder matches Some(f) && f@.len() > 0) && folder_exists && match last_ms {
            Some(t) => now_ms - t >= days * DAY_MS,
            None => true,
        }),
{
    if days == 0 {
        return false;
    }
    match folder {
        Some(f) => {
            if f.is_empty() {
                return false;
            }
        },
        None => return false,
    }
    if !folder_exists {
        return false;
    }
    match last_ms {
        Some(t) => {
            let d = days as i128;
            assert(0 <= d * 86_400_000 <= 4_294_967_295 * 86_400_000) by (nonlinear_arith)
                requires
                    0 <= d <= 4_294_967_295,
            ;
            let interval: i128 = d * 86_400_000;
            (now_ms as i128) - (t as i128) >= interval
        },
        None => true,
    }
}

// ---------------------------------------------------------------------------
// The stored export time
// ---------------------------------------------------------------------------

/// The instant an RFC 3339 text names, in milliseconds since the Unix epoch
/// (UTC), as `chrono::DateTime::parse_from_rfc3339` reads it; none when the
/// text is not RFC 3339.
pub uninterp spec fn rfc3339_utc_ms(text: Seq<char>) -> Option<int>;

/// `chrono::DateTime::parse_from_rfc3339`, as milliseconds since the epoch,
/// or chrono's message when the text is not RFC 3339. The wording of that
/// message is chrono's and is not stated.
#[verifier::external_body]
fn parse_rfc3339_ms(text: &str) -> (r: Result<i64, String>)
    ensures
        match r {
            Ok(ms) => rfc3339_utc_ms(text@) == Some(ms as int),
            Err(_) => rfc3339_utc_ms(text@) is None,
        },
{
    chrono::DateTime::parse_from_rfc3339(text).map(|dt| dt.timestamp_millis()).map_err(|e| e.to_string())
}

/// Read the stored time of the last scheduled export: its milliseconds
/// since the epoch, or an error when the text is not RFC 3339.
pub fn parse_export_stamp(text: &str) -> (r: Result<i64, String>)
    ensures
        (r is Ok) <==> rfc3339_utc_ms(text@) is Some,
        r matches Ok(ms) ==> ms == rfc3339_utc_ms(text@)->0,
{
    parse_rfc3339_ms(text)
}

/// Whether the scheduled export is due, from the stored setting: not when
/// the export is off (no interval, no folder, or a folder that does not
/// exist); else due when no export was stamped yet, and otherwise by the
/// stamp, which must be RFC 3339 (an error when it is not).
pub fn is_export_due_from_setting(
    days: u32,
    folder: Option<&str>,
    folder_exists: bool,
    stamp: Option<&str>,
    now_ms: i64,
) -> (r: Result<bool, String>)
    ensures
        !(days > 0 && (folder matches Some(f) && f@.len() > 0) && folder_exists) ==> r == Ok::<bool, String>(false),
        (days > 0 && (folder matches Some(f) && f@.len() > 0) && folder_exists) ==> match stamp {
            None => r == Ok::<bool, String>(true),
            Some(t) => match rfc3339_utc_ms(t@) {
                Some(ms) => r == Ok::<bool, String>(now_ms - ms >= days * DAY_MS),
                None => r is Err,
            },
        },
{
    let enabled = days > 0 && match folder {
        Some(f) => !f.is_empty(),
        None => false,
    } && folder_exists;
    if !enabled {
        return Ok(false);
    }
    match stamp {
        None => Ok(true),
        Some(t) => match parse_export_stamp(t) {
            Ok(ms) => Ok(is_auto_export_due(days, folder, folder_exists, Some(ms), now_ms)),
            Err(e) => Err(e),
        },
    }
}

/// The folder an export is written to: the configured one, or an error when
/// none is set (an empty path counts as none), so nothing is written to a
/// default place.
pub fn export_folder(folder: Option<&str>) -> (r: Result<String, String>)
    ensures
        match folder {
            Some(f) if f@.len() > 0 => r matches Ok(p) && p@ == f@,
            _ => r matches Err(e) && e@ == "auto export folder not set"@,
        },
{
    match folder {
        Some(f) => {
            if f.is_empty() {
                Err("auto export folder not set".to_owned())
            } else {
                Ok(f.to_owned())
            }
        },
        None => Err("auto export folder not set".to_owned()),
    }
}

/// How many of the newest logged requests a scheduled export writes.
pub const EXPORT_ROW_LIMIT: u64 = 100_000;

/// The text `chrono` writes for an instant (milliseconds since the epoch,
/// UTC) under the pattern `%Y%m%d-%H%M%S`; none outside chrono's range.
pub uninterp spec fn utc_compact_text(ms: int) -> Option<Seq<char>>;

/// `chrono::DateTime::from_timestamp_millis`, formatted with
/// `%Y%m%d-%H%M%S`; none for an instant chrono cannot hold.
#[verifier::external_body]
fn utc_compact(ms: i64) -> (r: Option<String>)
    ensures
        match r {
            Some(t) => utc_compact_text(ms as int) == Some(t@),
            None => utc_compact_text(ms as int) is None,
        },
{
    chrono::DateTime::from_timestamp_millis(ms).map(|dt| dt.format("%Y%m%d-%H%M%S").to_string())
}

/// The RFC 3339 text `chrono` writes for an instant (milliseconds since the
/// epoch, UTC); none outside chrono's range.
pub uninterp spec fn utc_rfc3339_text(ms: int) -> Option<Seq<char>>;

/// `chrono::DateTime::from_timestamp_millis`, written with `to_rfc3339`.
#[verifier::external_body]
fn utc_rfc3339(ms: i64) -> (r: Option<String>)
    ensures
        match r {
            Some(t) => utc_rfc3339_text(ms as int) == Some(t@),
            None => utc_rfc3339_text(ms as int) is None,
        },
{
    chrono::DateTime::from_timestamp_millis(ms).map(|dt| dt.to_rfc3339())
}

/// What a scheduled export run at `now_ms` writes: the file name
/// (`tokenguard-usage-` and the UTC time as `%Y%m%d-%H%M%S`, `.csv`) and the
/// stamp stored afterwards (the RFC 3339 time); none for an instant chrono
/// cannot hold.
pub fn export_run_names(now_ms: i64) -> (r: Option<(String, String)>)
    ensures
        match (utc_compact_text(now_ms as int), utc_rfc3339_text(now_ms as int)) {
            (Some(c), Some(t)) => r matches Some(p) && p.0@ == "tokenguard-usage-"@ + c + ".csv"@ && p.1@ == t,
            _ => r is None,
        },
{
    let compact = match utc_compact(now_ms) {
        Some(c) => c,
        None => return None,
    };
    let stamp = match utc_rfc3339(now_ms) {
        Some(t) => t,
        None => return None,
    };
    let mut name = "tokenguard-usage-".to_owned();
    string_push_str(&mut name, compact.as_str());
    string_push_str(&mut name, ".csv");
    Some((name, stamp))
}

// ---------------------------------------------------------------------------
// CSV exports
// ---------------------------------------------------------------------------

/// One logged request, as the exports read it. `cost` is in millionths of
/// a dollar.
pub struct LogRow {
    pub id: i64,
    pub ts: String,
    pub provider: String,
    pub model: String,
    pub prompt_tokens: u64,
    pub completion_tokens: u64,
    pub cost: u64,
    pub duration_ms: u64,
    pub status: Option<u16>,
    pub project_tag: Option<String>,
}

/// One audit event.
pub struct AuditRow {
    pub ts: String,
    pub event_type: String,
    pub details: String,
}

/// The six decimals of a fraction in millionths.
pub open spec fn six_digits(r: nat) -> Seq<char> {
    seq![
        digit_char(r / 100000 % 10), digit_char(r / 10000 % 10), digit_char(r / 1000 % 10),
        digit_char(r / 100 % 10), digit_char(r / 10 % 10), digit_char(r % 10),
    ]
}

/// A dollar amount given in millionths, with six decimals.
pub open spec fn dollars6(micro: nat) -> Seq<char> {
    decimal_string(micro / 1_000_000) + "."@ + six_digits(micro % 1_000_000)
}

fn push_dollars6(out: &mut String, micro: u64)
    ensures
        final(out)@ == old(out)@ + dollars6(micro as nat),
{
    let whole = u128_to_decimal((micro / 1_000_000) as u128);
    string_push_str(out, whole.as_str());
    string_push(out, '.');
    let r = micro % 1_000_000;
    string_push(out, char_from_digit((r / 100000 % 10) as u32));
    string_push(out, char_from_digit((r / 10000 % 10) as u32));
    string_push(out, char_from_digit((r / 1000 % 10) as u32));
    string_push(out, char_from_digit((r / 100 % 10) as u32));
    string_push(out, char_from_digit((r / 10 % 10) as u32));
    string_push(out, char_from_digit((r % 10) as u32));
    proof {
        reveal_strlit(".");
    }
    assert(final(out)@ =~= old(out)@ + dollars6(micro as nat));
}

fn push_u64(out: &mut String, n: u64)
    ensures
        final(out)@ == old(out)@ + decimal_string(n as nat),
{
    let t = u128_to_decimal(n as u128);
    string_push_str(out, t.as_str());
}

fn push_field(out: &mut String, text: &str)
    ensures
        final(out)@ == old(out)@ + csv_escape_spec(text@),
{
    let t = csv_escape(text);
    string_push_str(out, t.as_str());
}

/// An optional text, empty when absent.
pub open spec fn or_empty(o: Option<String>) -> Seq<char> {
    match o {
        Some(s) => s@,
        None => Seq::empty(),
    }
}

/// The columns every usage export starts with: time, provider, model,
/// prompt and completion tokens, and the cost in dollars with six decimals,
/// each followed by a comma.
pub open spec fn common_columns(r: LogRow) -> Seq<char> {
    r.ts@ + seq![','] + csv_escape_spec(r.provider@) + seq![','] + csv_escape_spec(r.model@) + seq![',']
        + decimal_string(r.prompt_tokens as nat) + seq![','] + decimal_string(r.completion_tokens as nat)
        + seq![','] + dollars6(r.cost as nat) + seq![',']
}

/// A row of the usage export: the common columns, then the project.
pub open spec fn usage_line(r: LogRow) -> Seq<char> {
    common_columns(r) + or_empty(r.project_tag) + seq!['\n']
}

/// A row of the detailed export: the common columns, the duration, the
/// status (empty when unknown), then the project.
pub open spec fn detailed_line(r: LogRow) -> Seq<char> {
    common_columns(r) + decimal_string(r.duration_ms as nat) + seq![','] + match r.status {
        Some(s) => decimal_string(s as nat),
        None => Seq::empty(),
    } + seq![','] + or_empty(r.project_tag) + seq!['\n']
}

/// A row of the audit export.
pub open spec fn audit_line(r: AuditRow) -> Seq<char> {
    r.ts@ + seq![','] + csv_escape_spec(r.event_type@) + seq![','] + csv_escape_spec(r.details@) + seq!['\n']
}

/// Rows written last first (the store lists the newest first, so the export
/// reads oldest first).
pub open spec fn reversed_lines<T>(rows: Seq<T>, line: spec_fn(T) -> Seq<char>) -> Seq<char>
    decreases rows.len(),
{
    if rows.len() == 0 {
        Seq::empty()
    } else {
        reversed_lines(rows.drop_first(), line) + line(rows[0])
    }
}

/// Rows written in order.
pub open spec fn ordered_lines<T>(rows: Seq<T>, line: spec_fn(T) -> Seq<char>) -> Seq<char>
    decreases rows.len(),
{
    if rows.len() == 0 {
        Seq::empty()
    } else {
        ordered_lines(rows.drop_last(), line) + line(rows.last())
    }
}

/// The header of the usage export.
pub open spec fn usage_header() -> Seq<char> {
    "timestamp,provider,model,prompt_tokens,completion_tokens,cost,project\n"@
}

/// The header of the detailed export.
pub open spec fn detailed_header() -> Seq<char> {
    "timestamp,provider,model,prompt_tokens,completion_tokens,cost,duration_ms,status,project\n"@
}

/// The header of the audit export.
pub open spec fn audit_header() -> Seq<char> {
    "timestamp,event_type,details\n"@
}

fn push_common_columns(out: &mut String, r: &LogRow)
    ensures
        final(out)@ == old(out)@ + common_columns(*r),
{
    let ghost o = out@;
    string_push_str(out, r.ts.as_str());
    string_push(out, ',');
    let ghost a = out@;
    assert(a == o + r.ts@ + seq![',']);
    push_field(out, r.provider.as_str());
    string_push(out, ',');
    let ghost b = out@;
    assert(b == a + csv_escape_spec(r.provider@) + seq![',']);
    push_field(out, r.model.as_str());
    string_push(out, ',');
    let ghost c = out@;
    assert(c == b + csv_escape_spec(r.model@) + seq![',']);
    push_u64(out, r.prompt_tokens);
    string_push(out, ',');
    let ghost d = out@;
    assert(d == c + decimal_string(r.prompt_tokens as nat) + seq![',']);
    push_u64(out, r.completion_tokens);
    string_push(out, ',');
    let ghost e = out@;
    assert(e == d + decimal_string(r.completion_tokens as nat) + seq![',']);
    push_dollars6(out, r.cost);
    string_push(out, ',');
    assert(out@ == e + dollars6(r.cost as nat) + seq![',']);
    assert(out@ =~= o + common_columns(*r));
}

fn push_tail(out: &mut String, r: &LogRow, detailed: bool)
    ensures
        final(out)@ == old(out)@ + if detailed {
            decimal_string(r.duration_ms as nat) + seq![','] + match r.status {
                Some(s) => decimal_string(s as nat),
                None => Seq::empty(),
            } + seq![','] + or_empty(r.project_tag) + seq!['\n']
        } else {
            or_empty(r.project_tag) + seq!['\n']
        },
{
    let ghost o = out@;
    if detailed {
        push_u64(out, r.duration_ms);
        string_push(out, ',');
        match r.status {
            Some(s) => push_u64(out, s as u64),
            None => {},
        }
        string_push(out, ',');
    }
    let ghost m = out@;
    match &r.project_tag {
        Some(p) => string_push_str(out, p.as_str()),
        None => {},
    }
    string_push(out, '\n');
    assert(out@ == m + or_empty(r.project_tag) + seq!['\n']);
    if detailed {
        assert(m =~= o + decimal_string(r.duration_ms as nat) + seq![','] + match r.status {
            Some(s) => decimal_string(s as nat),
            None => Seq::empty(),
        } + seq![',']);
    }
    assert(out@ =~= o + if detailed {
        decimal_string(r.duration_ms as nat) + seq![','] + match r.status {
            Some(s) => decimal_string(s as nat),
            None => Seq::empty(),
        } + seq![','] + or_empty(r.project_tag) + seq!['\n']
    } else {
        or_empty(r.project_tag) + seq!['\n']
    });
}

fn push_usage_line(out: &mut String, r: &LogRow, detailed: bool)
    ensures
        final(out)@ == old(out)@ + if detailed { detailed_line(*r) } else { usage_line(*r) },
{
    let ghost o = out@;
    push_common_columns(out, r);
    push_tail(out, r, detailed);
    assert(out@ =~= o + if detailed { detailed_line(*r) } else { usage_line(*r) });
}

fn push_audit_line(out: &mut String, r: &AuditRow)
    ensures
        final(out)@ == old(out)@ + audit_line(*r),
{
    let ghost o = out@;
    string_push_str(out, r.ts.as_str());
    string_push(out, ',');
    push_field(out, r.event_type.as_str());
    string_push(out, ',');
    push_field(out, r.details.as_str());
    string_push(out, '\n');
    assert(out@ =~= o + audit_line(*r));
}

/// The usage export (the app's export and the scheduled export): a header,
/// then one row a request, oldest first.
pub fn usage_csv(rows: &[LogRow], detailed: bool) -> (r: String)
    ensures
        r@ == if detailed {
            detailed_header() + reversed_lines(rows@, |x: LogRow| detailed_line(x))
        } else {
            usage_header() + reversed_lines(rows@, |x: LogRow| usage_line(x))
        },
{
    let ghost f = if detailed { |x: LogRow| detailed_line(x) } else { |x: LogRow| usage_line(x) };
    let ghost head = if detailed { detailed_header() } else { usage_header() };
    let mut out = if detailed {
        "timestamp,provider,model,prompt_tokens,completion_tokens,cost,duration_ms,status,project\n".to_owned()
    } else {
        "timestamp,provider,model,prompt_tokens,completion_tokens,cost,project\n".to_owned()
    };
    let mut i: usize = rows.len();
    assert(rows@.subrange(i as int, rows@.len() as int) =~= Seq::<LogRow>::empty());
    assert(out@ =~= head + reversed_lines(rows@.subrange(i as int, rows@.len() as int), f));
    while i > 0
        invariant
            i <= rows@.len(),
            f == if detailed { |x: LogRow| detailed_line(x) } else { |x: LogRow| usage_line(x) },
            head == if detailed { detailed_header() } else { usage_header() },
            out@ == head + reversed_lines(rows@.subrange(i as int, rows@.len() as int), f),
        decreases i,
    {
        i = i - 1;
        let ghost s = rows@.subrange(i as int, rows@.len() as int);
        assert(s.drop_first() =~= rows@.subrange(i + 1, rows@.len() as int));
        assert(s[0] == rows@[i as int]);
        push_usage_line(&mut out, &rows[i], detailed);
        assert(out@ =~= head + reversed_lines(s, f));
    }
    assert(rows@.subrange(0, rows@.len() as int) =~= rows@);
    out
}

/// The audit export: a header, then one row an event, oldest first when the
/// events come newest first (`reverse`), in the given order otherwise.
pub fn audit_csv(rows: &[AuditRow], reverse: bool) -> (r: String)
    ensures
        r@ == audit_header() + if reverse {
            reversed_lines(rows@, |x: AuditRow| audit_line(x))
        } else {
            ordered_lines(rows@, |x: AuditRow| audit_line(x))
        },
{
    let ghost f = |x: AuditRow| audit_line(x);
    let mut out = "timestamp,event_type,details\n".to_owned();
    let n = rows.len();
    let mut k: usize = 0;
    assert(rows@.subrange(n as int, n as int) =~= Seq::<AuditRow>::empty());
    assert(rows@.subrange(0, 0) =~= Seq::<AuditRow>::empty());
    while k < n
        invariant
            k <= n,
            n == rows@.len(),
            f == |x: AuditRow| audit_line(x),
            out@ == audit_header() + if reverse {
                reversed_lines(rows@.subrange(n - k, n as int), f)
            } else {
                ordered_lines(rows@.subrange(0, k as int), f)
            },
        decreases n - k,
    {
        let i = if reverse { n - 1 - k } else { k };
        push_audit_line(&mut out, &rows[i]);
        proof {
            if reverse {
                let s = rows@.subrange(n - k - 1, n as int);
                assert(s.drop_first() =~= rows@.subrange(n - k, n as int));
                assert(s[0] == rows@[i as int]);
            } else {
                let s = rows@.subrange(0, k + 1);
                assert(s.drop_last() =~= rows@.subrange(0, k as int));
                assert(s.last() == rows@[i as int]);
            }
        }
        k = k + 1;
        assert(out@ =~= audit_header() + if reverse {
            reversed_lines(rows@.subrange(n - k, n as int), f)
        } else {
            ordered_lines(rows@.subrange(0, k as int), f)
        });
    }
    assert(rows@.subrange(0, n as int) =~= rows@);
    out
}

} // verus!
