//! Typed Task Scheduler Operational event history: event categories, run
//! outcome confidence, and result codes.
use vstd::prelude::*;

use crate::error::{Error, ErrorKind};
use crate::path::TaskPath;
use crate::text::{chars_of, is_unicode_whitespace, is_whitespace_exec};
use vstd::string::*;

verus! {

/// Maximum rendered event XML accepted from the Event Log service.
pub const MAX_EVENT_XML_BYTES: usize = 1048576;

/// Known Task Scheduler Operational event categories.
#[derive(Clone, Copy, Debug, Eq, PartialEq, Structural)]
#[non_exhaustive]
pub enum HistoryEventKind {
    /// A task was registered or updated.
    Registered,
    /// A task was deleted.
    Deleted,
    /// A launch request was accepted.
    LaunchRequested,
    /// An instance started.
    Started,
    /// An action started.
    ActionStarted,
    /// An action completed.
    ActionCompleted,
    /// An instance completed.
    Completed,
    /// An instance was stopped.
    Stopped,
    /// A launch or action failed.
    Failed,
    /// An event id unknown to this crate.
    Unknown(u32),
}

/// Confidence attached to a run completion result.
#[derive(Clone, Copy, Debug, Eq, Hash, PartialEq, Structural)]
pub enum ResultConfidence {
    /// Correlated by instance GUID through event history.
    Exact,
    /// Inferred from registered-task polling because history was unavailable.
    PollingFallback,
}

/// Why a run result was estimated from polling instead of history.
#[derive(Clone, Copy, Debug, Eq, Hash, PartialEq, Structural)]
pub enum FallbackReason {
    /// History could not be read.
    HistoryUnavailable,
    /// History was readable but showed no completion of the instance.
    CompletionNotObserved,
}

/// One event from the Task Scheduler Operational log.
#[derive(Clone, Debug)]
pub struct HistoryEvent {
    /// Event Log record id.
    pub record_id: u64,
    /// Provider event id.
    pub event_id: u32,
    /// Typed event category.
    pub kind: HistoryEventKind,
    /// Timestamp reported by Event Log, in nanoseconds since the Unix epoch.
    pub timestamp: i128,
    /// Task path when present.
    pub task_path: Option<TaskPath>,
    /// Run instance GUID when present.
    pub instance_id: Option<u128>,
    /// Native result code when present.
    pub result_code: Option<i32>,
    /// Named event payload fields in key order, each key once, including
    /// unknown future fields.
    pub fields: Vec<(String, String)>,
    /// Rendered provider message when metadata is available.
    pub message: Option<String>,
}

/// History query filter.
#[derive(Clone, Debug)]
pub struct HistoryQuery {
    /// Task path filter.
    pub task: Option<TaskPath>,
    /// Run instance filter.
    pub instance_id: Option<u128>,
    /// Oldest allowed timestamp, in nanoseconds since the Unix epoch.
    pub since: Option<i128>,
    /// Maximum returned records.
    pub limit: Option<usize>,
    /// Reads oldest-first when true.
    pub forward: bool,
}

/// Final result observed for a task run.
#[derive(Clone, Copy, Debug, Eq, PartialEq, Structural)]
pub struct RunOutcome {
    /// Correlated instance.
    pub instance_id: u128,
    /// Native result or process exit code.
    pub result_code: i32,
    /// How confidently this result identifies the requested run.
    pub confidence: ResultConfidence,
    /// Why the result was estimated, when it was.
    pub fallback_reason: Option<FallbackReason>,
}

/// The category of a Task Scheduler event id.
pub open spec fn event_kind_spec(event_id: u32) -> HistoryEventKind {
    if event_id == 106 || event_id == 140 {
        HistoryEventKind::Registered
    } else if event_id == 141 {
        HistoryEventKind::Deleted
    } else if event_id == 107 || event_id == 110 || event_id == 118 || event_id == 119 {
        HistoryEventKind::LaunchRequested
    } else if event_id == 100 {
        HistoryEventKind::Started
    } else if event_id == 200 {
        HistoryEventKind::ActionStarted
    } else if event_id == 201 {
        HistoryEventKind::ActionCompleted
    } else if event_id == 102 {
        HistoryEventKind::Completed
    } else if event_id == 111 || event_id == 142 {
        HistoryEventKind::Stopped
    } else if event_id == 101 || event_id == 103 || event_id == 104 || event_id == 202
        || event_id == 203 || event_id == 311 {
        HistoryEventKind::Failed
    } else {
        HistoryEventKind::Unknown(event_id)
    }
}

/// Classifies a Task Scheduler event id.
pub fn event_kind(event_id: u32) -> (k: HistoryEventKind)
    ensures
        k == event_kind_spec(event_id),
{
    match event_id {
        106 | 140 => HistoryEventKind::Registered,
        141 => HistoryEventKind::Deleted,
        107 | 110 | 118 | 119 => HistoryEventKind::LaunchRequested,
        100 => HistoryEventKind::Started,
        200 => HistoryEventKind::ActionStarted,
        201 => HistoryEventKind::ActionCompleted,
        102 => HistoryEventKind::Completed,
        111 | 142 => HistoryEventKind::Stopped,
        101 | 103 | 104 | 202 | 203 | 311 => HistoryEventKind::Failed,
        other => HistoryEventKind::Unknown(other),
    }
}

/// `s` without leading and trailing Unicode whitespace.
pub open spec fn trimmed(s: Seq<char>) -> Seq<char>
    decreases s.len(),
{
    if s.len() > 0 && is_unicode_whitespace(s[0]) {
        trimmed(s.drop_first())
    } else if s.len() > 0 && is_unicode_whitespace(s.last()) {
        trimmed(s.drop_last())
    } else {
        s
    }
}

/// Value of a hexadecimal digit, or `None`.
pub open spec fn hex_value(c: char) -> Option<nat> {
    if '0' <= c <= '9' {
        Some((c as int - '0' as int) as nat)
    } else if 'a' <= c <= 'f' {
        Some((c as int - 'a' as int + 10) as nat)
    } else if 'A' <= c <= 'F' {
        Some((c as int - 'A' as int + 10) as nat)
    } else {
        None
    }
}

/// Value of hexadecimal digits, most significant first, or `None` when one
/// is not a digit.
pub open spec fn hex_number(s: Seq<char>) -> Option<nat>
    decreases s.len(),
{
    if s.len() == 0 {
        Some(0)
    } else {
        match (hex_number(s.drop_last()), hex_value(s.last())) {
            (Some(a), Some(d)) => Some(a * 16 + d),
            _ => None,
        }
    }
}

/// Value of decimal digits, most significant first, or `None` when one is
/// not a digit.
pub open spec fn dec_number(s: Seq<char>) -> Option<nat>
    decreases s.len(),
{
    if s.len() == 0 {
        Some(0)
    } else {
        match dec_number(s.drop_last()) {
            Some(a) => if '0' <= s.last() <= '9' {
                Some(a * 10 + (s.last() as int - '0' as int) as nat)
            } else {
                None
            },
            None => None,
        }
    }
}

/// What std's unsigned `from_str_radix(_, 16)` gives for a `u32`: an
/// optional `+`, then one or more hexadecimal digits, with a value that fits.
pub open spec fn hex_u32(s: Seq<char>) -> Option<nat> {
    let body = if s.len() > 0 && s[0] == '+' { s.drop_first() } else { s };
    match hex_number(body) {
        Some(v) => if body.len() > 0 && v <= u32::MAX { Some(v) } else { None },
        None => None,
    }
}

/// What std's `i64` parser gives: an optional sign, then one or more decimal
/// digits, with a value that fits.
pub open spec fn dec_i64(s: Seq<char>) -> Option<int> {
    let negative = s.len() > 0 && s[0] == '-';
    let body = if s.len() > 0 && (s[0] == '+' || s[0] == '-') { s.drop_first() } else { s };
    match dec_number(body) {
        Some(v) => {
            let value: int = if negative { -v } else { v as int };
            if body.len() > 0 && i64::MIN <= value <= i64::MAX { Some(value) } else { None }
        },
        None => None,
    }
}

/// The 32-bit two's-complement reading of an unsigned value.
pub open spec fn as_signed(v: nat) -> int {
    if v <= i32::MAX { v as int } else { v - 0x1_0000_0000 }
}

/// The result code an event field denotes, after trimming: `0x`/`0X` and
/// hexadecimal digits read as a 32-bit pattern, or a decimal integer that
/// fits `i32`, or that fits `u32` and is read as a 32-bit pattern.
pub open spec fn result_code_spec(value: Seq<char>) -> Option<int> {
    let v = trimmed(value);
    if v.len() >= 2 && v[0] == '0' && (v[1] == 'x' || v[1] == 'X') {
        match hex_u32(v.skip(2)) {
            Some(n) => Some(as_signed(n)),
            None => None,
        }
    } else {
        match dec_i64(v) {
            Some(n) => if i32::MIN <= n <= i32::MAX {
                Some(n)
            } else if 0 <= n <= u32::MAX {
                Some(as_signed(n as nat))
            } else {
                None
            },
            None => None,
        }
    }
}

proof fn lemma_trimmed_is(s: Seq<char>, a: int, b: int)
    requires
        0 <= a <= b <= s.len(),
        forall|k: int| 0 <= k < a ==> is_unicode_whitespace(#[trigger] s[k]),
        forall|k: int| b <= k < s.len() ==> is_unicode_whitespace(#[trigger] s[k]),
        a < b ==> !is_unicode_whitespace(s[a]) && !is_unicode_whitespace(s[b - 1]),
    ensures
        trimmed(s) == s.subrange(a, b),
    decreases s.len(),
{
    if s.len() > 0 && is_unicode_whitespace(s[0]) {
        assert(a > 0 || a == b);
        if a > 0 {
            assert forall|k: int| b - 1 <= k < s.len() - 1 implies is_unicode_whitespace(#[trigger] s.drop_first()[k]) by {
                assert(s.drop_first()[k] == s[k + 1]);
            }
            lemma_trimmed_is(s.drop_first(), a - 1, b - 1);
            assert(s.drop_first().subrange(a - 1, b - 1) =~= s.subrange(a, b));
        } else {
            assert forall|k: int| 0 <= k < s.len() - 1 implies is_unicode_whitespace(#[trigger] s.drop_first()[k]) by {
                assert(s.drop_first()[k] == s[k + 1]);
            }
            lemma_trimmed_is(s.drop_first(), 0, 0);
            assert(s.subrange(a, b) =~= Seq::<char>::empty());
            assert(s.drop_first().subrange(0, 0) =~= Seq::<char>::empty());
        }
    } else if s.len() > 0 && is_unicode_whitespace(s.last()) {
        assert(b < s.len());
        lemma_trimmed_is(s.drop_last(), a, b);
        assert(s.drop_last().subrange(a, b) =~= s.subrange(a, b));
    } else {
        if s.len() > 0 {
            assert(a == 0 && b == s.len());
        } else {
            assert(a == 0 && b == 0);
        }
        assert(s.subrange(a, b) =~= s);
    }
}

fn trim_exec(s: &[char]) -> (r: &[char])
    ensures
        r@ == trimmed(s@),
{
    let mut a: usize = 0;
    while a < s.len() && is_whitespace_exec(s[a])
        invariant
            a <= s.len(),
            forall|k: int| 0 <= k < a ==> is_unicode_whitespace(#[trigger] s@[k]),
        decreases s.len() - a,
    {
        a += 1;
    }
    let mut b: usize = s.len();
    while b > a && is_whitespace_exec(s[b - 1])
        invariant
            a <= b <= s.len(),
            forall|k: int| b <= k < s.len() ==> is_unicode_whitespace(#[trigger] s@[k]),
        decreases b,
    {
        b -= 1;
    }
    proof {
        lemma_trimmed_is(s@, a as int, b as int);
    }
    crate::text::slice_subrange(s, a, b)
}

fn hex_u32_exec(s: &[char]) -> (r: Option<u32>)
    ensures
        match r {
            Some(v) => hex_u32(s@) == Some(v as nat),
            None => hex_u32(s@) is None,
        },
{
    let start: usize = if s.len() > 0 && s[0] == '+' { 1 } else { 0 };
    let body = crate::text::slice_from(s, start);
    proof {
        if start == 1 {
            assert(body@ =~= s@.drop_first());
        } else {
            assert(body@ =~= s@);
        }
    }
    if body.len() == 0 {
        return None;
    }
    let mut value: u64 = 0;
    let mut i: usize = 0;
    while i < body.len()
        invariant
            i <= body.len(),
            body@.len() > 0,
            value <= u32::MAX,
            hex_number(body@.take(i as int)) == Some(value as nat),
            hex_u32(s@) == (match hex_number(body@) {
                Some(v) => if v <= u32::MAX { Some(v) } else { None },
                None => None,
            }),
        decreases body.len() - i,
    {
        let c = body[i];
        let d: u64 = if c >= '0' && c <= '9' {
            (c as u64) - ('0' as u64)
        } else if c >= 'a' && c <= 'f' {
            (c as u64) - ('a' as u64) + 10
        } else if c >= 'A' && c <= 'F' {
            (c as u64) - ('A' as u64) + 10
        } else {
            proof {
                assert(body@.take(i + 1).drop_last() =~= body@.take(i as int));
                lemma_hex_prefix(body@, i as int + 1);
            }
            return None;
        };
        proof {
            assert(body@.take(i + 1).drop_last() =~= body@.take(i as int));
            assert(body@.take(i + 1).last() == c);
        }
        value = value * 16 + d;
        i += 1;
        if value > u32::MAX as u64 {
            proof {
                lemma_hex_prefix(body@, i as int);
            }
            return None;
        }
    }
    proof {
        assert(body@.take(i as int) =~= body@);
    }
    Some(value as u32)
}

proof fn lemma_hex_prefix(s: Seq<char>, i: int)
    requires
        0 < i <= s.len(),
    ensures
        hex_number(s.take(i)) is None ==> hex_number(s) is None,
        (hex_number(s.take(i)) matches Some(v) && v > u32::MAX) ==> (hex_number(s) matches Some(w)
            ==> w > u32::MAX),
    decreases s.len() - i,
{
    if i < s.len() {
        assert(s.take(i + 1).drop_last() =~= s.take(i));
        lemma_hex_prefix(s, i + 1);
    } else {
        assert(s.take(i) =~= s);
    }
}


proof fn lemma_dec_prefix(s: Seq<char>, i: int, bound: nat)
    requires
        0 < i <= s.len(),
    ensures
        dec_number(s.take(i)) is None ==> dec_number(s) is None,
        (dec_number(s.take(i)) matches Some(v) && v > bound) ==> (dec_number(s) matches Some(w)
            ==> w > bound),
    decreases s.len() - i,
{
    if i < s.len() {
        assert(s.take(i + 1).drop_last() =~= s.take(i));
        lemma_dec_prefix(s, i + 1, bound);
    } else {
        assert(s.take(i) =~= s);
    }
}

fn dec_i64_exec(s: &[char]) -> (r: Option<i64>)
    ensures
        match r {
            Some(v) => dec_i64(s@) == Some(v as int),
            None => dec_i64(s@) is None,
        },
{
    let negative = s.len() > 0 && s[0] == '-';
    let start: usize = if s.len() > 0 && (s[0] == '+' || s[0] == '-') { 1 } else { 0 };
    let body = crate::text::slice_from(s, start);
    proof {
        if start == 1 {
            assert(body@ =~= s@.drop_first());
        } else {
            assert(body@ =~= s@);
        }
    }
    if body.len() == 0 {
        return None;
    }
    let limit: u64 = 0x8000_0000_0000_0000;
    let mut value: u64 = 0;
    let mut i: usize = 0;
    while i < body.len()
        invariant
            i <= body.len(),
            body@.len() > 0,
            limit == 0x8000_0000_0000_0000u64,
            value <= limit,
            dec_number(body@.take(i as int)) == Some(value as nat),
            dec_i64(s@) == (match dec_number(body@) {
                Some(v) => {
                    let value: int = if negative { -v } else { v as int };
                    if i64::MIN <= value <= i64::MAX { Some(value) } else { None }
                },
                None => None,
            }),
        decreases body.len() - i,
    {
        let c = body[i];
        proof {
            assert(body@.take(i + 1).drop_last() =~= body@.take(i as int));
            assert(body@.take(i + 1).last() == c);
        }
        if !(c >= '0' && c <= '9') {
            proof {
                lemma_dec_prefix(body@, i as int + 1, limit as nat);
            }
            return None;
        }
        let d: u64 = (c as u64) - ('0' as u64);
        if value > (limit - d) / 10 {
            proof {
                assert(value * 10 + d > limit) by (nonlinear_arith)
                    requires value > (limit - d) / 10, d <= 9, limit >= 9;
                lemma_dec_prefix(body@, i as int + 1, limit as nat);
            }
            return None;
        }
        proof {
            assert(value * 10 + d <= limit) by (nonlinear_arith)
                requires value <= (limit - d) / 10, d <= 9, limit >= 9;
        }
        value = value * 10 + d;
        i += 1;
    }
    proof {
        assert(body@.take(i as int) =~= body@);
    }
    if negative {
        let v: i128 = -(value as i128);
        Some(v as i64)
    } else if value <= 0x7FFF_FFFF_FFFF_FFFF {
        Some(value as i64)
    } else {
        None
    }
}

/// Reads a result code from an event field, as [`result_code_spec`] describes.
pub fn parse_result_code(value: &str) -> (r: Result<i32, Error>)
    ensures
        match r {
            Ok(c) => result_code_spec(value@) == Some(c as int),
            Err(e) => result_code_spec(value@) is None && e@.kind == ErrorKind::Xml,
        },
{
    let chars = chars_of(value);
    let v = trim_exec(chars.as_slice());
    if v.len() >= 2 && v[0] == '0' && (v[1] == 'x' || v[1] == 'X') {
        let hex = crate::text::slice_from(v, 2);
        proof {
            assert(hex@ =~= v@.skip(2));
        }
        return match hex_u32_exec(hex) {
            Some(n) => {
                let code: i32 = if n <= 0x7FFF_FFFF {
                    n as i32
                } else {
                    ((n as i64) - 0x1_0000_0000i64) as i32
                };
                Ok(code)
            },
            None => Err(history_error("invalid result code")),
        };
    }
    match dec_i64_exec(v) {
        Some(n) => if n >= -0x8000_0000 && n <= 0x7FFF_FFFF {
            Ok(n as i32)
        } else if n >= 0 && n <= 0xFFFF_FFFF {
            Ok((n - 0x1_0000_0000i64) as i32)
        } else {
            Err(history_error("result code is out of range"))
        },
        None => Err(history_error("invalid result code")),
    }
}

/// A failure to read a history event.
fn history_error(message: &str) -> (e: Error)
    ensures
        e@.kind == ErrorKind::Xml,
        e@.message == message@,
        e@.operation == Some("parse Task Scheduler history event"@),
{
    Error::new(ErrorKind::Xml, message).with_operation("parse Task Scheduler history event")
}


/// What `jiff::Timestamp::from_str` reads from a text, as nanoseconds
/// since the Unix epoch, or `None` when the text is not an RFC 3339
/// timestamp that jiff accepts.
pub uninterp spec fn jiff_timestamp_nanos(text: Seq<char>) -> Option<i128>;

/// `jiff::Timestamp::from_str`, then `Timestamp::as_nanosecond`.
#[verifier::external_body]
fn timestamp_nanos(text: &str) -> (r: Result<i128, String>)
    ensures
        match r {
            Ok(n) => jiff_timestamp_nanos(text@) == Some(n),
            Err(_) => jiff_timestamp_nanos(text@) is None,
        },
{
    match text.parse::<jiff::Timestamp>() {
        Ok(timestamp) => Ok(timestamp.as_nanosecond()),
        Err(error) => Err(error.to_string()),
    }
}

/// What `uuid::Uuid::parse_str` reads from a text, as its 128-bit value,
/// or `None` when the text is not a GUID form that uuid accepts.
pub uninterp spec fn uuid_parsed(text: Seq<char>) -> Option<u128>;

/// `uuid::Uuid::parse_str`, then `Uuid::as_u128`.
#[verifier::external_body]
pub(crate) fn parse_uuid_text(text: &str) -> (r: Result<u128, String>)
    ensures
        match r {
            Ok(n) => uuid_parsed(text@) == Some(n),
            Err(_) => uuid_parsed(text@) is None,
        },
{
    match uuid::Uuid::parse_str(text) {
        Ok(id) => Ok(id.as_u128()),
        Err(error) => Err(error.to_string()),
    }
}

/// Reads an event timestamp as nanoseconds since the Unix epoch.
pub fn parse_system_time(value: &str) -> (r: Result<i128, Error>)
    ensures
        match r {
            Ok(n) => jiff_timestamp_nanos(value@) == Some(n),
            Err(e) => jiff_timestamp_nanos(value@) is None && e@.kind == ErrorKind::Xml,
        },
{
    match timestamp_nanos(value) {
        Ok(n) => Ok(n),
        Err(_) => Err(history_error("invalid event timestamp")),
    }
}

/// The payload fields of an event as texts.
pub open spec fn fields_view(fields: Seq<(String, String)>) -> Seq<(Seq<char>, Seq<char>)> {
    fields.map_values(|f: (String, String)| (f.0@, f.1@))
}

/// Whether field keys are strictly increasing: in key order, each key once.
pub open spec fn keys_increasing(fields: Seq<(Seq<char>, Seq<char>)>) -> bool {
    forall|i: int, j: int| 0 <= i < j < fields.len() ==> crate::model::trigger::seq_less(#[trigger] fields[i].0, #[trigger] fields[j].0)
}

/// The fields as a map from key to value.
pub open spec fn fields_map(fields: Seq<(Seq<char>, Seq<char>)>) -> Map<Seq<char>, Seq<char>> {
    Map::new(
        |k: Seq<char>| exists|i: int| 0 <= i < fields.len() && fields[i].0 == k,
        |k: Seq<char>| fields[choose|i: int| 0 <= i < fields.len() && fields[i].0 == k].1,
    )
}

proof fn lemma_key_unique(fields: Seq<(Seq<char>, Seq<char>)>, i: int, j: int)
    requires
        keys_increasing(fields),
        0 <= i < fields.len(),
        0 <= j < fields.len(),
        fields[i].0 == fields[j].0,
    ensures
        i == j,
{
    if i < j {
        crate::validation::lemma_seq_less_irreflexive(fields[i].0);
    } else if j < i {
        crate::validation::lemma_seq_less_irreflexive(fields[i].0);
    }
}

/// Sets a field, keeping the keys in order: an existing key takes the new
/// value, a new key is inserted where it belongs.
pub fn insert_field(fields: &mut Vec<(String, String)>, key: String, value: String)
    requires
        keys_increasing(fields_view(old(fields)@)),
    ensures
        keys_increasing(fields_view(final(fields)@)),
        fields_map(fields_view(final(fields)@)) == fields_map(fields_view(old(fields)@)).insert(key@, value@),
{
    let ghost before = fields_view(fields@);
    let mut p: usize = 0;
    while p < fields.len() && crate::validation::str_less(fields[p].0.as_str(), key.as_str())
        invariant
            p <= fields@.len(),
            fields_view(fields@) == before,
            forall|t: int| 0 <= t < p ==> crate::model::trigger::seq_less(#[trigger] before[t].0, key@),
        decreases fields@.len() - p,
    {
        p += 1;
    }
    if p < fields.len() && crate::text::str_eq(fields[p].0.as_str(), key.as_str()) {
        let ghost k = key@;
        fields.set(p, (key, value));
        proof {
            let after = fields_view(fields@);
            assert(after =~= before.update(p as int, (k, value@)));
            assert forall|i: int, j: int| 0 <= i < j < after.len() implies crate::model::trigger::seq_less(#[trigger] after[i].0, #[trigger] after[j].0) by {
                assert(after[i].0 == before[i].0 && after[j].0 == before[j].0);
            }
            assert forall|q: Seq<char>| #[trigger] fields_map(after).contains_key(q) == fields_map(before).insert(k, value@).contains_key(q) by {
                if fields_map(before).contains_key(q) {
                    let i = choose|i: int| 0 <= i < before.len() && before[i].0 == q;
                    assert(after[i].0 == q);
                }
                if q == k {
                    assert(after[p as int].0 == q);
                }
                if fields_map(after).contains_key(q) {
                    let i = choose|i: int| 0 <= i < after.len() && after[i].0 == q;
                    assert(before[i].0 == q);
                }
            }
            assert forall|q: Seq<char>| #[trigger] fields_map(after).contains_key(q) implies fields_map(after)[q] == fields_map(before).insert(k, value@)[q] by {
                let i = choose|i: int| 0 <= i < after.len() && after[i].0 == q;
                if q == k {
                    lemma_key_unique(after, i, p as int);
                } else {
                    let j = choose|j: int| 0 <= j < before.len() && before[j].0 == q;
                    lemma_key_unique(before, i, j);
                    lemma_key_unique(after, i, j);
                }
            }
            assert(fields_map(after) =~= fields_map(before).insert(k, value@));
        }
    } else {
        let ghost k = key@;
        fields.insert(p, (key, value));
        proof {
            let after = fields_view(fields@);
            assert(after =~= before.insert(p as int, (k, value@)));
            if p < before.len() {
                assert(before[p as int].0 != k);
                assert(!crate::model::trigger::seq_less(before[p as int].0, k));
                crate::reconcile::lemma_seq_less_total(before[p as int].0, k);
            }
            assert forall|i: int, j: int| 0 <= i < j < after.len() implies crate::model::trigger::seq_less(#[trigger] after[i].0, #[trigger] after[j].0) by {
                if j < p {
                } else if i < p && j == p {
                } else if i < p && j > p {
                    assert(after[j] == before[j - 1]);
                    if j - 1 > p {
                        crate::reconcile::lemma_seq_less_transitive(k, before[p as int].0, before[j - 1].0);
                    }
                    crate::reconcile::lemma_seq_less_transitive(after[i].0, k, after[j].0);
                } else if i == p {
                    assert(after[j] == before[j - 1]);
                    if j - 1 > p {
                        crate::reconcile::lemma_seq_less_transitive(k, before[p as int].0, before[j - 1].0);
                    }
                } else {
                    assert(after[i] == before[i - 1] && after[j] == before[j - 1]);
                }
            }
            assert forall|q: Seq<char>| #[trigger] fields_map(after).contains_key(q) == fields_map(before).insert(k, value@).contains_key(q) by {
                if fields_map(before).contains_key(q) {
                    let i = choose|i: int| 0 <= i < before.len() && before[i].0 == q;
                    if i < p {
                        assert(after[i].0 == q);
                    } else {
                        assert(after[i + 1].0 == q);
                    }
                }
                if q == k {
                    assert(after[p as int].0 == q);
                }
                if fields_map(after).contains_key(q) {
                    let i = choose|i: int| 0 <= i < after.len() && after[i].0 == q;
                    if i < p {
                        assert(before[i].0 == q);
                    } else if i > p {
                        assert(before[i - 1].0 == q);
                    }
                }
            }
            assert forall|q: Seq<char>| #[trigger] fields_map(after).contains_key(q) implies fields_map(after)[q] == fields_map(before).insert(k, value@)[q] by {
                let i = choose|i: int| 0 <= i < after.len() && after[i].0 == q;
                if q == k {
                    lemma_key_unique(after, i, p as int);
                } else {
                    let j = choose|j: int| 0 <= j < before.len() && before[j].0 == q;
                    if i < p {
                        assert(before[i].0 == q);
                        lemma_key_unique(before, i, j);
                    } else {
                        assert(i != p);
                        assert(before[i - 1].0 == q);
                        lemma_key_unique(before, i - 1, j);
                    }
                }
            }
            assert(fields_map(after) =~= fields_map(before).insert(k, value@));
        }
    }
}

/// The code of a character with ASCII upper-case letters lowered.
pub open spec fn lower_code(c: char) -> u32 {
    if 65 <= (c as u32) <= 90 {
        ((c as u32) + 32) as u32
    } else {
        c as u32
    }
}

/// Whether two texts are equal when ASCII letters are compared without case.
pub open spec fn same_ignoring_ascii_case(a: Seq<char>, b: Seq<char>) -> bool {
    a.len() == b.len() && forall|i: int| 0 <= i < a.len() ==> #[trigger] lower_code(a[i]) == lower_code(b[i])
}

fn same_ignoring_ascii_case_exec(a: &str, b: &str) -> (r: bool)
    ensures
        r == same_ignoring_ascii_case(a@, b@),
{
    let x = chars_of(a);
    let y = chars_of(b);
    if x.len() != y.len() {
        return false;
    }
    let mut i: usize = 0;
    while i < x.len()
        invariant
            i <= x.len(),
            x@.len() == y@.len(),
            x@ == a@,
            y@ == b@,
            forall|t: int| 0 <= t < i ==> #[trigger] lower_code(x@[t]) == lower_code(y@[t]),
        decreases x.len() - i,
    {
        let c = x[i] as u32;
        let d = y[i] as u32;
        let lc: u32 = if c >= 65 && c <= 90 { c + 32 } else { c };
        let ld: u32 = if d >= 65 && d <= 90 { d + 32 } else { d };
        if lc != ld {
            proof {
                assert(lower_code(x@[i as int]) != lower_code(y@[i as int]));
            }
            return false;
        }
        i += 1;
    }
    true
}

/// Whether `k` is the first key in key order that matches `name` without
/// ASCII case.
pub open spec fn least_match(m: Map<Seq<char>, Seq<char>>, name: Seq<char>, k: Seq<char>) -> bool {
    &&& m.contains_key(k)
    &&& same_ignoring_ascii_case(k, name)
    &&& forall|q: Seq<char>| #[trigger] m.contains_key(q) && same_ignoring_ascii_case(q, name) ==> !crate::model::trigger::seq_less(q, k)
}

/// The value of the first field, in key order, whose key matches `name`
/// without ASCII case.
pub open spec fn field_named(m: Map<Seq<char>, Seq<char>>, name: Seq<char>) -> Option<Seq<char>> {
    if exists|k: Seq<char>| least_match(m, name, k) {
        Some(m[choose|k: Seq<char>| least_match(m, name, k)])
    } else {
        None
    }
}

/// The value of the first of `names` that some field matches.
pub open spec fn field_value(m: Map<Seq<char>, Seq<char>>, names: Seq<Seq<char>>) -> Option<Seq<char>>
    decreases names.len(),
{
    if names.len() == 0 {
        None
    } else {
        match field_named(m, names[0]) {
            Some(v) => Some(v),
            None => field_value(m, names.drop_first()),
        }
    }
}

proof fn lemma_seq_less_asymmetric(a: Seq<char>, b: Seq<char>)
    requires
        crate::model::trigger::seq_less(a, b),
    ensures
        !crate::model::trigger::seq_less(b, a),
{
    if crate::model::trigger::seq_less(b, a) {
        crate::reconcile::lemma_seq_less_transitive(a, b, a);
        crate::validation::lemma_seq_less_irreflexive(a);
    }
}

/// The value of the first field, in key order, whose key matches `name`.
fn find_field<'a>(fields: &'a Vec<(String, String)>, name: &str) -> (r: Option<&'a String>)
    requires
        keys_increasing(fields_view(fields@)),
    ensures
        match r {
            Some(v) => field_named(fields_map(fields_view(fields@)), name@) == Some(v@),
            None => field_named(fields_map(fields_view(fields@)), name@) is None,
        },
{
    let ghost f = fields_view(fields@);
    let ghost m = fields_map(f);
    let mut i: usize = 0;
    while i < fields.len()
        invariant
            i <= fields@.len(),
            f == fields_view(fields@),
            m == fields_map(f),
            keys_increasing(f),
            forall|t: int| 0 <= t < i ==> !same_ignoring_ascii_case(#[trigger] f[t].0, name@),
        decreases fields@.len() - i,
    {
        if same_ignoring_ascii_case_exec(fields[i].0.as_str(), name) {
            proof {
                let k = f[i as int].0;
                assert(0 <= i < f.len() && f[i as int].0 == k);
                assert(m.contains_key(k));
                assert forall|q: Seq<char>| #[trigger] m.contains_key(q) && same_ignoring_ascii_case(q, name@) implies !crate::model::trigger::seq_less(q, k) by {
                    let j = choose|j: int| 0 <= j < f.len() && f[j].0 == q;
                    if j < i {
                    } else if j > i {
                        lemma_seq_less_asymmetric(k, q);
                    } else {
                        crate::validation::lemma_seq_less_irreflexive(k);
                    }
                }
                assert(least_match(m, name@, k));
                let c = choose|c: Seq<char>| least_match(m, name@, c);
                if c != k {
                    crate::reconcile::lemma_seq_less_total(c, k);
                }
                let j = choose|j: int| 0 <= j < f.len() && f[j].0 == k;
                lemma_key_unique(f, i as int, j);
            }
            return Some(&fields[i].1);
        }
        i += 1;
    }
    proof {
        assert forall|k: Seq<char>| !least_match(m, name@, k) by {
            if m.contains_key(k) && same_ignoring_ascii_case(k, name@) {
                let j = choose|j: int| 0 <= j < f.len() && f[j].0 == k;
                assert(!same_ignoring_ascii_case(f[j].0, name@));
            }
        }
    }
    None
}

/// An element of an event document being read: its local name, the value
/// of its `Name` attribute, and its text so far.
pub struct FrameView {
    /// Local name.
    pub name: Seq<char>,
    /// The `Name` attribute.
    pub data_name: Option<Seq<char>>,
    /// Text so far.
    pub text: Seq<char>,
}

/// What reading an event document collected so far.
pub struct ScanView {
    /// `EventID`.
    pub event_id: Option<u32>,
    /// `EventRecordID`.
    pub record_id: Option<u64>,
    /// `TimeCreated/@SystemTime`, in nanoseconds since the Unix epoch.
    pub timestamp: Option<i128>,
    /// Payload fields by key.
    pub fields: Map<Seq<char>, Seq<char>>,
    /// The rendered message.
    pub message: Option<Seq<char>>,
    /// Unnamed `Data` elements seen.
    pub unnamed: nat,
    /// Open elements.
    pub stack: Seq<FrameView>,
    /// Elements seen.
    pub nodes: nat,
}

/// The most elements an event document may hold.
pub const MAX_EVENT_NODES: usize = 10000;

/// The deepest nesting of an event document.
pub const MAX_EVENT_DEPTH: usize = 64;

/// The error for a document with too many elements.
pub open spec fn too_many_nodes() -> Seq<char> {
    "event XML element count exceeds 10,000"@
}

/// The error for a document nested too deeply.
pub open spec fn too_deep() -> Seq<char> {
    "event XML nesting exceeds 64 levels"@
}

/// Counting one more element: refused past the element limit, and an
/// element with content refused past the depth limit.
pub open spec fn enter_spec(v: ScanView, empty: bool) -> Result<ScanView, Seq<char>> {
    if v.nodes + 1 > MAX_EVENT_NODES {
        Err(too_many_nodes())
    } else if !empty && v.stack.len() >= MAX_EVENT_DEPTH {
        Err(too_deep())
    } else {
        Ok(ScanView { nodes: v.nodes + 1, ..v })
    }
}

/// Text added to the innermost open element.
pub open spec fn text_spec(v: ScanView, t: Seq<char>) -> ScanView {
    if v.stack.len() == 0 {
        v
    } else {
        let f = v.stack.last();
        ScanView { stack: v.stack.update(v.stack.len() - 1, FrameView { text: f.text + t, ..f }), ..v }
    }
}

/// The key of an unnamed `Data` element.
pub open spec fn unnamed_key(n: nat) -> Seq<char> {
    "Data"@ + crate::text::decimal(n)
}

/// Closing the innermost element. An `EventID` or `EventRecordID` records
/// its trimmed number; a `Data` element records its trimmed text under its
/// `Name`, or under `Data` and the count of unnamed ones before it; a
/// `Message` inside `RenderingInfo` records its trimmed text when not empty.
pub open spec fn close_spec(v: ScanView) -> Result<ScanView, Seq<char>> {
    if v.stack.len() == 0 {
        Err("unexpected event XML end element"@)
    } else {
        let f = v.stack.last();
        let rest = v.stack.drop_last();
        let value = trimmed(f.text);
        let v1 = ScanView { stack: rest, ..v };
        if f.name == "EventID"@ {
            match crate::text::parse_unsigned_spec(value, 0xFFFF_FFFF) {
                Some(n) => Ok(ScanView { event_id: Some(n as u32), ..v1 }),
                None => Err("invalid EventID"@),
            }
        } else if f.name == "EventRecordID"@ {
            match crate::text::parse_unsigned_spec(value, 0xFFFF_FFFF_FFFF_FFFF) {
                Some(n) => Ok(ScanView { record_id: Some(n as u64), ..v1 }),
                None => Err("invalid EventRecordID"@),
            }
        } else if f.name == "Data"@ {
            match f.data_name {
                Some(k) => Ok(ScanView { fields: v.fields.insert(k, value), ..v1 }),
                None => Ok(ScanView { fields: v.fields.insert(unnamed_key(v.unnamed), value), unnamed: v.unnamed + 1, ..v1 }),
            }
        } else if f.name == "Message"@ && rest.len() > 0 && rest.last().name == "RenderingInfo"@ {
            Ok(ScanView { message: if value.len() == 0 { None } else { Some(value) }, ..v1 })
        } else {
            Ok(v1)
        }
    }
}

/// An element being read.
struct EventFrame {
    name: String,
    data_name: Option<String>,
    text: String,
}

/// What reading an event document collected so far.
pub struct EventScan {
    event_id: Option<u32>,
    record_id: Option<u64>,
    timestamp: Option<i128>,
    fields: Vec<(String, String)>,
    message: Option<String>,
    unnamed: usize,
    stack: Vec<EventFrame>,
    nodes: usize,
}

impl View for EventScan {
    type V = ScanView;

    closed spec fn view(&self) -> ScanView {
        ScanView {
            event_id: self.event_id,
            record_id: self.record_id,
            timestamp: self.timestamp,
            fields: fields_map(fields_view(self.fields@)),
            message: crate::text::opt_view(self.message),
            unnamed: self.unnamed as nat,
            stack: self.stack@.map_values(|f: EventFrame| FrameView { name: f.name@, data_name: crate::text::opt_view(f.data_name), text: f.text@ }),
            nodes: self.nodes as nat,
        }
    }
}

impl EventScan {
    /// The invariant of a scan: keys in order, and within the limits.
    pub closed spec fn wf(&self) -> bool {
        &&& keys_increasing(fields_view(self.fields@))
        &&& self.nodes <= MAX_EVENT_NODES
        &&& self.unnamed + self.stack@.len() <= self.nodes
    }

    /// Nothing read yet.
    pub fn new() -> (s: Self)
        ensures
            s.wf(),
            s@ == (ScanView {
                event_id: None,
                record_id: None,
                timestamp: None,
                fields: Map::empty(),
                message: None,
                unnamed: 0,
                stack: Seq::empty(),
                nodes: 0,
            }),
    {
        let s = EventScan {
            event_id: None,
            record_id: None,
            timestamp: None,
            fields: Vec::new(),
            message: None,
            unnamed: 0,
            stack: Vec::new(),
            nodes: 0,
        };
        proof {
            assert(fields_map(fields_view(s.fields@)) =~= Map::empty());
            assert(s@.stack =~= Seq::empty());
        }
        s
    }

    /// Counts one more element, with content unless `empty`.
    pub fn enter(&mut self, empty: bool) -> (r: Result<(), Error>)
        requires
            old(self).wf(),
        ensures
            final(self).wf(),
            match enter_spec(old(self)@, empty) {
                Ok(v) => r is Ok && final(self)@ == v && final(self)@.stack.len() + final(self)@.unnamed < final(self)@.nodes,
                Err(m) => r matches Err(e) && e@.kind == ErrorKind::Xml && e@.message == m,
            },
    {
        if self.nodes >= MAX_EVENT_NODES {
            return Err(history_error("event XML element count exceeds 10,000"));
        }
        if !empty && self.stack.len() >= MAX_EVENT_DEPTH {
            return Err(history_error("event XML nesting exceeds 64 levels"));
        }
        self.nodes = self.nodes + 1;
        Ok(())
    }

    /// Records the timestamp of a `TimeCreated` element.
    pub fn set_timestamp(&mut self, nanos: i128)
        requires
            old(self).wf(),
        ensures
            final(self).wf(),
            final(self)@ == (ScanView { timestamp: Some(nanos), ..old(self)@ }),
    {
        self.timestamp = Some(nanos);
    }

    /// Opens an element with content.
    pub fn open(&mut self, name: String, data_name: Option<String>)
        requires
            old(self).wf(),
            old(self)@.stack.len() + old(self)@.unnamed < old(self)@.nodes,
        ensures
            final(self).wf(),
            final(self)@ == (ScanView {
                stack: old(self)@.stack.push(FrameView { name: name@, data_name: crate::text::opt_view(data_name), text: Seq::empty() }),
                ..old(self)@
            }),
    {
        let ghost before = self.stack@;
        self.stack.push(EventFrame { name, data_name, text: String::new() });
        proof {
            assert(self@.stack =~= old(self)@.stack.push(
                FrameView { name: name@, data_name: crate::text::opt_view(data_name), text: Seq::empty() },
            ));
        }
    }

    /// Adds text to the innermost open element.
    pub fn add_text(&mut self, text: &str)
        requires
            old(self).wf(),
        ensures
            final(self).wf(),
            final(self)@ == text_spec(old(self)@, text@),
    {
        let n = self.stack.len();
        if n > 0 {
            let mut frame = self.stack.pop().unwrap();
            frame.text.append(text);
            self.stack.push(frame);
            proof {
                assert(self@.stack =~= text_spec(old(self)@, text@).stack);
            }
        }
    }

    /// Closes the innermost element.
    pub fn close(&mut self) -> (r: Result<(), Error>)
        requires
            old(self).wf(),
        ensures
            final(self).wf(),
            match close_spec(old(self)@) {
                Ok(v) => r is Ok && final(self)@ == v,
                Err(m) => r matches Err(e) && e@.kind == ErrorKind::Xml && e@.message == m,
            },
    {
        let ghost v = self@;
        let frame = match self.stack.pop() {
            Some(f) => f,
            None => {
                return Err(history_error("unexpected event XML end element"));
            },
        };
        proof {
            assert(self@.stack =~= v.stack.drop_last());
        }
        let chars = chars_of(frame.text.as_str());
        let value_chars = trim_exec(chars.as_slice());
        let value = crate::text::string_of(value_chars);
        let name = frame.name.as_str();
        if crate::text::str_eq(name, "EventID") {
            match crate::text::parse_unsigned(value_chars, 0xFFFF_FFFF) {
                Some(n) => {
                    self.event_id = Some(n as u32);
                    Ok(())
                },
                None => Err(history_error("invalid EventID")),
            }
        } else if crate::text::str_eq(name, "EventRecordID") {
            match crate::text::parse_unsigned(value_chars, 0xFFFF_FFFF_FFFF_FFFF) {
                Some(n) => {
                    self.record_id = Some(n);
                    Ok(())
                },
                None => Err(history_error("invalid EventRecordID")),
            }
        } else if crate::text::str_eq(name, "Data") {
            let key = match frame.data_name {
                Some(k) => k,
                None => {
                    let mut k = "Data".to_owned();
                    k.append(crate::text::u64_to_string(self.unnamed as u64).as_str());
                    self.unnamed = self.unnamed + 1;
                    k
                },
            };
            insert_field(&mut self.fields, key, value);
            Ok(())
        } else {
            let n = self.stack.len();
            let rendering = n > 0 && crate::text::str_eq(self.stack[n - 1].name.as_str(), "RenderingInfo");
            if crate::text::str_eq(name, "Message") && rendering {
                self.message = if value_chars.len() == 0 {
                    None
                } else {
                    Some(value)
                };
            }
            Ok(())
        }
    }
}

/// A text with every leading and trailing brace removed.
pub open spec fn strip_braces(s: Seq<char>) -> Seq<char>
    decreases s.len(),
{
    if s.len() > 0 && (s[0] == '{' || s[0] == '}') {
        strip_braces(s.drop_first())
    } else if s.len() > 0 && (s.last() == '{' || s.last() == '}') {
        strip_braces(s.drop_last())
    } else {
        s
    }
}

fn strip_braces_exec(s: &[char]) -> (r: String)
    ensures
        r@ == strip_braces(s@),
{
    let mut a: usize = 0;
    let mut b: usize = s.len();
    proof {
        assert(s@.subrange(0, s@.len() as int) =~= s@);
    }
    while a < b && (s[a] == '{' || s[a] == '}')
        invariant
            a <= b <= s.len(),
            strip_braces(s@.subrange(a as int, b as int)) == strip_braces(s@),
        decreases b - a,
    {
        proof {
            assert(s@.subrange(a as int, b as int).drop_first() =~= s@.subrange(a + 1, b as int));
        }
        a += 1;
    }
    while a < b && (s[b - 1] == '{' || s[b - 1] == '}')
        invariant
            a <= b <= s.len(),
            strip_braces(s@.subrange(a as int, b as int)) == strip_braces(s@),
            a < b ==> !(s@[a as int] == '{' || s@[a as int] == '}'),
        decreases b - a,
    {
        proof {
            assert(s@.subrange(a as int, b as int).drop_last() =~= s@.subrange(a as int, b - 1));
        }
        b -= 1;
    }
    let part = crate::text::slice_subrange(s, a, b);
    proof {
        assert(part@ =~= s@.subrange(a as int, b as int));
    }
    crate::text::string_of(part)
}

/// A present, non-empty value.
pub open spec fn non_empty(v: Option<Seq<char>>) -> Option<Seq<char>> {
    match v {
        Some(t) => if t.len() > 0 { Some(t) } else { None },
        None => None,
    }
}

/// The field names that may carry an event's task path.
pub open spec fn task_path_names() -> Seq<Seq<char>> {
    seq!["TaskName"@, "TaskPath"@]
}

/// The field names that may carry an event's run instance GUID.
pub open spec fn instance_names() -> Seq<Seq<char>> {
    seq!["InstanceId"@, "InstanceID"@, "InstanceGuid"@, "TaskInstanceId"@]
}

/// The field names that may carry an event's result code.
pub open spec fn result_names() -> Seq<Seq<char>> {
    seq!["ResultCode"@, "Result"@, "ErrorCode"@, "ActionResult"@]
}

fn first_field<'a>(fields: &'a Vec<(String, String)>, a: &str, b: &str) -> (r: Option<&'a String>)
    requires
        keys_increasing(fields_view(fields@)),
    ensures
        match r {
            Some(v) => field_value(fields_map(fields_view(fields@)), seq![a@, b@]) == Some(v@),
            None => field_value(fields_map(fields_view(fields@)), seq![a@, b@]) is None,
        },
{
    proof {
        reveal_with_fuel(field_value, 3);
        assert(seq![a@, b@].drop_first() =~= seq![b@]);
        assert(seq![b@].drop_first() =~= Seq::<Seq<char>>::empty());
    }
    match find_field(fields, a) {
        Some(v) => Some(v),
        None => find_field(fields, b),
    }
}

fn first_field4<'a>(fields: &'a Vec<(String, String)>, a: &str, b: &str, c: &str, d: &str) -> (r: Option<&'a String>)
    requires
        keys_increasing(fields_view(fields@)),
    ensures
        match r {
            Some(v) => field_value(fields_map(fields_view(fields@)), seq![a@, b@, c@, d@]) == Some(v@),
            None => field_value(fields_map(fields_view(fields@)), seq![a@, b@, c@, d@]) is None,
        },
{
    proof {
        reveal_with_fuel(field_value, 5);
        assert(seq![a@, b@, c@, d@].drop_first() =~= seq![b@, c@, d@]);
        assert(seq![b@, c@, d@].drop_first() =~= seq![c@, d@]);
        assert(seq![c@, d@].drop_first() =~= seq![d@]);
        assert(seq![d@].drop_first() =~= Seq::<Seq<char>>::empty());
    }
    match find_field(fields, a) {
        Some(v) => Some(v),
        None => match find_field(fields, b) {
            Some(v) => Some(v),
            None => match find_field(fields, c) {
                Some(v) => Some(v),
                None => find_field(fields, d),
            },
        },
    }
}

/// The task path an event names: none when no task field is present or it
/// is empty, or the canonical path of its text.
pub open spec fn event_task_path(m: Map<Seq<char>, Seq<char>>) -> Option<Result<Seq<char>, Seq<char>>> {
    match non_empty(field_value(m, task_path_names())) {
        None => None,
        Some(t) => Some(crate::path::canonical(t, false)),
    }
}

/// The instance GUID an event names: none when absent or empty, or the GUID
/// read from its text without surrounding braces.
pub open spec fn event_instance(m: Map<Seq<char>, Seq<char>>) -> Option<Option<u128>> {
    match non_empty(field_value(m, instance_names())) {
        None => None,
        Some(t) => Some(uuid_parsed(strip_braces(t))),
    }
}

/// The result code an event names: none when absent or empty, or the code
/// read from its text.
pub open spec fn event_result(m: Map<Seq<char>, Seq<char>>) -> Option<Option<int>> {
    match non_empty(field_value(m, result_names())) {
        None => None,
        Some(t) => Some(result_code_spec(t)),
    }
}

/// Whether an event holds what a finished scan read.
pub open spec fn event_of(e: HistoryEvent, v: ScanView) -> bool {
    &&& v.event_id == Some(e.event_id)
    &&& v.record_id == Some(e.record_id)
    &&& v.timestamp == Some(e.timestamp)
    &&& e.kind == event_kind_spec(e.event_id)
    &&& keys_increasing(fields_view(e.fields@))
    &&& fields_map(fields_view(e.fields@)) == v.fields
    &&& crate::text::opt_view(e.message) == v.message
    &&& match event_task_path(v.fields) {
        None => e.task_path is None,
        Some(p) => e.task_path matches Some(t) && p == Ok::<Seq<char>, Seq<char>>(t@),
    }
    &&& match event_instance(v.fields) {
        None => e.instance_id is None,
        Some(g) => e.instance_id == g,
    }
    &&& match event_result(v.fields) {
        None => e.result_code is None,
        Some(c) => e.result_code matches Some(x) && c == Some(x as int),
    }
}

/// Whether a finished scan makes an event: every element closed, the event
/// id, record id and timestamp present, and any task path, instance GUID or
/// result code valid.
pub open spec fn scan_complete(v: ScanView) -> bool {
    &&& v.stack.len() == 0
    &&& v.event_id is Some
    &&& v.record_id is Some
    &&& v.timestamp is Some
    &&& (event_task_path(v.fields) matches Some(p) ==> p is Ok)
    &&& (event_instance(v.fields) matches Some(g) ==> g is Some)
    &&& (event_result(v.fields) matches Some(c) ==> c is Some)
}

impl EventScan {
    /// The event a finished scan read, or why there is none.
    pub fn finish(self) -> (r: Result<HistoryEvent, Error>)
        requires
            self.wf(),
        ensures
            match r {
                Ok(e) => scan_complete(self@) && event_of(e, self@),
                Err(err) => !scan_complete(self@) && err@.kind == ErrorKind::Xml,
            },
    {
        if self.stack.len() > 0 {
            return Err(history_error("event XML ended before all elements closed"));
        }
        let event_id = match self.event_id {
            Some(v) => v,
            None => {
                return Err(history_error("event XML has no EventID"));
            },
        };
        let record_id = match self.record_id {
            Some(v) => v,
            None => {
                return Err(history_error("event XML has no EventRecordID"));
            },
        };
        let timestamp = match self.timestamp {
            Some(v) => v,
            None => {
                return Err(history_error("event XML has no TimeCreated/SystemTime"));
            },
        };
        let task_path = match first_field(&self.fields, "TaskName", "TaskPath") {
            Some(text) if text.as_str().unicode_len() > 0 => match TaskPath::parse(text.as_str()) {
                Ok(p) => Some(p),
                Err(_) => {
                    return Err(history_error("invalid task path in event"));
                },
            },
            _ => None,
        };
        let instance_id = match first_field4(&self.fields, "InstanceId", "InstanceID", "InstanceGuid", "TaskInstanceId") {
            Some(text) if text.as_str().unicode_len() > 0 => {
                let stripped = strip_braces_exec(chars_of(text.as_str()).as_slice());
                match parse_uuid_text(stripped.as_str()) {
                    Ok(id) => Some(id),
                    Err(_) => {
                        return Err(history_error("invalid instance GUID in event"));
                    },
                }
            },
            _ => None,
        };
        let result_code = match first_field4(&self.fields, "ResultCode", "Result", "ErrorCode", "ActionResult") {
            Some(text) if text.as_str().unicode_len() > 0 => match parse_result_code(text.as_str()) {
                Ok(code) => Some(code),
                Err(e) => {
                    return Err(e);
                },
            },
            _ => None,
        };
        let EventScan { fields, message, .. } = self;
        Ok(HistoryEvent {
            record_id,
            event_id,
            kind: event_kind(event_id),
            timestamp,
            task_path,
            instance_id,
            result_code,
            fields,
            message,
        })
    }
}

/// The value of the first attribute whose local name is `wanted`, `None`
/// when no attribute has it, or `Err` when a malformed attribute comes
/// first or the value found is malformed.
pub open spec fn attr_lookup(
    items: Seq<Result<(Seq<char>, Result<Seq<char>, Seq<char>>), Seq<char>>>,
    wanted: Seq<char>,
) -> Result<Option<Seq<char>>, ()>
    decreases items.len(),
{
    if items.len() == 0 {
        Ok(None)
    } else {
        match items[0] {
            Err(_) => Err(()),
            Ok((k, v)) => if crate::xml::local_part(k) == wanted {
                match v {
                    Ok(x) => Ok(Some(x)),
                    Err(_) => Err(()),
                }
            } else {
                attr_lookup(items.drop_first(), wanted)
            },
        }
    }
}

/// The value of the first attribute in a tag's attribute text whose local
/// name is `wanted`, or the reader's error for a malformed attribute met
/// first.
fn find_attribute(raw: &str, wanted: &str) -> (r: Result<Option<String>, Error>)
    ensures
        match attr_lookup(crate::xml::xml_attributes(raw@), wanted@) {
            Ok(found) => r matches Ok(x) && crate::text::opt_view(x) == found,
            Err(_) => r matches Err(e) && e@.kind == ErrorKind::Xml,
        },
{
    let items = crate::xml::read_attribute_items(raw);
    let ghost all = crate::xml::xml_attributes(raw@);
    let mut i: usize = 0;
    proof {
        assert(all.skip(0) =~= all);
    }
    while i < items.len()
        invariant
            crate::xml::attr_items_view(items@) == all,
            all == crate::xml::xml_attributes(raw@),
            i <= items@.len(),
            attr_lookup(all, wanted@) == attr_lookup(all.skip(i as int), wanted@),
        decreases items.len() - i,
    {
        let ghost rest = all.skip(i as int);
        proof {
            assert(rest[0] == crate::xml::attr_item_view(items@[i as int]));
            assert(rest.drop_first() =~= all.skip(i + 1));
        }
        match &items[i] {
            Ok((key, value)) => {
                let local = crate::xml::local_name(key.as_str());
                if crate::text::str_eq(local.as_str(), wanted) {
                    return match value {
                        Ok(v) => Ok(Some(v.clone())),
                        Err(message) => Err(history_error(message.as_str())),
                    };
                }
            },
            Err(message) => {
                return Err(history_error(message.as_str()));
            },
        }
        i += 1;
    }
    proof {
        assert(all.skip(i as int) =~= Seq::empty());
    }
    Ok(None)
}

/// Reading the start of an element into a scan: it is counted, its `Name`
/// attribute read unless it is empty, the `SystemTime` of a `TimeCreated`
/// element recorded, and it is opened unless empty.
pub open spec fn scan_start(v: ScanView, name: Seq<char>, raw: Seq<char>, empty: bool) -> Option<ScanView> {
    let items = crate::xml::xml_attributes(raw);
    let local = crate::xml::local_part(name);
    match enter_spec(v, empty) {
        Err(_) => None,
        Ok(v1) => {
            let data_name = if empty {
                Ok(None)
            } else {
                attr_lookup(items, "Name"@)
            };
            let timestamp = if local == "TimeCreated"@ {
                match attr_lookup(items, "SystemTime"@) {
                    Ok(Some(t)) => match jiff_timestamp_nanos(t) {
                        Some(n) => Ok(Some(n)),
                        None => Err(()),
                    },
                    Ok(None) => Ok(v1.timestamp),
                    Err(_) => Err(()),
                }
            } else {
                Ok(v1.timestamp)
            };
            match (data_name, timestamp) {
                (Ok(dn), Ok(t)) => {
                    let v2 = ScanView { timestamp: t, ..v1 };
                    if empty {
                        Some(v2)
                    } else {
                        Some(ScanView { stack: v2.stack.push(FrameView { name: local, data_name: dn, text: Seq::empty() }), ..v2 })
                    }
                },
                _ => None,
            }
        },
    }
}

/// Reads the start of an element: counts it, reads its name, `Name`
/// attribute and, on `TimeCreated`, its timestamp; opens it unless empty.
fn start_element(scan: &mut EventScan, qname: &str, raw: &str, empty: bool) -> (r: Result<(), Error>)
    requires
        old(scan).wf(),
    ensures
        final(scan).wf(),
        match scan_start(old(scan)@, qname@, raw@, empty) {
            Some(v) => r is Ok && final(scan)@ == v,
            None => r matches Err(e) && e@.kind == ErrorKind::Xml,
        },
{
    scan.enter(empty)?;
    let ghost v1 = scan@;
    let name = crate::xml::local_name(qname);
    let data_name = if empty {
        None
    } else {
        find_attribute(raw, "Name")?
    };
    let is_time = crate::text::str_eq(name.as_str(), "TimeCreated");
    proof {
        reveal_strlit("TimeCreated");
    }
    if is_time {
        if let Some(value) = find_attribute(raw, "SystemTime")? {
            let nanos = parse_system_time(value.as_str())?;
            scan.set_timestamp(nanos);
        }
    }
    if !empty {
        scan.open(name, data_name);
    }
    Ok(())
}

/// One reader event applied to a scan: tags are counted and opened, text
/// is decoded and CDATA kept, end tags close elements; a document type
/// declaration, a general reference or a reader error stops the read.
pub open spec fn scan_token(v: ScanView, t: crate::xml::TokenView) -> Option<ScanView> {
    match t {
        crate::xml::TokenView::Start(c) => scan_start(v, crate::xml::tag_name(c), crate::xml::tag_rest(c), false),
        crate::xml::TokenView::Empty(c) => scan_start(v, crate::xml::tag_name(c), crate::xml::tag_rest(c), true),
        crate::xml::TokenView::Text(raw) => match crate::xml::xml_unescaped(raw) {
            Some(d) => Some(text_spec(v, d)),
            None => None,
        },
        crate::xml::TokenView::CData(c) => Some(text_spec(v, c)),
        crate::xml::TokenView::End => match close_spec(v) {
            Ok(w) => Some(w),
            Err(_) => None,
        },
        crate::xml::TokenView::Ignored => Some(v),
        _ => None,
    }
}

/// Reader events applied in order to an empty scan.
pub open spec fn scan_tokens(ts: Seq<crate::xml::TokenView>) -> Option<ScanView>
    decreases ts.len(),
{
    if ts.len() == 0 {
        Some(ScanView {
            event_id: None,
            record_id: None,
            timestamp: None,
            fields: Map::empty(),
            message: None,
            unnamed: 0,
            stack: Seq::empty(),
            nodes: 0,
        })
    } else {
        match scan_tokens(ts.drop_last()) {
            Some(v) => scan_token(v, ts.last()),
            None => None,
        }
    }
}

proof fn lemma_scan_tokens_stop(ts: Seq<crate::xml::TokenView>, i: int)
    requires
        0 <= i <= ts.len(),
        scan_tokens(ts.take(i)) is None,
    ensures
        scan_tokens(ts) is None,
    decreases ts.len() - i,
{
    if i < ts.len() {
        assert(ts.take(i + 1).drop_last() =~= ts.take(i));
        lemma_scan_tokens_stop(ts, i + 1);
    } else {
        assert(ts.take(i) =~= ts);
    }
}

/// What reading a rendered event document collects: `None` when it is too
/// large or a reader event cannot be applied.
pub open spec fn event_scan(xml: Seq<char>) -> Option<ScanView> {
    if vstd::utf8::encode_utf8(xml).len() > MAX_EVENT_XML_BYTES {
        None
    } else {
        scan_tokens(crate::xml::xml_tokens(xml))
    }
}

/// Decodes one XML document rendered by the Event Log service.
pub fn from_event_xml(xml: &str) -> (r: Result<HistoryEvent, Error>)
    ensures
        match event_scan(xml@) {
            Some(v) => if scan_complete(v) {
                r matches Ok(e) && event_of(e, v)
            } else {
                r matches Err(e) && e@.kind == ErrorKind::Xml
            },
            None => r matches Err(e) && e@.kind == ErrorKind::Xml,
        },
        match r {
            Ok(e) => e.kind == event_kind_spec(e.event_id) && keys_increasing(fields_view(e.fields@)),
            Err(e) => e@.kind == ErrorKind::Xml,
        },
{
    let size = xml.as_bytes().len();
    if size > MAX_EVENT_XML_BYTES {
        return Err(history_error("rendered event exceeds the 1 MiB limit"));
    }
    let tokens = crate::xml::read_tokens(xml);
    let ghost ts = crate::xml::xml_tokens(xml@);
    let mut scan = EventScan::new();
    let mut i: usize = 0;
    proof {
        assert(ts.take(0) =~= Seq::<crate::xml::TokenView>::empty());
    }
    while i < tokens.len()
        invariant
            crate::xml::tokens_view(tokens@) == ts,
            ts == crate::xml::xml_tokens(xml@),
            i <= tokens@.len(),
            scan.wf(),
            size as int == vstd::utf8::encode_utf8(xml@).len(),
            size <= MAX_EVENT_XML_BYTES,
            scan_tokens(ts.take(i as int)) == Some(scan@),
        decreases tokens.len() - i,
    {
        proof {
            assert(ts.take(i + 1).drop_last() =~= ts.take(i as int));
            assert(ts.take(i + 1).last() == tokens@[i as int]@);
        }
        match scan_read(&mut scan, &tokens[i]) {
            Ok(()) => {},
            Err(e) => {
                proof {
                    lemma_scan_tokens_stop(ts, i + 1);
                }
                return Err(e);
            },
        }
        i += 1;
    }
    proof {
        assert(ts.take(i as int) =~= ts);
    }
    scan.finish()
}

/// Applies one reader event to a scan.
fn scan_read(scan: &mut EventScan, token: &crate::xml::RawToken) -> (r: Result<(), Error>)
    requires
        old(scan).wf(),
    ensures
        final(scan).wf(),
        match scan_token(old(scan)@, token@) {
            Some(v) => r is Ok && final(scan)@ == v,
            None => r matches Err(e) && e@.kind == ErrorKind::Xml,
        },
{
    match token {
        crate::xml::RawToken::Open(content) => {
            let (name, raw) = crate::xml::split_tag(content.as_str());
            start_element(scan, name.as_str(), raw.as_str(), false)
        },
        crate::xml::RawToken::Leaf(content) => {
            let (name, raw) = crate::xml::split_tag(content.as_str());
            start_element(scan, name.as_str(), raw.as_str(), true)
        },
        crate::xml::RawToken::Chars(text) => match crate::xml::unescape(text.as_str()) {
            Ok(decoded) => {
                scan.add_text(decoded.as_str());
                Ok(())
            },
            Err(message) => Err(history_error(message.as_str())),
        },
        crate::xml::RawToken::Section(text) => {
            scan.add_text(text.as_str());
            Ok(())
        },
        crate::xml::RawToken::Close => {
            match scan.close() {
                Ok(()) => Ok(()),
                Err(e) => Err(e),
            }
        },
        crate::xml::RawToken::Doctype | crate::xml::RawToken::Entity(_) => Err(
            history_error("DTD declarations and entity references are not allowed"),
        ),
        crate::xml::RawToken::Skipped => Ok(()),
        crate::xml::RawToken::Failed(message) => Err(history_error(message.as_str())),
    }
}

/// Where reading history left off: the bookmark of the last event read, its
/// record id and its timestamp.
#[derive(Clone, Debug)]
pub struct Cursor {
    /// Event Log bookmark.
    pub bookmark: String,
    /// Record id of the last event read.
    pub record_id: u64,
    /// Its timestamp, in nanoseconds since the Unix epoch.
    pub timestamp: i128,
}

/// One page of history.
pub struct Page {
    /// The events the query accepts, in reading order.
    pub events: Vec<HistoryEvent>,
    /// Where the next page starts.
    pub cursor: Option<Cursor>,
    /// Whether the page was full, so that more events may follow.
    pub more: bool,
}

/// The number of events read for one page.
pub const PAGE_SIZE: usize = 256;

/// Whether a query accepts an event: its task, instance and oldest time,
/// each when the query sets it.
pub open spec fn query_accepts_spec(q: HistoryQuery, e: HistoryEvent) -> bool {
    &&& (q.task matches Some(p) ==> (e.task_path matches Some(t) && t@ == p@))
    &&& (q.instance_id matches Some(id) ==> e.instance_id == Some(id))
    &&& (q.since matches Some(since) ==> e.timestamp >= since)
}

/// Whether a query accepts an event.
pub fn query_accepts(q: &HistoryQuery, e: &HistoryEvent) -> (r: bool)
    ensures
        r == query_accepts_spec(*q, *e),
{
    let task_ok = match &q.task {
        Some(p) => match &e.task_path {
            Some(t) => t.same(p),
            None => false,
        },
        None => true,
    };
    let instance_ok = match q.instance_id {
        Some(id) => match e.instance_id {
            Some(x) => x == id,
            None => false,
        },
        None => true,
    };
    let since_ok = match q.since {
        Some(since) => e.timestamp >= since,
        None => true,
    };
    task_ok && instance_ok && since_ok
}

/// Whether the event found at a cursor is the one the cursor was taken at.
pub fn anchor_holds(cursor: &Cursor, anchor: &HistoryEvent) -> (r: bool)
    ensures
        r == (anchor.record_id == cursor.record_id && anchor.timestamp == cursor.timestamp),
{
    anchor.record_id == cursor.record_id && anchor.timestamp == cursor.timestamp
}

/// The error when reading cannot resume where it left off.
pub fn history_gap() -> (e: Error)
    ensures
        e@.kind == ErrorKind::HistoryGap,
        e@.message == "history continuation anchor is missing or changed"@,
        e@.operation == Some("history.resume"@),
{
    Error::new(ErrorKind::HistoryGap, "history continuation anchor is missing or changed").with_operation("history.resume")
}

/// The events that a query accepts, in order.
pub open spec fn accepted(q: HistoryQuery, rendered: Seq<(HistoryEvent, String)>) -> Seq<HistoryEvent>
    decreases rendered.len(),
{
    if rendered.len() == 0 {
        Seq::empty()
    } else {
        let prev = accepted(q, rendered.drop_last());
        if query_accepts_spec(q, rendered.last().0) {
            prev.push(rendered.last().0)
        } else {
            prev
        }
    }
}

/// Builds a page from the events read after the cursor, each with its
/// bookmark, out of `fetched` requested: the events the query accepts, the
/// cursor at the last event read, or the same cursor when none was, and
/// whether the page was full.
pub fn page_of(query: &HistoryQuery, cursor: Option<Cursor>, rendered: Vec<(HistoryEvent, String)>, fetched: usize) -> (p: Page)
    ensures
        p.events@ == accepted(*query, rendered@),
        p.more == (fetched == PAGE_SIZE),
        rendered@.len() == 0 ==> p.cursor == cursor,
        rendered@.len() > 0 ==> (p.cursor matches Some(c) && c.bookmark@ == rendered@.last().1@
            && c.record_id == rendered@.last().0.record_id && c.timestamp == rendered@.last().0.timestamp),
{
    let ghost all = rendered@;
    let mut next = cursor;
    let mut events: Vec<HistoryEvent> = Vec::new();
    let mut rendered = rendered;
    let mut rest: Vec<(HistoryEvent, String)> = Vec::new();
    while rendered.len() > 0
        invariant
            rendered@ == all.take(rendered@.len() as int),
            rendered@.len() <= all.len(),
            rest@.len() + rendered@.len() == all.len(),
            forall|t: int| 0 <= t < rest@.len() ==> #[trigger] rest@[t] == all[all.len() - 1 - t],
        decreases rendered@.len(),
    {
        let ghost k = rendered@.len();
        let item = rendered.pop().unwrap();
        proof {
            assert(item == all[k - 1]);
            assert(rendered@ =~= all.take(k - 1));
        }
        rest.push(item);
    }
    let n = rest.len();
    let mut i: usize = 0;
    while i < n
        invariant
            n == all.len(),
            i <= n,
            rest@.len() == n - i,
            forall|t: int| 0 <= t < rest@.len() ==> #[trigger] rest@[t] == all[n - 1 - t],
            events@ == accepted(*query, all.take(i as int)),
            i == 0 ==> next == cursor,
            i > 0 ==> (next matches Some(c) && c.bookmark@ == all[i - 1].1@ && c.record_id == all[i - 1].0.record_id
                && c.timestamp == all[i - 1].0.timestamp),
        decreases n - i,
    {
        let ghost k = rest@.len();
        let item = rest.pop().unwrap();
        proof {
            assert(item == all[i as int]);
            assert(all.take(i + 1).drop_last() =~= all.take(i as int));
            assert(all.take(i + 1).last() == all[i as int]);
        }
        let (event, bookmark) = item;
        next = Some(Cursor { bookmark, record_id: event.record_id, timestamp: event.timestamp });
        if query_accepts(query, &event) {
            events.push(event);
        }
        i += 1;
    }
    proof {
        assert(all.take(n as int) =~= all);
    }
    Page { events, cursor: next, more: fetched == PAGE_SIZE }
}
/// The Task Scheduler event ids and their categories: 100 is a start,
/// 102 a completion, 101, 103, 104, 202, 203 and 311 failures, 106 and 140
/// registrations, 141 a deletion, 107, 110, 118 and 119 launch requests,
/// 111 and 142 stops, 200 an action start and 201 an action completion.
pub proof fn lemma_event_kind_table()
    ensures
        event_kind_spec(100) == HistoryEventKind::Started,
        event_kind_spec(101) == HistoryEventKind::Failed,
        event_kind_spec(102) == HistoryEventKind::Completed,
        event_kind_spec(103) == HistoryEventKind::Failed,
        event_kind_spec(104) == HistoryEventKind::Failed,
        event_kind_spec(106) == HistoryEventKind::Registered,
        event_kind_spec(107) == HistoryEventKind::LaunchRequested,
        event_kind_spec(110) == HistoryEventKind::LaunchRequested,
        event_kind_spec(111) == HistoryEventKind::Stopped,
        event_kind_spec(118) == HistoryEventKind::LaunchRequested,
        event_kind_spec(119) == HistoryEventKind::LaunchRequested,
        event_kind_spec(140) == HistoryEventKind::Registered,
        event_kind_spec(141) == HistoryEventKind::Deleted,
        event_kind_spec(142) == HistoryEventKind::Stopped,
        event_kind_spec(200) == HistoryEventKind::ActionStarted,
        event_kind_spec(201) == HistoryEventKind::ActionCompleted,
        event_kind_spec(202) == HistoryEventKind::Failed,
        event_kind_spec(203) == HistoryEventKind::Failed,
        event_kind_spec(311) == HistoryEventKind::Failed,
{
}

/// Every event id outside the table keeps its number as an unknown kind.
pub proof fn lemma_unlisted_event_kind(id: u32)
    requires
        id != 100 && id != 101 && id != 102 && id != 103 && id != 104 && id != 106 && id != 107 && id != 110 && id != 111 && id != 118 && id != 119 && id != 140 && id != 141 && id != 142 && id != 200 && id != 201 && id != 202 && id != 203 && id != 311,
    ensures
        event_kind_spec(id) == HistoryEventKind::Unknown(id),
{
}

} // verus!
