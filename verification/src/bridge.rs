//! Integer computations of the data-processing module, as the widget runs
//! them when the compiled module is not at hand, and the reading of the text
//! that the module's format functions write into its memory.

use vstd::prelude::*;

use crate::text::{decimal, push_decimal};
use vstd::utf8::{decode_utf8, valid_utf8};

verus! {

/// `max(reset - now, 0)`: seconds until a reset, never negative.
pub open spec fn time_remaining(reset_ts: int, now_ts: int) -> int {
    if reset_ts - now_ts < 0 { 0 } else { reset_ts - now_ts }
}

/// Seconds until `reset_ts`, or 0 once it has passed.
pub fn fallback_time_remaining(reset_ts: i64, now_ts: i64) -> (r: i64)
    requires
        i64::MIN <= reset_ts - now_ts <= i64::MAX,
    ensures
        r == time_remaining(reset_ts as int, now_ts as int),
{
    let diff = reset_ts - now_ts;
    if diff < 0 { 0 } else { diff }
}

/// Average per day, rounded down; 0 over no days.
pub fn fallback_daily_avg(total_cents: u64, days: u32) -> (avg: u64)
    ensures
        days == 0 ==> avg == 0,
        days > 0 ==> avg == (total_cents as nat) / (days as nat),
        days > 0 ==> avg * days <= total_cents < (avg + 1) * days,
{
    if days == 0 {
        return 0;
    }
    let avg = total_cents / days as u64;
    proof {
        let t = total_cents as int;
        let d = days as int;
        let q = avg as int;
        assert(q == t / d);
        assert(q * d <= t < (q + 1) * d) by (nonlinear_arith)
            requires
                d > 0,
                q == t / d,
        ;
    }
    avg
}

/// A duration as shown: days and hours from a day up, hours and minutes from
/// an hour up, else minutes; `0s` for none.
pub open spec fn duration_text(secs: int) -> Seq<char> {
    if secs <= 0 {
        "0s"@
    } else {
        let days = secs / 86400;
        let hours = (secs % 86400) / 3600;
        let mins = (secs % 3600) / 60;
        if days > 0 {
            decimal(days as nat) + "d "@ + decimal(hours as nat) + "h"@
        } else if hours > 0 {
            decimal(hours as nat) + "h "@ + decimal(mins as nat) + "m"@
        } else {
            decimal(mins as nat) + "m"@
        }
    }
}

/// Formats a duration in seconds, such as `2d 5h`.
pub fn fallback_format_duration(secs: i64) -> (text: String)
    ensures
        text@ == duration_text(secs as int),
{
    if secs <= 0 {
        return String::from_str("0s");
    }
    let days = (secs / 86400) as u64;
    let hours = ((secs % 86400) / 3600) as u64;
    let mins = ((secs % 3600) / 60) as u64;
    let mut s = String::new();
    if days > 0 {
        push_decimal(&mut s, days);
        s.append("d ");
        push_decimal(&mut s, hours);
        s.append("h");
    } else if hours > 0 {
        push_decimal(&mut s, hours);
        s.append("h ");
        push_decimal(&mut s, mins);
        s.append("m");
    } else {
        push_decimal(&mut s, mins);
        s.append("m");
    }
    s
}

/// Whole days until `reset_ts` (0 once it has passed), as the widget stores
/// them: the quotient cast to `u32`.
pub fn days_remaining(reset_ts: i64, now_ts: i64) -> (days: u32)
    requires
        i64::MIN <= reset_ts - now_ts <= i64::MAX,
    ensures
        days == (time_remaining(reset_ts as int, now_ts as int) / 86400) as u32,
{
    let remaining = fallback_time_remaining(reset_ts, now_ts);
    (remaining / 86400) as u32
}

/// Size of the buffer into which the module's format functions write.
pub const WASM_BUF_SIZE: u32 = 128;

/// Offset of that buffer in the module's linear memory.
pub const WASM_BUF_OFFSET: u32 = 1024;

/// Why the text a format function wrote cannot be read.
#[derive(Debug, Clone, Copy, PartialEq, Eq, Structural)]
pub enum FormatBufferError {
    /// The text would end past the end of the memory.
    OutOfBounds { offset: usize, len: usize },
    /// The bytes are not UTF-8.
    InvalidUtf8,
}

/// The bytes that a format function reports to have written.
pub open spec fn written_bytes(memory: Seq<u8>, bytes_written: int) -> Seq<u8> {
    memory.subrange(WASM_BUF_OFFSET as int, WASM_BUF_OFFSET + bytes_written)
}

/// `std::str::from_utf8`: the bytes read as text exactly when they are
/// UTF-8, and then the characters they encode.
#[verifier::external_body]
fn utf8_str(bytes: &[u8]) -> (text: Option<&str>)
    ensures
        text is Some <==> valid_utf8(bytes@),
        text matches Some(t) ==> t@ == decode_utf8(bytes@),
{
    std::str::from_utf8(bytes).ok()
}

/// Reads the text that a format function wrote at `WASM_BUF_OFFSET`: empty
/// when it wrote nothing, an error when the text would end past the
/// memory or is not UTF-8.
pub fn read_format_buffer(memory: &[u8], bytes_written: usize) -> (text: Result<String, FormatBufferError>)
    requires
        WASM_BUF_OFFSET + bytes_written <= usize::MAX,
    ensures
        bytes_written == 0 ==> (text matches Ok(t) && t@.len() == 0),
        bytes_written > 0 && WASM_BUF_OFFSET + bytes_written > memory@.len() ==> text == Err::<String, FormatBufferError>(
            FormatBufferError::OutOfBounds { offset: WASM_BUF_OFFSET as usize, len: bytes_written },
        ),
        bytes_written > 0 && WASM_BUF_OFFSET + bytes_written <= memory@.len() ==> {
            let bytes = written_bytes(memory@, bytes_written as int);
            &&& valid_utf8(bytes) ==> (text matches Ok(t) && t@ == decode_utf8(bytes))
            &&& !valid_utf8(bytes) ==> text == Err::<String, FormatBufferError>(FormatBufferError::InvalidUtf8)
        },
{
    if bytes_written == 0 {
        return Ok(String::new());
    }
    let start = WASM_BUF_OFFSET as usize;
    let end = start + bytes_written;
    if end > memory.len() {
        return Err(FormatBufferError::OutOfBounds { offset: start, len: bytes_written });
    }
    let bytes = vstd::slice::slice_subrange(memory, start, end);
    match utf8_str(bytes) {
        Some(t) => Ok(t.to_owned()),
        None => Err(FormatBufferError::InvalidUtf8),
    }
}

} // verus!
