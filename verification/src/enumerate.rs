//! Decisions and data transformation of the two-phase enumeration
//! protocol.
//!
//! The operating system's enumeration call is made twice: first with no
//! buffer, to learn the required byte size, then with a buffer of exactly
//! that size, which the call fills with packed printer headers.  The
//! process that embeds the library makes the calls and hands their plain
//! outcomes (success flag, required size, printer count, buffer bytes,
//! last-error text) to the functions here, which judge each outcome, log
//! what happened, and decode the buffer.  Every failure is absorbed: a
//! hard failure is logged and enumeration degrades to an empty record
//! list, never to a caller-visible error.

use vstd::prelude::*;
use vstd::string::StringExecFns;
use crate::buffer::{decode_printer_headers, spec_decode_records};
use crate::decimal::{decimal_chars, u64_to_decimal};
use crate::diag::{ev, DiagLog, LogEventView, LogLevel};
use crate::record::{views_of, PrinterRecord};
use crate::wide::{decode_utf16_lossy, utf16_decode_lossy};

verus! {

/// Message reporting the byte size the sizing call asked for.
pub open spec fn text_bytes_needed(n: int) -> Seq<char> {
    "[enumerate] Bytes needed: "@ + decimal_chars(n)
}

/// Message reporting a sizing call that failed without setting a size.
pub open spec fn text_sizing_failed() -> Seq<char> {
    "[enumerate] Enumeration call failed to set bytes_needed"@
}

/// Message reporting a fill call that failed or returned no size.
pub open spec fn text_fill_failed() -> Seq<char> {
    "[enumerate] Enumeration call failed to fill the printer buffer"@
}

/// Message carrying the operating system's own error text.
pub open spec fn text_os_error(m: Seq<char>) -> Seq<char> {
    "[enumerate] Enumeration call failed with error: "@ + m
}

/// Message reporting that the buffer was filled.
pub open spec fn text_buffer_filled() -> Seq<char> {
    "[enumerate] Successfully filled the printer buffer"@
}

/// Message reporting the start of buffer decoding.
pub open spec fn text_converting() -> Seq<char> {
    "[enumerate] Converting the raw buffer into printer records"@
}

/// Message reporting that the fill call found no printer at all.
pub open spec fn text_no_printers() -> Seq<char> {
    "[enumerate] No printers found"@
}

/// Message reporting how many records were decoded.
pub open spec fn text_records_decoded(n: int) -> Seq<char> {
    "[enumerate] Decoded "@ + decimal_chars(n) + " printer records"@
}

/// The events that a hard enumeration failure appends: the failure
/// itself, then the operating system's error text when one was
/// retrievable.
pub open spec fn failure_events(fail_text: Seq<char>, os_error: Option<Seq<char>>) -> Seq<
    LogEventView,
> {
    match os_error {
        None => seq![ev(LogLevel::Error, fail_text)],
        Some(m) => seq![ev(LogLevel::Error, fail_text), ev(LogLevel::Error, text_os_error(m))],
    }
}

/// The report of the operating system's last-error facility: nothing
/// when the error code is zero, otherwise the lossily decoded text of
/// the system's message.
pub fn describe_last_error(error_code: u32, message_units: &Vec<u16>) -> (r: Option<String>)
    ensures
        r is Some <==> error_code != 0,
        (r matches Some(m) ==> m@ == utf16_decode_lossy(message_units@)),
{
    if error_code == 0 {
        None
    } else {
        Some(decode_utf16_lossy(message_units))
    }
}

fn log_failure(fail_text: String, os_error: &Option<String>, log: &mut DiagLog)
    ensures
        final(log)@ == old(log)@ + failure_events(fail_text@, os_error.deep_view()),
{
    let ghost log_old = log@;
    let ghost fail = fail_text@;
    log.error(fail_text);
    match os_error {
        None => {
            proof {
                assert(log_old.push(ev(LogLevel::Error, fail)) =~= log_old + seq![
                    ev(LogLevel::Error, fail),
                ]);
            }
        },
        Some(m) => {
            let mut s = "[enumerate] Enumeration call failed with error: ".to_owned();
            s.append(m.as_str());
            log.error(s);
            proof {
                assert(log_old.push(ev(LogLevel::Error, fail)).push(
                    ev(LogLevel::Error, text_os_error(m@)),
                ) =~= log_old + seq![
                    ev(LogLevel::Error, fail),
                    ev(LogLevel::Error, text_os_error(m@)),
                ]);
            }
        },
    }
}

/// Judges the first, sizing call of the enumeration protocol.
///
/// That call is made with no buffer, so the operating system reports
/// failure while still setting the required byte size; only a failure
/// that also leaves the size at zero is a hard failure.  `Some(n)` asks
/// the caller to allocate `n` bytes and make the fill call; `None`
/// aborts enumeration with the hard failure logged, and no fill call is
/// to be made.
pub fn assess_sizing_call(
    succeeded: bool,
    bytes_needed: u32,
    os_error: &Option<String>,
    log: &mut DiagLog,
) -> (r: Option<u32>)
    ensures
        r == (if !succeeded && bytes_needed == 0 {
            Option::<u32>::None
        } else {
            Option::Some(bytes_needed)
        }),
        r is Some ==> final(log)@ == old(log)@.push(
            ev(LogLevel::Info, text_bytes_needed(bytes_needed as int)),
        ),
        r is None ==> final(log)@ == old(log)@ + failure_events(
            text_sizing_failed(),
            os_error.deep_view(),
        ),
{
    if !succeeded && bytes_needed == 0 {
        log_failure(
            "[enumerate] Enumeration call failed to set bytes_needed".to_owned(),
            os_error,
            log,
        );
        None
    } else {
        let mut s = "[enumerate] Bytes needed: ".to_owned();
        let num = u64_to_decimal(bytes_needed as u64);
        s.append(num.as_str());
        log.info(s);
        Some(bytes_needed)
    }
}

/// Judges the second, fill call of the enumeration protocol.
///
/// A call that reports failure, or that leaves the returned byte size at
/// zero, is a hard failure: it is logged and the result is `false`, upon
/// which the caller must discard the buffer.  Only a `true` result lets
/// the buffer be decoded.
pub fn assess_fill_call(
    succeeded: bool,
    returned_size: u32,
    os_error: &Option<String>,
    log: &mut DiagLog,
) -> (r: bool)
    ensures
        r == (succeeded && returned_size != 0),
        r ==> final(log)@ == old(log)@.push(ev(LogLevel::Info, text_buffer_filled())),
        !r ==> final(log)@ == old(log)@ + failure_events(
            text_fill_failed(),
            os_error.deep_view(),
        ),
{
    if !succeeded || returned_size == 0 {
        log_failure(
            "[enumerate] Enumeration call failed to fill the printer buffer".to_owned(),
            os_error,
            log,
        );
        false
    } else {
        log.info("[enumerate] Successfully filled the printer buffer".to_owned());
        true
    }
}

/// Turns the filled buffer into printer records.
///
/// With a zero printer count the buffer is never reinterpreted: a
/// warning is logged and the result is empty.  Otherwise the first
/// `count` headers are decoded defensively, and the record list keeps
/// the operating system's order.
pub fn collect_printer_records(buf: &Vec<u8>, count: u32, log: &mut DiagLog) -> (records: Vec<
    PrinterRecord,
>)
    ensures
        count == 0 ==> records@.len() == 0 && final(log)@ == old(log)@ + seq![
            ev(LogLevel::Info, text_converting()),
            ev(LogLevel::Warn, text_no_printers()),
        ],
        count != 0 ==> views_of(records@) == spec_decode_records(buf@, count as int)
            && final(log)@ == old(log)@ + seq![
            ev(LogLevel::Info, text_converting()),
            ev(
                LogLevel::Info,
                text_records_decoded(spec_decode_records(buf@, count as int).len() as int),
            ),
        ],
{
    let ghost log_old = log@;
    log.info("[enumerate] Converting the raw buffer into printer records".to_owned());
    if count == 0 {
        log.warn("[enumerate] No printers found".to_owned());
        proof {
            assert(log_old.push(ev(LogLevel::Info, text_converting())).push(
                ev(LogLevel::Warn, text_no_printers()),
            ) =~= log_old + seq![
                ev(LogLevel::Info, text_converting()),
                ev(LogLevel::Warn, text_no_printers()),
            ]);
        }
        return Vec::new();
    }
    let records = decode_printer_headers(buf, count);
    let mut s = "[enumerate] Decoded ".to_owned();
    proof {
        assert(views_of(records@).len() == records@.len());
    }
    let num = u64_to_decimal(records.len() as u64);
    s.append(num.as_str());
    s.append(" printer records");
    log.info(s);
    proof {
        assert(log_old.push(ev(LogLevel::Info, text_converting())).push(
            ev(
                LogLevel::Info,
                text_records_decoded(spec_decode_records(buf@, count as int).len() as int),
            ),
        ) =~= log_old + seq![
            ev(LogLevel::Info, text_converting()),
            ev(
                LogLevel::Info,
                text_records_decoded(spec_decode_records(buf@, count as int).len() as int),
            ),
        ]);
    }
    records
}

} // verus!
