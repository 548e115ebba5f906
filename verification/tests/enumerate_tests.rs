use wsd_printers::buffer::{decode_printer_headers, resolve_field, HEADER_BYTES};
use wsd_printers::diag::{DiagLog, LogLevel};
use wsd_printers::enumerate::{
    assess_fill_call, assess_sizing_call, collect_printer_records, describe_last_error,
};
use wsd_printers::filter::filter_wsd;

fn wide(s: &str) -> Vec<u16> {
    s.encode_utf16().collect()
}

fn push_u32_le(buf: &mut Vec<u8>, v: u32) {
    buf.push((v & 0xFF) as u8);
    buf.push(((v >> 8) & 0xFF) as u8);
    buf.push(((v >> 16) & 0xFF) as u8);
    buf.push(((v >> 24) & 0xFF) as u8);
}

fn push_wide_nul(buf: &mut Vec<u8>, s: &str) -> u32 {
    let off = buf.len() as u32;
    for u in s.encode_utf16() {
        buf.push((u & 0xFF) as u8);
        buf.push((u >> 8) as u8);
    }
    buf.push(0);
    buf.push(0);
    off
}

/// Builds a packed buffer in the library's layout: `count` headers of
/// three string offsets and one attribute word, then the string data.
fn build_buffer(entries: &[(&str, &str, &str)]) -> Vec<u8> {
    let header_area = entries.len() * HEADER_BYTES;
    let mut strings: Vec<u8> = Vec::new();
    let mut offsets: Vec<(u32, u32, u32)> = Vec::new();
    for (printer, port, driver) in entries {
        let p = push_wide_nul(&mut strings, printer) + header_area as u32;
        let q = push_wide_nul(&mut strings, port) + header_area as u32;
        let d = push_wide_nul(&mut strings, driver) + header_area as u32;
        offsets.push((p, q, d));
    }
    let mut buf: Vec<u8> = Vec::new();
    for (p, q, d) in &offsets {
        push_u32_le(&mut buf, *p);
        push_u32_le(&mut buf, *q);
        push_u32_le(&mut buf, *d);
        push_u32_le(&mut buf, 0);
    }
    buf.extend_from_slice(&strings);
    buf
}

#[test]
fn decode_synthetic_buffer_three_records() {
    let buf = build_buffer(&[
        ("PrinterA", "WSD123", "DriverA"),
        ("PrinterB", "USB001", "DriverB"),
        ("PrinterC", "WSDxyz", "DriverC"),
    ]);
    let mut log = DiagLog::new();
    let records = collect_printer_records(&buf, 3, &mut log);
    assert_eq!(records.len(), 3);
    assert_eq!(records[0].port_name, wide("WSD123"));
    assert_eq!(records[1].port_name, wide("USB001"));
    assert_eq!(records[2].port_name, wide("WSDxyz"));
    assert_eq!(records[0].printer_name, wide("PrinterA"));
    assert_eq!(records[2].driver_name, wide("DriverC"));

    let selected = filter_wsd(&records, &mut log);
    assert_eq!(selected.len(), 2);
    assert_eq!(selected[0].port_name, wide("WSD123"));
    assert_eq!(selected[1].port_name, wide("WSDxyz"));
}

#[test]
fn null_driver_reference_yields_empty_driver() {
    let mut buf = build_buffer(&[("PrinterA", "WSD123", "DriverA")]);
    // Overwrite the driver reference with a null offset.
    buf[8] = 0;
    buf[9] = 0;
    buf[10] = 0;
    buf[11] = 0;
    let mut log = DiagLog::new();
    let records = collect_printer_records(&buf, 1, &mut log);
    assert_eq!(records.len(), 1);
    assert_eq!(records[0].driver_name, wide(""));
    assert_eq!(records[0].port_name, wide("WSD123"));
}

#[test]
fn out_of_bounds_reference_yields_empty_field() {
    let buf = build_buffer(&[("PrinterA", "WSD123", "DriverA")]);
    let len = buf.len() as u32;
    assert_eq!(resolve_field(&buf, len), Vec::<u16>::new());
    assert_eq!(resolve_field(&buf, len + 40), Vec::<u16>::new());
}

#[test]
fn unterminated_reference_yields_empty_field() {
    // Two code units and no terminator before the end of the buffer.
    let buf: Vec<u8> = vec![0x57, 0x00, 0x53, 0x00];
    assert_eq!(resolve_field(&buf, 0), Vec::<u16>::new());
    assert_eq!(resolve_field(&buf, 2), Vec::<u16>::new());
}

#[test]
fn count_beyond_capacity_is_clamped() {
    let buf = build_buffer(&[("PrinterA", "WSD123", "DriverA")]);
    // Asking for more headers than fit in the buffer decodes only those
    // that lie whole inside it: everything after the first header is
    // string data, misread as further headers but bounds-checked.
    let records = decode_printer_headers(&buf, 1000000);
    assert_eq!(records.len(), buf.len() / HEADER_BYTES);
    assert_eq!(records[0].port_name, wide("WSD123"));
}

#[test]
fn sizing_failure_with_zero_size_aborts_and_logs() {
    let mut log = DiagLog::new();
    let plan = assess_sizing_call(false, 0, &None, &mut log);
    assert!(plan.is_none());
    assert_eq!(log.events.len(), 1);
    assert!(log.events[0].level == LogLevel::Error);
    assert_eq!(log.events[0].text, "[enumerate] Enumeration call failed to set bytes_needed");
}

#[test]
fn sizing_failure_logs_os_error_text() {
    let mut log = DiagLog::new();
    let plan = assess_sizing_call(false, 0, &Some(String::from("Access is denied.")), &mut log);
    assert!(plan.is_none());
    assert_eq!(log.events.len(), 2);
    assert!(log.events[1].level == LogLevel::Error);
    assert_eq!(
        log.events[1].text,
        "[enumerate] Enumeration call failed with error: Access is denied."
    );
}

#[test]
fn sizing_failure_with_size_set_proceeds() {
    let mut log = DiagLog::new();
    let plan = assess_sizing_call(false, 1024, &None, &mut log);
    assert_eq!(plan, Some(1024));
    assert_eq!(log.events.len(), 1);
    assert!(log.events[0].level == LogLevel::Info);
    assert_eq!(log.events[0].text, "[enumerate] Bytes needed: 1024");
}

#[test]
fn fill_failure_aborts_and_logs() {
    let mut log = DiagLog::new();
    assert!(!assess_fill_call(false, 512, &None, &mut log));
    assert!(log.events[0].level == LogLevel::Error);
    assert!(!assess_fill_call(true, 0, &None, &mut log));
    assert!(assess_fill_call(true, 512, &None, &mut log));
    assert!(log.events[log.events.len() - 1].level == LogLevel::Info);
}

#[test]
fn zero_count_returns_empty_without_decoding() {
    let buf = build_buffer(&[("PrinterA", "WSD123", "DriverA")]);
    let mut log = DiagLog::new();
    let records = collect_printer_records(&buf, 0, &mut log);
    assert!(records.is_empty());
    assert_eq!(log.events.len(), 2);
    assert!(log.events[1].level == LogLevel::Warn);
    assert_eq!(log.events[1].text, "[enumerate] No printers found");
}

#[test]
fn last_error_zero_code_means_no_report() {
    assert_eq!(describe_last_error(0, &wide("ignored")), None);
}

#[test]
fn last_error_nonzero_code_decodes_message() {
    let r = describe_last_error(5, &wide("Access is denied."));
    assert_eq!(r, Some(String::from("Access is denied.")));
}
