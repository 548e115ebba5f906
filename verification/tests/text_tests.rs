use wsd_printers::decimal::u64_to_decimal;
use wsd_printers::diag::{DiagLog, LogLevel};
use wsd_printers::record::PrinterRecord;
use wsd_printers::report::{render_block, render_report};
use wsd_printers::wide::{decode_utf16_lossy, utf16_is_wellformed};

fn wide(s: &str) -> Vec<u16> {
    s.encode_utf16().collect()
}

#[test]
fn decimal_spells_small_and_large_counters() {
    assert_eq!(u64_to_decimal(0), "0");
    assert_eq!(u64_to_decimal(7), "7");
    assert_eq!(u64_to_decimal(10), "10");
    assert_eq!(u64_to_decimal(1024), "1024");
    assert_eq!(u64_to_decimal(4294967295), "4294967295");
}

#[test]
fn decode_ascii_round_trips() {
    assert_eq!(decode_utf16_lossy(&wide("WSD-abc")), "WSD-abc");
    assert_eq!(decode_utf16_lossy(&Vec::new()), "");
}

#[test]
fn decode_surrogate_pair_yields_one_character() {
    let units: Vec<u16> = vec![0xD83D, 0xDE00];
    assert_eq!(decode_utf16_lossy(&units), "\u{1F600}");
}

#[test]
fn decode_unpaired_surrogate_yields_replacement() {
    let units: Vec<u16> = vec![0x41, 0xD800, 0x42];
    assert_eq!(decode_utf16_lossy(&units), "A\u{FFFD}B");
    let lone_low: Vec<u16> = vec![0xDC00];
    assert_eq!(decode_utf16_lossy(&lone_low), "\u{FFFD}");
}

#[test]
fn wellformedness_tracks_surrogate_pairing() {
    assert!(utf16_is_wellformed(&wide("plain")));
    assert!(utf16_is_wellformed(&vec![0xD83D, 0xDE00]));
    assert!(!utf16_is_wellformed(&vec![0xD83D]));
    assert!(!utf16_is_wellformed(&vec![0xDE00, 0xD83D]));
    assert!(!utf16_is_wellformed(&vec![0x41, 0xD800, 0x42]));
}

#[test]
fn block_prints_all_three_fields() {
    let r = PrinterRecord {
        printer_name: wide("Alpha"),
        port_name: wide("WSD-abc"),
        driver_name: wide("DrvA"),
    };
    assert_eq!(
        render_block(&r),
        "Printer Name: Alpha\n Port Name: WSD-abc\n Driver Name: DrvA\n"
    );
}

#[test]
fn end_to_end_report_prints_one_block_for_the_wsd_printer() {
    let records = vec![
        PrinterRecord {
            printer_name: wide("Alpha"),
            port_name: wide("WSD-abc"),
            driver_name: wide("DrvA"),
        },
        PrinterRecord {
            printer_name: wide("Beta"),
            port_name: wide("LPT1"),
            driver_name: wide("DrvB"),
        },
    ];
    let mut log = DiagLog::new();
    let selected = wsd_printers::filter::filter_wsd(&records, &mut log);
    let report = render_report(&selected);
    assert_eq!(report, "Printer Name: Alpha\n Port Name: WSD-abc\n Driver Name: DrvA\n");
    assert_eq!(report.matches("Printer Name: ").count(), 1);
}

#[test]
fn diag_log_keeps_call_order() {
    let mut log = DiagLog::new();
    log.info(String::from("one"));
    log.warn(String::from("two"));
    log.error(String::from("three"));
    assert_eq!(log.events.len(), 3);
    assert!(log.events[0].level == LogLevel::Info);
    assert_eq!(log.events[0].text, "one");
    assert!(log.events[1].level == LogLevel::Warn);
    assert_eq!(log.events[1].text, "two");
    assert!(log.events[2].level == LogLevel::Error);
    assert_eq!(log.events[2].text, "three");
}

#[test]
fn report_of_no_records_is_empty() {
    let report = render_report(&Vec::new());
    assert_eq!(report, "");
}
