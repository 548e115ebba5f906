//! Decoding of the packed buffer that the enumeration call fills.
//!
//! The operating system writes a sequence of fixed-size header records at
//! the start of the buffer; each header stores references to
//! null-terminated wide-character strings placed elsewhere in the same
//! buffer, alongside numeric attributes that this tool does not read.
//! The library models a stored reference as a little-endian 32-bit byte
//! offset from the start of the buffer, with zero standing for a null
//! reference.  All interpretation is bounds-checked and fails closed: a
//! reference that is null, points outside the buffer, or does not reach a
//! terminator yields the empty string, and only headers that lie whole
//! inside the buffer are decoded.

use vstd::prelude::*;
use crate::record::{views_of, PrinterRecord, PrinterRecordView};

verus! {

/// Number of bytes of one fixed-size printer header: three stored string
/// references (printer name, port name, driver name) and one numeric
/// attribute word that is not read.
pub const HEADER_BYTES: usize = 16;

/// The little-endian 16-bit value at byte offset `i`.
pub open spec fn u16_le_at(buf: Seq<u8>, i: int) -> u16 {
    (buf[i] + buf[i + 1] * 0x100) as u16
}

/// The little-endian 32-bit value at byte offset `i`.
pub open spec fn u32_le_at(buf: Seq<u8>, i: int) -> u32 {
    (buf[i] + buf[i + 1] * 0x100 + buf[i + 2] * 0x10000 + buf[i + 3] * 0x1000000) as u32
}

/// Reads the little-endian 16-bit value at byte offset `i`.
pub fn read_u16_le(buf: &Vec<u8>, i: usize) -> (r: u16)
    requires
        i + 2 <= buf.len(),
    ensures
        r == u16_le_at(buf@, i as int),
{
    let lo = buf[i];
    let hi = buf[i + 1];
    lo as u16 + hi as u16 * 0x100
}

/// Reads the little-endian 32-bit value at byte offset `i`.
pub fn read_u32_le(buf: &Vec<u8>, i: usize) -> (r: u32)
    requires
        i + 4 <= buf.len(),
    ensures
        r == u32_le_at(buf@, i as int),
{
    let b0 = buf[i];
    let b1 = buf[i + 1];
    let b2 = buf[i + 2];
    let b3 = buf[i + 3];
    b0 as u32 + b1 as u32 * 0x100 + b2 as u32 * 0x10000 + b3 as u32 * 0x1000000
}

/// The code units scanned forward from byte offset `off` up to a zero
/// unit, or `None` when no terminator lies whole inside the buffer.
pub open spec fn wide_units_from(buf: Seq<u8>, off: int) -> Option<Seq<u16>>
    decreases buf.len() - off,
{
    if off < 0 || off + 2 > buf.len() {
        None
    } else if u16_le_at(buf, off) == 0 {
        Some(Seq::empty())
    } else {
        match wide_units_from(buf, off + 2) {
            None => None,
            Some(rest) => Some(seq![u16_le_at(buf, off)] + rest),
        }
    }
}

/// The wide string that a stored field reference denotes: empty when the
/// reference is null (offset zero) or reaches no terminator inside the
/// buffer.
pub open spec fn field_units(buf: Seq<u8>, off: u32) -> Seq<u16> {
    if off == 0 {
        Seq::empty()
    } else {
        match wide_units_from(buf, off as int) {
            None => Seq::empty(),
            Some(u) => u,
        }
    }
}

/// Resolves a stored field reference to the wide string it denotes,
/// scanning forward to the terminator and never past the buffer.
pub fn resolve_field(buf: &Vec<u8>, off: u32) -> (units: Vec<u16>)
    ensures
        units@ == field_units(buf@, off),
{
    let mut units: Vec<u16> = Vec::new();
    if off == 0 {
        return units;
    }
    let mut pos: usize = off as usize;
    while pos < buf.len() && pos + 1 < buf.len()
        invariant
            off != 0,
            pos >= off,
            wide_units_from(buf@, off as int) == (match wide_units_from(buf@, pos as int) {
                Option::None => Option::<Seq<u16>>::None,
                Option::Some(rest) => Option::Some(units@ + rest),
            }),
        decreases buf@.len() - pos,
    {
        let u = read_u16_le(buf, pos);
        if u == 0 {
            proof {
                assert(units@ + Seq::<u16>::empty() =~= units@);
            }
            return units;
        }
        let ghost units_old = units@;
        units.push(u);
        proof {
            if wide_units_from(buf@, pos + 2) is Some {
                let rest = wide_units_from(buf@, pos + 2)->Some_0;
                assert(units_old + (seq![u] + rest) =~= units@ + rest);
            }
        }
        pos = pos + 2;
    }
    proof {
        assert(wide_units_from(buf@, pos as int) is None);
    }
    let empty_units: Vec<u16> = Vec::new();
    empty_units
}

/// The record that header `i` of the buffer denotes.
pub open spec fn spec_record_at(buf: Seq<u8>, i: int) -> PrinterRecordView {
    PrinterRecordView {
        printer_name: field_units(buf, u32_le_at(buf, HEADER_BYTES * i)),
        port_name: field_units(buf, u32_le_at(buf, HEADER_BYTES * i + 4)),
        driver_name: field_units(buf, u32_le_at(buf, HEADER_BYTES * i + 8)),
    }
}

/// How many whole headers the buffer can hold.
pub open spec fn header_capacity(buf: Seq<u8>) -> int {
    buf.len() as int / HEADER_BYTES as int
}

/// The records denoted by the first `count` headers, clamped to the
/// headers that lie whole inside the buffer.
pub open spec fn spec_decode_records(buf: Seq<u8>, count: int) -> Seq<PrinterRecordView> {
    let n = if count <= header_capacity(buf) {
        count
    } else {
        header_capacity(buf)
    };
    Seq::new(if n >= 0 {
        n as nat
    } else {
        0
    }, |i: int| spec_record_at(buf, i))
}

/// Reinterprets the first `count` fixed-size headers of the buffer as
/// printer records, resolving each stored string reference defensively.
pub fn decode_printer_headers(buf: &Vec<u8>, count: u32) -> (records: Vec<PrinterRecord>)
    ensures
        views_of(records@) == spec_decode_records(buf@, count as int),
{
    let mut records: Vec<PrinterRecord> = Vec::new();
    let capacity: usize = buf.len() / HEADER_BYTES;
    let n: usize = if (count as usize) <= capacity {
        count as usize
    } else {
        capacity
    };
    let mut i: usize = 0;
    proof {
        assert(views_of(records@) =~= spec_decode_records(buf@, count as int).take(0));
    }
    while i < n
        invariant
            i <= n,
            n <= count,
            n <= header_capacity(buf@),
            buf.len() == buf@.len(),
            n == spec_decode_records(buf@, count as int).len(),
            views_of(records@) == spec_decode_records(buf@, count as int).take(i as int),
        decreases n - i,
    {
        proof {
            assert(HEADER_BYTES as int * header_capacity(buf@) <= buf@.len()) by (nonlinear_arith);
            assert(i + 1 <= header_capacity(buf@));
            assert(HEADER_BYTES as int * (i + 1) <= HEADER_BYTES as int * header_capacity(buf@))
                by (nonlinear_arith)
                requires
                    i + 1 <= header_capacity(buf@),
            ;
        }
        let base: usize = i * HEADER_BYTES;
        let printer_off = read_u32_le(buf, base);
        let port_off = read_u32_le(buf, base + 4);
        let driver_off = read_u32_le(buf, base + 8);
        let rec = PrinterRecord {
            printer_name: resolve_field(buf, printer_off),
            port_name: resolve_field(buf, port_off),
            driver_name: resolve_field(buf, driver_off),
        };
        let ghost views_old = views_of(records@);
        proof {
            assert(rec@ == spec_record_at(buf@, i as int));
        }
        records.push(rec);
        proof {
            assert(views_of(records@) =~= views_old.push(rec@));
            assert(views_old.push(rec@) =~= spec_decode_records(buf@, count as int).take(
                i + 1,
            ));
        }
        i = i + 1;
    }
    proof {
        assert(spec_decode_records(buf@, count as int).take(i as int) =~= spec_decode_records(
            buf@,
            count as int,
        ));
    }
    records
}

} // verus!
