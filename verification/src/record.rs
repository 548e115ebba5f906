//! The structured result of enumeration: one record per printer.

use vstd::prelude::*;

verus! {

/// One locally registered printer, as enumeration reports it.
///
/// Each field holds the wide-character (UTF-16) code units of a
/// null-terminated string copied out of the buffer that the operating
/// system filled; the terminator itself is not kept.  A field whose
/// stored reference was null or unreadable is the empty string.
pub struct PrinterRecord {
    pub printer_name: Vec<u16>,
    pub port_name: Vec<u16>,
    pub driver_name: Vec<u16>,
}

/// The mathematical value of a record: three code-unit sequences.
pub ghost struct PrinterRecordView {
    pub printer_name: Seq<u16>,
    pub port_name: Seq<u16>,
    pub driver_name: Seq<u16>,
}

impl View for PrinterRecord {
    type V = PrinterRecordView;

    open spec fn view(&self) -> PrinterRecordView {
        PrinterRecordView {
            printer_name: self.printer_name@,
            port_name: self.port_name@,
            driver_name: self.driver_name@,
        }
    }
}

/// The views of a whole list of records.
pub open spec fn views_of(s: Seq<PrinterRecord>) -> Seq<PrinterRecordView> {
    s.map_values(|p: PrinterRecord| p@)
}

/// Copies a list of code units.
pub(crate) fn copy_units(v: &Vec<u16>) -> (r: Vec<u16>)
    ensures
        r@ == v@,
{
    let mut r: Vec<u16> = Vec::new();
    let mut i: usize = 0;
    while i < v.len()
        invariant
            i <= v.len(),
            r@ == v@.take(i as int),
        decreases v.len() - i,
    {
        r.push(v[i]);
        proof {
            assert(v@.take(i as int).push(v@[i as int]) =~= v@.take(i + 1));
        }
        i = i + 1;
    }
    proof {
        assert(v@.take(i as int) =~= v@);
    }
    r
}

impl PrinterRecord {
    /// Copies the record field by field.
    pub fn duplicate(&self) -> (r: PrinterRecord)
        ensures
            r@ == self@,
    {
        PrinterRecord {
            printer_name: copy_units(&self.printer_name),
            port_name: copy_units(&self.port_name),
            driver_name: copy_units(&self.driver_name),
        }
    }
}

} // verus!
