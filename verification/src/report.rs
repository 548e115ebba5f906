//! Rendering of the final report: one multi-line block per printer.

use vstd::prelude::*;
use vstd::string::StringExecFns;
use crate::record::{views_of, PrinterRecord, PrinterRecordView};
use crate::wide::{decode_utf16_lossy, utf16_decode_lossy};

verus! {

/// The text of one printer's report block: the three fields, decoded
/// lossily, each on its own line.
pub open spec fn spec_report_block(v: PrinterRecordView) -> Seq<char> {
    "Printer Name: "@ + utf16_decode_lossy(v.printer_name) + "\n Port Name: "@
        + utf16_decode_lossy(v.port_name) + "\n Driver Name: "@ + utf16_decode_lossy(
        v.driver_name,
    ) + "\n"@
}

/// The whole report: the blocks of all records, in order.
pub open spec fn spec_report(s: Seq<PrinterRecordView>) -> Seq<char>
    decreases s.len(),
{
    if s.len() == 0 {
        Seq::empty()
    } else {
        spec_report_block(s[0]) + spec_report(s.drop_first())
    }
}

/// Renders one printer's report block.
pub fn render_block(r: &PrinterRecord) -> (s: String)
    ensures
        s@ == spec_report_block(r@),
{
    let mut s = "Printer Name: ".to_owned();
    let printer = decode_utf16_lossy(&r.printer_name);
    s.append(printer.as_str());
    s.append("\n Port Name: ");
    let port = decode_utf16_lossy(&r.port_name);
    s.append(port.as_str());
    s.append("\n Driver Name: ");
    let driver = decode_utf16_lossy(&r.driver_name);
    s.append(driver.as_str());
    s.append("\n");
    s
}

/// Renders the report of the given records, in order.
pub fn render_report(records: &Vec<PrinterRecord>) -> (s: String)
    ensures
        s@ == spec_report(views_of(records@)),
{
    let mut s = String::new();
    let mut i: usize = 0;
    proof {
        assert(views_of(records@).skip(0) =~= views_of(records@));
        assert(s@ + spec_report(views_of(records@)) =~= spec_report(views_of(records@)));
    }
    while i < records.len()
        invariant
            i <= records@.len(),
            views_of(records@).len() == records@.len(),
            spec_report(views_of(records@)) == s@ + spec_report(
                views_of(records@).skip(i as int),
            ),
        decreases records@.len() - i,
    {
        let ghost tail = views_of(records@).skip(i as int);
        let ghost s_old = s@;
        proof {
            assert(tail[0] == views_of(records@)[i as int]);
            assert(tail.drop_first() =~= views_of(records@).skip(i + 1));
        }
        let block = render_block(&records[i]);
        s.append(block.as_str());
        proof {
            assert(spec_report(tail) == spec_report_block(records@[i as int]@) + spec_report(
                views_of(records@).skip(i + 1),
            ));
            assert(s_old + spec_report(tail) =~= s@ + spec_report(
                views_of(records@).skip(i + 1),
            ));
        }
        i = i + 1;
    }
    proof {
        assert(views_of(records@).skip(i as int) =~= Seq::<PrinterRecordView>::empty());
        assert(s@ + Seq::<char>::empty() =~= s@);
    }
    s
}

} // verus!
