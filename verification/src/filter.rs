//! Selection of the printers whose port marks a WSD connection.
//!
//! A printer is WSD-connected exactly when its port name, decoded as
//! text, starts with the literal prefix `WSD` (case-sensitive, the
//! operating system's own naming convention for WSD-backed ports).  A
//! port name that does not decode cleanly is treated as a non-match, not
//! as an error.

use vstd::prelude::*;
use vstd::string::StringExecFns;
use crate::decimal::{decimal_chars, u64_to_decimal};
use crate::diag::{ev, DiagLog, LogLevel};
use crate::record::{views_of, PrinterRecord, PrinterRecordView};
use crate::wide::{is_high_surrogate, is_low_surrogate, is_surrogate, pair_scalar, utf16_decode_lossy, utf16_is_wellformed, wf_utf16};

verus! {

/// A port name marks a WSD connection when it is well-formed UTF-16 (it
/// decodes cleanly) and starts with the code units of `W`, `S`, `D`.
pub open spec fn is_wsd_port(units: Seq<u16>) -> bool {
    &&& wf_utf16(units)
    &&& units.len() >= 3
    &&& units[0] == 0x57u16
    &&& units[1] == 0x53u16
    &&& units[2] == 0x44u16
}

/// The records of the list whose port marks a WSD connection, in input
/// order.
pub open spec fn spec_filter_wsd(s: Seq<PrinterRecordView>) -> Seq<PrinterRecordView> {
    s.filter(|v: PrinterRecordView| is_wsd_port(v.port_name))
}

/// Message reporting that the filter got no printers at all.
pub open spec fn text_empty_input() -> Seq<char> {
    "[filter_wsd] Received empty set of printers"@
}

/// Message reporting how many printers the filter searches through.
pub open spec fn text_searching(n: int) -> Seq<char> {
    "[filter_wsd] Searching through "@ + decimal_chars(n) + " printers"@
}

/// Message reporting how many WSD-connected printers were found.
pub open spec fn text_found(n: int) -> Seq<char> {
    "[filter_wsd] Successfully found "@ + decimal_chars(n) + " WSD connected printers"@
}

/// Decides whether a record's port name marks a WSD connection.
pub fn has_wsd_port(r: &PrinterRecord) -> (b: bool)
    ensures
        b == is_wsd_port(r.port_name@),
{
    if r.port_name.len() < 3 {
        return false;
    }
    if !(r.port_name[0] == 0x57 && r.port_name[1] == 0x53 && r.port_name[2] == 0x44) {
        return false;
    }
    utf16_is_wellformed(&r.port_name)
}

proof fn lemma_filter_wsd_push(s: Seq<PrinterRecordView>, x: PrinterRecordView)
    ensures
        spec_filter_wsd(s.push(x)) == (if is_wsd_port(x.port_name) {
            spec_filter_wsd(s).push(x)
        } else {
            spec_filter_wsd(s)
        }),
{
    reveal_with_fuel(Seq::<PrinterRecordView>::filter, 2);
    assert(s.push(x).drop_last() =~= s);
    assert(s.push(x).last() == x);
}

/// The WSD predicate read at the level of text: a port name marks a WSD
/// connection exactly when it is well-formed UTF-16 and its decoding
/// starts with the characters `W`, `S`, `D`.
pub proof fn lemma_wsd_port_means_text_prefix(units: Seq<u16>)
    ensures
        is_wsd_port(units) <==> (wf_utf16(units) && utf16_decode_lossy(units).len() >= 3
            && utf16_decode_lossy(units)[0] == 'W' && utf16_decode_lossy(units)[1] == 'S'
            && utf16_decode_lossy(units)[2] == 'D'),
{
    if wf_utf16(units) {
        if units.len() >= 3 && !is_surrogate(units[0]) && !is_surrogate(units[1])
            && !is_surrogate(units[2]) {
            let t0 = units.drop_first();
            let t1 = t0.drop_first();
            assert(t0[0] == units[1] && t1[0] == units[2]);
            assert(utf16_decode_lossy(units) == seq![(units[0] as u32) as char]
                + utf16_decode_lossy(t0));
            assert(utf16_decode_lossy(t0) == seq![(t0[0] as u32) as char] + utf16_decode_lossy(
                t1,
            ));
            assert(utf16_decode_lossy(t1) == seq![(t1[0] as u32) as char] + utf16_decode_lossy(
                t1.drop_first(),
            ));
            assert(utf16_decode_lossy(units)[0] == (units[0] as u32) as char);
            assert(utf16_decode_lossy(units)[1] == (units[1] as u32) as char);
            assert(utf16_decode_lossy(units)[2] == (units[2] as u32) as char);
        }
        if is_wsd_port(units) {
            assert(('W' as u32) == 0x57 && ('S' as u32) == 0x53 && ('D' as u32) == 0x44);
            vstd::utf8::char_u32_cast('W', units[0] as u32);
            vstd::utf8::char_u32_cast('S', units[1] as u32);
            vstd::utf8::char_u32_cast('D', units[2] as u32);
        }
        if !is_wsd_port(units) && utf16_decode_lossy(units).len() >= 3 {
            lemma_wsd_text_prefix_reverse(units);
        }
    }
}

proof fn lemma_wsd_text_prefix_reverse(units: Seq<u16>)
    requires
        wf_utf16(units),
        !is_wsd_port(units),
        utf16_decode_lossy(units).len() >= 3,
    ensures
        !(utf16_decode_lossy(units)[0] == 'W' && utf16_decode_lossy(units)[1] == 'S'
            && utf16_decode_lossy(units)[2] == 'D'),
{
    let t = utf16_decode_lossy(units);
    if t[0] == 'W' && t[1] == 'S' && t[2] == 'D' {
        // Walk the first three decoded characters.  Each of `W`, `S`, `D`
        // is no surrogate and no pair scalar, so each must come from one
        // plain code unit of the same value, making the port a WSD port
        // after all.
        lemma_wsd_char_unit(units, 'W', 0x57);
        let u1 = units.drop_first();
        assert(utf16_decode_lossy(u1) == t.drop_first());
        assert(utf16_decode_lossy(u1)[0] == t[1]);
        lemma_wsd_char_unit(u1, 'S', 0x53);
        let u2 = u1.drop_first();
        assert(utf16_decode_lossy(u2) == t.drop_first().drop_first());
        assert(utf16_decode_lossy(u2)[0] == t[2]);
        lemma_wsd_char_unit(u2, 'D', 0x44);
        assert(u1[0] == units[1] && u2[0] == u1[1] && u1[1] == units[2]);
        assert(is_wsd_port(units));
    }
}

proof fn lemma_wsd_char_unit(units: Seq<u16>, c: char, code: u16)
    requires
        wf_utf16(units),
        utf16_decode_lossy(units).len() >= 1,
        utf16_decode_lossy(units)[0] == c,
        c as u32 == code,
        code < 0xD800,
    ensures
        units.len() >= 1,
        units[0] == code,
        !is_surrogate(units[0]),
        utf16_decode_lossy(units.drop_first()) == utf16_decode_lossy(units).drop_first(),
        wf_utf16(units.drop_first()),
{
    assert(units.len() >= 1);
    if !is_surrogate(units[0]) {
        assert(utf16_decode_lossy(units) == seq![(units[0] as u32) as char]
            + utf16_decode_lossy(units.drop_first()));
        assert(c == (units[0] as u32) as char);
        vstd::utf8::char_u32_cast(c, code as u32);
        assert((units[0] as u32) as char as u32 == units[0] as u32) by {
            vstd::utf8::char_u32_cast((units[0] as u32) as char, units[0] as u32);
        }
        assert(utf16_decode_lossy(units).drop_first() =~= utf16_decode_lossy(
            units.drop_first(),
        ));
    } else {
        // Well-formedness forces a high-low pair, whose scalar is at
        // least 0x10000 and so cannot be the plain character `c`.
        assert(is_high_surrogate(units[0]) && units.len() >= 2
            && is_low_surrogate(units[1]));
        let p = pair_scalar(units[0], units[1]);
        assert(p >= 0x10000);
        assert(utf16_decode_lossy(units)[0] == p as char);
        assert((p as char) as u32 == p) by {
            vstd::utf8::char_u32_cast(p as char, p);
        }
        assert(false);
    }
}

/// The filter is stable: its result lists, in input order, exactly the
/// records whose port name marks a WSD connection.
pub proof fn lemma_filter_wsd_stable(s: Seq<PrinterRecordView>)
    ensures
        subsequence_of(spec_filter_wsd(s), s),
        forall|i: int|
            0 <= i < spec_filter_wsd(s).len() ==> is_wsd_port(
                (#[trigger] spec_filter_wsd(s)[i]).port_name,
            ),
        forall|v: PrinterRecordView| #[trigger]
            spec_filter_wsd(s).contains(v) <==> (s.contains(v) && is_wsd_port(v.port_name)),
    decreases s.len(),
{
    broadcast use vstd::seq_lib::group_filter_ensures;

    if s.len() == 0 {
        assert(spec_filter_wsd(s) =~= Seq::<PrinterRecordView>::empty());
    } else {
        let t = s.drop_last();
        let x = s.last();
        lemma_filter_wsd_stable(t);
        assert(t.push(x) =~= s);
        lemma_filter_wsd_push(t, x);
        if is_wsd_port(x.port_name) {
            assert(spec_filter_wsd(s) == spec_filter_wsd(t).push(x));
            assert(spec_filter_wsd(s).drop_last() =~= spec_filter_wsd(t));
            assert(subsequence_of(spec_filter_wsd(s), s));
        } else {
            lemma_subsequence_push(spec_filter_wsd(t), t, x);
        }
        assert forall|v: PrinterRecordView| #[trigger]
            spec_filter_wsd(s).contains(v) <==> (s.contains(v) && is_wsd_port(
                v.port_name,
            )) by {
            if spec_filter_wsd(s).contains(v) {
                let j = choose|j: int|
                    0 <= j < spec_filter_wsd(s).len() && spec_filter_wsd(s)[j] == v;
                if is_wsd_port(x.port_name) && j == spec_filter_wsd(s).len() - 1 {
                    assert(s[s.len() - 1] == v);
                } else {
                    assert(spec_filter_wsd(t).contains(v));
                    assert(t.contains(v));
                    let k = choose|k: int| 0 <= k < t.len() && t[k] == v;
                    assert(s[k] == v);
                }
            }
            if s.contains(v) && is_wsd_port(v.port_name) {
                let j = choose|j: int| 0 <= j < s.len() && s[j] == v;
                if j == s.len() - 1 {
                    assert(spec_filter_wsd(s).contains(v)) by {
                        if is_wsd_port(x.port_name) {
                            assert(spec_filter_wsd(s).last() == v);
                        }
                    }
                } else {
                    assert(t[j] == v);
                    assert(t.contains(v));
                    assert(spec_filter_wsd(t).contains(v));
                    let k = choose|k: int|
                        0 <= k < spec_filter_wsd(t).len() && spec_filter_wsd(t)[k] == v;
                    assert(spec_filter_wsd(s)[k] == v);
                }
            }
        }
    }
}

/// `a` lists some of `b`'s entries in `b`'s order.
pub open spec fn subsequence_of(a: Seq<PrinterRecordView>, b: Seq<PrinterRecordView>) -> bool
    decreases a.len() + b.len(),
{
    if a.len() == 0 {
        true
    } else if b.len() == 0 {
        false
    } else if a.last() == b.last() {
        subsequence_of(a.drop_last(), b.drop_last())
    } else {
        subsequence_of(a, b.drop_last())
    }
}

proof fn lemma_subsequence_drop(a: Seq<PrinterRecordView>, b: Seq<PrinterRecordView>)
    requires
        subsequence_of(a, b),
        a.len() > 0,
    ensures
        subsequence_of(a.drop_last(), b),
    decreases a.len() + b.len(),
{
    let ad = a.drop_last();
    let bd = b.drop_last();
    if a.last() == b.last() {
        if ad.len() > 0 && ad.last() == b.last() {
            lemma_subsequence_drop(ad, bd);
        }
    } else {
        lemma_subsequence_drop(a, bd);
        if ad.len() > 0 && ad.last() == b.last() {
            lemma_subsequence_drop(ad, bd);
        }
    }
}

proof fn lemma_subsequence_push(
    a: Seq<PrinterRecordView>,
    b: Seq<PrinterRecordView>,
    x: PrinterRecordView,
)
    requires
        subsequence_of(a, b),
    ensures
        subsequence_of(a, b.push(x)),
{
    if a.len() > 0 {
        assert(b.push(x).last() == x);
        assert(b.push(x).drop_last() =~= b);
        if a.last() == x {
            lemma_subsequence_drop(a, b);
        }
    }
}

/// Filtering is idempotent: filtering an already filtered list changes
/// nothing.
pub proof fn lemma_filter_wsd_idempotent(s: Seq<PrinterRecordView>)
    ensures
        spec_filter_wsd(spec_filter_wsd(s)) == spec_filter_wsd(s),
    decreases s.len(),
{
    if s.len() == 0 {
        assert(spec_filter_wsd(s) =~= Seq::<PrinterRecordView>::empty());
        assert(spec_filter_wsd(spec_filter_wsd(s)) =~= Seq::<PrinterRecordView>::empty());
    } else {
        let t = s.drop_last();
        let x = s.last();
        lemma_filter_wsd_idempotent(t);
        assert(t.push(x) =~= s);
        lemma_filter_wsd_push(t, x);
        if is_wsd_port(x.port_name) {
            lemma_filter_wsd_push(spec_filter_wsd(t), x);
        }
    }
}

/// Retains exactly the records whose port name marks a WSD connection,
/// in input order; logs the input and output counts, or a warning when
/// the input is empty.
pub fn filter_wsd(records: &Vec<PrinterRecord>, log: &mut DiagLog) -> (r: Vec<PrinterRecord>)
    ensures
        views_of(r@) == spec_filter_wsd(views_of(records@)),
        records@.len() == 0 ==> final(log)@ == old(log)@.push(
            ev(LogLevel::Warn, text_empty_input()),
        ),
        records@.len() > 0 ==> final(log)@ == old(log)@ + seq![
            ev(LogLevel::Info, text_searching(records@.len() as int)),
            ev(
                LogLevel::Info,
                text_found(spec_filter_wsd(views_of(records@)).len() as int),
            ),
        ],
{
    if records.len() == 0 {
        log.warn("[filter_wsd] Received empty set of printers".to_owned());
        let r: Vec<PrinterRecord> = Vec::new();
        proof {
            assert(views_of(records@) =~= Seq::<PrinterRecordView>::empty());
            assert(views_of(r@) =~= spec_filter_wsd(views_of(records@)));
        }
        return r;
    }
    let ghost log_old = log@;
    let mut s = "[filter_wsd] Searching through ".to_owned();
    let num = u64_to_decimal(records.len() as u64);
    s.append(num.as_str());
    s.append(" printers");
    log.info(s);

    let mut r: Vec<PrinterRecord> = Vec::new();
    let mut i: usize = 0;
    proof {
        assert(views_of(records@.take(0)) =~= Seq::<PrinterRecordView>::empty());
        assert(views_of(r@) =~= spec_filter_wsd(views_of(records@.take(0))));
    }
    while i < records.len()
        invariant
            i <= records@.len(),
            views_of(r@) == spec_filter_wsd(views_of(records@.take(i as int))),
        decreases records@.len() - i,
    {
        let ghost views_old = views_of(r@);
        let ghost prefix = views_of(records@.take(i as int));
        if has_wsd_port(&records[i]) {
            let dup = records[i].duplicate();
            r.push(dup);
            proof {
                assert(views_of(r@) =~= views_old.push(records@[i as int]@));
            }
        }
        proof {
            assert(views_of(records@.take(i + 1)) =~= prefix.push(records@[i as int]@));
            lemma_filter_wsd_push(prefix, records@[i as int]@);
        }
        i = i + 1;
    }
    proof {
        assert(records@.take(i as int) =~= records@);
    }
    let mut s2 = "[filter_wsd] Successfully found ".to_owned();
    let num2 = u64_to_decimal(r.len() as u64);
    s2.append(num2.as_str());
    s2.append(" WSD connected printers");
    log.info(s2);
    proof {
        assert(views_of(r@).len() == r@.len());
        assert(log_old.push(ev(LogLevel::Info, text_searching(records@.len() as int))).push(
            ev(
                LogLevel::Info,
                text_found(spec_filter_wsd(views_of(records@)).len() as int),
            ),
        ) =~= log_old + seq![
            ev(LogLevel::Info, text_searching(records@.len() as int)),
            ev(
                LogLevel::Info,
                text_found(spec_filter_wsd(views_of(records@)).len() as int),
            ),
        ]);
    }
    r
}

} // verus!
