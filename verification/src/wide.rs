//! Wide-character (UTF-16) text as the operating system hands it out.
//!
//! Printer names, port names and driver names arrive as sequences of
//! 16-bit code units that may be ill-formed (unpaired surrogates).  This
//! module gives the mathematical meaning of such a sequence — its lossy
//! decoding to characters and its well-formedness — together with the
//! executable decoder and well-formedness check.

use vstd::prelude::*;

verus! {

/// Code units in `0xD800..=0xDBFF` open a surrogate pair.
pub open spec fn is_high_surrogate(u: u16) -> bool {
    0xD800 <= u <= 0xDBFF
}

/// Code units in `0xDC00..=0xDFFF` close a surrogate pair.
pub open spec fn is_low_surrogate(u: u16) -> bool {
    0xDC00 <= u <= 0xDFFF
}

/// Code units reserved for surrogate pairs; they are no scalar values.
pub open spec fn is_surrogate(u: u16) -> bool {
    0xD800 <= u <= 0xDFFF
}

/// The Unicode scalar value that a surrogate pair encodes.
pub open spec fn pair_scalar(hi: u16, lo: u16) -> u32 {
    (0x10000 + (hi - 0xD800) * 0x400 + (lo - 0xDC00)) as u32
}

/// The character that stands in for an unpaired surrogate when decoding
/// lossily.
pub open spec fn replacement_char() -> char {
    '\u{FFFD}'
}

/// The characters that a sequence of UTF-16 code units spells, decoded
/// lossily: a code unit outside the surrogate range is the character of
/// the same scalar value, a high surrogate followed by a low surrogate is
/// the character of the pair's scalar value, and any unpaired surrogate
/// becomes the replacement character.
pub open spec fn utf16_decode_lossy(units: Seq<u16>) -> Seq<char>
    decreases units.len(),
{
    if units.len() == 0 {
        Seq::empty()
    } else if !is_surrogate(units[0]) {
        seq![(units[0] as u32) as char] + utf16_decode_lossy(units.drop_first())
    } else if is_high_surrogate(units[0]) && units.len() >= 2 && is_low_surrogate(units[1]) {
        seq![pair_scalar(units[0], units[1]) as char] + utf16_decode_lossy(units.skip(2))
    } else {
        seq![replacement_char()] + utf16_decode_lossy(units.drop_first())
    }
}

/// A sequence of code units is well-formed UTF-16 when every surrogate
/// takes part in a high-low pair; only such a sequence decodes to text
/// without loss.
pub open spec fn wf_utf16(units: Seq<u16>) -> bool
    decreases units.len(),
{
    if units.len() == 0 {
        true
    } else if !is_surrogate(units[0]) {
        wf_utf16(units.drop_first())
    } else if is_high_surrogate(units[0]) && units.len() >= 2 && is_low_surrogate(units[1]) {
        wf_utf16(units.skip(2))
    } else {
        false
    }
}

/// Relies on `char::from_u32`: it returns `Some` exactly on the Unicode
/// scalar values (below the surrogate range, or above it and at most
/// `0x10FFFF`), and the returned character casts back to the argument.
pub assume_specification[ char::from_u32 ](v: u32) -> (r: Option<char>)
    ensures
        r is Some <==> (v < 0xD800 || (0xE000 <= v && v <= 0x10FFFF)),
        (r matches Some(c) ==> c as u32 == v),
;

/// Relies on `String::push`: it appends exactly the given character.
#[verifier::external_body]
pub(crate) fn push_char(s: &mut String, c: char)
    ensures
        final(s)@ == old(s)@.push(c),
{
    s.push(c);
}

proof fn lemma_skip_one(s: Seq<u16>, i: int)
    requires
        0 <= i < s.len(),
    ensures
        s.skip(i).drop_first() == s.skip(i + 1),
{
    assert(s.skip(i).drop_first() =~= s.skip(i + 1));
}

proof fn lemma_skip_two(s: Seq<u16>, i: int)
    requires
        0 <= i,
        i + 2 <= s.len(),
    ensures
        s.skip(i).skip(2) == s.skip(i + 2),
{
    assert(s.skip(i).skip(2) =~= s.skip(i + 2));
}

/// Decodes a wide string lossily into owned text, replacing every
/// unpaired surrogate by the replacement character.
pub fn decode_utf16_lossy(units: &Vec<u16>) -> (s: String)
    ensures
        s@ == utf16_decode_lossy(units@),
{
    let mut s = String::new();
    let mut i: usize = 0;
    proof {
        assert(units@.skip(0) =~= units@);
        assert(s@ + utf16_decode_lossy(units@) =~= utf16_decode_lossy(units@));
    }
    while i < units.len()
        invariant
            i <= units.len(),
            utf16_decode_lossy(units@) == s@ + utf16_decode_lossy(units@.skip(i as int)),
        decreases units.len() - i,
    {
        let ghost tail = units@.skip(i as int);
        let ghost s_old = s@;
        proof {
            assert(tail[0] == units@[i as int]);
        }
        let u = units[i];
        if u < 0xD800 || u > 0xDFFF {
            let c = char::from_u32(u as u32).unwrap();
            push_char(&mut s, c);
            proof {
                vstd::utf8::char_u32_cast(c, u as u32);
                lemma_skip_one(units@, i as int);
                assert(utf16_decode_lossy(tail) == seq![c] + utf16_decode_lossy(
                    units@.skip(i + 1),
                ));
                assert(s_old + utf16_decode_lossy(tail) =~= s@ + utf16_decode_lossy(
                    units@.skip(i + 1),
                ));
            }
            i = i + 1;
        } else if u <= 0xDBFF && i + 1 < units.len() && 0xDC00 <= units[i + 1]
            && units[i + 1] <= 0xDFFF {
            proof {
                assert(tail[1] == units@[i as int + 1]);
            }
            let lo = units[i + 1];
            let scalar: u32 = 0x10000 + (u as u32 - 0xD800) * 0x400 + (lo as u32 - 0xDC00);
            let c = char::from_u32(scalar).unwrap();
            push_char(&mut s, c);
            proof {
                vstd::utf8::char_u32_cast(c, scalar);
                lemma_skip_two(units@, i as int);
                assert(scalar == pair_scalar(u, lo));
                assert(utf16_decode_lossy(tail) == seq![c] + utf16_decode_lossy(
                    units@.skip(i + 2),
                ));
                assert(s_old + utf16_decode_lossy(tail) =~= s@ + utf16_decode_lossy(
                    units@.skip(i + 2),
                ));
            }
            i = i + 2;
        } else {
            push_char(&mut s, '\u{FFFD}');
            proof {
                lemma_skip_one(units@, i as int);
                assert(utf16_decode_lossy(tail) == seq![replacement_char()]
                    + utf16_decode_lossy(units@.skip(i + 1)));
                assert(s_old + utf16_decode_lossy(tail) =~= s@ + utf16_decode_lossy(
                    units@.skip(i + 1),
                ));
            }
            i = i + 1;
        }
    }
    proof {
        assert(units@.skip(i as int) =~= Seq::<u16>::empty());
        assert(s@ + Seq::<char>::empty() =~= s@);
    }
    s
}

/// Decides whether a wide string is well-formed UTF-16, that is, whether
/// it decodes to text without loss.
pub fn utf16_is_wellformed(units: &Vec<u16>) -> (r: bool)
    ensures
        r == wf_utf16(units@),
{
    let mut i: usize = 0;
    proof {
        assert(units@.skip(0) =~= units@);
    }
    while i < units.len()
        invariant
            i <= units.len(),
            wf_utf16(units@) == wf_utf16(units@.skip(i as int)),
        decreases units.len() - i,
    {
        proof {
            assert(units@.skip(i as int)[0] == units@[i as int]);
        }
        let u = units[i];
        if u < 0xD800 || u > 0xDFFF {
            proof {
                lemma_skip_one(units@, i as int);
            }
            i = i + 1;
        } else if u <= 0xDBFF && i + 1 < units.len() && 0xDC00 <= units[i + 1]
            && units[i + 1] <= 0xDFFF {
            proof {
                assert(units@.skip(i as int)[1] == units@[i as int + 1]);
                lemma_skip_two(units@, i as int);
            }
            i = i + 2;
        } else {
            return false;
        }
    }
    proof {
        assert(units@.skip(i as int) =~= Seq::<u16>::empty());
    }
    true
}

} // verus!
