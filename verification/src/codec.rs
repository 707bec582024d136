//! The trace-context value itself: construction, derivation, the sampling
//! query, and conversion to and from the 55-character header text.

use crate::entropy::{random_u128, random_u64};
use crate::hex::{
    all_hex_digits, all_hex_lower, append_hex, hex_render, is_hex_digit, is_hex_lower,
    lemma_hex_render_len, lemma_hex_render_lower, lemma_pow16_32, lemma_render_of_val,
    lemma_seq_hex_val_bound, lemma_val_of_render, parse_segment, seq_hex_val,
};
use vstd::prelude::*;
use vstd::string::StrSliceExecFns;
use vstd::string::StringExecFns;

verus! {

/// The mask of the one assigned flag bit: bit 0, the sampling decision.
pub const BIT_FLAG_SAMPLED: u8 = 1;

/// One trace-context identifier: a format version, the identifier of the
/// whole distributed trace, the identifier of the parent operation, and the
/// flags byte. A value is plain data; deriving a child never touches it.
#[derive(Debug, PartialEq, Eq)]
pub struct Traceparent {
    /// Format revision; this crate only ever produces 0.
    pub version: u8,
    /// Shared by a root context and all of its descendants (16 raw bytes).
    pub trace_id: u128,
    /// Identifies one operation within the trace (8 raw bytes).
    pub parent_id: u64,
    /// Bit 0 is the sampling decision; the other bits are reserved.
    pub flags: u8,
}

/// The flags byte contributed by a requested sampling decision.
pub open spec fn sample_bit(sampled: bool) -> u8 {
    if sampled {
        1
    } else {
        0
    }
}

impl Traceparent {
    /// Whether bit 0 of the flags byte is set: the sampling decision.
    pub open spec fn is_sampled(self) -> bool {
        BIT_FLAG_SAMPLED & self.flags != 0
    }

    /// Whether this branch of the trace is to be recorded by collectors.
    pub fn sampled(&self) -> (b: bool)
        ensures
            b == self.is_sampled(),
    {
        (BIT_FLAG_SAMPLED & self.flags) != 0
    }

    /// A child of `self`: same version and trace identity, a fresh random
    /// parent identifier, and a flags byte that ANDs the requested decision
    /// with the parent's whole flags byte and then with the sampled-bit mask.
    /// The AND-then-mask order is kept exactly as stated, by design, so that
    /// the combination stays bit-compatible if reserved flag bits are ever
    /// assigned. Net effect today: the child is sampled only if it asks to be
    /// and the parent already was; a child can never opt back in under an
    /// unsampled parent, and the parent itself is never touched.
    pub fn child(&self, sampled: bool) -> (r: Traceparent)
        ensures
            r.version == self.version,
            r.trace_id == self.trace_id,
            r.flags == (sample_bit(sampled) & self.flags) & BIT_FLAG_SAMPLED,
            r.flags == sample_bit(sampled && self.is_sampled()),
            r.is_sampled() == (sampled && self.is_sampled()),
    {
        let sbit: u8 = if sampled {
            1
        } else {
            0
        };
        let combined: u8 = (sbit & self.flags) & BIT_FLAG_SAMPLED;
        proof {
            let f = self.flags;
            assert((1u8 & ((sbit & f) & 1) != 0) == (sbit == 1 && 1u8 & f != 0)) by (bit_vector)
                requires
                    sbit == 0 || sbit == 1,
            ;
            assert((sbit & f) & 1 == (if sbit == 1 && 1u8 & f != 0 {
                1u8
            } else {
                0u8
            })) by (bit_vector)
                requires
                    sbit == 0 || sbit == 1,
            ;
        }
        Traceparent {
            version: self.version,
            trace_id: self.trace_id,
            parent_id: random_u64(),
            flags: combined,
        }
    }

    /// The canonical header text of this context: always exactly 55
    /// lowercase characters.
    pub fn render(&self) -> (s: String)
        ensures
            s@ == rendered_of(*self),
            s@.len() == 55,
    {
        let mut out = String::new();
        append_hex(&mut out, self.version as u128, 2);
        out.append("-");
        append_hex(&mut out, self.trace_id, 32);
        out.append("-");
        append_hex(&mut out, self.parent_id as u128, 16);
        out.append("-");
        append_hex(&mut out, self.flags as u128, 2);
        proof {
            reveal_strlit("-");
            assert("-"@ =~= seq!['-']);
            lemma_hex_render_len(self.version as nat, 2);
            lemma_hex_render_len(self.trace_id as nat, 32);
            lemma_hex_render_len(self.parent_id as nat, 16);
            lemma_hex_render_len(self.flags as nat, 2);
            assert(out@ =~= rendered_of(*self));
        }
        out
    }
}

/// A fresh root context: version 0, random trace and parent identifiers, and
/// a flags byte holding exactly the requested sampling decision.
pub fn make(sampled: bool) -> (r: Traceparent)
    ensures
        r.version == 0,
        r.flags == sample_bit(sampled) & BIT_FLAG_SAMPLED,
        r.flags == sample_bit(sampled),
        r.is_sampled() == sampled,
{
    let sbit: u8 = if sampled {
        1
    } else {
        0
    };
    let r = Traceparent {
        version: 0,
        trace_id: random_u128(),
        parent_id: random_u64(),
        flags: sbit & BIT_FLAG_SAMPLED,
    };
    proof {
        assert(sbit & 1 == sbit) by (bit_vector)
            requires
                sbit == 0 || sbit == 1,
        ;
        assert((1u8 & 1 != 0) == true) by (bit_vector);
        assert((1u8 & 0 != 0) == false) by (bit_vector);
    }
    r
}

impl Clone for Traceparent {
    /// Deliberately not a byte-for-byte copy: a clone is a child derived with
    /// this context's own sampling decision, so it keeps the trace identity
    /// and the effective sampling but always carries a fresh parent
    /// identifier.
    fn clone(&self) -> (r: Traceparent)
        ensures
            r.version == self.version,
            r.trace_id == self.trace_id,
            r.is_sampled() == self.is_sampled(),
            r.flags == (sample_bit(self.is_sampled()) & self.flags) & BIT_FLAG_SAMPLED,
            r.flags == sample_bit(self.is_sampled()),
    {
        self.child(self.sampled())
    }
}

impl Default for Traceparent {
    /// A fresh root that samples by default, for callers with no parent
    /// context at hand.
    fn default() -> (r: Traceparent)
        ensures
            r.version == 0,
            r.flags == 1,
            r.is_sampled(),
    {
        make(true)
    }
}

/// Why a header text was rejected.
#[derive(Clone, Copy, Debug, PartialEq, Eq)]
pub enum ParseError {
    /// The input is not exactly 55 characters long; checked before anything else.
    WrongLength,
    /// A hyphen is out of place, or a segment holds a non-hexadecimal character.
    BadSegment,
}

/// The canonical header text of a context: the four fields in zero-padded
/// lowercase hex, 2, 32, 16 and 2 digits wide, joined by single hyphens.
pub open spec fn rendered_of(t: Traceparent) -> Seq<char> {
    hex_render(t.version as nat, 2) + seq!['-'] + hex_render(t.trace_id as nat, 32) + seq!['-']
        + hex_render(t.parent_id as nat, 16) + seq!['-'] + hex_render(t.flags as nat, 2)
}

/// Text the parser accepts: exactly 55 characters, hyphens at the three fixed
/// positions, and hexadecimal digits (either case) everywhere else.
pub open spec fn is_parsable(s: Seq<char>) -> bool {
    &&& s.len() == 55
    &&& s[2] == '-'
    &&& s[35] == '-'
    &&& s[52] == '-'
    &&& all_hex_digits(s.subrange(0, 2))
    &&& all_hex_digits(s.subrange(3, 35))
    &&& all_hex_digits(s.subrange(36, 52))
    &&& all_hex_digits(s.subrange(53, 55))
}

/// Canonical text: the shape the parser accepts, with every digit lowercase,
/// exactly as rendering writes it.
pub open spec fn is_canonical(s: Seq<char>) -> bool {
    &&& s.len() == 55
    &&& s[2] == '-'
    &&& s[35] == '-'
    &&& s[52] == '-'
    &&& all_hex_lower(s.subrange(0, 2))
    &&& all_hex_lower(s.subrange(3, 35))
    &&& all_hex_lower(s.subrange(36, 52))
    &&& all_hex_lower(s.subrange(53, 55))
}

/// The context that parsable text denotes: each segment read as big-endian
/// hexadecimal into its fixed-width field.
pub open spec fn parsed_of(s: Seq<char>) -> Traceparent {
    Traceparent {
        version: seq_hex_val(s.subrange(0, 2)) as u8,
        trace_id: seq_hex_val(s.subrange(3, 35)) as u128,
        parent_id: seq_hex_val(s.subrange(36, 52)) as u64,
        flags: seq_hex_val(s.subrange(53, 55)) as u8,
    }
}

/// Parses header text. Exactly the parsable shape is accepted; a wrong
/// overall length is reported apart from any malformed-segment failure, and
/// the length check comes first.
pub fn parse(value: &str) -> (r: Result<Traceparent, ParseError>)
    ensures
        r is Ok <==> is_parsable(value@),
        r is Ok ==> r->Ok_0 == parsed_of(value@),
        r is Err ==> (r->Err_0 is WrongLength <==> value@.len() != 55),
{
    let n = value.unicode_len();
    if n != 55 {
        return Err(ParseError::WrongLength);
    }
    if value.get_char(2) != '-' || value.get_char(35) != '-' || value.get_char(52) != '-' {
        return Err(ParseError::BadSegment);
    }
    let seg_version = match parse_segment(value, 0, 2) {
        Some(v) => v,
        None => {
            return Err(ParseError::BadSegment);
        },
    };
    let seg_trace = match parse_segment(value, 3, 35) {
        Some(v) => v,
        None => {
            return Err(ParseError::BadSegment);
        },
    };
    let seg_parent = match parse_segment(value, 36, 52) {
        Some(v) => v,
        None => {
            return Err(ParseError::BadSegment);
        },
    };
    let seg_flags = match parse_segment(value, 53, 55) {
        Some(v) => v,
        None => {
            return Err(ParseError::BadSegment);
        },
    };
    proof {
        lemma_pow16_32();
        lemma_seq_hex_val_bound(value@.subrange(0, 2));
        lemma_seq_hex_val_bound(value@.subrange(36, 52));
        lemma_seq_hex_val_bound(value@.subrange(53, 55));
    }
    Ok(
        Traceparent {
            version: seg_version as u8,
            trace_id: seg_trace,
            parent_id: seg_parent as u64,
            flags: seg_flags as u8,
        },
    )
}

/// The trusting constructor for known-good text such as compile-time
/// literals: the caller vouches that the text is parsable, and malformed
/// input is ruled out up front instead of being reported.
pub fn from_literal(value: &str) -> (r: Traceparent)
    requires
        is_parsable(value@),
    ensures
        r == parsed_of(value@),
{
    match parse(value) {
        Ok(t) => t,
        Err(_) => vstd::pervasive::unreached(),
    }
}

/// A lowercase digit string is in particular an acceptable digit string.
proof fn lemma_lower_accepted(s: Seq<char>)
    requires
        all_hex_lower(s),
    ensures
        all_hex_digits(s),
{
    assert forall|i: int| 0 <= i < s.len() implies is_hex_digit(#[trigger] s[i]) by {
        assert(is_hex_lower(s[i]));
    }
}

/// Round trip, text first: canonical text is accepted by the parser, and
/// rendering the context it denotes returns the text verbatim.
pub proof fn lemma_render_of_parsed(s: Seq<char>)
    requires
        is_canonical(s),
    ensures
        is_parsable(s),
        rendered_of(parsed_of(s)) == s,
{
    let seg_version = s.subrange(0, 2);
    let seg_trace = s.subrange(3, 35);
    let seg_parent = s.subrange(36, 52);
    let seg_flags = s.subrange(53, 55);
    lemma_lower_accepted(seg_version);
    lemma_lower_accepted(seg_trace);
    lemma_lower_accepted(seg_parent);
    lemma_lower_accepted(seg_flags);
    lemma_pow16_32();
    lemma_seq_hex_val_bound(seg_version);
    lemma_seq_hex_val_bound(seg_trace);
    lemma_seq_hex_val_bound(seg_parent);
    lemma_seq_hex_val_bound(seg_flags);
    lemma_render_of_val(seg_version);
    lemma_render_of_val(seg_trace);
    lemma_render_of_val(seg_parent);
    lemma_render_of_val(seg_flags);
    let t = parsed_of(s);
    assert(t.version as nat == seq_hex_val(seg_version));
    assert(t.trace_id as nat == seq_hex_val(seg_trace));
    assert(t.parent_id as nat == seq_hex_val(seg_parent));
    assert(t.flags as nat == seq_hex_val(seg_flags));
    assert(hex_render(t.version as nat, 2) == seg_version);
    assert(hex_render(t.trace_id as nat, 32) == seg_trace);
    assert(hex_render(t.parent_id as nat, 16) == seg_parent);
    assert(hex_render(t.flags as nat, 2) == seg_flags);
    assert(rendered_of(t) =~= s);
}

/// Round trip, context first: rendering always yields canonical text, and
/// parsing that text gives back the very same context.
pub proof fn lemma_parsed_of_rendered(t: Traceparent)
    ensures
        is_canonical(rendered_of(t)),
        is_parsable(rendered_of(t)),
        parsed_of(rendered_of(t)) == t,
{
    let seg_version = hex_render(t.version as nat, 2);
    let seg_trace = hex_render(t.trace_id as nat, 32);
    let seg_parent = hex_render(t.parent_id as nat, 16);
    let seg_flags = hex_render(t.flags as nat, 2);
    lemma_hex_render_len(t.version as nat, 2);
    lemma_hex_render_len(t.trace_id as nat, 32);
    lemma_hex_render_len(t.parent_id as nat, 16);
    lemma_hex_render_len(t.flags as nat, 2);
    lemma_hex_render_lower(t.version as nat, 2);
    lemma_hex_render_lower(t.trace_id as nat, 32);
    lemma_hex_render_lower(t.parent_id as nat, 16);
    lemma_hex_render_lower(t.flags as nat, 2);
    let s = rendered_of(t);
    assert(s.subrange(0, 2) =~= seg_version);
    assert(s.subrange(3, 35) =~= seg_trace);
    assert(s.subrange(36, 52) =~= seg_parent);
    assert(s.subrange(53, 55) =~= seg_flags);
    lemma_lower_accepted(seg_version);
    lemma_lower_accepted(seg_trace);
    lemma_lower_accepted(seg_parent);
    lemma_lower_accepted(seg_flags);
    lemma_pow16_32();
    lemma_val_of_render(t.version as nat, 2);
    lemma_val_of_render(t.trace_id as nat, 32);
    lemma_val_of_render(t.parent_id as nat, 16);
    lemma_val_of_render(t.flags as nat, 2);
    assert(parsed_of(s) == t);
}

} // verus!

