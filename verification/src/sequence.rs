use vstd::prelude::*;
use vstd::string::StringSliceAdditionalSpecFns;
use crate::lexical::{nz_number, spec_nz_number, spec_tag, tag};
use crate::outcome::{agrees, group_suffix, is_suffix, ParseError, Parsed};

verus! {

broadcast use group_suffix;

/// A message number, or `*` for the largest number in use.
#[derive(Debug, Clone, Copy, PartialEq, Eq, Structural)]
pub enum SeqNo {
    Value(u32),
    Unlimited,
}

/// One element of a sequence set, as written.
#[derive(Debug, Clone, Copy, PartialEq, Eq, Structural)]
pub enum Sequence {
    Single(SeqNo),
    Range(SeqNo, SeqNo),
}

impl DeepView for SeqNo {
    type V = SeqNo;

    open spec fn deep_view(&self) -> SeqNo {
        *self
    }
}

impl DeepView for Sequence {
    type V = Sequence;

    open spec fn deep_view(&self) -> Sequence {
        *self
    }
}

pub open spec fn spec_seq_number(s: Seq<u8>) -> Parsed<SeqNo> {
    let number = match spec_nz_number(s) {
        Parsed::Done { rest, value } => Parsed::Done { rest, value: SeqNo::Value(value) },
        e => e.fail(),
    };
    let star = match spec_tag(s, "*".spec_bytes()) {
        Parsed::Done { rest, value } => Parsed::Done { rest, value: SeqNo::Unlimited },
        e => e.fail(),
    };
    number.or(star)
}

/// seq-number = nz-number / "*"
pub fn seq_number(input: &[u8]) -> (r: Result<(&[u8], SeqNo), ParseError>)
    ensures
        agrees(r, spec_seq_number(input@), input@),
        r matches Ok((_, SeqNo::Value(n))) ==> n >= 1,
{
    match nz_number(input) {
        Ok((rem, n)) => Ok((rem, SeqNo::Value(n))),
        Err(ParseError::Incomplete) => Err(ParseError::Incomplete),
        Err(ParseError::Invalid) => {
            let (rem, _) = tag(input, "*")?;
            Ok((rem, SeqNo::Unlimited))
        },
    }
}

pub open spec fn spec_seq_range(s: Seq<u8>) -> Parsed<(SeqNo, SeqNo)> {
    match spec_seq_number(s) {
        Parsed::Done { rest: r1, value: from } => match spec_tag(r1, ":".spec_bytes()) {
            Parsed::Done { rest: r2, value: _ } => match spec_seq_number(r2) {
                Parsed::Done { rest, value: to } => Parsed::Done { rest, value: (from, to) },
                e => e.fail(),
            },
            e => e.fail(),
        },
        e => e.fail(),
    }
}

/// seq-range = seq-number ":" seq-number
///
/// The two ends are returned in the order in which they were written.
pub fn seq_range(input: &[u8]) -> (r: Result<(&[u8], (SeqNo, SeqNo)), ParseError>)
    ensures
        agrees(r, spec_seq_range(input@), input@),
{
    let (r1, from) = seq_number(input)?;
    let (r2, _) = tag(r1, ":")?;
    let (rem, to) = seq_number(r2)?;
    Ok((rem, (from, to)))
}

/// One list position: a range where there is one, else a single number.
pub open spec fn spec_sequence(s: Seq<u8>) -> Parsed<Sequence> {
    let range = match spec_seq_range(s) {
        Parsed::Done { rest, value } => Parsed::Done {
            rest,
            value: Sequence::Range(value.0, value.1),
        },
        e => e.fail(),
    };
    let single = match spec_seq_number(s) {
        Parsed::Done { rest, value } => Parsed::Done { rest, value: Sequence::Single(value) },
        e => e.fail(),
    };
    range.or(single)
}

pub fn sequence(input: &[u8]) -> (r: Result<(&[u8], Sequence), ParseError>)
    ensures
        agrees(r, spec_sequence(input@), input@),
{
    match seq_range(input) {
        Ok((rem, (from, to))) => Ok((rem, Sequence::Range(from, to))),
        Err(ParseError::Incomplete) => Err(ParseError::Incomplete),
        Err(ParseError::Invalid) => {
            let (rem, n) = seq_number(input)?;
            Ok((rem, Sequence::Single(n)))
        },
    }
}

/// What follows the elements `acc`: each further `,` with an element
/// extends the list; a `,` that no element follows is left unconsumed.
pub open spec fn spec_sequence_set_tail(s: Seq<u8>, acc: Seq<Sequence>) -> Parsed<Seq<Sequence>>
    decreases s.len(),
{
    match spec_tag(s, ",".spec_bytes()) {
        Parsed::Done { rest: r1, value: _ } => match spec_sequence(r1) {
            Parsed::Done { rest: r2, value } => if r2.len() < s.len() {
                spec_sequence_set_tail(r2, acc.push(value))
            } else {
                Parsed::Invalid
            },
            Parsed::Incomplete => Parsed::Incomplete,
            Parsed::Invalid => Parsed::Done { rest: s, value: acc },
        },
        Parsed::Incomplete => Parsed::Incomplete,
        Parsed::Invalid => Parsed::Done { rest: s, value: acc },
    }
}

pub open spec fn spec_sequence_set(s: Seq<u8>) -> Parsed<Seq<Sequence>> {
    match spec_sequence(s) {
        Parsed::Done { rest, value } => spec_sequence_set_tail(rest, seq![value]),
        e => e.fail(),
    }
}

/// sequence-set = (seq-number / seq-range) *("," (seq-number / seq-range))
///
/// The elements are returned as written: nothing is reordered or merged.
pub fn sequence_set(input: &[u8]) -> (r: Result<(&[u8], Vec<Sequence>), ParseError>)
    ensures
        agrees(r, spec_sequence_set(input@), input@),
        r matches Ok((_, items)) ==> items@.len() >= 1,
{
    let (first_rem, first) = sequence(input)?;
    let mut items: Vec<Sequence> = Vec::new();
    items.push(first);
    let mut cur: &[u8] = first_rem;
    assert(items.deep_view() =~= seq![first]);
    loop
        invariant
            is_suffix(cur@, input@),
            items@.len() >= 1,
            spec_sequence_set(input@) == spec_sequence_set_tail(cur@, items.deep_view()),
        decreases cur@.len(),
    {
        let r1 = match tag(cur, ",") {
            Ok((r1, _)) => r1,
            Err(ParseError::Incomplete) => { return Err(ParseError::Incomplete); },
            Err(ParseError::Invalid) => { return Ok((cur, items)); },
        };
        match sequence(r1) {
            Ok((r2, item)) => {
                if r2.len() >= cur.len() {
                    return Err(ParseError::Invalid);
                }
                let ghost before = items.deep_view();
                items.push(item);
                assert(items.deep_view() =~= before.push(item));
                cur = r2;
            },
            Err(ParseError::Incomplete) => { return Err(ParseError::Incomplete); },
            Err(ParseError::Invalid) => { return Ok((cur, items)); },
        }
    }
}

} // verus!
