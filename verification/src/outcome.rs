use vstd::prelude::*;

verus! {

/// Why a recognizer returned no value.
#[derive(Debug, Clone, Copy, PartialEq, Eq)]
pub enum ParseError {
    /// The bytes seen so far may start a well-formed unit; more are needed.
    Incomplete,
    /// No continuation of the input matches the grammar here.
    Invalid,
}

/// The outcome that the grammar assigns to an input.
pub enum Parsed<V> {
    Done { rest: Seq<u8>, value: V },
    Incomplete,
    Invalid,
}

impl<V> Parsed<V> {
    /// The same failure, for a recognizer of another value.
    pub open spec fn fail<U>(self) -> Parsed<U> {
        match self {
            Parsed::Incomplete => Parsed::Incomplete,
            _ => Parsed::Invalid,
        }
    }

    /// The same outcome with the value mapped.
    pub open spec fn map<U>(self, f: spec_fn(V) -> U) -> Parsed<U> {
        match self {
            Parsed::Done { rest, value } => Parsed::Done { rest, value: f(value) },
            e => e.fail(),
        }
    }

    /// An optional element: a rejection consumes nothing of `s` and gives
    /// no value.
    pub open spec fn optional(self, s: Seq<u8>) -> Parsed<Option<V>> {
        match self {
            Parsed::Done { rest, value } => Parsed::Done { rest, value: Some(value) },
            Parsed::Incomplete => Parsed::Incomplete,
            Parsed::Invalid => Parsed::Done { rest: s, value: None },
        }
    }

    /// Ordered choice: the second outcome counts only where the first is a
    /// rejection. A request for more bytes is final.
    pub open spec fn or(self, other: Parsed<V>) -> Parsed<V> {
        match self {
            Parsed::Invalid => other,
            _ => self,
        }
    }
}

/// `rem` is what is left of `input` behind a consumed prefix.
pub open spec fn is_suffix(rem: Seq<u8>, input: Seq<u8>) -> bool {
    rem.len() <= input.len() && rem == input.skip(input.len() - rem.len())
}

pub broadcast proof fn lemma_suffix_chain(a: Seq<u8>, b: Seq<u8>, c: Seq<u8>)
    requires
        #[trigger] is_suffix(a, b),
        #[trigger] is_suffix(b, c),
    ensures
        is_suffix(a, c),
{
    assert(c.skip(c.len() - b.len()).skip(b.len() - a.len()) =~= c.skip(c.len() - a.len()));
}

pub broadcast proof fn lemma_suffix_self(s: Seq<u8>)
    ensures
        #[trigger] is_suffix(s, s),
{
    assert(s.skip(0) =~= s);
}

pub broadcast group group_suffix {
    lemma_suffix_chain,
    lemma_suffix_self,
}

/// An executable result `r` on `input` is the outcome `p` of the grammar,
/// and its remainder is the input without a consumed prefix.
pub open spec fn agrees<T: DeepView>(
    r: Result<(&[u8], T), ParseError>,
    p: Parsed<T::V>,
    input: Seq<u8>,
) -> bool {
    match r {
        Ok((rem, v)) => p == (Parsed::Done { rest: rem@, value: v.deep_view() }) && is_suffix(
            rem@,
            input,
        ),
        Err(ParseError::Incomplete) => p is Incomplete,
        Err(ParseError::Invalid) => p is Invalid,
    }
}

/// The same for a recognizer that returns the matched bytes themselves.
pub open spec fn agrees_bytes(
    r: Result<(&[u8], &[u8]), ParseError>,
    p: Parsed<Seq<u8>>,
    input: Seq<u8>,
) -> bool {
    match r {
        Ok((rem, found)) => p == (Parsed::Done { rest: rem@, value: found@ }) && is_suffix(
            rem@,
            input,
        ),
        Err(ParseError::Incomplete) => p is Incomplete,
        Err(ParseError::Invalid) => p is Invalid,
    }
}

} // verus!
