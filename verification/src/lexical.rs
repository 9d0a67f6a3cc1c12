use vstd::prelude::*;
use vstd::string::StringSliceAdditionalSpecFns;
use vstd::slice::{slice_subrange, slice_to_vec};
use crate::laws::law_nz_number_is_not_zero;
use crate::outcome::{agrees, agrees_bytes, group_suffix, ParseError, Parsed};

verus! {

broadcast use group_suffix;

/// The byte classes from which tokens are built.
#[derive(Debug, Clone, Copy, PartialEq, Eq)]
pub enum CharClass {
    Digit,
    Atom,
    AString,
    Tag,
    Text,
    CodeText,
    Base64,
}

pub open spec fn is_digit(b: u8) -> bool {
    0x30 <= b <= 0x39
}

/// Any 7-bit character but controls, space, `(`, `)`, `{`, `%`, `*`, `"`,
/// `\` and `]`.
pub open spec fn is_atom_char(b: u8) -> bool {
    0x20 < b < 0x7f && b != 0x28 && b != 0x29 && b != 0x7b && b != 0x25 && b != 0x2a && b != 0x22
        && b != 0x5c && b != 0x5d
}

/// Any 7-bit character but NUL, CR and LF.
pub open spec fn is_text_char(b: u8) -> bool {
    0 < b <= 0x7f && b != 0x0d && b != 0x0a
}

pub open spec fn is_base64_char(b: u8) -> bool {
    0x30 <= b <= 0x39 || 0x41 <= b <= 0x5a || 0x61 <= b <= 0x7a || b == 0x2b || b == 0x2f
}

pub open spec fn in_class(class: CharClass, b: u8) -> bool {
    match class {
        CharClass::Digit => is_digit(b),
        CharClass::Atom => is_atom_char(b),
        CharClass::AString => is_atom_char(b) || b == 0x5d,
        CharClass::Tag => (is_atom_char(b) || b == 0x5d) && b != 0x2b,
        CharClass::Text => is_text_char(b),
        CharClass::CodeText => is_text_char(b) && b != 0x5d,
        CharClass::Base64 => is_base64_char(b),
    }
}

pub fn is_in_class(class: CharClass, b: u8) -> (r: bool)
    ensures
        r == in_class(class, b),
{
    let atom = 0x20 < b && b < 0x7f && b != 0x28 && b != 0x29 && b != 0x7b && b != 0x25 && b
        != 0x2a && b != 0x22 && b != 0x5c && b != 0x5d;
    let text = 0 < b && b <= 0x7f && b != 0x0d && b != 0x0a;
    match class {
        CharClass::Digit => 0x30 <= b && b <= 0x39,
        CharClass::Atom => atom,
        CharClass::AString => atom || b == 0x5d,
        CharClass::Tag => (atom || b == 0x5d) && b != 0x2b,
        CharClass::Text => text,
        CharClass::CodeText => text && b != 0x5d,
        CharClass::Base64 => (0x30 <= b && b <= 0x39) || (0x41 <= b && b <= 0x5a) || (0x61 <= b
            && b <= 0x7a) || b == 0x2b || b == 0x2f,
    }
}

/// Folds an upper-case ASCII letter to lower case.
pub open spec fn lower(b: u8) -> u8 {
    if 0x41 <= b <= 0x5a {
        (b + 0x20) as u8
    } else {
        b
    }
}

/// The two strings are equal up to the case of ASCII letters.
pub open spec fn same_folded(a: Seq<u8>, b: Seq<u8>) -> bool {
    a.len() == b.len() && forall|i: int| 0 <= i < a.len() ==> lower(#[trigger] a[i]) == lower(b[i])
}

/// Exact keyword: rejects at the first differing byte, asks for more where
/// the input is a proper prefix of the word.
pub open spec fn spec_tag(s: Seq<u8>, word: Seq<u8>) -> Parsed<Seq<u8>> {
    if exists|i: int| 0 <= i < s.len() && i < word.len() && #[trigger] s[i] != word[i] {
        Parsed::Invalid
    } else if s.len() < word.len() {
        Parsed::Incomplete
    } else {
        Parsed::Done { rest: s.skip(word.len() as int), value: s.take(word.len() as int) }
    }
}

/// Keyword up to the case of ASCII letters.
pub open spec fn spec_tag_no_case(s: Seq<u8>, word: Seq<u8>) -> Parsed<Seq<u8>> {
    if exists|i: int|
        0 <= i < s.len() && i < word.len() && lower(#[trigger] s[i]) != lower(word[i]) {
        Parsed::Invalid
    } else if s.len() < word.len() {
        Parsed::Incomplete
    } else {
        Parsed::Done { rest: s.skip(word.len() as int), value: s.take(word.len() as int) }
    }
}

/// Length of the longest prefix of `s` whose bytes are all in `class`.
pub open spec fn run_len(s: Seq<u8>, class: CharClass) -> nat
    decreases s.len(),
{
    if s.len() > 0 && in_class(class, s[0]) {
        1 + run_len(s.skip(1), class)
    } else {
        0
    }
}

/// A run of zero or more bytes of a class. A run that reaches the end of
/// the input may go on, so more bytes are asked for.
pub open spec fn spec_take_while(s: Seq<u8>, class: CharClass) -> Parsed<Seq<u8>> {
    let n = run_len(s, class) as int;
    if n == s.len() {
        Parsed::Incomplete
    } else {
        Parsed::Done { rest: s.skip(n), value: s.take(n) }
    }
}

/// A run of one or more bytes of a class.
pub open spec fn spec_take_while1(s: Seq<u8>, class: CharClass) -> Parsed<Seq<u8>> {
    let n = run_len(s, class) as int;
    if n == s.len() {
        Parsed::Incomplete
    } else if n == 0 {
        Parsed::Invalid
    } else {
        Parsed::Done { rest: s.skip(n), value: s.take(n) }
    }
}

pub open spec fn spec_sp(s: Seq<u8>) -> Parsed<()> {
    if s.len() == 0 {
        Parsed::Incomplete
    } else if s[0] == 0x20 {
        Parsed::Done { rest: s.skip(1), value: () }
    } else {
        Parsed::Invalid
    }
}

/// Line end: LF alone or CR LF.
pub open spec fn spec_crlf(s: Seq<u8>) -> Parsed<()> {
    if s.len() == 0 {
        Parsed::Incomplete
    } else if s[0] == 0x0a {
        Parsed::Done { rest: s.skip(1), value: () }
    } else if s[0] != 0x0d {
        Parsed::Invalid
    } else if s.len() == 1 {
        Parsed::Incomplete
    } else if s[1] == 0x0a {
        Parsed::Done { rest: s.skip(2), value: () }
    } else {
        Parsed::Invalid
    }
}

/// Calls `nom::bytes::streaming::tag` on byte slices. Trusted: the call
/// compares the input with the word byte by byte over their common length,
/// rejects on a difference, asks for more where the input is shorter than
/// the word, and else splits the input behind the word.
#[verifier::external_body]
pub(crate) fn tag<'a>(input: &'a [u8], word: &str) -> (r: Result<(&'a [u8], &'a [u8]), ParseError>)
    ensures
        agrees_bytes(r, spec_tag(input@, word.spec_bytes()), input@),
{
    match nom::bytes::streaming::tag::<_, _, nom::error::Error<&[u8]>>(word.as_bytes())(input) {
        Ok((rest, found)) => Ok((rest, found)),
        Err(nom::Err::Incomplete(_)) => Err(ParseError::Incomplete),
        Err(_) => Err(ParseError::Invalid),
    }
}

/// Calls `nom::bytes::streaming::tag_no_case` on byte slices. Trusted: as
/// for the exact keyword, but both bytes are folded to lower case before
/// they are compared.
#[verifier::external_body]
pub(crate) fn tag_no_case<'a>(input: &'a [u8], word: &str) -> (r: Result<
    (&'a [u8], &'a [u8]),
    ParseError,
>)
    ensures
        agrees_bytes(r, spec_tag_no_case(input@, word.spec_bytes()), input@),
{
    match nom::bytes::streaming::tag_no_case::<_, _, nom::error::Error<&[u8]>>(word.as_bytes())(
        input,
    ) {
        Ok((rest, found)) => Ok((rest, found)),
        Err(nom::Err::Incomplete(_)) => Err(ParseError::Incomplete),
        Err(_) => Err(ParseError::Invalid),
    }
}

/// Calls `nom::bytes::streaming::take_while`. Trusted: the call splits the
/// input before the first byte outside the class and asks for more where
/// there is no such byte.
#[verifier::external_body]
pub(crate) fn take_while<'a>(input: &'a [u8], class: CharClass) -> (r: Result<
    (&'a [u8], &'a [u8]),
    ParseError,
>)
    ensures
        agrees_bytes(r, spec_take_while(input@, class), input@),
{
    match nom::bytes::streaming::take_while::<_, _, nom::error::Error<&[u8]>>(
        |b: u8| is_in_class(class, b),
    )(input) {
        Ok((rest, found)) => Ok((rest, found)),
        Err(nom::Err::Incomplete(_)) => Err(ParseError::Incomplete),
        Err(_) => Err(ParseError::Invalid),
    }
}

/// Calls `nom::bytes::streaming::take_while1`. Trusted: as for the run of
/// zero or more, but an input whose first byte is outside the class is
/// rejected.
#[verifier::external_body]
pub(crate) fn take_while1<'a>(input: &'a [u8], class: CharClass) -> (r: Result<
    (&'a [u8], &'a [u8]),
    ParseError,
>)
    ensures
        agrees_bytes(r, spec_take_while1(input@, class), input@),
{
    match nom::bytes::streaming::take_while1::<_, _, nom::error::Error<&[u8]>>(
        |b: u8| is_in_class(class, b),
    )(input) {
        Ok((rest, found)) => Ok((rest, found)),
        Err(nom::Err::Incomplete(_)) => Err(ParseError::Incomplete),
        Err(_) => Err(ParseError::Invalid),
    }
}

/// Calls `abnf_core::streaming::sp`. Trusted: the call consumes one space,
/// rejects any other first byte and asks for more on empty input.
#[verifier::external_body]
pub(crate) fn sp<'a>(input: &'a [u8]) -> (r: Result<(&'a [u8], ()), ParseError>)
    ensures
        agrees(r, spec_sp(input@), input@),
{
    match abnf_core::streaming::sp::<_, nom::error::Error<&[u8]>>(input) {
        Ok((rest, _)) => Ok((rest, ())),
        Err(nom::Err::Incomplete(_)) => Err(ParseError::Incomplete),
        Err(_) => Err(ParseError::Invalid),
    }
}

/// Calls `abnf_core::streaming::crlf_relaxed`. Trusted: the call consumes
/// an optional CR and then an LF, asks for more where the input ends before
/// the LF, and rejects anything else.
#[verifier::external_body]
pub(crate) fn crlf<'a>(input: &'a [u8]) -> (r: Result<(&'a [u8], ()), ParseError>)
    ensures
        agrees(r, spec_crlf(input@), input@),
{
    match abnf_core::streaming::crlf_relaxed::<_, nom::error::Error<&[u8]>>(input) {
        Ok((rest, _)) => Ok((rest, ())),
        Err(nom::Err::Incomplete(_)) => Err(ParseError::Incomplete),
        Err(_) => Err(ParseError::Invalid),
    }
}

/// The number that a string of decimal digits denotes.
pub open spec fn decimal(digits: Seq<u8>) -> nat
    decreases digits.len(),
{
    if digits.len() == 0 {
        0
    } else {
        decimal(digits.drop_last()) * 10 + (digits.last() - 0x30) as nat
    }
}

pub proof fn lemma_run_bound(s: Seq<u8>, class: CharClass)
    ensures
        run_len(s, class) <= s.len(),
    decreases s.len(),
{
    if s.len() > 0 && in_class(class, s[0]) {
        lemma_run_bound(s.skip(1), class);
    }
}

pub proof fn lemma_run_in_class(s: Seq<u8>, class: CharClass, i: int)
    requires
        0 <= i < run_len(s, class),
    ensures
        i < s.len(),
        in_class(class, s[i]),
    decreases s.len(),
{
    if i > 0 {
        lemma_run_in_class(s.skip(1), class, i - 1);
    }
}

pub proof fn lemma_decimal_grows(digits: Seq<u8>, i: int)
    requires
        0 <= i <= digits.len(),
        forall|k: int| 0 <= k < digits.len() ==> is_digit(#[trigger] digits[k]),
    ensures
        decimal(digits.take(i)) <= decimal(digits),
    decreases digits.len() - i,
{
    if i < digits.len() {
        lemma_decimal_grows(digits, i + 1);
        assert(digits.take(i + 1).drop_last() =~= digits.take(i));
    } else {
        assert(digits.take(i) =~= digits);
    }
}

/// The value of a string of digits, where it fits in 64 bits.
pub fn digits_value(digits: &[u8]) -> (r: Option<u64>)
    requires
        forall|k: int| 0 <= k < digits@.len() ==> is_digit(#[trigger] digits@[k]),
    ensures
        match r {
            Some(v) => v == decimal(digits@),
            None => decimal(digits@) > u64::MAX,
        },
{
    let mut acc: u64 = 0;
    let mut i: usize = 0;
    while i < digits.len()
        invariant
            0 <= i <= digits@.len(),
            acc == decimal(digits@.take(i as int)),
            forall|k: int| 0 <= k < digits@.len() ==> is_digit(#[trigger] digits@[k]),
        decreases digits@.len() - i,
    {
        let d: u64 = (digits[i] - 0x30) as u64;
        proof {
            assert(digits@.take(i + 1).drop_last() =~= digits@.take(i as int));
            lemma_decimal_grows(digits@, i + 1);
        }
        if acc > (u64::MAX - d) / 10 {
            return None;
        }
        acc = acc * 10 + d;
        i = i + 1;
    }
    proof {
        assert(digits@.take(i as int) =~= digits@);
    }
    Some(acc)
}

pub open spec fn spec_atom(s: Seq<u8>) -> Parsed<Seq<u8>> {
    spec_take_while1(s, CharClass::Atom)
}

/// atom = 1*ATOM-CHAR
pub fn atom(input: &[u8]) -> (r: Result<(&[u8], &[u8]), ParseError>)
    ensures
        agrees_bytes(r, spec_atom(input@), input@),
{
    take_while1(input, CharClass::Atom)
}

pub open spec fn spec_text(s: Seq<u8>) -> Parsed<Seq<u8>> {
    spec_take_while1(s, CharClass::Text)
}

/// text = 1*TEXT-CHAR
pub fn text(input: &[u8]) -> (r: Result<(&[u8], &[u8]), ParseError>)
    ensures
        agrees_bytes(r, spec_text(input@), input@),
{
    take_while1(input, CharClass::Text)
}

pub open spec fn spec_tag_imap(s: Seq<u8>) -> Parsed<Seq<u8>> {
    spec_take_while1(s, CharClass::Tag)
}

/// tag = 1*<any ASTRING-CHAR except "+">
pub fn tag_imap(input: &[u8]) -> (r: Result<(&[u8], &[u8]), ParseError>)
    ensures
        agrees_bytes(r, spec_tag_imap(input@), input@),
{
    take_while1(input, CharClass::Tag)
}

pub open spec fn spec_number64(s: Seq<u8>) -> Parsed<u64> {
    match spec_take_while1(s, CharClass::Digit) {
        Parsed::Done { rest, value } => if decimal(value) <= u64::MAX {
            Parsed::Done { rest, value: decimal(value) as u64 }
        } else {
            Parsed::Invalid
        },
        e => e.fail(),
    }
}

/// number64 = 1*DIGIT, an unsigned 64-bit value.
pub fn number64(input: &[u8]) -> (r: Result<(&[u8], u64), ParseError>)
    ensures
        agrees(r, spec_number64(input@), input@),
{
    let (rem, digits) = take_while1(input, CharClass::Digit)?;
    proof {
        lemma_run_bound(input@, CharClass::Digit);
        assert forall|k: int| 0 <= k < digits@.len() implies is_digit(#[trigger] digits@[k]) by {
            lemma_run_in_class(input@, CharClass::Digit, k);
        }
    }
    match digits_value(digits) {
        Some(v) => Ok((rem, v)),
        None => Err(ParseError::Invalid),
    }
}

pub open spec fn spec_nz_number(s: Seq<u8>) -> Parsed<u32> {
    if s.len() == 0 {
        Parsed::Incomplete
    } else if !(0x31 <= s[0] <= 0x39) {
        Parsed::Invalid
    } else {
        match spec_take_while1(s, CharClass::Digit) {
            Parsed::Done { rest, value } => if decimal(value) <= u32::MAX {
                Parsed::Done { rest, value: decimal(value) as u32 }
            } else {
                Parsed::Invalid
            },
            e => e.fail(),
        }
    }
}

/// nz-number = digit-nz *DIGIT, a non-zero unsigned 32-bit value.
pub fn nz_number(input: &[u8]) -> (r: Result<(&[u8], u32), ParseError>)
    ensures
        agrees(r, spec_nz_number(input@), input@),
        r matches Ok((_, n)) ==> n >= 1,
{
    proof {
        law_nz_number_is_not_zero(input@);
    }
    if input.len() == 0 {
        return Err(ParseError::Incomplete);
    }
    if !(0x31 <= input[0] && input[0] <= 0x39) {
        return Err(ParseError::Invalid);
    }
    let (rem, digits) = take_while1(input, CharClass::Digit)?;
    proof {
        lemma_run_bound(input@, CharClass::Digit);
        assert forall|k: int| 0 <= k < digits@.len() implies is_digit(#[trigger] digits@[k]) by {
            lemma_run_in_class(input@, CharClass::Digit, k);
        }
    }
    match digits_value(digits) {
        Some(v) => if v <= 0xffff_ffff {
            Ok((rem, v as u32))
        } else {
            Err(ParseError::Invalid)
        },
        None => Err(ParseError::Invalid),
    }
}

/// An owned copy of a token.
pub fn owned(token: &[u8]) -> (v: Vec<u8>)
    ensures
        v@ == token@,
        v.deep_view() == token@,
{
    let v = slice_to_vec(token);
    assert(v.deep_view() =~= v@);
    v
}

/// Whether a token is a keyword, up to the case of ASCII letters.
pub fn is_word(token: &[u8], word: &str) -> (r: bool)
    ensures
        r == same_folded(token@, word.spec_bytes()),
{
    if token.len() != word.len() {
        return false;
    }
    match tag_no_case(token, word) {
        Ok(_) => true,
        Err(_) => false,
    }
}

/// The inside of a quoted string behind the unescaped bytes `acc`, up to
/// and with the closing quote. A backslash escapes a quote or a backslash.
pub open spec fn spec_quoted_tail(s: Seq<u8>, acc: Seq<u8>) -> Parsed<Seq<u8>>
    decreases s.len(),
{
    if s.len() == 0 {
        Parsed::Incomplete
    } else if s[0] == 0x22 {
        Parsed::Done { rest: s.skip(1), value: acc }
    } else if s[0] == 0x5c {
        if s.len() == 1 {
            Parsed::Incomplete
        } else if s[1] == 0x22 || s[1] == 0x5c {
            spec_quoted_tail(s.skip(2), acc.push(s[1]))
        } else {
            Parsed::Invalid
        }
    } else if is_text_char(s[0]) {
        spec_quoted_tail(s.skip(1), acc.push(s[0]))
    } else {
        Parsed::Invalid
    }
}

pub open spec fn spec_quoted(s: Seq<u8>) -> Parsed<Seq<u8>> {
    if s.len() == 0 {
        Parsed::Incomplete
    } else if s[0] != 0x22 {
        Parsed::Invalid
    } else {
        spec_quoted_tail(s.skip(1), Seq::empty())
    }
}

/// quoted = DQUOTE *QUOTED-CHAR DQUOTE, returned without quotes and escapes.
pub fn quoted(input: &[u8]) -> (r: Result<(&[u8], Vec<u8>), ParseError>)
    ensures
        agrees(r, spec_quoted(input@), input@),
{
    if input.len() == 0 {
        return Err(ParseError::Incomplete);
    }
    if input[0] != 0x22 {
        return Err(ParseError::Invalid);
    }
    let mut acc: Vec<u8> = Vec::new();
    let mut i: usize = 1;
    loop
        invariant
            1 <= i <= input@.len(),
            spec_quoted(input@) == spec_quoted_tail(input@.skip(i as int), acc@),
        decreases input@.len() - i,
    {
        if i >= input.len() {
            return Err(ParseError::Incomplete);
        }
        let b = input[i];
        if b == 0x22 {
            let rem = slice_subrange(input, i + 1, input.len());
            proof {
                assert(input@.skip(i as int).skip(1) =~= rem@);
                assert(rem@ =~= input@.skip(input@.len() - rem@.len()));
                assert(acc.deep_view() =~= acc@);
            }
            return Ok((rem, acc));
        } else if b == 0x5c {
            if i + 1 >= input.len() {
                return Err(ParseError::Incomplete);
            }
            let c = input[i + 1];
            if c == 0x22 || c == 0x5c {
                acc.push(c);
                proof {
                    assert(input@.skip(i as int).skip(2) =~= input@.skip(i + 2));
                }
                i = i + 2;
            } else {
                return Err(ParseError::Invalid);
            }
        } else if is_in_class(CharClass::Text, b) {
            acc.push(b);
            proof {
                assert(input@.skip(i as int).skip(1) =~= input@.skip(i + 1));
            }
            i = i + 1;
        } else {
            return Err(ParseError::Invalid);
        }
    }
}

pub open spec fn spec_number(s: Seq<u8>) -> Parsed<u32> {
    match spec_take_while1(s, CharClass::Digit) {
        Parsed::Done { rest, value } => if decimal(value) <= u32::MAX {
            Parsed::Done { rest, value: decimal(value) as u32 }
        } else {
            Parsed::Invalid
        },
        e => e.fail(),
    }
}

/// number = 1*DIGIT, an unsigned 32-bit value.
pub fn number(input: &[u8]) -> (r: Result<(&[u8], u32), ParseError>)
    ensures
        agrees(r, spec_number(input@), input@),
{
    let (rem, digits) = take_while1(input, CharClass::Digit)?;
    proof {
        lemma_run_bound(input@, CharClass::Digit);
        assert forall|k: int| 0 <= k < digits@.len() implies is_digit(#[trigger] digits@[k]) by {
            lemma_run_in_class(input@, CharClass::Digit, k);
        }
    }
    match digits_value(digits) {
        Some(v) => if v <= 0xffff_ffff {
            Ok((rem, v as u32))
        } else {
            Err(ParseError::Invalid)
        },
        None => Err(ParseError::Invalid),
    }
}

/// The `count` bytes of a literal: none of those at hand may be NUL, and
/// all must be there.
pub open spec fn spec_literal_data(s: Seq<u8>, count: nat) -> Parsed<Seq<u8>> {
    if exists|i: int| 0 <= i < s.len() && i < count && #[trigger] s[i] == 0 {
        Parsed::Invalid
    } else if s.len() < count {
        Parsed::Incomplete
    } else {
        Parsed::Done { rest: s.skip(count as int), value: s.take(count as int) }
    }
}

pub fn literal_data(input: &[u8], count: u32) -> (r: Result<(&[u8], &[u8]), ParseError>)
    ensures
        agrees_bytes(r, spec_literal_data(input@, count as nat), input@),
{
    let n: usize = count as usize;
    let mut i: usize = 0;
    while i < input.len() && i < n
        invariant
            0 <= i <= input@.len(),
            i <= n,
            n == count,
            forall|k: int| 0 <= k < i ==> #[trigger] input@[k] != 0,
        decreases input@.len() - i,
    {
        if input[i] == 0 {
            return Err(ParseError::Invalid);
        }
        i = i + 1;
    }
    if input.len() < n {
        return Err(ParseError::Incomplete);
    }
    let found = slice_subrange(input, 0, n);
    let rem = slice_subrange(input, n, input.len());
    proof {
        assert(rem@ =~= input@.skip(input@.len() - rem@.len()));
    }
    Ok((rem, found))
}

pub open spec fn spec_literal(s: Seq<u8>) -> Parsed<Seq<u8>> {
    match spec_tag(s, "{".spec_bytes()) {
        Parsed::Done { rest: r1, value: _ } => match spec_number(r1) {
            Parsed::Done { rest: r2, value: count } => match spec_tag(r2, "}".spec_bytes()) {
                Parsed::Done { rest: r3, value: _ } => match spec_crlf(r3) {
                    Parsed::Done { rest: r4, value: _ } => spec_literal_data(r4, count as nat),
                    e => e.fail(),
                },
                e => e.fail(),
            },
            e => e.fail(),
        },
        e => e.fail(),
    }
}

/// literal = "{" number "}" CRLF *CHAR8, with as many bytes as the number
/// says.
pub fn literal(input: &[u8]) -> (r: Result<(&[u8], &[u8]), ParseError>)
    ensures
        agrees_bytes(r, spec_literal(input@), input@),
{
    let (r1, _) = tag(input, "{")?;
    let (r2, count) = number(r1)?;
    let (r3, _) = tag(r2, "}")?;
    let (r4, _) = crlf(r3)?;
    let (rem, found) = literal_data(r4, count)?;
    Ok((rem, found))
}

/// string = quoted / literal
pub open spec fn spec_string(s: Seq<u8>) -> Parsed<Seq<u8>> {
    spec_quoted(s).or(spec_literal(s))
}

pub fn string(input: &[u8]) -> (r: Result<(&[u8], Vec<u8>), ParseError>)
    ensures
        agrees(r, spec_string(input@), input@),
{
    match quoted(input) {
        Ok((rem, value)) => Ok((rem, value)),
        Err(ParseError::Incomplete) => Err(ParseError::Incomplete),
        Err(ParseError::Invalid) => {
            let (rem, found) = literal(input)?;
            Ok((rem, owned(found)))
        },
    }
}

pub open spec fn spec_astring(s: Seq<u8>) -> Parsed<Seq<u8>> {
    spec_take_while1(s, CharClass::AString).or(spec_string(s))
}

/// astring = 1*ASTRING-CHAR / string
pub fn astring(input: &[u8]) -> (r: Result<(&[u8], Vec<u8>), ParseError>)
    ensures
        agrees(r, spec_astring(input@), input@),
{
    match take_while1(input, CharClass::AString) {
        Ok((rem, token)) => Ok((rem, owned(token))),
        Err(ParseError::Incomplete) => Err(ParseError::Incomplete),
        Err(ParseError::Invalid) => string(input),
    }
}

pub open spec fn spec_charset(s: Seq<u8>) -> Parsed<Seq<u8>> {
    spec_atom(s).or(spec_quoted(s))
}

/// charset = atom / quoted
pub fn charset(input: &[u8]) -> (r: Result<(&[u8], Vec<u8>), ParseError>)
    ensures
        agrees(r, spec_charset(input@), input@),
{
    match atom(input) {
        Ok((rem, token)) => Ok((rem, owned(token))),
        Err(ParseError::Incomplete) => Err(ParseError::Incomplete),
        Err(ParseError::Invalid) => quoted(input),
    }
}

} // verus!
