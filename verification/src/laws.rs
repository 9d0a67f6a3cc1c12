use vstd::prelude::*;
use vstd::string::{is_ascii_spec_bytes, StringSliceAdditionalSpecFns};
use crate::lexical::{
    CharClass, decimal, in_class, is_atom_char, is_digit, lemma_decimal_grows, lemma_run_bound,
    lemma_run_in_class, lower, run_len, same_folded, spec_atom, spec_crlf, spec_number64,
    spec_nz_number, spec_sp, spec_tag, spec_tag_imap, spec_tag_no_case, spec_take_while1,
    spec_text,
};
use crate::outcome::{ParseError, Parsed, agrees};
use crate::quota::{
    lemma_quota_tail_keeps, spec_quota_list, spec_quota_resource, spec_quota_response,
    spec_resource_name, spec_resource_of, spec_setquota_list, spec_setquota_resource,
};
use crate::response::{
    Condition, spec_auth_capability, spec_bracketed_code, spec_capability, spec_capability_data,
    spec_capability_list, spec_capability_of, spec_continue_req, spec_resp_cond_bye,
    spec_resp_cond_state, spec_resp_text, spec_response, spec_response_data, spec_response_fatal,
    spec_response_tagged, spec_untagged,
};
use crate::sequence::{
    SeqNo, Sequence, spec_seq_number, spec_seq_range, spec_sequence, spec_sequence_set,
    spec_sequence_set_tail,
};
use crate::types::{
    CapabilityView, CodeView, DataView, QuotaSetView, ResourceView, ResponseView, StatusView,
};

verus! {

/// A run of bytes of a class, followed by a byte outside it, is exactly
/// the longest prefix in the class.
pub proof fn lemma_run_of_token(token: Seq<u8>, rest: Seq<u8>, class: CharClass)
    requires
        forall|i: int| 0 <= i < token.len() ==> in_class(class, #[trigger] token[i]),
        rest.len() == 0 || !in_class(class, rest[0]),
    ensures
        run_len(token + rest, class) == token.len(),
    decreases token.len(),
{
    if token.len() > 0 {
        assert((token + rest).skip(1) =~= token.skip(1) + rest);
        assert forall|i: int| 0 <= i < token.skip(1).len() implies in_class(
            class,
            #[trigger] token.skip(1)[i],
        ) by {
            assert(token.skip(1)[i] == token[i + 1]);
        }
        lemma_run_of_token(token.skip(1), rest, class);
    } else {
        assert(token + rest =~= rest);
    }
}

/// A token that a byte outside its class follows is recognized whole, and
/// nothing behind it is consumed.
pub proof fn law_terminated_token_is_done(token: Seq<u8>, rest: Seq<u8>, class: CharClass)
    requires
        token.len() > 0,
        forall|i: int| 0 <= i < token.len() ==> in_class(class, #[trigger] token[i]),
        rest.len() > 0,
        !in_class(class, rest[0]),
    ensures
        spec_take_while1(token + rest, class) == (Parsed::Done { rest, value: token }),
{
    lemma_run_of_token(token, rest, class);
    assert((token + rest).skip(token.len() as int) =~= rest);
    assert((token + rest).take(token.len() as int) =~= token);
}

/// A token that reaches the end of the input is not rejected: it may go
/// on, so more bytes are asked for.
pub proof fn law_unterminated_token_is_incomplete(token: Seq<u8>, class: CharClass)
    requires
        forall|i: int| 0 <= i < token.len() ==> in_class(class, #[trigger] token[i]),
    ensures
        spec_take_while1(token, class) is Incomplete,
{
    lemma_run_of_token(token, Seq::empty(), class);
    assert(token + Seq::<u8>::empty() =~= token);
}

/// A string of digits whose value fits in 64 bits, followed by a byte that
/// is no digit, is read as that value, and exactly the digits are
/// consumed.
pub proof fn law_number64_reads_value(digits: Seq<u8>, rest: Seq<u8>)
    requires
        digits.len() > 0,
        forall|i: int| 0 <= i < digits.len() ==> is_digit(#[trigger] digits[i]),
        decimal(digits) <= u64::MAX,
        rest.len() > 0,
        !is_digit(rest[0]),
    ensures
        spec_number64(digits + rest) == (Parsed::Done { rest, value: decimal(digits) as u64 }),
{
    law_terminated_token_is_done(digits, rest, CharClass::Digit);
}

/// A number that begins with the digit zero is no non-zero number,
/// whatever follows.
pub proof fn law_nz_number_rejects_leading_zero(s: Seq<u8>)
    requires
        s.len() > 0,
        s[0] == 0x30,
    ensures
        spec_nz_number(s) is Invalid,
{
}

/// A resource name is consumed as one atom, without the byte behind it,
/// and classified afterwards.
pub proof fn law_resource_name_consumes_token(token: Seq<u8>, rest: Seq<u8>)
    requires
        token.len() > 0,
        forall|i: int| 0 <= i < token.len() ==> is_atom_char(#[trigger] token[i]),
        rest.len() > 0,
        !is_atom_char(rest[0]),
    ensures
        spec_resource_name(token + rest) == (Parsed::Done {
            rest,
            value: spec_resource_of(token),
        }),
{
    law_terminated_token_is_done(token, rest, CharClass::Atom);
}

/// Each of the four known names denotes its kind in every casing; any
/// other name is kept as it was written.
pub proof fn law_resource_kinds(token: Seq<u8>)
    ensures
        same_folded(token, "STORAGE".spec_bytes()) ==> spec_resource_of(token)
            == ResourceView::Storage,
        same_folded(token, "MESSAGE".spec_bytes()) ==> spec_resource_of(token)
            == ResourceView::Message,
        same_folded(token, "MAILBOX".spec_bytes()) ==> spec_resource_of(token)
            == ResourceView::Mailbox,
        same_folded(token, "ANNOTATION-STORAGE".spec_bytes()) ==> spec_resource_of(token)
            == ResourceView::AnnotationStorage,
        !same_folded(token, "STORAGE".spec_bytes()) && !same_folded(token, "MESSAGE".spec_bytes())
            && !same_folded(token, "MAILBOX".spec_bytes()) && !same_folded(
            token,
            "ANNOTATION-STORAGE".spec_bytes(),
        ) ==> spec_resource_of(token) == ResourceView::Other(token),
{
    reveal_strlit("STORAGE");
    reveal_strlit("MESSAGE");
    reveal_strlit("MAILBOX");
    reveal_strlit("ANNOTATION-STORAGE");
    is_ascii_spec_bytes("STORAGE");
    is_ascii_spec_bytes("MESSAGE");
    is_ascii_spec_bytes("MAILBOX");
    is_ascii_spec_bytes("ANNOTATION-STORAGE");
    let storage = "STORAGE".spec_bytes();
    let message = "MESSAGE".spec_bytes();
    let mailbox = "MAILBOX".spec_bytes();
    assert(storage[0] == 0x53 && message[0] == 0x4d && message[1] == 0x45 && mailbox[1] == 0x41);
    if same_folded(token, storage) && same_folded(token, message) {
        assert(lower(token[0]) == lower(storage[0]));
        assert(lower(token[0]) == lower(message[0]));
    }
    if same_folded(token, storage) && same_folded(token, mailbox) {
        assert(lower(token[0]) == lower(storage[0]));
        assert(lower(token[0]) == lower(mailbox[0]));
    }
    if same_folded(token, message) && same_folded(token, mailbox) {
        assert(lower(token[1]) == lower(message[1]));
        assert(lower(token[1]) == lower(mailbox[1]));
    }
}

/// A non-zero number is at least one.
pub proof fn law_nz_number_is_not_zero(s: Seq<u8>)
    ensures
        spec_nz_number(s) matches Parsed::Done { value, .. } ==> value >= 1,
{
    if spec_nz_number(s) is Done {
        let n = run_len(s, CharClass::Digit) as int;
        let digits = s.take(n);
        lemma_run_bound(s, CharClass::Digit);
        assert forall|k: int| 0 <= k < digits.len() implies is_digit(#[trigger] digits[k]) by {
            lemma_run_in_class(s, CharClass::Digit, k);
        }
        lemma_decimal_grows(digits, 1);
        assert(digits.take(1).drop_last() =~= Seq::<u8>::empty());
        assert(decimal(digits.take(1)) == decimal(digits.take(1).drop_last()) * 10 + (
        digits.take(1).last() - 0x30) as nat);
    }
}

/// No sequence number is zero.
pub proof fn law_seq_number_is_not_zero(s: Seq<u8>)
    ensures
        spec_seq_number(s) matches Parsed::Done { value: SeqNo::Value(n), .. } ==> n >= 1,
{
    law_nz_number_is_not_zero(s);
}

proof fn lemma_sequence_set_tail_keeps(s: Seq<u8>, acc: Seq<Sequence>)
    ensures
        spec_sequence_set_tail(s, acc) matches Parsed::Done { value, .. } ==> value.len()
            >= acc.len(),
    decreases s.len(),
{
    match spec_tag(s, ",".spec_bytes()) {
        Parsed::Done { rest: r1, value: _ } => match spec_sequence(r1) {
            Parsed::Done { rest: r2, value } => if r2.len() < s.len() {
                lemma_sequence_set_tail_keeps(r2, acc.push(value));
            },
            _ => {},
        },
        _ => {},
    }
}

/// Where a range can be read, it is read: a single number never takes
/// the first end of a range.
pub proof fn law_range_before_single(s: Seq<u8>)
    ensures
        spec_seq_range(s) matches Parsed::Done { rest, value } ==> spec_sequence(s) == (
        Parsed::Done { rest, value: Sequence::Range(value.0, value.1) }),
{
}

/// A sequence set holds at least one element.
pub proof fn law_sequence_set_is_not_empty(s: Seq<u8>)
    ensures
        spec_sequence_set(s) matches Parsed::Done { value, .. } ==> value.len() >= 1,
{
    match spec_sequence(s) {
        Parsed::Done { rest, value } => {
            lemma_sequence_set_tail_keeps(rest, seq![value]);
        },
        _ => {},
    }
}

/// A capability that is no mechanism is consumed as one atom and
/// classified afterwards, so a keyword never matches a part of a token.
pub proof fn law_capability_consumes_token(token: Seq<u8>, rest: Seq<u8>)
    requires
        token.len() > 0,
        forall|i: int| 0 <= i < token.len() ==> is_atom_char(#[trigger] token[i]),
        rest.len() > 0,
        !is_atom_char(rest[0]),
        spec_auth_capability(token + rest) is Invalid,
    ensures
        spec_capability(token + rest) == (Parsed::Done {
            rest,
            value: spec_capability_of(token),
        }),
{
    law_terminated_token_is_done(token, rest, CharClass::Atom);
}

/// A capability list that is accepted names the baseline version.
pub proof fn law_capability_data_has_baseline(s: Seq<u8>)
    ensures
        spec_capability_data(s) matches Parsed::Done { value, .. } ==> value.contains(
            CapabilityView::Imap4Rev1,
        ),
{
}

/// A complete capability list is accepted, whole, if it names the baseline
/// version at any position, and rejected if it does not; an incomplete one
/// is not judged.
pub proof fn law_capability_data_decides_by_baseline(s: Seq<u8>)
    ensures
        spec_capability_list(s) matches Parsed::Done { rest, value } ==> spec_capability_data(s)
            == (if exists|i: int| 0 <= i < value.len() && value[i] == CapabilityView::Imap4Rev1 {
            Parsed::Done { rest, value }
        } else {
            Parsed::Invalid
        }),
        spec_capability_list(s) is Incomplete ==> spec_capability_data(s) is Incomplete,
{
}

/// The quota data of a response holds at least one resource.
pub proof fn law_quota_response_is_not_empty(s: Seq<u8>)
    ensures
        spec_quota_response(s) matches Parsed::Done { value: DataView::Quota { quotas, .. }, .. }
            ==> quotas.len() >= 1,
{
    if spec_quota_response(s) is Done {
        let r1 = s.skip("QUOTA ".spec_bytes().len() as int);
        match crate::quota::spec_quota_root_name(r1) {
            Parsed::Done { rest: r2, value: _ } => match spec_sp(r2) {
                Parsed::Done { rest: r3, value: _ } => {
                    law_quota_list_is_not_empty(r3);
                },
                _ => {},
            },
            _ => {},
        }
    }
}

/// The bytes of the status keywords.
proof fn lemma_words()
    ensures
        "BYE".spec_bytes() =~= seq![0x42u8, 0x59u8, 0x45u8],
        "OK".spec_bytes() =~= seq![0x4fu8, 0x4bu8],
        "NO".spec_bytes() =~= seq![0x4eu8, 0x4fu8],
        "BAD".spec_bytes() =~= seq![0x42u8, 0x41u8, 0x44u8],
{
    reveal_strlit("BYE");
    reveal_strlit("OK");
    reveal_strlit("NO");
    reveal_strlit("BAD");
    is_ascii_spec_bytes("BYE");
    is_ascii_spec_bytes("OK");
    is_ascii_spec_bytes("NO");
    is_ascii_spec_bytes("BAD");
}

/// What begins with BYE begins with none of OK, NO and BAD.
proof fn lemma_bye_is_no_state(s: Seq<u8>)
    requires
        spec_tag_no_case(s, "BYE".spec_bytes()) is Done,
    ensures
        spec_tag_no_case(s, "OK".spec_bytes()) is Invalid,
        spec_tag_no_case(s, "NO".spec_bytes()) is Invalid,
        spec_tag_no_case(s, "BAD".spec_bytes()) is Invalid,
{
    lemma_words();
    let bye = "BYE".spec_bytes();
    assert(s.len() >= 3);
    assert(lower(s[0]) == lower(bye[0]));
    assert(lower(s[1]) == lower(bye[1]));
    assert(lower(s[0]) != lower("OK".spec_bytes()[0]));
    assert(lower(s[0]) != lower("NO".spec_bytes()[0]));
    assert(lower(s[1]) != lower("BAD".spec_bytes()[1]));
}

/// A BYE without a tag is the same status whether it is read as untagged
/// data or as the fatal response.
pub proof fn law_bye_is_the_same_on_both_paths(s: Seq<u8>)
    ensures
        spec_response_fatal(s) matches Parsed::Done { rest, value } ==> spec_response_data(s) == (
        Parsed::Done { rest, value: ResponseView::Status(value) }),
{
    if spec_response_fatal(s) is Done {
        let r1 = spec_untagged(s)->rest;
        assert(spec_resp_cond_bye(r1) is Done);
        lemma_bye_is_no_state(r1);
        assert(spec_resp_cond_state(r1) is Invalid);
    }
}

/// The list of a quota response holds at least one resource.
pub proof fn law_quota_list_is_not_empty(s: Seq<u8>)
    ensures
        spec_quota_list(s) matches Parsed::Done { value, .. } ==> value.len() >= 1,
{
    match spec_quota_list(s) {
        Parsed::Done { .. } => {
            let r1 = s.skip("(".spec_bytes().len() as int);
            match spec_quota_resource(r1) {
                Parsed::Done { rest: r2, value: first } => {
                    lemma_quota_tail_keeps(r2, seq![first]);
                },
                _ => {},
            }
        },
        _ => {},
    }
}

/// An empty pair of parentheses is a limit list without entries.
pub proof fn law_setquota_list_may_be_empty(rest: Seq<u8>)
    ensures
        spec_setquota_list(seq![0x28u8, 0x29u8] + rest) == (Parsed::Done {
            rest,
            value: Seq::<QuotaSetView>::empty(),
        }),
{
    reveal_strlit("(");
    reveal_strlit(")");
    is_ascii_spec_bytes("(");
    is_ascii_spec_bytes(")");
    let s = seq![0x28u8, 0x29u8] + rest;
    let r1 = s.skip(1);
    assert("(".spec_bytes() =~= seq![0x28u8]);
    assert(")".spec_bytes() =~= seq![0x29u8]);
    assert(r1 =~= seq![0x29u8] + rest);
    lemma_run_of_token(Seq::empty(), r1, CharClass::Atom);
    assert(Seq::<u8>::empty() + r1 =~= r1);
    assert(spec_atom(r1) is Invalid);
    assert(spec_setquota_resource(r1) is Invalid);
    assert(r1.skip(1) =~= rest);
}

/// A recognizer keeps nothing between calls: two results on the same
/// input that both meet the grammar's outcome are the same result.
pub proof fn law_outcome_determines_result<T: DeepView>(
    first: Result<(&[u8], T), ParseError>,
    second: Result<(&[u8], T), ParseError>,
    outcome: Parsed<T::V>,
    input: Seq<u8>,
)
    requires
        agrees(first, outcome, input),
        agrees(second, outcome, input),
    ensures
        first is Ok <==> second is Ok,
        first is Ok ==> first.unwrap().0@ == second.unwrap().0@ && first.unwrap().1.deep_view()
            == second.unwrap().1.deep_view(),
        first is Err ==> first == second,
{
}

/// A tagged OK line up to its text: tag, space, `OK`, space, text, and
/// whatever follows.
pub open spec fn ok_line(tag: Seq<u8>, text: Seq<u8>, tail: Seq<u8>) -> Seq<u8> {
    tag + (seq![0x20u8] + (seq![0x4fu8, 0x4bu8] + (seq![0x20u8] + (text + tail))))
}

/// A tag and a text without a code, as they may stand in a status line.
pub open spec fn plain_status(tag: Seq<u8>, text: Seq<u8>) -> bool {
    &&& tag.len() > 0
    &&& forall|i: int| 0 <= i < tag.len() ==> in_class(CharClass::Tag, #[trigger] tag[i])
    &&& text.len() > 0
    &&& forall|i: int| 0 <= i < text.len() ==> in_class(CharClass::Text, #[trigger] text[i])
    &&& text[0] != 0x5b
}

/// The outcome on a status line that the outcome on its text decides.
pub open spec fn after_text<V>(text: Parsed<Seq<u8>>, f: spec_fn(Seq<u8>) -> V) -> Parsed<V> {
    match text {
        Parsed::Done { rest, value } => spec_crlf(rest).map(|end: ()| f(value)),
        e => e.fail(),
    }
}

proof fn lemma_marks()
    ensures
        "OK".spec_bytes() =~= seq![0x4fu8, 0x4bu8],
        "[".spec_bytes() =~= seq![0x5bu8],
        "+".spec_bytes() =~= seq![0x2bu8],
        "*".spec_bytes() =~= seq![0x2au8],
{
    reveal_strlit("OK");
    reveal_strlit("[");
    reveal_strlit("+");
    reveal_strlit("*");
    is_ascii_spec_bytes("OK");
    is_ascii_spec_bytes("[");
    is_ascii_spec_bytes("+");
    is_ascii_spec_bytes("*");
}

/// A text that begins with no bracket carries no code.
proof fn lemma_text_without_code(text: Seq<u8>, tail: Seq<u8>)
    requires
        text.len() > 0,
        text[0] != 0x5b,
    ensures
        spec_resp_text(text + tail) == match spec_text(text + tail) {
            Parsed::Done { rest, value } => Parsed::Done {
                rest,
                value: (None::<CodeView>, value),
            },
            e => e.fail(),
        },
{
    lemma_marks();
    let r4 = text + tail;
    assert(r4[0] == text[0]);
    assert(spec_tag(r4, "[".spec_bytes()) is Invalid);
    assert(spec_bracketed_code(r4) is Invalid);
}

/// `OK`, a space and a text without a code make the OK condition.
proof fn lemma_ok_condition(text: Seq<u8>, tail: Seq<u8>)
    requires
        text.len() > 0,
        text[0] != 0x5b,
    ensures
        spec_resp_cond_state(seq![0x4fu8, 0x4bu8] + (seq![0x20u8] + (text + tail))) == match spec_text(
            text + tail,
        ) {
            Parsed::Done { rest, value } => Parsed::Done {
                rest,
                value: (Condition::Okay, (None::<CodeView>, value)),
            },
            e => e.fail(),
        },
{
    lemma_marks();
    lemma_text_without_code(text, tail);
    let r4 = text + tail;
    let r3 = seq![0x20u8] + r4;
    let r2 = seq![0x4fu8, 0x4bu8] + r3;
    assert(r2.skip(2) =~= r3);
    assert(r2.take(2) =~= seq![0x4fu8, 0x4bu8]);
    assert(spec_tag_no_case(r2, "OK".spec_bytes()) == (Parsed::Done {
        rest: r3,
        value: seq![0x4fu8, 0x4bu8],
    }));
    assert(r3.skip(1) =~= r4);
    assert(spec_sp(r3) == (Parsed::Done { rest: r4, value: () }));
}

/// A line that begins with a tag is neither a continuation request nor
/// untagged data.
proof fn lemma_tagged_only(line: Seq<u8>)
    requires
        line.len() > 0,
        in_class(CharClass::Tag, line[0]),
    ensures
        spec_response(line) == spec_response_tagged(line).map(
            |status: StatusView| ResponseView::Status(status),
        ),
{
    lemma_marks();
    assert(spec_tag(line, "+".spec_bytes()) is Invalid);
    assert(spec_tag(line, "*".spec_bytes()) is Invalid);
    assert(spec_continue_req(line) is Invalid);
    assert(spec_untagged(line) is Invalid);
    assert(spec_response_data(line) is Invalid);
    assert(spec_response_fatal(line) is Invalid);
}

/// Up to the text, a tagged OK line is read as its parts; what the text
/// gives decides the rest.
proof fn lemma_ok_line(tag: Seq<u8>, text: Seq<u8>, tail: Seq<u8>)
    requires
        plain_status(tag, text),
    ensures
        spec_response_tagged(ok_line(tag, text, tail)) == after_text(
            spec_text(text + tail),
            |value: Seq<u8>| StatusView::Okay { tag: Some(tag), code: None, text: value },
        ),
{
    let r4 = text + tail;
    let r3 = seq![0x20u8] + r4;
    let r2 = seq![0x4fu8, 0x4bu8] + r3;
    let r1 = seq![0x20u8] + r2;
    let line = tag + r1;
    law_terminated_token_is_done(tag, r1, CharClass::Tag);
    assert(spec_tag_imap(line) == (Parsed::Done { rest: r1, value: tag }));
    assert(r1.skip(1) =~= r2);
    assert(spec_sp(r1) == (Parsed::Done { rest: r2, value: () }));
    lemma_ok_condition(text, tail);
}

/// A status line whose end has not arrived is not rejected: more bytes
/// are asked for.
pub proof fn law_status_line_without_end_is_incomplete(tag: Seq<u8>, text: Seq<u8>)
    requires
        plain_status(tag, text),
    ensures
        spec_response(ok_line(tag, text, Seq::empty())) is Incomplete,
{
    let line = ok_line(tag, text, Seq::empty());
    lemma_ok_line(tag, text, Seq::empty());
    law_unterminated_token_is_incomplete(text, CharClass::Text);
    assert(text + Seq::<u8>::empty() =~= text);
    assert(line[0] == tag[0]);
    lemma_tagged_only(line);
}

/// The same line with its end is accepted, and consumed up to what
/// follows the line end.
pub proof fn law_status_line_with_end_is_done(tag: Seq<u8>, text: Seq<u8>, rest: Seq<u8>)
    requires
        plain_status(tag, text),
    ensures
        spec_response(ok_line(tag, text, seq![0x0du8, 0x0au8] + rest)) == (Parsed::Done {
            rest,
            value: ResponseView::Status(StatusView::Okay { tag: Some(tag), code: None, text }),
        }),
{
    let tail = seq![0x0du8, 0x0au8] + rest;
    let line = ok_line(tag, text, tail);
    lemma_ok_line(tag, text, tail);
    law_terminated_token_is_done(text, tail, CharClass::Text);
    assert(tail.skip(2) =~= rest);
    assert(line[0] == tag[0]);
    lemma_tagged_only(line);
}

} // verus!
