use vstd::prelude::*;
use vstd::slice::slice_subrange;
use vstd::string::StringSliceAdditionalSpecFns;
use crate::lexical::{
    atom, charset, crlf, is_word, nz_number, owned, same_folded, sp, spec_atom, spec_charset,
    spec_crlf, spec_nz_number, spec_sp, spec_tag, spec_tag_imap, spec_tag_no_case,
    spec_take_while, spec_take_while1, spec_text, tag, tag_imap, tag_no_case, take_while,
    take_while1, text, CharClass,
};
use crate::outcome::{agrees, group_suffix, is_suffix, ParseError, Parsed};
use crate::quota::{
    quota_response, quotaroot_response, resource_of, spec_quota_response,
    spec_quotaroot_response, spec_resource_of,
};
use crate::types::{
    Capability, CapabilityView, Code, CodeView, Continuation, ContinuationView, Data, DataView,
    FlagPerm, FlagPermView, Response, ResponseView, Status, StatusView,
};

verus! {

broadcast use group_suffix;

/// The keyword of a status condition.
#[derive(Debug, Clone, Copy, PartialEq, Eq, Structural)]
pub enum Condition {
    Okay,
    No,
    Bad,
    PreAuth,
}

impl DeepView for Condition {
    type V = Condition;

    open spec fn deep_view(&self) -> Condition {
        *self
    }
}

// ----- capabilities -----

/// The capability that a token denotes: a known one where the token is its
/// name up to case, a resource capability where it begins with
/// `QUOTA=RES-`, else the token itself.
pub open spec fn spec_capability_of(token: Seq<u8>) -> CapabilityView {
    if same_folded(token, "IMAP4REV1".spec_bytes()) {
        CapabilityView::Imap4Rev1
    } else if same_folded(token, "STARTTLS".spec_bytes()) {
        CapabilityView::StartTls
    } else if same_folded(token, "IDLE".spec_bytes()) {
        CapabilityView::Idle
    } else if same_folded(token, "MAILBOX-REFERRALS".spec_bytes()) {
        CapabilityView::MailboxReferrals
    } else if same_folded(token, "LOGIN-REFERRALS".spec_bytes()) {
        CapabilityView::LoginReferrals
    } else if same_folded(token, "SASL-IR".spec_bytes()) {
        CapabilityView::SaslIr
    } else if same_folded(token, "ENABLE".spec_bytes()) {
        CapabilityView::Enable
    } else if same_folded(token, "QUOTASET".spec_bytes()) {
        CapabilityView::QuotaSet
    } else if same_folded(token, "QUOTA".spec_bytes()) {
        CapabilityView::Quota
    } else if token.len() > 10 && same_folded(token.take(10), "QUOTA=RES-".spec_bytes()) {
        CapabilityView::QuotaRes(spec_resource_of(token.skip(10)))
    } else {
        CapabilityView::Other(token)
    }
}

pub fn capability_of(token: &[u8]) -> (r: Capability)
    ensures
        r.deep_view() == spec_capability_of(token@),
{
    if is_word(token, "IMAP4REV1") {
        Capability::Imap4Rev1
    } else if is_word(token, "STARTTLS") {
        Capability::StartTls
    } else if is_word(token, "IDLE") {
        Capability::Idle
    } else if is_word(token, "MAILBOX-REFERRALS") {
        Capability::MailboxReferrals
    } else if is_word(token, "LOGIN-REFERRALS") {
        Capability::LoginReferrals
    } else if is_word(token, "SASL-IR") {
        Capability::SaslIr
    } else if is_word(token, "ENABLE") {
        Capability::Enable
    } else if is_word(token, "QUOTASET") {
        Capability::QuotaSet
    } else if is_word(token, "QUOTA") {
        Capability::Quota
    } else if token.len() > 10 && is_word(slice_subrange(token, 0, 10), "QUOTA=RES-") {
        Capability::QuotaRes(resource_of(slice_subrange(token, 10, token.len())))
    } else {
        Capability::Other(owned(token))
    }
}

pub open spec fn spec_auth_capability(s: Seq<u8>) -> Parsed<CapabilityView> {
    match spec_tag_no_case(s, "AUTH=".spec_bytes()) {
        Parsed::Done { rest: r1, value: _ } => spec_atom(r1).map(
            |mechanism: Seq<u8>| CapabilityView::Auth(mechanism),
        ),
        e => e.fail(),
    }
}

/// "AUTH=" auth-type, where the mechanism name is an atom.
pub fn auth_capability(input: &[u8]) -> (r: Result<(&[u8], Capability), ParseError>)
    ensures
        agrees(r, spec_auth_capability(input@), input@),
{
    let (r1, _) = tag_no_case(input, "AUTH=")?;
    let (rem, mechanism) = atom(r1)?;
    Ok((rem, Capability::Auth(owned(mechanism))))
}

pub open spec fn spec_capability(s: Seq<u8>) -> Parsed<CapabilityView> {
    spec_auth_capability(s).or(spec_atom(s).map(|token: Seq<u8>| spec_capability_of(token)))
}

/// capability = ("AUTH=" auth-type) / atom
///
/// But for the mechanism form the whole atom is consumed before it is
/// classified, so no keyword can match a mere prefix of a token.
pub fn capability(input: &[u8]) -> (r: Result<(&[u8], Capability), ParseError>)
    ensures
        agrees(r, spec_capability(input@), input@),
{
    match auth_capability(input) {
        Ok((rem, value)) => { return Ok((rem, value)); },
        Err(ParseError::Incomplete) => { return Err(ParseError::Incomplete); },
        Err(ParseError::Invalid) => {},
    }
    let (rem, token) = atom(input)?;
    Ok((rem, capability_of(token)))
}

/// A list of one element.
fn one_capability(item: Capability) -> (v: Vec<Capability>)
    ensures
        v.deep_view() == seq![item.deep_view()],
{
    let mut v: Vec<Capability> = Vec::new();
    v.push(item);
    assert(v.deep_view() =~= seq![item.deep_view()]);
    v
}

/// What follows the capabilities `acc`: each further space with a capability.
pub open spec fn spec_capability_tail(s: Seq<u8>, acc: Seq<CapabilityView>) -> Parsed<Seq<CapabilityView>>
    decreases s.len(),
{
    match spec_sp(s) {
        Parsed::Done { rest: r1, value: _ } => match spec_capability(r1) {
            Parsed::Done { rest: r2, value } => if r2.len() < s.len() {
                spec_capability_tail(r2, acc.push(value))
            } else {
                Parsed::Invalid
            },
            Parsed::Incomplete => Parsed::Incomplete,
            Parsed::Invalid => Parsed::Done { rest: s, value: acc },
        },
        Parsed::Incomplete => Parsed::Incomplete,
        Parsed::Invalid => Parsed::Done { rest: s, value: acc },
    }
}

pub fn capability_tail<'a>(input: &'a [u8], first: Vec<Capability>) -> (r: Result<(&'a [u8], Vec<Capability>), ParseError>)
    ensures
        agrees(r, spec_capability_tail(input@, first.deep_view()), input@),
{
    let mut items = first;
    let mut cur: &[u8] = input;
    loop
        invariant
            is_suffix(cur@, input@),
            spec_capability_tail(input@, first.deep_view()) == spec_capability_tail(
                cur@,
                items.deep_view(),
            ),
        decreases cur@.len(),
    {
        let r1 = match sp(cur) {
            Ok((r1, _)) => r1,
            Err(ParseError::Incomplete) => { return Err(ParseError::Incomplete); },
            Err(ParseError::Invalid) => { return Ok((cur, items)); },
        };
        match capability(r1) {
            Ok((r2, item)) => {
                if r2.len() >= cur.len() {
                    return Err(ParseError::Invalid);
                }
                let ghost before = items.deep_view();
                let ghost item_view = item.deep_view();
                items.push(item);
                assert(items.deep_view() =~= before.push(item_view));
                cur = r2;
            },
            Err(ParseError::Incomplete) => { return Err(ParseError::Incomplete); },
            Err(ParseError::Invalid) => { return Ok((cur, items)); },
        }
    }
}

/// Whether the list names the baseline protocol version.
pub fn has_baseline(caps: &Vec<Capability>) -> (r: bool)
    ensures
        r == caps.deep_view().contains(CapabilityView::Imap4Rev1),
{
    let mut i: usize = 0;
    while i < caps.len()
        invariant
            0 <= i <= caps@.len(),
            forall|k: int| 0 <= k < i ==> caps.deep_view()[k] != CapabilityView::Imap4Rev1,
        decreases caps@.len() - i,
    {
        match &caps[i] {
            Capability::Imap4Rev1 => {
                assert(caps.deep_view()[i as int] == CapabilityView::Imap4Rev1);
                return true;
            },
            _ => {},
        }
        i = i + 1;
    }
    false
}

/// "CAPABILITY" 1*(SP capability): the list as it stands.
pub open spec fn spec_capability_list(s: Seq<u8>) -> Parsed<Seq<CapabilityView>> {
    match spec_tag_no_case(s, "CAPABILITY".spec_bytes()) {
        Parsed::Done { rest: r1, value: _ } => match spec_sp(r1) {
            Parsed::Done { rest: r2, value: _ } => match spec_capability(r2) {
                Parsed::Done { rest: r3, value: first } => spec_capability_tail(r3, seq![first]),
                e => e.fail(),
            },
            e => e.fail(),
        },
        e => e.fail(),
    }
}

pub fn capability_list(input: &[u8]) -> (r: Result<(&[u8], Vec<Capability>), ParseError>)
    ensures
        agrees(r, spec_capability_list(input@), input@),
{
    let (r1, _) = tag_no_case(input, "CAPABILITY")?;
    let (r2, _) = sp(r1)?;
    let (r3, first) = capability(r2)?;
    capability_tail(r3, one_capability(first))
}

/// A capability list counts only where it names the baseline version.
pub open spec fn spec_capability_data(s: Seq<u8>) -> Parsed<Seq<CapabilityView>> {
    match spec_capability_list(s) {
        Parsed::Done { rest, value } => if value.contains(CapabilityView::Imap4Rev1) {
            Parsed::Done { rest, value }
        } else {
            Parsed::Invalid
        },
        e => e.fail(),
    }
}

/// capability-data = "CAPABILITY" 1*(SP capability), with `IMAP4rev1` among
/// the capabilities.
///
/// The list is tested only once the byte behind its last token has been
/// seen; a list without the baseline version is rejected.
pub fn capability_data(input: &[u8]) -> (r: Result<(&[u8], Vec<Capability>), ParseError>)
    ensures
        agrees(r, spec_capability_data(input@), input@),
{
    let (rem, caps) = capability_list(input)?;
    if has_baseline(&caps) {
        Ok((rem, caps))
    } else {
        Err(ParseError::Invalid)
    }
}

// ----- response codes -----

pub open spec fn spec_system_flag(s: Seq<u8>) -> Parsed<FlagPermView> {
    match spec_tag(s, "\\".spec_bytes()) {
        Parsed::Done { rest: r1, value: _ } => spec_atom(r1).map(
            |name: Seq<u8>| FlagPermView::System(name),
        ),
        e => e.fail(),
    }
}

pub fn system_flag(input: &[u8]) -> (r: Result<(&[u8], FlagPerm), ParseError>)
    ensures
        agrees(r, spec_system_flag(input@), input@),
{
    let (r1, _) = tag(input, "\\")?;
    let (rem, name) = atom(r1)?;
    Ok((rem, FlagPerm::System(owned(name))))
}

pub open spec fn spec_flag_perm(s: Seq<u8>) -> Parsed<FlagPermView> {
    let asterisk = spec_tag(s, "\\*".spec_bytes()).map(|found: Seq<u8>| FlagPermView::Asterisk);
    let keyword = spec_atom(s).map(|name: Seq<u8>| FlagPermView::Keyword(name));
    spec_system_flag(s).or(asterisk).or(keyword)
}

/// flag-perm = flag / "\*", where a flag is a backslash with an atom, or an
/// atom.
pub fn flag_perm(input: &[u8]) -> (r: Result<(&[u8], FlagPerm), ParseError>)
    ensures
        agrees(r, spec_flag_perm(input@), input@),
{
    match system_flag(input) {
        Ok((rem, value)) => { return Ok((rem, value)); },
        Err(ParseError::Incomplete) => { return Err(ParseError::Incomplete); },
        Err(ParseError::Invalid) => {},
    }
    match tag(input, "\\*") {
        Ok((rem, _)) => { return Ok((rem, FlagPerm::Asterisk)); },
        Err(ParseError::Incomplete) => { return Err(ParseError::Incomplete); },
        Err(ParseError::Invalid) => {},
    }
    let (rem, name) = atom(input)?;
    Ok((rem, FlagPerm::Keyword(owned(name))))
}

/// A list of one element.
fn one_flag_perm(item: FlagPerm) -> (v: Vec<FlagPerm>)
    ensures
        v.deep_view() == seq![item.deep_view()],
{
    let mut v: Vec<FlagPerm> = Vec::new();
    v.push(item);
    assert(v.deep_view() =~= seq![item.deep_view()]);
    v
}

/// What follows the flags `acc`: each further space with a flag.
pub open spec fn spec_flag_perm_tail(s: Seq<u8>, acc: Seq<FlagPermView>) -> Parsed<Seq<FlagPermView>>
    decreases s.len(),
{
    match spec_sp(s) {
        Parsed::Done { rest: r1, value: _ } => match spec_flag_perm(r1) {
            Parsed::Done { rest: r2, value } => if r2.len() < s.len() {
                spec_flag_perm_tail(r2, acc.push(value))
            } else {
                Parsed::Invalid
            },
            Parsed::Incomplete => Parsed::Incomplete,
            Parsed::Invalid => Parsed::Done { rest: s, value: acc },
        },
        Parsed::Incomplete => Parsed::Incomplete,
        Parsed::Invalid => Parsed::Done { rest: s, value: acc },
    }
}

pub fn flag_perm_tail<'a>(input: &'a [u8], first: Vec<FlagPerm>) -> (r: Result<(&'a [u8], Vec<FlagPerm>), ParseError>)
    ensures
        agrees(r, spec_flag_perm_tail(input@, first.deep_view()), input@),
{
    let mut items = first;
    let mut cur: &[u8] = input;
    loop
        invariant
            is_suffix(cur@, input@),
            spec_flag_perm_tail(input@, first.deep_view()) == spec_flag_perm_tail(
                cur@,
                items.deep_view(),
            ),
        decreases cur@.len(),
    {
        let r1 = match sp(cur) {
            Ok((r1, _)) => r1,
            Err(ParseError::Incomplete) => { return Err(ParseError::Incomplete); },
            Err(ParseError::Invalid) => { return Ok((cur, items)); },
        };
        match flag_perm(r1) {
            Ok((r2, item)) => {
                if r2.len() >= cur.len() {
                    return Err(ParseError::Invalid);
                }
                let ghost before = items.deep_view();
                let ghost item_view = item.deep_view();
                items.push(item);
                assert(items.deep_view() =~= before.push(item_view));
                cur = r2;
            },
            Err(ParseError::Incomplete) => { return Err(ParseError::Incomplete); },
            Err(ParseError::Invalid) => { return Ok((cur, items)); },
        }
    }
}

/// A list of one element.
fn one_charset(item: Vec<u8>) -> (v: Vec<Vec<u8>>)
    ensures
        v.deep_view() == seq![item.deep_view()],
{
    let mut v: Vec<Vec<u8>> = Vec::new();
    v.push(item);
    assert(v.deep_view() =~= seq![item.deep_view()]);
    v
}

/// What follows the charset names `acc`: each further space with a name.
pub open spec fn spec_charset_tail(s: Seq<u8>, acc: Seq<Seq<u8>>) -> Parsed<Seq<Seq<u8>>>
    decreases s.len(),
{
    match spec_sp(s) {
        Parsed::Done { rest: r1, value: _ } => match spec_charset(r1) {
            Parsed::Done { rest: r2, value } => if r2.len() < s.len() {
                spec_charset_tail(r2, acc.push(value))
            } else {
                Parsed::Invalid
            },
            Parsed::Incomplete => Parsed::Incomplete,
            Parsed::Invalid => Parsed::Done { rest: s, value: acc },
        },
        Parsed::Incomplete => Parsed::Incomplete,
        Parsed::Invalid => Parsed::Done { rest: s, value: acc },
    }
}

pub fn charset_tail<'a>(input: &'a [u8], first: Vec<Vec<u8>>) -> (r: Result<(&'a [u8], Vec<Vec<u8>>), ParseError>)
    ensures
        agrees(r, spec_charset_tail(input@, first.deep_view()), input@),
{
    let mut items = first;
    let mut cur: &[u8] = input;
    loop
        invariant
            is_suffix(cur@, input@),
            spec_charset_tail(input@, first.deep_view()) == spec_charset_tail(
                cur@,
                items.deep_view(),
            ),
        decreases cur@.len(),
    {
        let r1 = match sp(cur) {
            Ok((r1, _)) => r1,
            Err(ParseError::Incomplete) => { return Err(ParseError::Incomplete); },
            Err(ParseError::Invalid) => { return Ok((cur, items)); },
        };
        match charset(r1) {
            Ok((r2, item)) => {
                if r2.len() >= cur.len() {
                    return Err(ParseError::Invalid);
                }
                let ghost before = items.deep_view();
                let ghost item_view = item.deep_view();
                items.push(item);
                assert(items.deep_view() =~= before.push(item_view));
                cur = r2;
            },
            Err(ParseError::Incomplete) => { return Err(ParseError::Incomplete); },
            Err(ParseError::Invalid) => { return Ok((cur, items)); },
        }
    }
}

/// SP "(" charset *(SP charset) ")"
pub open spec fn spec_charset_list(s: Seq<u8>) -> Parsed<Seq<Seq<u8>>> {
    match spec_sp(s) {
        Parsed::Done { rest: r1, value: _ } => match spec_tag(r1, "(".spec_bytes()) {
            Parsed::Done { rest: r2, value: _ } => match spec_charset(r2) {
                Parsed::Done { rest: r3, value: first } => match spec_charset_tail(
                    r3,
                    seq![first],
                ) {
                    Parsed::Done { rest: r4, value: names } => spec_tag(
                        r4,
                        ")".spec_bytes(),
                    ).map(|found: Seq<u8>| names),
                    e => e.fail(),
                },
                e => e.fail(),
            },
            e => e.fail(),
        },
        e => e.fail(),
    }
}

pub fn charset_list(input: &[u8]) -> (r: Result<(&[u8], Vec<Vec<u8>>), ParseError>)
    ensures
        agrees(r, spec_charset_list(input@), input@),
{
    let (r1, _) = sp(input)?;
    let (r2, _) = tag(r1, "(")?;
    let (r3, first) = charset(r2)?;
    let (r4, names) = charset_tail(r3, one_charset(first))?;
    let (rem, _) = tag(r4, ")")?;
    Ok((rem, names))
}

/// "BADCHARSET" [SP "(" charset *(SP charset) ")"]: without the list, no
/// names.
pub open spec fn spec_code_badcharset(s: Seq<u8>) -> Parsed<Seq<Seq<u8>>> {
    match spec_tag_no_case(s, "BADCHARSET".spec_bytes()) {
        Parsed::Done { rest: r1, value: _ } => match spec_charset_list(r1) {
            Parsed::Done { rest, value } => Parsed::Done { rest, value },
            Parsed::Incomplete => Parsed::Incomplete,
            Parsed::Invalid => Parsed::Done { rest: r1, value: Seq::empty() },
        },
        e => e.fail(),
    }
}

pub fn code_badcharset(input: &[u8]) -> (r: Result<(&[u8], Vec<Vec<u8>>), ParseError>)
    ensures
        agrees(r, spec_code_badcharset(input@), input@),
{
    let (r1, _) = tag_no_case(input, "BADCHARSET")?;
    match charset_list(r1) {
        Ok((rem, names)) => Ok((rem, names)),
        Err(ParseError::Incomplete) => Err(ParseError::Incomplete),
        Err(ParseError::Invalid) => {
            let names: Vec<Vec<u8>> = Vec::new();
            assert(names.deep_view() =~= Seq::empty());
            Ok((r1, names))
        },
    }
}

/// "PERMANENTFLAGS" SP "(" [flag-perm *(SP flag-perm)] ")": an empty pair
/// of parentheses gives no flags.
pub open spec fn spec_code_permanentflags(s: Seq<u8>) -> Parsed<Seq<FlagPermView>> {
    match spec_tag_no_case(s, "PERMANENTFLAGS".spec_bytes()) {
        Parsed::Done { rest: r1, value: _ } => match spec_sp(r1) {
            Parsed::Done { rest: r2, value: _ } => match spec_tag(r2, "(".spec_bytes()) {
                Parsed::Done { rest: r3, value: _ } => {
                    let flags = match spec_flag_perm(r3) {
                        Parsed::Done { rest: r4, value: first } => spec_flag_perm_tail(
                            r4,
                            seq![first],
                        ),
                        Parsed::Incomplete => Parsed::Incomplete,
                        Parsed::Invalid => Parsed::Done { rest: r3, value: Seq::empty() },
                    };
                    match flags {
                        Parsed::Done { rest: r5, value: found } => spec_tag(
                            r5,
                            ")".spec_bytes(),
                        ).map(|close: Seq<u8>| found),
                        e => e.fail(),
                    }
                },
                e => e.fail(),
            },
            e => e.fail(),
        },
        e => e.fail(),
    }
}

pub fn code_permanentflags(input: &[u8]) -> (r: Result<(&[u8], Vec<FlagPerm>), ParseError>)
    ensures
        agrees(r, spec_code_permanentflags(input@), input@),
{
    let (r1, _) = tag_no_case(input, "PERMANENTFLAGS")?;
    let (r2, _) = sp(r1)?;
    let (r3, _) = tag(r2, "(")?;
    let (r5, flags) = match flag_perm(r3) {
        Ok((r4, first)) => flag_perm_tail(r4, one_flag_perm(first))?,
        Err(ParseError::Incomplete) => { return Err(ParseError::Incomplete); },
        Err(ParseError::Invalid) => {
            let none: Vec<FlagPerm> = Vec::new();
            assert(none.deep_view() =~= Seq::empty());
            (r3, none)
        },
    };
    let (rem, _) = tag(r5, ")")?;
    Ok((rem, flags))
}

/// A keyword, a space and a non-zero number.
pub open spec fn spec_code_number(s: Seq<u8>, word: Seq<u8>) -> Parsed<u32> {
    match spec_tag_no_case(s, word) {
        Parsed::Done { rest: r1, value: _ } => match spec_sp(r1) {
            Parsed::Done { rest: r2, value: _ } => spec_nz_number(r2),
            e => e.fail(),
        },
        e => e.fail(),
    }
}

pub fn code_number<'a>(input: &'a [u8], word: &str) -> (r: Result<(&'a [u8], u32), ParseError>)
    ensures
        agrees(r, spec_code_number(input@, word.spec_bytes()), input@),
{
    let (r1, _) = tag_no_case(input, word)?;
    let (r2, _) = sp(r1)?;
    nz_number(r2)
}

/// The text behind an unknown code: a space and a run of text characters
/// other than `]`.
pub open spec fn spec_code_param(s: Seq<u8>) -> Parsed<Seq<u8>> {
    match spec_sp(s) {
        Parsed::Done { rest: r1, value: _ } => spec_take_while1(r1, CharClass::CodeText),
        e => e.fail(),
    }
}

/// atom [SP 1*<any TEXT-CHAR except "]">]
pub open spec fn spec_code_other(s: Seq<u8>) -> Parsed<CodeView> {
    match spec_atom(s) {
        Parsed::Done { rest: r1, value: name } => spec_code_param(r1).optional(r1).map(
            |param: Option<Seq<u8>>| CodeView::Other(name, param),
        ),
        e => e.fail(),
    }
}

pub fn code_other(input: &[u8]) -> (r: Result<(&[u8], Code), ParseError>)
    ensures
        agrees(r, spec_code_other(input@), input@),
{
    let (r1, name) = atom(input)?;
    let r2 = match sp(r1) {
        Ok((r2, _)) => r2,
        Err(ParseError::Incomplete) => { return Err(ParseError::Incomplete); },
        Err(ParseError::Invalid) => { return Ok((r1, Code::Other(owned(name), None))); },
    };
    match take_while1(r2, CharClass::CodeText) {
        Ok((rem, param)) => Ok((rem, Code::Other(owned(name), Some(owned(param))))),
        Err(ParseError::Incomplete) => Err(ParseError::Incomplete),
        Err(ParseError::Invalid) => Ok((r1, Code::Other(owned(name), None))),
    }
}

/// A code that is a keyword alone.
pub open spec fn spec_code_word(s: Seq<u8>, word: Seq<u8>, code: CodeView) -> Parsed<CodeView> {
    spec_tag_no_case(s, word).map(|found: Seq<u8>| code)
}

/// The alternatives in their order; the first that does not reject
/// decides.
pub open spec fn spec_resp_text_code(s: Seq<u8>) -> Parsed<CodeView> {
    spec_code_word(s, "ALERT".spec_bytes(), CodeView::Alert).or(
        spec_code_badcharset(s).map(|names: Seq<Seq<u8>>| CodeView::BadCharset(names)),
    ).or(spec_capability_data(s).map(|caps: Seq<CapabilityView>| CodeView::Capability(caps))).or(
        spec_code_word(s, "PARSE".spec_bytes(), CodeView::Parse),
    ).or(
        spec_code_permanentflags(s).map(|flags: Seq<FlagPermView>| CodeView::PermanentFlags(flags)),
    ).or(spec_code_word(s, "READ-ONLY".spec_bytes(), CodeView::ReadOnly)).or(
        spec_code_word(s, "READ-WRITE".spec_bytes(), CodeView::ReadWrite),
    ).or(spec_code_word(s, "TRYCREATE".spec_bytes(), CodeView::TryCreate)).or(
        spec_code_number(s, "UIDNEXT".spec_bytes()).map(|n: u32| CodeView::UidNext(n)),
    ).or(spec_code_number(s, "UIDVALIDITY".spec_bytes()).map(|n: u32| CodeView::UidValidity(n))).or(
        spec_code_number(s, "UNSEEN".spec_bytes()).map(|n: u32| CodeView::Unseen(n)),
    ).or(spec_code_other(s))
}

/// resp-text-code = "ALERT" / "BADCHARSET" [..] / capability-data / "PARSE" /
/// "PERMANENTFLAGS" SP "(" [..] ")" / "READ-ONLY" / "READ-WRITE" /
/// "TRYCREATE" / "UIDNEXT" SP nz-number / "UIDVALIDITY" SP nz-number /
/// "UNSEEN" SP nz-number / atom [SP text]
pub fn resp_text_code(input: &[u8]) -> (r: Result<(&[u8], Code), ParseError>)
    ensures
        agrees(r, spec_resp_text_code(input@), input@),
{
    match tag_no_case(input, "ALERT") {
        Ok((rem, _)) => { return Ok((rem, Code::Alert)); },
        Err(ParseError::Incomplete) => { return Err(ParseError::Incomplete); },
        Err(ParseError::Invalid) => {},
    }
    match code_badcharset(input) {
        Ok((rem, value)) => { return Ok((rem, Code::BadCharset(value))); },
        Err(ParseError::Incomplete) => { return Err(ParseError::Incomplete); },
        Err(ParseError::Invalid) => {},
    }
    match capability_data(input) {
        Ok((rem, value)) => { return Ok((rem, Code::Capability(value))); },
        Err(ParseError::Incomplete) => { return Err(ParseError::Incomplete); },
        Err(ParseError::Invalid) => {},
    }
    match tag_no_case(input, "PARSE") {
        Ok((rem, _)) => { return Ok((rem, Code::Parse)); },
        Err(ParseError::Incomplete) => { return Err(ParseError::Incomplete); },
        Err(ParseError::Invalid) => {},
    }
    match code_permanentflags(input) {
        Ok((rem, value)) => { return Ok((rem, Code::PermanentFlags(value))); },
        Err(ParseError::Incomplete) => { return Err(ParseError::Incomplete); },
        Err(ParseError::Invalid) => {},
    }
    match tag_no_case(input, "READ-ONLY") {
        Ok((rem, _)) => { return Ok((rem, Code::ReadOnly)); },
        Err(ParseError::Incomplete) => { return Err(ParseError::Incomplete); },
        Err(ParseError::Invalid) => {},
    }
    match tag_no_case(input, "READ-WRITE") {
        Ok((rem, _)) => { return Ok((rem, Code::ReadWrite)); },
        Err(ParseError::Incomplete) => { return Err(ParseError::Incomplete); },
        Err(ParseError::Invalid) => {},
    }
    match tag_no_case(input, "TRYCREATE") {
        Ok((rem, _)) => { return Ok((rem, Code::TryCreate)); },
        Err(ParseError::Incomplete) => { return Err(ParseError::Incomplete); },
        Err(ParseError::Invalid) => {},
    }
    match code_number(input, "UIDNEXT") {
        Ok((rem, value)) => { return Ok((rem, Code::UidNext(value))); },
        Err(ParseError::Incomplete) => { return Err(ParseError::Incomplete); },
        Err(ParseError::Invalid) => {},
    }
    match code_number(input, "UIDVALIDITY") {
        Ok((rem, value)) => { return Ok((rem, Code::UidValidity(value))); },
        Err(ParseError::Incomplete) => { return Err(ParseError::Incomplete); },
        Err(ParseError::Invalid) => {},
    }
    match code_number(input, "UNSEEN") {
        Ok((rem, value)) => { return Ok((rem, Code::Unseen(value))); },
        Err(ParseError::Incomplete) => { return Err(ParseError::Incomplete); },
        Err(ParseError::Invalid) => {},
    }
    code_other(input)
}

pub open spec fn spec_bracketed_code(s: Seq<u8>) -> Parsed<CodeView> {
    match spec_tag(s, "[".spec_bytes()) {
        Parsed::Done { rest: r1, value: _ } => match spec_resp_text_code(r1) {
            Parsed::Done { rest: r2, value: code } => match spec_tag(r2, "]".spec_bytes()) {
                Parsed::Done { rest: r3, value: _ } => spec_sp(r3).map(|space: ()| code),
                e => e.fail(),
            },
            e => e.fail(),
        },
        e => e.fail(),
    }
}

/// "[" resp-text-code "]" SP
pub fn bracketed_code(input: &[u8]) -> (r: Result<(&[u8], Code), ParseError>)
    ensures
        agrees(r, spec_bracketed_code(input@), input@),
{
    let (r1, _) = tag(input, "[")?;
    let (r2, code) = resp_text_code(r1)?;
    let (r3, _) = tag(r2, "]")?;
    let (rem, _) = sp(r3)?;
    Ok((rem, code))
}

pub open spec fn spec_resp_text(s: Seq<u8>) -> Parsed<(Option<CodeView>, Seq<u8>)> {
    match spec_bracketed_code(s).optional(s) {
        Parsed::Done { rest: r1, value: code } => spec_text(r1).map(|t: Seq<u8>| (code, t)),
        e => e.fail(),
    }
}

/// resp-text = ["[" resp-text-code "]" SP] text
pub fn resp_text(input: &[u8]) -> (r: Result<(&[u8], (Option<Code>, Vec<u8>)), ParseError>)
    ensures
        agrees(r, spec_resp_text(input@), input@),
{
    let (r1, code) = match bracketed_code(input) {
        Ok((r1, code)) => (r1, Some(code)),
        Err(ParseError::Incomplete) => { return Err(ParseError::Incomplete); },
        Err(ParseError::Invalid) => (input, None),
    };
    let (rem, t) = text(r1)?;
    Ok((rem, (code, owned(t))))
}

// ----- status conditions -----

/// The status that a keyword, a tag, a code and a text make. `PREAUTH`
/// carries no tag.
pub open spec fn spec_status_of(
    word: Condition,
    tag: Option<Seq<u8>>,
    code: Option<CodeView>,
    text: Seq<u8>,
) -> StatusView {
    match word {
        Condition::Okay => StatusView::Okay { tag, code, text },
        Condition::No => StatusView::No { tag, code, text },
        Condition::Bad => StatusView::Bad { tag, code, text },
        Condition::PreAuth => StatusView::PreAuth { code, text },
    }
}

pub fn status_of(word: Condition, tag: Option<Vec<u8>>, code: Option<Code>, text: Vec<u8>) -> (r:
    Status)
    ensures
        r.deep_view() == spec_status_of(
            word,
            tag.deep_view(),
            code.deep_view(),
            text.deep_view(),
        ),
{
    match word {
        Condition::Okay => Status::Okay { tag, code, text },
        Condition::No => Status::No { tag, code, text },
        Condition::Bad => Status::Bad { tag, code, text },
        Condition::PreAuth => Status::PreAuth { code, text },
    }
}

pub open spec fn spec_word(s: Seq<u8>, word: Seq<u8>, condition: Condition) -> Parsed<Condition> {
    spec_tag_no_case(s, word).map(|found: Seq<u8>| condition)
}

pub open spec fn spec_resp_cond_auth(s: Seq<u8>) -> Parsed<
    (Condition, (Option<CodeView>, Seq<u8>)),
> {
    match spec_word(s, "OK".spec_bytes(), Condition::Okay).or(
        spec_word(s, "PREAUTH".spec_bytes(), Condition::PreAuth),
    ) {
        Parsed::Done { rest: r1, value: word } => match spec_sp(r1) {
            Parsed::Done { rest: r2, value: _ } => spec_resp_text(r2).map(
                |t: (Option<CodeView>, Seq<u8>)| (word, t),
            ),
            e => e.fail(),
        },
        e => e.fail(),
    }
}

/// resp-cond-auth = ("OK" / "PREAUTH") SP resp-text
pub fn resp_cond_auth(input: &[u8]) -> (r: Result<
    (&[u8], (Condition, (Option<Code>, Vec<u8>))),
    ParseError,
>)
    ensures
        agrees(r, spec_resp_cond_auth(input@), input@),
{
    let (r1, word) = match tag_no_case(input, "OK") {
        Ok((r1, _)) => (r1, Condition::Okay),
        Err(ParseError::Incomplete) => { return Err(ParseError::Incomplete); },
        Err(ParseError::Invalid) => {
            let (r1, _) = tag_no_case(input, "PREAUTH")?;
            (r1, Condition::PreAuth)
        },
    };
    let (r2, _) = sp(r1)?;
    let (rem, t) = resp_text(r2)?;
    Ok((rem, (word, t)))
}

pub open spec fn spec_resp_cond_state(s: Seq<u8>) -> Parsed<
    (Condition, (Option<CodeView>, Seq<u8>)),
> {
    match spec_word(s, "OK".spec_bytes(), Condition::Okay).or(
        spec_word(s, "NO".spec_bytes(), Condition::No),
    ).or(spec_word(s, "BAD".spec_bytes(), Condition::Bad)) {
        Parsed::Done { rest: r1, value: word } => match spec_sp(r1) {
            Parsed::Done { rest: r2, value: _ } => spec_resp_text(r2).map(
                |t: (Option<CodeView>, Seq<u8>)| (word, t),
            ),
            e => e.fail(),
        },
        e => e.fail(),
    }
}

/// resp-cond-state = ("OK" / "NO" / "BAD") SP resp-text
pub fn resp_cond_state(input: &[u8]) -> (r: Result<
    (&[u8], (Condition, (Option<Code>, Vec<u8>))),
    ParseError,
>)
    ensures
        agrees(r, spec_resp_cond_state(input@), input@),
{
    let (r1, word) = match tag_no_case(input, "OK") {
        Ok((r1, _)) => (r1, Condition::Okay),
        Err(ParseError::Incomplete) => { return Err(ParseError::Incomplete); },
        Err(ParseError::Invalid) => match tag_no_case(input, "NO") {
            Ok((r1, _)) => (r1, Condition::No),
            Err(ParseError::Incomplete) => { return Err(ParseError::Incomplete); },
            Err(ParseError::Invalid) => {
                let (r1, _) = tag_no_case(input, "BAD")?;
                (r1, Condition::Bad)
            },
        },
    };
    let (r2, _) = sp(r1)?;
    let (rem, t) = resp_text(r2)?;
    Ok((rem, (word, t)))
}

pub open spec fn spec_resp_cond_bye(s: Seq<u8>) -> Parsed<(Option<CodeView>, Seq<u8>)> {
    match spec_tag_no_case(s, "BYE".spec_bytes()) {
        Parsed::Done { rest: r1, value: _ } => match spec_sp(r1) {
            Parsed::Done { rest: r2, value: _ } => spec_resp_text(r2),
            e => e.fail(),
        },
        e => e.fail(),
    }
}

/// resp-cond-bye = "BYE" SP resp-text
pub fn resp_cond_bye(input: &[u8]) -> (r: Result<(&[u8], (Option<Code>, Vec<u8>)), ParseError>)
    ensures
        agrees(r, spec_resp_cond_bye(input@), input@),
{
    let (r1, _) = tag_no_case(input, "BYE")?;
    let (r2, _) = sp(r1)?;
    resp_text(r2)
}

/// "*" SP before a unit.
pub open spec fn spec_untagged(s: Seq<u8>) -> Parsed<()> {
    match spec_tag(s, "*".spec_bytes()) {
        Parsed::Done { rest: r1, value: _ } => spec_sp(r1),
        e => e.fail(),
    }
}

pub fn untagged(input: &[u8]) -> (r: Result<(&[u8], ()), ParseError>)
    ensures
        agrees(r, spec_untagged(input@), input@),
{
    let (r1, _) = tag(input, "*")?;
    sp(r1)
}

/// The status of a greeting: OK or PREAUTH without a tag, or BYE.
pub open spec fn spec_greeting_status(s: Seq<u8>) -> Parsed<StatusView> {
    spec_resp_cond_auth(s).map(
        |v: (Condition, (Option<CodeView>, Seq<u8>))| spec_status_of(v.0, None, v.1.0, v.1.1),
    ).or(
        spec_resp_cond_bye(s).map(
            |v: (Option<CodeView>, Seq<u8>)| StatusView::Bye { code: v.0, text: v.1 },
        ),
    )
}

pub fn greeting_status(input: &[u8]) -> (r: Result<(&[u8], Status), ParseError>)
    ensures
        agrees(r, spec_greeting_status(input@), input@),
{
    match resp_cond_auth(input) {
        Ok((rem, (word, (code, text)))) => Ok((rem, status_of(word, None, code, text))),
        Err(ParseError::Incomplete) => Err(ParseError::Incomplete),
        Err(ParseError::Invalid) => {
            let (rem, (code, text)) = resp_cond_bye(input)?;
            Ok((rem, Status::Bye { code, text }))
        },
    }
}

pub open spec fn spec_greeting(s: Seq<u8>) -> Parsed<ResponseView> {
    match spec_untagged(s) {
        Parsed::Done { rest: r1, value: _ } => match spec_greeting_status(r1) {
            Parsed::Done { rest: r2, value: status } => spec_crlf(r2).map(
                |end: ()| ResponseView::Status(status),
            ),
            e => e.fail(),
        },
        e => e.fail(),
    }
}

/// greeting = "*" SP (resp-cond-auth / resp-cond-bye) CRLF
pub fn greeting(input: &[u8]) -> (r: Result<(&[u8], Response), ParseError>)
    ensures
        agrees(r, spec_greeting(input@), input@),
{
    let (r1, _) = untagged(input)?;
    let (r2, status) = greeting_status(r1)?;
    let (rem, _) = crlf(r2)?;
    Ok((rem, Response::Status(status)))
}

// ----- responses -----

/// base64 = *base64-char ["==" / "="], returned as written.
pub open spec fn spec_base64(s: Seq<u8>) -> Parsed<Seq<u8>> {
    match spec_take_while(s, CharClass::Base64) {
        Parsed::Done { rest: r1, value: _ } => match spec_tag(r1, "==".spec_bytes()).or(
            spec_tag(r1, "=".spec_bytes()),
        ).optional(r1) {
            Parsed::Done { rest, value: _ } => Parsed::Done {
                rest,
                value: s.take(s.len() - rest.len()),
            },
            e => e.fail(),
        },
        e => e.fail(),
    }
}

pub fn base64(input: &[u8]) -> (r: Result<(&[u8], Vec<u8>), ParseError>)
    ensures
        agrees(r, spec_base64(input@), input@),
{
    let (r1, _) = take_while(input, CharClass::Base64)?;
    let rem = match tag(r1, "==") {
        Ok((rem, _)) => rem,
        Err(ParseError::Incomplete) => { return Err(ParseError::Incomplete); },
        Err(ParseError::Invalid) => match tag(r1, "=") {
            Ok((rem, _)) => rem,
            Err(ParseError::Incomplete) => { return Err(ParseError::Incomplete); },
            Err(ParseError::Invalid) => r1,
        },
    };
    let found = slice_subrange(input, 0, input.len() - rem.len());
    Ok((rem, owned(found)))
}

pub open spec fn spec_continuation(s: Seq<u8>) -> Parsed<ContinuationView> {
    spec_resp_text(s).map(
        |v: (Option<CodeView>, Seq<u8>)| ContinuationView::Basic { code: v.0, text: v.1 },
    ).or(spec_base64(s).map(|data: Seq<u8>| ContinuationView::Base64(data)))
}

pub fn continuation(input: &[u8]) -> (r: Result<(&[u8], Continuation), ParseError>)
    ensures
        agrees(r, spec_continuation(input@), input@),
{
    match resp_text(input) {
        Ok((rem, (code, text))) => Ok((rem, Continuation::Basic { code, text })),
        Err(ParseError::Incomplete) => Err(ParseError::Incomplete),
        Err(ParseError::Invalid) => {
            let (rem, data) = base64(input)?;
            Ok((rem, Continuation::Base64(data)))
        },
    }
}

pub open spec fn spec_continue_req(s: Seq<u8>) -> Parsed<ContinuationView> {
    match spec_tag(s, "+".spec_bytes()) {
        Parsed::Done { rest: r1, value: _ } => match spec_sp(r1) {
            Parsed::Done { rest: r2, value: _ } => match spec_continuation(r2) {
                Parsed::Done { rest: r3, value: continuation } => spec_crlf(r3).map(
                    |end: ()| continuation,
                ),
                e => e.fail(),
            },
            e => e.fail(),
        },
        e => e.fail(),
    }
}

/// continue-req = "+" SP (resp-text / base64) CRLF
pub fn continue_req(input: &[u8]) -> (r: Result<(&[u8], Continuation), ParseError>)
    ensures
        agrees(r, spec_continue_req(input@), input@),
{
    let (r1, _) = tag(input, "+")?;
    let (r2, _) = sp(r1)?;
    let (r3, continuation) = continuation(r2)?;
    let (rem, _) = crlf(r3)?;
    Ok((rem, continuation))
}

/// What an untagged unit holds between `* ` and the line end: a status, a
/// BYE, quota data or a capability list, tried in this order.
pub open spec fn spec_response_payload(s: Seq<u8>) -> Parsed<ResponseView> {
    spec_resp_cond_state(s).map(
        |v: (Condition, (Option<CodeView>, Seq<u8>))|
            ResponseView::Status(spec_status_of(v.0, None, v.1.0, v.1.1)),
    ).or(
        spec_resp_cond_bye(s).map(
            |v: (Option<CodeView>, Seq<u8>)|
                ResponseView::Status(StatusView::Bye { code: v.0, text: v.1 }),
        ),
    ).or(spec_quota_response(s).map(|data: DataView| ResponseView::Data(data))).or(
        spec_quotaroot_response(s).map(|data: DataView| ResponseView::Data(data)),
    ).or(
        spec_capability_data(s).map(
            |caps: Seq<CapabilityView>| ResponseView::Data(DataView::Capability(caps)),
        ),
    )
}

pub fn response_payload(input: &[u8]) -> (r: Result<(&[u8], Response), ParseError>)
    ensures
        agrees(r, spec_response_payload(input@), input@),
{
    match resp_cond_state(input) {
        Ok((rem, value)) => { return Ok((rem, Response::Status(status_of(value.0, None, value.1.0, value.1.1)))); },
        Err(ParseError::Incomplete) => { return Err(ParseError::Incomplete); },
        Err(ParseError::Invalid) => {},
    }
    match resp_cond_bye(input) {
        Ok((rem, value)) => { return Ok((rem, Response::Status(Status::Bye { code: value.0, text: value.1 }))); },
        Err(ParseError::Incomplete) => { return Err(ParseError::Incomplete); },
        Err(ParseError::Invalid) => {},
    }
    match quota_response(input) {
        Ok((rem, value)) => { return Ok((rem, Response::Data(value))); },
        Err(ParseError::Incomplete) => { return Err(ParseError::Incomplete); },
        Err(ParseError::Invalid) => {},
    }
    match quotaroot_response(input) {
        Ok((rem, value)) => { return Ok((rem, Response::Data(value))); },
        Err(ParseError::Incomplete) => { return Err(ParseError::Incomplete); },
        Err(ParseError::Invalid) => {},
    }
    let (rem, caps) = capability_data(input)?;
    Ok((rem, Response::Data(Data::Capability(caps))))
}

pub open spec fn spec_response_data(s: Seq<u8>) -> Parsed<ResponseView> {
    match spec_untagged(s) {
        Parsed::Done { rest: r1, value: _ } => match spec_response_payload(r1) {
            Parsed::Done { rest: r2, value: response } => spec_crlf(r2).map(|end: ()| response),
            e => e.fail(),
        },
        e => e.fail(),
    }
}

/// response-data = "*" SP (resp-cond-state / resp-cond-bye / quota data /
/// capability-data) CRLF
pub fn response_data(input: &[u8]) -> (r: Result<(&[u8], Response), ParseError>)
    ensures
        agrees(r, spec_response_data(input@), input@),
{
    let (r1, _) = untagged(input)?;
    let (r2, response) = response_payload(r1)?;
    let (rem, _) = crlf(r2)?;
    Ok((rem, response))
}

pub open spec fn spec_response_tagged(s: Seq<u8>) -> Parsed<StatusView> {
    match spec_tag_imap(s) {
        Parsed::Done { rest: r1, value: tag } => match spec_sp(r1) {
            Parsed::Done { rest: r2, value: _ } => match spec_resp_cond_state(r2) {
                Parsed::Done { rest: r3, value: v } => spec_crlf(r3).map(
                    |end: ()| spec_status_of(v.0, Some(tag), v.1.0, v.1.1),
                ),
                e => e.fail(),
            },
            e => e.fail(),
        },
        e => e.fail(),
    }
}

/// response-tagged = tag SP resp-cond-state CRLF
pub fn response_tagged(input: &[u8]) -> (r: Result<(&[u8], Status), ParseError>)
    ensures
        agrees(r, spec_response_tagged(input@), input@),
{
    let (r1, tag) = tag_imap(input)?;
    let (r2, _) = sp(r1)?;
    let (r3, (word, (code, text))) = resp_cond_state(r2)?;
    let (rem, _) = crlf(r3)?;
    Ok((rem, status_of(word, Some(owned(tag)), code, text)))
}

pub open spec fn spec_response_fatal(s: Seq<u8>) -> Parsed<StatusView> {
    match spec_untagged(s) {
        Parsed::Done { rest: r1, value: _ } => match spec_resp_cond_bye(r1) {
            Parsed::Done { rest: r2, value: v } => spec_crlf(r2).map(
                |end: ()| StatusView::Bye { code: v.0, text: v.1 },
            ),
            e => e.fail(),
        },
        e => e.fail(),
    }
}

/// response-fatal = "*" SP resp-cond-bye CRLF
pub fn response_fatal(input: &[u8]) -> (r: Result<(&[u8], Status), ParseError>)
    ensures
        agrees(r, spec_response_fatal(input@), input@),
{
    let (r1, _) = untagged(input)?;
    let (r2, (code, text)) = resp_cond_bye(r1)?;
    let (rem, _) = crlf(r2)?;
    Ok((rem, Status::Bye { code, text }))
}

pub open spec fn spec_response_done(s: Seq<u8>) -> Parsed<StatusView> {
    spec_response_tagged(s).or(spec_response_fatal(s))
}

/// response-done = response-tagged / response-fatal
pub fn response_done(input: &[u8]) -> (r: Result<(&[u8], Status), ParseError>)
    ensures
        agrees(r, spec_response_done(input@), input@),
{
    match response_tagged(input) {
        Ok((rem, status)) => Ok((rem, status)),
        Err(ParseError::Incomplete) => Err(ParseError::Incomplete),
        Err(ParseError::Invalid) => response_fatal(input),
    }
}

/// One response unit: a continuation request, else untagged data, else a
/// completion status.
pub open spec fn spec_response(s: Seq<u8>) -> Parsed<ResponseView> {
    spec_continue_req(s).map(|c: ContinuationView| ResponseView::Continuation(c)).or(
        spec_response_data(s),
    ).or(spec_response_done(s).map(|status: StatusView| ResponseView::Status(status)))
}

/// response = continue-req / response-data / response-done
pub fn response(input: &[u8]) -> (r: Result<(&[u8], Response), ParseError>)
    ensures
        agrees(r, spec_response(input@), input@),
{
    match continue_req(input) {
        Ok((rem, value)) => { return Ok((rem, Response::Continuation(value))); },
        Err(ParseError::Incomplete) => { return Err(ParseError::Incomplete); },
        Err(ParseError::Invalid) => {},
    }
    match response_data(input) {
        Ok((rem, value)) => { return Ok((rem, value)); },
        Err(ParseError::Incomplete) => { return Err(ParseError::Incomplete); },
        Err(ParseError::Invalid) => {},
    }
    let (rem, status) = response_done(input)?;
    Ok((rem, Response::Status(status)))
}

} // verus!
