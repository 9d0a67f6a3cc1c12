use vstd::prelude::*;
use vstd::string::StringSliceAdditionalSpecFns;
use crate::lexical::{
    astring, atom, is_word, number64, owned, same_folded, sp, spec_astring, spec_atom,
    spec_number64, spec_sp, spec_tag, spec_tag_no_case, tag, tag_no_case,
};
use crate::outcome::{agrees, group_suffix, is_suffix, ParseError, Parsed};
use crate::types::{
    Capability, CapabilityView, CommandBody, CommandBodyView, Data, DataView, QuotaGet,
    QuotaGetView, QuotaSet, QuotaSetView, Resource, ResourceView,
};

verus! {

broadcast use group_suffix;

/// The resource that a name denotes: one of the four known kinds where the
/// name is theirs up to case, else the name itself.
pub open spec fn spec_resource_of(name: Seq<u8>) -> ResourceView {
    if same_folded(name, "STORAGE".spec_bytes()) {
        ResourceView::Storage
    } else if same_folded(name, "MESSAGE".spec_bytes()) {
        ResourceView::Message
    } else if same_folded(name, "MAILBOX".spec_bytes()) {
        ResourceView::Mailbox
    } else if same_folded(name, "ANNOTATION-STORAGE".spec_bytes()) {
        ResourceView::AnnotationStorage
    } else {
        ResourceView::Other(name)
    }
}

pub fn resource_of(name: &[u8]) -> (r: Resource)
    ensures
        r.deep_view() == spec_resource_of(name@),
{
    if is_word(name, "STORAGE") {
        Resource::Storage
    } else if is_word(name, "MESSAGE") {
        Resource::Message
    } else if is_word(name, "MAILBOX") {
        Resource::Mailbox
    } else if is_word(name, "ANNOTATION-STORAGE") {
        Resource::AnnotationStorage
    } else {
        Resource::Other(owned(name))
    }
}

pub open spec fn spec_quota_root_name(s: Seq<u8>) -> Parsed<Seq<u8>> {
    spec_astring(s)
}

/// quota-root-name = astring
pub fn quota_root_name(input: &[u8]) -> (r: Result<(&[u8], Vec<u8>), ParseError>)
    ensures
        agrees(r, spec_quota_root_name(input@), input@),
{
    astring(input)
}

pub open spec fn spec_mailbox(s: Seq<u8>) -> Parsed<Seq<u8>> {
    spec_astring(s)
}

/// mailbox = astring, returned as written.
pub fn mailbox(input: &[u8]) -> (r: Result<(&[u8], Vec<u8>), ParseError>)
    ensures
        agrees(r, spec_mailbox(input@), input@),
{
    astring(input)
}

pub open spec fn spec_getquota(s: Seq<u8>) -> Parsed<CommandBodyView> {
    match spec_tag_no_case(s, "GETQUOTA ".spec_bytes()) {
        Parsed::Done { rest: r1, value: _ } => spec_quota_root_name(r1).map(
            |root: Seq<u8>| CommandBodyView::GetQuota { root },
        ),
        e => e.fail(),
    }
}

/// getquota = "GETQUOTA" SP quota-root-name
pub fn getquota(input: &[u8]) -> (r: Result<(&[u8], CommandBody), ParseError>)
    ensures
        agrees(r, spec_getquota(input@), input@),
{
    let (r1, _) = tag_no_case(input, "GETQUOTA ")?;
    let (rem, root) = quota_root_name(r1)?;
    Ok((rem, CommandBody::GetQuota { root }))
}

pub open spec fn spec_getquotaroot(s: Seq<u8>) -> Parsed<CommandBodyView> {
    match spec_tag_no_case(s, "GETQUOTAROOT ".spec_bytes()) {
        Parsed::Done { rest: r1, value: _ } => spec_mailbox(r1).map(
            |mailbox: Seq<u8>| CommandBodyView::GetQuotaRoot { mailbox },
        ),
        e => e.fail(),
    }
}

/// getquotaroot = "GETQUOTAROOT" SP mailbox
pub fn getquotaroot(input: &[u8]) -> (r: Result<(&[u8], CommandBody), ParseError>)
    ensures
        agrees(r, spec_getquotaroot(input@), input@),
{
    let (r1, _) = tag_no_case(input, "GETQUOTAROOT ")?;
    let (rem, mailbox) = mailbox(r1)?;
    Ok((rem, CommandBody::GetQuotaRoot { mailbox }))
}

pub open spec fn spec_resource_name(s: Seq<u8>) -> Parsed<ResourceView> {
    spec_atom(s).map(|name: Seq<u8>| spec_resource_of(name))
}

/// resource-name = "STORAGE" / "MESSAGE" / "MAILBOX" / "ANNOTATION-STORAGE" / atom
///
/// The whole atom is consumed first and classified afterwards, so a name
/// that only begins like a known one is kept as written.
pub fn resource_name(input: &[u8]) -> (r: Result<(&[u8], Resource), ParseError>)
    ensures
        agrees(r, spec_resource_name(input@), input@),
{
    let (rem, name) = atom(input)?;
    Ok((rem, resource_of(name)))
}

pub open spec fn spec_quota_resource(s: Seq<u8>) -> Parsed<QuotaGetView> {
    match spec_resource_name(s) {
        Parsed::Done { rest: r1, value: resource } => match spec_sp(r1) {
            Parsed::Done { rest: r2, value: _ } => match spec_number64(r2) {
                Parsed::Done { rest: r3, value: usage } => match spec_sp(r3) {
                    Parsed::Done { rest: r4, value: _ } => spec_number64(r4).map(
                        |limit: u64| QuotaGetView { resource, usage, limit },
                    ),
                    e => e.fail(),
                },
                e => e.fail(),
            },
            e => e.fail(),
        },
        e => e.fail(),
    }
}

/// quota-resource = resource-name SP resource-usage SP resource-limit
pub fn quota_resource(input: &[u8]) -> (r: Result<(&[u8], QuotaGet), ParseError>)
    ensures
        agrees(r, spec_quota_resource(input@), input@),
{
    let (r1, resource) = resource_name(input)?;
    let (r2, _) = sp(r1)?;
    let (r3, usage) = number64(r2)?;
    let (r4, _) = sp(r3)?;
    let (rem, limit) = number64(r4)?;
    Ok((rem, QuotaGet { resource, usage, limit }))
}

pub open spec fn spec_setquota_resource(s: Seq<u8>) -> Parsed<QuotaSetView> {
    match spec_resource_name(s) {
        Parsed::Done { rest: r1, value: resource } => match spec_sp(r1) {
            Parsed::Done { rest: r2, value: _ } => spec_number64(r2).map(
                |limit: u64| QuotaSetView { resource, limit },
            ),
            e => e.fail(),
        },
        e => e.fail(),
    }
}

/// setquota-resource = resource-name SP resource-limit
pub fn setquota_resource(input: &[u8]) -> (r: Result<(&[u8], QuotaSet), ParseError>)
    ensures
        agrees(r, spec_setquota_resource(input@), input@),
{
    let (r1, resource) = resource_name(input)?;
    let (r2, _) = sp(r1)?;
    let (rem, limit) = number64(r2)?;
    Ok((rem, QuotaSet { resource, limit }))
}

/// What follows the triples `acc`: each further space with a triple
/// extends the list; a space that no triple follows is left unconsumed.
pub open spec fn spec_quota_resources_tail(s: Seq<u8>, acc: Seq<QuotaGetView>) -> Parsed<
    Seq<QuotaGetView>,
>
    decreases s.len(),
{
    match spec_sp(s) {
        Parsed::Done { rest: r1, value: _ } => match spec_quota_resource(r1) {
            Parsed::Done { rest: r2, value } => if r2.len() < s.len() {
                spec_quota_resources_tail(r2, acc.push(value))
            } else {
                Parsed::Invalid
            },
            Parsed::Incomplete => Parsed::Incomplete,
            Parsed::Invalid => Parsed::Done { rest: s, value: acc },
        },
        Parsed::Incomplete => Parsed::Incomplete,
        Parsed::Invalid => Parsed::Done { rest: s, value: acc },
    }
}

/// quota-list = "(" quota-resource *(SP quota-resource) ")"
pub open spec fn spec_quota_list(s: Seq<u8>) -> Parsed<Seq<QuotaGetView>> {
    match spec_tag(s, "(".spec_bytes()) {
        Parsed::Done { rest: r1, value: _ } => match spec_quota_resource(r1) {
            Parsed::Done { rest: r2, value: first } => match spec_quota_resources_tail(
                r2,
                seq![first],
            ) {
                Parsed::Done { rest: r3, value: quotas } => spec_tag(r3, ")".spec_bytes()).map(
                    |found: Seq<u8>| quotas,
                ),
                e => e.fail(),
            },
            e => e.fail(),
        },
        e => e.fail(),
    }
}

pub proof fn lemma_quota_tail_keeps(s: Seq<u8>, acc: Seq<QuotaGetView>)
    ensures
        spec_quota_resources_tail(s, acc) matches Parsed::Done { value, .. } ==> value.len()
            >= acc.len(),
    decreases s.len(),
{
    match spec_sp(s) {
        Parsed::Done { rest: r1, value: _ } => match spec_quota_resource(r1) {
            Parsed::Done { rest: r2, value } => if r2.len() < s.len() {
                lemma_quota_tail_keeps(r2, acc.push(value));
            },
            _ => {},
        },
        _ => {},
    }
}

/// The parenthesized list of a quota response: at least one triple.
#[verifier::loop_isolation(false)]
pub fn quota_list(input: &[u8]) -> (r: Result<(&[u8], Vec<QuotaGet>), ParseError>)
    ensures
        agrees(r, spec_quota_list(input@), input@),
        r matches Ok((_, quotas)) ==> quotas@.len() >= 1,
{
    let (r1, _) = tag(input, "(")?;
    let (first_rem, first) = quota_resource(r1)?;
    let ghost first_view = first.deep_view();
    let mut items: Vec<QuotaGet> = Vec::new();
    items.push(first);
    let mut cur: &[u8] = first_rem;
    assert(items.deep_view() =~= seq![first_view]);
    loop
        invariant
            is_suffix(cur@, input@),
            items@.len() >= 1,
            spec_quota_resources_tail(first_rem@, seq![first_view]) == spec_quota_resources_tail(
                cur@,
                items.deep_view(),
            ),
        decreases cur@.len(),
    {
        let r2 = match sp(cur) {
            Ok((r2, _)) => r2,
            Err(ParseError::Incomplete) => { return Err(ParseError::Incomplete); },
            Err(ParseError::Invalid) => { break ; },
        };
        match quota_resource(r2) {
            Ok((r3, item)) => {
                if r3.len() >= cur.len() {
                    return Err(ParseError::Invalid);
                }
                let ghost before = items.deep_view();
                let ghost item_view = item.deep_view();
                items.push(item);
                assert(items.deep_view() =~= before.push(item_view));
                cur = r3;
            },
            Err(ParseError::Incomplete) => { return Err(ParseError::Incomplete); },
            Err(ParseError::Invalid) => { break ; },
        }
    }
    let (rem, _) = tag(cur, ")")?;
    Ok((rem, items))
}

/// What follows the pairs `acc` of a limit list.
pub open spec fn spec_setquota_resources_tail(s: Seq<u8>, acc: Seq<QuotaSetView>) -> Parsed<
    Seq<QuotaSetView>,
>
    decreases s.len(),
{
    match spec_sp(s) {
        Parsed::Done { rest: r1, value: _ } => match spec_setquota_resource(r1) {
            Parsed::Done { rest: r2, value } => if r2.len() < s.len() {
                spec_setquota_resources_tail(r2, acc.push(value))
            } else {
                Parsed::Invalid
            },
            Parsed::Incomplete => Parsed::Incomplete,
            Parsed::Invalid => Parsed::Done { rest: s, value: acc },
        },
        Parsed::Incomplete => Parsed::Incomplete,
        Parsed::Invalid => Parsed::Done { rest: s, value: acc },
    }
}

/// setquota-list = "(" [setquota-resource *(SP setquota-resource)] ")"
pub open spec fn spec_setquota_list(s: Seq<u8>) -> Parsed<Seq<QuotaSetView>> {
    match spec_tag(s, "(".spec_bytes()) {
        Parsed::Done { rest: r1, value: _ } => {
            let items = match spec_setquota_resource(r1) {
                Parsed::Done { rest: r2, value: first } => spec_setquota_resources_tail(
                    r2,
                    seq![first],
                ),
                Parsed::Incomplete => Parsed::Incomplete,
                Parsed::Invalid => Parsed::Done { rest: r1, value: Seq::empty() },
            };
            match items {
                Parsed::Done { rest: r3, value: quotas } => spec_tag(r3, ")".spec_bytes()).map(
                    |found: Seq<u8>| quotas,
                ),
                e => e.fail(),
            }
        },
        e => e.fail(),
    }
}

/// The parenthesized list of a limit command: it may be empty.
#[verifier::loop_isolation(false)]
pub fn setquota_list(input: &[u8]) -> (r: Result<(&[u8], Vec<QuotaSet>), ParseError>)
    ensures
        agrees(r, spec_setquota_list(input@), input@),
{
    let (r1, _) = tag(input, "(")?;
    let mut items: Vec<QuotaSet> = Vec::new();
    let mut cur: &[u8] = r1;
    match setquota_resource(r1) {
        Ok((first_rem, first)) => {
            let ghost first_view = first.deep_view();
            items.push(first);
            cur = first_rem;
            assert(items.deep_view() =~= seq![first_view]);
            let ghost whole = spec_setquota_resources_tail(first_rem@, seq![first_view]);
            loop
                invariant
                    is_suffix(cur@, input@),
                    whole == spec_setquota_resources_tail(cur@, items.deep_view()),
                decreases cur@.len(),
            {
                let r2 = match sp(cur) {
                    Ok((r2, _)) => r2,
                    Err(ParseError::Incomplete) => { return Err(ParseError::Incomplete); },
                    Err(ParseError::Invalid) => { break ; },
                };
                match setquota_resource(r2) {
                    Ok((r3, item)) => {
                        if r3.len() >= cur.len() {
                            return Err(ParseError::Invalid);
                        }
                        let ghost before = items.deep_view();
                        let ghost item_view = item.deep_view();
                        items.push(item);
                        assert(items.deep_view() =~= before.push(item_view));
                        cur = r3;
                    },
                    Err(ParseError::Incomplete) => { return Err(ParseError::Incomplete); },
                    Err(ParseError::Invalid) => { break ; },
                }
            }
        },
        Err(ParseError::Incomplete) => { return Err(ParseError::Incomplete); },
        Err(ParseError::Invalid) => {
            assert(items.deep_view() =~= Seq::empty());
        },
    }
    let (rem, _) = tag(cur, ")")?;
    Ok((rem, items))
}

pub open spec fn spec_quota_response(s: Seq<u8>) -> Parsed<DataView> {
    match spec_tag_no_case(s, "QUOTA ".spec_bytes()) {
        Parsed::Done { rest: r1, value: _ } => match spec_quota_root_name(r1) {
            Parsed::Done { rest: r2, value: root } => match spec_sp(r2) {
                Parsed::Done { rest: r3, value: _ } => spec_quota_list(r3).map(
                    |quotas: Seq<QuotaGetView>| DataView::Quota { root, quotas },
                ),
                e => e.fail(),
            },
            e => e.fail(),
        },
        e => e.fail(),
    }
}

/// quota-response = "QUOTA" SP quota-root-name SP quota-list
pub fn quota_response(input: &[u8]) -> (r: Result<(&[u8], Data), ParseError>)
    ensures
        agrees(r, spec_quota_response(input@), input@),
        r matches Ok((_, Data::Quota { quotas, .. })) ==> quotas@.len() >= 1,
{
    let (r1, _) = tag_no_case(input, "QUOTA ")?;
    let (r2, root) = quota_root_name(r1)?;
    let (r3, _) = sp(r2)?;
    let (rem, quotas) = quota_list(r3)?;
    Ok((rem, Data::Quota { root, quotas }))
}

/// What follows the root names `acc`: each further space with a name.
pub open spec fn spec_quota_roots(s: Seq<u8>, acc: Seq<Seq<u8>>) -> Parsed<Seq<Seq<u8>>>
    decreases s.len(),
{
    match spec_sp(s) {
        Parsed::Done { rest: r1, value: _ } => match spec_quota_root_name(r1) {
            Parsed::Done { rest: r2, value } => if r2.len() < s.len() {
                spec_quota_roots(r2, acc.push(value))
            } else {
                Parsed::Invalid
            },
            Parsed::Incomplete => Parsed::Incomplete,
            Parsed::Invalid => Parsed::Done { rest: s, value: acc },
        },
        Parsed::Incomplete => Parsed::Incomplete,
        Parsed::Invalid => Parsed::Done { rest: s, value: acc },
    }
}

pub open spec fn spec_quotaroot_response(s: Seq<u8>) -> Parsed<DataView> {
    match spec_tag_no_case(s, "QUOTAROOT ".spec_bytes()) {
        Parsed::Done { rest: r1, value: _ } => match spec_mailbox(r1) {
            Parsed::Done { rest: r2, value: mailbox } => spec_quota_roots(r2, Seq::empty()).map(
                |roots: Seq<Seq<u8>>| DataView::QuotaRoot { mailbox, roots },
            ),
            e => e.fail(),
        },
        e => e.fail(),
    }
}

/// quotaroot-response = "QUOTAROOT" SP mailbox *(SP quota-root-name)
#[verifier::loop_isolation(false)]
pub fn quotaroot_response(input: &[u8]) -> (r: Result<(&[u8], Data), ParseError>)
    ensures
        agrees(r, spec_quotaroot_response(input@), input@),
{
    let (r1, _) = tag_no_case(input, "QUOTAROOT ")?;
    let (r2, mailbox) = mailbox(r1)?;
    let mut roots: Vec<Vec<u8>> = Vec::new();
    let mut cur: &[u8] = r2;
    assert(roots.deep_view() =~= Seq::empty());
    loop
        invariant
            is_suffix(cur@, input@),
            spec_quota_roots(r2@, Seq::empty()) == spec_quota_roots(cur@, roots.deep_view()),
        decreases cur@.len(),
    {
        let r3 = match sp(cur) {
            Ok((r3, _)) => r3,
            Err(ParseError::Incomplete) => { return Err(ParseError::Incomplete); },
            Err(ParseError::Invalid) => { break ; },
        };
        match quota_root_name(r3) {
            Ok((r4, root)) => {
                if r4.len() >= cur.len() {
                    return Err(ParseError::Invalid);
                }
                let ghost before = roots.deep_view();
                let ghost root_view = root.deep_view();
                roots.push(root);
                assert(roots.deep_view() =~= before.push(root_view));
                cur = r4;
            },
            Err(ParseError::Incomplete) => { return Err(ParseError::Incomplete); },
            Err(ParseError::Invalid) => { break ; },
        }
    }
    Ok((cur, Data::QuotaRoot { mailbox, roots }))
}

pub open spec fn spec_setquota(s: Seq<u8>) -> Parsed<CommandBodyView> {
    match spec_tag_no_case(s, "SETQUOTA ".spec_bytes()) {
        Parsed::Done { rest: r1, value: _ } => match spec_quota_root_name(r1) {
            Parsed::Done { rest: r2, value: root } => match spec_sp(r2) {
                Parsed::Done { rest: r3, value: _ } => spec_setquota_list(r3).map(
                    |quotas: Seq<QuotaSetView>| CommandBodyView::SetQuota { root, quotas },
                ),
                e => e.fail(),
            },
            e => e.fail(),
        },
        e => e.fail(),
    }
}

/// setquota = "SETQUOTA" SP quota-root-name SP setquota-list
pub fn setquota(input: &[u8]) -> (r: Result<(&[u8], CommandBody), ParseError>)
    ensures
        agrees(r, spec_setquota(input@), input@),
{
    let (r1, _) = tag_no_case(input, "SETQUOTA ")?;
    let (r2, root) = quota_root_name(r1)?;
    let (r3, _) = sp(r2)?;
    let (rem, quotas) = setquota_list(r3)?;
    Ok((rem, CommandBody::SetQuota { root, quotas }))
}

pub open spec fn spec_capa_quota_res(s: Seq<u8>) -> Parsed<CapabilityView> {
    match spec_tag_no_case(s, "QUOTA=RES-".spec_bytes()) {
        Parsed::Done { rest: r1, value: _ } => spec_resource_name(r1).map(
            |resource: ResourceView| CapabilityView::QuotaRes(resource),
        ),
        e => e.fail(),
    }
}

/// capa-quota-res = "QUOTA=RES-" resource-name
pub fn capa_quota_res(input: &[u8]) -> (r: Result<(&[u8], Capability), ParseError>)
    ensures
        agrees(r, spec_capa_quota_res(input@), input@),
{
    let (r1, _) = tag_no_case(input, "QUOTA=RES-")?;
    let (rem, resource) = resource_name(r1)?;
    Ok((rem, Capability::QuotaRes(resource)))
}

} // verus!
