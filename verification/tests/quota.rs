use imap_grammar::outcome::ParseError;
use imap_grammar::quota::{
    capa_quota_res, getquota, getquotaroot, mailbox, quota_list, quota_resource, quota_response,
    quota_root_name, quotaroot_response, resource_name, resource_of, setquota, setquota_list,
    setquota_resource,
};
use imap_grammar::types::{Capability, CommandBody, Data, QuotaGet, QuotaSet, Resource};

#[test]
fn test_resource() {
    let tests = [
        (b"stOragE ".as_ref(), Resource::Storage),
        (b"mesSaGe ".as_ref(), Resource::Message),
        (b"maIlbOx ".as_ref(), Resource::Mailbox),
        (b"anNotatIon-stoRage ".as_ref(), Resource::AnnotationStorage),
        (
            b"anNotatIon-stoRageX ".as_ref(),
            Resource::Other(b"anNotatIon-stoRageX".to_vec()),
        ),
        (
            b"anNotatIon-stoRagee ".as_ref(),
            Resource::Other(b"anNotatIon-stoRagee".to_vec()),
        ),
    ];

    for (test, expected) in tests.iter() {
        let (rem, got) = resource_name(test).unwrap();
        assert_eq!(*expected, got);
        assert_eq!(rem, b" ");
    }
}

#[test]
fn resource_of_classifies_a_whole_name() {
    assert_eq!(resource_of(b"STORAGE"), Resource::Storage);
    assert_eq!(resource_of(b"storag"), Resource::Other(b"storag".to_vec()));
    assert_eq!(resource_of(b"x-Custom"), Resource::Other(b"x-Custom".to_vec()));
}

#[test]
fn resource_name_waits_for_the_end_of_the_token() {
    assert_eq!(resource_name(b"STORAGE"), Err(ParseError::Incomplete));
    assert_eq!(resource_name(b" STORAGE"), Err(ParseError::Invalid));
}

#[test]
fn quota_resource_reads_a_triple() {
    assert_eq!(
        quota_resource(b"STORAGE 10 100)"),
        Ok((b")".as_ref(), QuotaGet { resource: Resource::Storage, usage: 10, limit: 100 }))
    );
    assert_eq!(quota_resource(b"STORAGE 10)"), Err(ParseError::Invalid));
    assert_eq!(quota_resource(b"STORAGE  10 100)"), Err(ParseError::Invalid));
    assert_eq!(quota_resource(b"STORAGE 10 1"), Err(ParseError::Incomplete));
}

#[test]
fn setquota_resource_reads_a_pair() {
    assert_eq!(
        setquota_resource(b"message 5000)"),
        Ok((b")".as_ref(), QuotaSet { resource: Resource::Message, limit: 5000 }))
    );
}

#[test]
fn quota_list_needs_an_entry() {
    assert_eq!(quota_list(b"()"), Err(ParseError::Invalid));
    assert_eq!(
        quota_list(b"(STORAGE 10 100)"),
        Ok((
            b"".as_ref(),
            vec![QuotaGet { resource: Resource::Storage, usage: 10, limit: 100 }]
        ))
    );
    assert_eq!(
        quota_list(b"(STORAGE 10 100 x-new 0 18446744073709551615)\r\n"),
        Ok((
            b"\r\n".as_ref(),
            vec![
                QuotaGet { resource: Resource::Storage, usage: 10, limit: 100 },
                QuotaGet {
                    resource: Resource::Other(b"x-new".to_vec()),
                    usage: 0,
                    limit: u64::MAX
                },
            ]
        ))
    );
    assert_eq!(quota_list(b"(STORAGE 10 100"), Err(ParseError::Incomplete));
    assert_eq!(quota_list(b"(STORAGE 10 100 )"), Err(ParseError::Invalid));
}

#[test]
fn setquota_list_may_be_empty() {
    assert_eq!(setquota_list(b"()"), Ok((b"".as_ref(), Vec::new())));
    assert_eq!(
        setquota_list(b"(STORAGE 512 MESSAGE 7) "),
        Ok((
            b" ".as_ref(),
            vec![
                QuotaSet { resource: Resource::Storage, limit: 512 },
                QuotaSet { resource: Resource::Message, limit: 7 },
            ]
        ))
    );
    assert_eq!(setquota_list(b"("), Err(ParseError::Incomplete));
    assert_eq!(setquota_list(b"[)"), Err(ParseError::Invalid));
}

#[test]
fn quota_response_reads_root_and_list() {
    assert_eq!(
        quota_response(b"quota \"\" (STORAGE 10 512)\r\n"),
        Ok((
            b"\r\n".as_ref(),
            Data::Quota {
                root: Vec::new(),
                quotas: vec![QuotaGet { resource: Resource::Storage, usage: 10, limit: 512 }],
            }
        ))
    );
    assert_eq!(quota_response(b"QUOTA root ()\r\n"), Err(ParseError::Invalid));
    assert_eq!(quota_response(b"QUOT"), Err(ParseError::Incomplete));
    assert_eq!(quota_response(b"QUOTAROOT x"), Err(ParseError::Invalid));
}

#[test]
fn quotaroot_response_reads_the_roots() {
    assert_eq!(
        quotaroot_response(b"QUOTAROOT INBOX\r\n"),
        Ok((b"\r\n".as_ref(), Data::QuotaRoot { mailbox: b"INBOX".to_vec(), roots: Vec::new() }))
    );
    assert_eq!(
        quotaroot_response(b"QuotaRoot INBOX \"\" other\r\n"),
        Ok((
            b"\r\n".as_ref(),
            Data::QuotaRoot {
                mailbox: b"INBOX".to_vec(),
                roots: vec![Vec::new(), b"other".to_vec()],
            }
        ))
    );
    assert_eq!(quotaroot_response(b"QUOTAROOT INBOX "), Err(ParseError::Incomplete));
}

#[test]
fn quota_commands() {
    assert_eq!(
        getquota(b"GetQuota root\r\n"),
        Ok((b"\r\n".as_ref(), CommandBody::GetQuota { root: b"root".to_vec() }))
    );
    assert_eq!(
        getquotaroot(b"GETQUOTAROOT INBOX\r\n"),
        Ok((b"\r\n".as_ref(), CommandBody::GetQuotaRoot { mailbox: b"INBOX".to_vec() }))
    );
    assert_eq!(
        setquota(b"SETQUOTA \"\" (STORAGE 512)\r\n"),
        Ok((
            b"\r\n".as_ref(),
            CommandBody::SetQuota {
                root: Vec::new(),
                quotas: vec![QuotaSet { resource: Resource::Storage, limit: 512 }],
            }
        ))
    );
    assert_eq!(
        setquota(b"SETQUOTA root ()\r\n"),
        Ok((b"\r\n".as_ref(), CommandBody::SetQuota { root: b"root".to_vec(), quotas: Vec::new() }))
    );
    assert_eq!(getquota(b"GETQUOTAX root\r\n"), Err(ParseError::Invalid));
    assert_eq!(getquota(b"GETQ"), Err(ParseError::Incomplete));
}

#[test]
fn names_are_astrings() {
    assert_eq!(quota_root_name(b"root "), Ok((b" ".as_ref(), b"root".to_vec())));
    assert_eq!(mailbox(b"\"In Box\" "), Ok((b" ".as_ref(), b"In Box".to_vec())));
}

#[test]
fn resource_capability() {
    assert_eq!(
        capa_quota_res(b"QUOTA=RES-STORAGE "),
        Ok((b" ".as_ref(), Capability::QuotaRes(Resource::Storage)))
    );
    assert_eq!(
        capa_quota_res(b"quota=res-Foo "),
        Ok((b" ".as_ref(), Capability::QuotaRes(Resource::Other(b"Foo".to_vec()))))
    );
    assert_eq!(capa_quota_res(b"QUOTA "), Err(ParseError::Invalid));
}
