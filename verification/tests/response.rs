use imap_grammar::outcome::ParseError;
use imap_grammar::response::{
    base64, capability, capability_data, capability_list, capability_of, has_baseline, code_other, continue_req, flag_perm,
    greeting, resp_cond_auth, resp_cond_bye, resp_cond_state, resp_text, resp_text_code, response,
    response_data, response_done, response_fatal, response_tagged, status_of, Condition,
};
use imap_grammar::types::{
    Capability, Code, Continuation, Data, FlagPerm, QuotaGet, Resource, Response, Status,
};

fn bytes(s: &str) -> Vec<u8> {
    s.as_bytes().to_vec()
}

#[test]
fn capability_tokens_are_classified_whole() {
    assert_eq!(capability(b"IMAP4rev1 "), Ok((b" ".as_ref(), Capability::Imap4Rev1)));
    assert_eq!(capability(b"starttls "), Ok((b" ".as_ref(), Capability::StartTls)));
    assert_eq!(capability(b"IDLE\r"), Ok((b"\r".as_ref(), Capability::Idle)));
    assert_eq!(capability(b"SASL-IR]"), Ok((b"]".as_ref(), Capability::SaslIr)));
    assert_eq!(capability(b"Enable "), Ok((b" ".as_ref(), Capability::Enable)));
    assert_eq!(capability(b"AUTH=PLAIN "), Ok((b" ".as_ref(), Capability::Auth(bytes("PLAIN")))));
    assert_eq!(capability(b"QUOTA "), Ok((b" ".as_ref(), Capability::Quota)));
    assert_eq!(capability(b"QUOTASET "), Ok((b" ".as_ref(), Capability::QuotaSet)));
    assert_eq!(
        capability(b"QUOTAFOO "),
        Ok((b" ".as_ref(), Capability::Other(bytes("QUOTAFOO"))))
    );
    assert_eq!(
        capability(b"QUOTA=RES-MESSAGE "),
        Ok((b" ".as_ref(), Capability::QuotaRes(Resource::Message)))
    );
    assert_eq!(
        capability(b"XyZ "),
        Ok((b" ".as_ref(), Capability::Other(bytes("XyZ"))))
    );
    assert_eq!(capability(b"IDLE"), Err(ParseError::Incomplete));
    assert_eq!(capability(b"AU"), Err(ParseError::Incomplete));
}

#[test]
fn capability_of_known_and_unknown() {
    assert_eq!(capability_of(b"mailbox-referrals"), Capability::MailboxReferrals);
    assert_eq!(capability_of(b"LOGIN-REFERRALS"), Capability::LoginReferrals);
    assert_eq!(capability_of(b"QUOTA=RES-"), Capability::Other(bytes("QUOTA=RES-")));
    assert_eq!(
        capability_of(b"quota=res-x"),
        Capability::QuotaRes(Resource::Other(bytes("x")))
    );
}

#[test]
fn capability_data_needs_the_baseline() {
    assert_eq!(capability_data(b"CAPABILITY IDLE STARTTLS\r\n"), Err(ParseError::Invalid));
    assert_eq!(
        capability_data(b"CAPABILITY IMAP4rev1 IDLE\r\n"),
        Ok((b"\r\n".as_ref(), vec![Capability::Imap4Rev1, Capability::Idle]))
    );
    assert_eq!(
        capability_data(b"capability IDLE imap4REV1\r\n"),
        Ok((b"\r\n".as_ref(), vec![Capability::Idle, Capability::Imap4Rev1]))
    );
    assert_eq!(
        capability_data(b"CAPABILITY IDLE AUTH=PLAIN IMAP4rev1 X]"),
        Ok((
            b"]".as_ref(),
            vec![
                Capability::Idle,
                Capability::Auth(bytes("PLAIN")),
                Capability::Imap4Rev1,
                Capability::Other(bytes("X")),
            ]
        ))
    );
}

#[test]
fn capability_data_is_tested_only_when_its_end_is_seen() {
    assert_eq!(capability_data(b"CAPABILITY IDLE"), Err(ParseError::Incomplete));
    assert_eq!(capability_data(b"CAPABILITY IDLE "), Err(ParseError::Incomplete));
    assert_eq!(capability_data(b"CAPABILITY IDLE IMAP4rev1"), Err(ParseError::Incomplete));
}

#[test]
fn flags() {
    assert_eq!(flag_perm(b"\\* "), Ok((b" ".as_ref(), FlagPerm::Asterisk)));
    assert_eq!(flag_perm(b"\\Seen "), Ok((b" ".as_ref(), FlagPerm::System(bytes("Seen")))));
    assert_eq!(flag_perm(b"custom)"), Ok((b")".as_ref(), FlagPerm::Keyword(bytes("custom")))));
    assert_eq!(flag_perm(b"\\"), Err(ParseError::Incomplete));
    assert_eq!(flag_perm(b")"), Err(ParseError::Invalid));
}

#[test]
fn codes() {
    assert_eq!(resp_text_code(b"ALERT]"), Ok((b"]".as_ref(), Code::Alert)));
    assert_eq!(resp_text_code(b"parse]"), Ok((b"]".as_ref(), Code::Parse)));
    assert_eq!(resp_text_code(b"READ-ONLY]"), Ok((b"]".as_ref(), Code::ReadOnly)));
    assert_eq!(resp_text_code(b"READ-WRITE]"), Ok((b"]".as_ref(), Code::ReadWrite)));
    assert_eq!(resp_text_code(b"TRYCREATE]"), Ok((b"]".as_ref(), Code::TryCreate)));
    assert_eq!(resp_text_code(b"UIDNEXT 4392]"), Ok((b"]".as_ref(), Code::UidNext(4392))));
    assert_eq!(
        resp_text_code(b"UIDVALIDITY 3857529045]"),
        Ok((b"]".as_ref(), Code::UidValidity(3857529045)))
    );
    assert_eq!(resp_text_code(b"UNSEEN 12]"), Ok((b"]".as_ref(), Code::Unseen(12))));
    assert_eq!(
        resp_text_code(b"CAPABILITY IMAP4rev1 IDLE]"),
        Ok((b"]".as_ref(), Code::Capability(vec![Capability::Imap4Rev1, Capability::Idle])))
    );
}

#[test]
fn charset_and_flag_lists_may_be_absent_or_empty() {
    assert_eq!(resp_text_code(b"BADCHARSET]"), Ok((b"]".as_ref(), Code::BadCharset(Vec::new()))));
    assert_eq!(
        resp_text_code(b"BADCHARSET (UTF-8 \"latin 1\")]"),
        Ok((b"]".as_ref(), Code::BadCharset(vec![bytes("UTF-8"), bytes("latin 1")])))
    );
    assert_eq!(
        resp_text_code(b"PERMANENTFLAGS ()]"),
        Ok((b"]".as_ref(), Code::PermanentFlags(Vec::new())))
    );
    assert_eq!(
        resp_text_code(b"PERMANENTFLAGS (\\Deleted \\Seen \\* kw)]"),
        Ok((
            b"]".as_ref(),
            Code::PermanentFlags(vec![
                FlagPerm::System(bytes("Deleted")),
                FlagPerm::System(bytes("Seen")),
                FlagPerm::Asterisk,
                FlagPerm::Keyword(bytes("kw")),
            ])
        ))
    );
}

#[test]
fn unknown_codes_never_swallow_the_bracket() {
    assert_eq!(
        resp_text_code(b"XNEW]"),
        Ok((b"]".as_ref(), Code::Other(bytes("XNEW"), None)))
    );
    assert_eq!(
        resp_text_code(b"XNEW some \"text\"] rest"),
        Ok((b"] rest".as_ref(), Code::Other(bytes("XNEW"), Some(bytes("some \"text\"")))))
    );
    assert_eq!(
        code_other(b"REFERRAL imap://x/]"),
        Ok((b"]".as_ref(), Code::Other(bytes("REFERRAL"), Some(bytes("imap://x/")))))
    );
    // A number that is no non-zero number leaves the keyword an unknown code.
    assert_eq!(
        resp_text_code(b"UIDNEXT 0]"),
        Ok((b"]".as_ref(), Code::Other(bytes("UIDNEXT"), Some(bytes("0")))))
    );
}

#[test]
fn response_text_with_and_without_code() {
    assert_eq!(resp_text(b"hello\r\n"), Ok((b"\r\n".as_ref(), (None, bytes("hello")))));
    assert_eq!(
        resp_text(b"[ALERT] hello\r\n"),
        Ok((b"\r\n".as_ref(), (Some(Code::Alert), bytes("hello"))))
    );
    assert_eq!(resp_text(b"[ALERT]\r\n"), Ok((b"\r\n".as_ref(), (None, bytes("[ALERT]")))));
    assert_eq!(resp_text(b"[ALERT] \r\n"), Err(ParseError::Invalid));
    assert_eq!(resp_text(b"[ALE"), Err(ParseError::Incomplete));
}

#[test]
fn conditions() {
    assert_eq!(
        resp_cond_auth(b"preauth hi\n"),
        Ok((b"\n".as_ref(), (Condition::PreAuth, (None, bytes("hi")))))
    );
    assert_eq!(
        resp_cond_auth(b"Ok hi\n"),
        Ok((b"\n".as_ref(), (Condition::Okay, (None, bytes("hi")))))
    );
    assert_eq!(resp_cond_auth(b"NO hi\n"), Err(ParseError::Invalid));
    assert_eq!(
        resp_cond_state(b"no [PARSE] hi\n"),
        Ok((b"\n".as_ref(), (Condition::No, (Some(Code::Parse), bytes("hi")))))
    );
    assert_eq!(
        resp_cond_state(b"BAD hi\n"),
        Ok((b"\n".as_ref(), (Condition::Bad, (None, bytes("hi")))))
    );
    assert_eq!(resp_cond_state(b"PREAUTH hi\n"), Err(ParseError::Invalid));
    assert_eq!(resp_cond_bye(b"bye hi\n"), Ok((b"\n".as_ref(), (None, bytes("hi")))));
}

#[test]
fn preauth_carries_no_tag() {
    assert_eq!(
        status_of(Condition::PreAuth, Some(bytes("A1")), None, bytes("x")),
        Status::PreAuth { code: None, text: bytes("x") }
    );
    assert_eq!(
        status_of(Condition::No, Some(bytes("A1")), Some(Code::Alert), bytes("x")),
        Status::No { tag: Some(bytes("A1")), code: Some(Code::Alert), text: bytes("x") }
    );
}

#[test]
fn greetings() {
    assert_eq!(
        greeting(b"* OK [ALERT] hello\r\n"),
        Ok((
            b"".as_ref(),
            Response::Status(Status::Okay {
                tag: None,
                code: Some(Code::Alert),
                text: bytes("hello")
            })
        ))
    );
    assert_eq!(
        greeting(b"* PREAUTH welcome back\nnext"),
        Ok((
            b"next".as_ref(),
            Response::Status(Status::PreAuth { code: None, text: bytes("welcome back") })
        ))
    );
    assert_eq!(
        greeting(b"* BYE busy\r\n"),
        Ok((b"".as_ref(), Response::Status(Status::Bye { code: None, text: bytes("busy") })))
    );
    assert_eq!(greeting(b"* NO nope\r\n"), Err(ParseError::Invalid));
    assert_eq!(greeting(b"+ OK x\r\n"), Err(ParseError::Invalid));
}

#[test]
fn a_line_without_its_end_is_incomplete() {
    assert_eq!(response(b"A1 OK done"), Err(ParseError::Incomplete));
    assert_eq!(response(b"A1 OK done\r"), Err(ParseError::Incomplete));
    assert_eq!(
        response(b"A1 OK done\r\n"),
        Ok((
            b"".as_ref(),
            Response::Status(Status::Okay { tag: Some(bytes("A1")), code: None, text: bytes("done") })
        ))
    );
    assert_eq!(greeting(b"* OK hi"), Err(ParseError::Incomplete));
    assert_eq!(greeting(b""), Err(ParseError::Incomplete));
    assert_eq!(greeting(b"*"), Err(ParseError::Incomplete));
    assert_eq!(response(b""), Err(ParseError::Incomplete));
}

#[test]
fn a_cr_without_lf_is_invalid() {
    assert_eq!(greeting(b"* OK hi\rx"), Err(ParseError::Invalid));
}

#[test]
fn tagged_completions() {
    assert_eq!(
        response_tagged(b"a002 NO [TRYCREATE] no such mailbox\r\n"),
        Ok((
            b"".as_ref(),
            Status::No {
                tag: Some(bytes("a002")),
                code: Some(Code::TryCreate),
                text: bytes("no such mailbox")
            }
        ))
    );
    assert_eq!(
        response_done(b"x BAD what\n"),
        Ok((b"".as_ref(), Status::Bad { tag: Some(bytes("x")), code: None, text: bytes("what") }))
    );
    assert_eq!(response_tagged(b"a002 BYE x\r\n"), Err(ParseError::Invalid));
}

#[test]
fn bye_is_the_same_on_both_paths() {
    let line = b"* BYE [ALERT] closing\r\n";
    let expected = Status::Bye { code: Some(Code::Alert), text: bytes("closing") };
    assert_eq!(response_fatal(line), Ok((b"".as_ref(), expected.clone())));
    assert_eq!(response_done(line), Ok((b"".as_ref(), expected.clone())));
    assert_eq!(response_data(line), Ok((b"".as_ref(), Response::Status(expected.clone()))));
    assert_eq!(response(line), Ok((b"".as_ref(), Response::Status(expected))));
}

#[test]
fn untagged_data() {
    assert_eq!(
        response(b"* CAPABILITY IMAP4rev1 QUOTA QUOTA=RES-STORAGE\r\n* OK"),
        Ok((
            b"* OK".as_ref(),
            Response::Data(Data::Capability(vec![
                Capability::Imap4Rev1,
                Capability::Quota,
                Capability::QuotaRes(Resource::Storage),
            ]))
        ))
    );
    assert_eq!(response(b"* CAPABILITY IDLE\r\n"), Err(ParseError::Invalid));
    assert_eq!(
        response(b"* QUOTA \"\" (STORAGE 10 512)\r\n"),
        Ok((
            b"".as_ref(),
            Response::Data(Data::Quota {
                root: Vec::new(),
                quotas: vec![QuotaGet { resource: Resource::Storage, usage: 10, limit: 512 }],
            })
        ))
    );
    assert_eq!(
        response(b"* QUOTAROOT INBOX \"\"\r\n"),
        Ok((
            b"".as_ref(),
            Response::Data(Data::QuotaRoot { mailbox: bytes("INBOX"), roots: vec![Vec::new()] })
        ))
    );
    assert_eq!(
        response_data(b"* no [ALERT] disk full\r\n"),
        Ok((
            b"".as_ref(),
            Response::Status(Status::No {
                tag: None,
                code: Some(Code::Alert),
                text: bytes("disk full")
            })
        ))
    );
}

#[test]
fn continuation_requests() {
    assert_eq!(
        continue_req(b"+ send more\r\n"),
        Ok((b"".as_ref(), Continuation::Basic { code: None, text: bytes("send more") }))
    );
    assert_eq!(
        response(b"+ [ALERT] go on\r\n"),
        Ok((
            b"".as_ref(),
            Response::Continuation(Continuation::Basic {
                code: Some(Code::Alert),
                text: bytes("go on")
            })
        ))
    );
    assert_eq!(
        continue_req(b"+ \r\n"),
        Ok((b"".as_ref(), Continuation::Base64(Vec::new())))
    );
    assert_eq!(continue_req(b"+ text"), Err(ParseError::Incomplete));
    assert_eq!(continue_req(b"+x"), Err(ParseError::Invalid));
}

#[test]
fn base64_is_returned_as_written() {
    assert_eq!(base64(b"VGVzdA==\r\n"), Ok((b"\r\n".as_ref(), bytes("VGVzdA=="))));
    assert_eq!(base64(b"VGVzdDE=\r\n"), Ok((b"\r\n".as_ref(), bytes("VGVzdDE="))));
    assert_eq!(base64(b"VGVz\r\n"), Ok((b"\r\n".as_ref(), bytes("VGVz"))));
    assert_eq!(base64(b"VGVz"), Err(ParseError::Incomplete));
    assert_eq!(base64(b"VGVz="), Err(ParseError::Incomplete));
}

#[test]
fn parsing_twice_gives_the_same_result() {
    let input = b"* OK [UIDNEXT 7] one\r\nA1 OK two\r\n";
    let (rem, first) = response(input).unwrap();
    assert_eq!(response(input), Ok((rem, first)));
    let (rest, second) = response(rem).unwrap();
    assert_eq!(rest, b"");
    assert_eq!(response(b"A1 OK two\r\n"), Ok((b"".as_ref(), second)));
}

#[test]
fn a_capability_list_is_read_before_it_is_judged() {
    let (rem, caps) = capability_list(b"CAPABILITY IDLE STARTTLS\r\n").unwrap();
    assert_eq!(rem, b"\r\n");
    assert_eq!(caps, vec![Capability::Idle, Capability::StartTls]);
    assert!(!has_baseline(&caps));
    assert!(has_baseline(&vec![Capability::Idle, Capability::Imap4Rev1]));
    assert!(!has_baseline(&Vec::new()));
}

#[test]
fn quota_root_may_be_a_literal() {
    assert_eq!(
        response(b"* QUOTA {4}\r\nroot (MESSAGE 1 2)\r\n"),
        Ok((
            b"".as_ref(),
            Response::Data(Data::Quota {
                root: bytes("root"),
                quotas: vec![QuotaGet { resource: Resource::Message, usage: 1, limit: 2 }],
            })
        ))
    );
}
