use imap_grammar::lexical::{
    astring, atom, charset, digits_value, is_in_class, is_word, literal, literal_data, number,
    number64, nz_number, owned, quoted, string, tag_imap, text, CharClass,
};
use imap_grammar::outcome::ParseError;

#[test]
fn number64_reads_the_value() {
    assert_eq!(number64(b"0 "), Ok((b" ".as_ref(), 0)));
    assert_eq!(number64(b"100)"), Ok((b")".as_ref(), 100)));
    assert_eq!(number64(b"007 "), Ok((b" ".as_ref(), 7)));
    assert_eq!(
        number64(b"18446744073709551615\r\n"),
        Ok((b"\r\n".as_ref(), u64::MAX))
    );
}

#[test]
fn number64_rejects_overflow_and_other_bytes() {
    assert_eq!(number64(b"18446744073709551616 "), Err(ParseError::Invalid));
    assert_eq!(number64(b"99999999999999999999999 "), Err(ParseError::Invalid));
    assert_eq!(number64(b"x1 "), Err(ParseError::Invalid));
    assert_eq!(number64(b"-1 "), Err(ParseError::Invalid));
}

#[test]
fn number64_waits_for_the_end_of_the_digits() {
    assert_eq!(number64(b""), Err(ParseError::Incomplete));
    assert_eq!(number64(b"123"), Err(ParseError::Incomplete));
}

#[test]
fn nz_number_rejects_zero_and_leading_zeros() {
    assert_eq!(nz_number(b"0"), Err(ParseError::Invalid));
    assert_eq!(nz_number(b"0 "), Err(ParseError::Invalid));
    assert_eq!(nz_number(b"01 "), Err(ParseError::Invalid));
    assert_eq!(nz_number(b"007 "), Err(ParseError::Invalid));
}

#[test]
fn nz_number_reads_the_value() {
    assert_eq!(nz_number(b"1 "), Ok((b" ".as_ref(), 1)));
    assert_eq!(nz_number(b"4294967295]"), Ok((b"]".as_ref(), u32::MAX)));
    assert_eq!(nz_number(b"4294967296]"), Err(ParseError::Invalid));
    assert_eq!(nz_number(b"42"), Err(ParseError::Incomplete));
    assert_eq!(nz_number(b""), Err(ParseError::Incomplete));
}

#[test]
fn digits_value_is_exact() {
    assert_eq!(digits_value(b""), Some(0));
    assert_eq!(digits_value(b"1234567890"), Some(1234567890));
    assert_eq!(digits_value(b"18446744073709551615"), Some(u64::MAX));
    assert_eq!(digits_value(b"18446744073709551616"), None);
}

#[test]
fn atom_stops_at_the_first_special() {
    assert_eq!(atom(b"abc def"), Ok((b" def".as_ref(), b"abc".as_ref())));
    assert_eq!(atom(b"a]"), Ok((b"]".as_ref(), b"a".as_ref())));
    assert_eq!(atom(b"abc"), Err(ParseError::Incomplete));
    assert_eq!(atom(b" abc"), Err(ParseError::Invalid));
    assert_eq!(atom(b"(x"), Err(ParseError::Invalid));
}

#[test]
fn text_runs_to_the_line_end() {
    assert_eq!(text(b"hello world\r\n"), Ok((b"\r\n".as_ref(), b"hello world".as_ref())));
    assert_eq!(text(b"hello"), Err(ParseError::Incomplete));
    assert_eq!(text(b"\r\n"), Err(ParseError::Invalid));
}

#[test]
fn tag_excludes_plus() {
    assert_eq!(tag_imap(b"A1 OK"), Ok((b" OK".as_ref(), b"A1".as_ref())));
    assert_eq!(tag_imap(b"+ "), Err(ParseError::Invalid));
    assert_eq!(tag_imap(b"A+B "), Ok((b"+B ".as_ref(), b"A".as_ref())));
}

#[test]
fn quoted_strings_are_unescaped() {
    assert_eq!(quoted(b"\"abc\" "), Ok((b" ".as_ref(), b"abc".to_vec())));
    assert_eq!(quoted(b"\"\""), Ok((b"".as_ref(), Vec::new())));
    assert_eq!(quoted(b"\"a\\\"b\\\\c\"x"), Ok((b"x".as_ref(), b"a\"b\\c".to_vec())));
    assert_eq!(quoted(b"\"abc"), Err(ParseError::Incomplete));
    assert_eq!(quoted(b"\"abc\\"), Err(ParseError::Incomplete));
    assert_eq!(quoted(b"\"a\\bc\""), Err(ParseError::Invalid));
    assert_eq!(quoted(b"\"a\nb\""), Err(ParseError::Invalid));
    assert_eq!(quoted(b"abc"), Err(ParseError::Invalid));
    assert_eq!(quoted(b""), Err(ParseError::Incomplete));
}

#[test]
fn astring_is_a_token_or_a_quoted_string() {
    assert_eq!(astring(b"INBOX "), Ok((b" ".as_ref(), b"INBOX".to_vec())));
    assert_eq!(astring(b"a]b "), Ok((b" ".as_ref(), b"a]b".to_vec())));
    assert_eq!(astring(b"\"my root\" ("), Ok((b" (".as_ref(), b"my root".to_vec())));
    assert_eq!(astring(b"(x"), Err(ParseError::Invalid));
    assert_eq!(astring(b"INBOX"), Err(ParseError::Incomplete));
}

#[test]
fn charset_is_an_atom_or_a_quoted_string() {
    assert_eq!(charset(b"UTF-8)"), Ok((b")".as_ref(), b"UTF-8".to_vec())));
    assert_eq!(charset(b"\"UTF 8\")"), Ok((b")".as_ref(), b"UTF 8".to_vec())));
}

#[test]
fn keywords_match_in_any_case() {
    assert!(is_word(b"storage", "STORAGE"));
    assert!(is_word(b"StOrAgE", "storage"));
    assert!(!is_word(b"storag", "STORAGE"));
    assert!(!is_word(b"storagee", "STORAGE"));
    assert!(!is_word(b"storagf", "STORAGE"));
    assert!(is_word(b"", ""));
    // '[' and '{' differ by the same bit as letter cases but are no letters.
    assert!(!is_word(b"[", "{"));
}

#[test]
fn byte_classes() {
    assert!(is_in_class(CharClass::Digit, b'0'));
    assert!(!is_in_class(CharClass::Digit, b'a'));
    assert!(is_in_class(CharClass::Atom, b'='));
    assert!(!is_in_class(CharClass::Atom, b']'));
    assert!(is_in_class(CharClass::AString, b']'));
    assert!(is_in_class(CharClass::AString, b'+'));
    assert!(!is_in_class(CharClass::Tag, b'+'));
    assert!(is_in_class(CharClass::Text, b' '));
    assert!(!is_in_class(CharClass::Text, b'\r'));
    assert!(!is_in_class(CharClass::Text, 0x80));
    assert!(!is_in_class(CharClass::CodeText, b']'));
    assert!(is_in_class(CharClass::CodeText, b'"'));
    assert!(is_in_class(CharClass::Base64, b'/'));
    assert!(!is_in_class(CharClass::Base64, b'='));
}

#[test]
fn owned_copies_the_token() {
    assert_eq!(owned(b"abc"), b"abc".to_vec());
}

#[test]
fn literal_strings_carry_their_length() {
    assert_eq!(literal(b"{3}\r\nabc def"), Ok((b" def".as_ref(), b"abc".as_ref())));
    assert_eq!(literal(b"{0}\nx"), Ok((b"x".as_ref(), b"".as_ref())));
    assert_eq!(literal(b"{5}\r\nabc"), Err(ParseError::Incomplete));
    assert_eq!(literal(b"{3}\r\na\0c"), Err(ParseError::Invalid));
    assert_eq!(literal(b"{3 }\r\nabc"), Err(ParseError::Invalid));
    assert_eq!(literal(b"{3}abc"), Err(ParseError::Invalid));
    assert_eq!(literal(b"{4294967296}\r\n"), Err(ParseError::Invalid));
    assert_eq!(literal_data(b"ab\r\ncd", 4), Ok((b"cd".as_ref(), b"ab\r\n".as_ref())));
    assert_eq!(number(b"0}"), Ok((b"}".as_ref(), 0)));
    assert_eq!(number(b"4294967295}"), Ok((b"}".as_ref(), u32::MAX)));
    assert_eq!(string(b"{2}\r\nhi "), Ok((b" ".as_ref(), b"hi".to_vec())));
    assert_eq!(string(b"\"hi\" "), Ok((b" ".as_ref(), b"hi".to_vec())));
    assert_eq!(astring(b"{7}\r\nmy root (x"), Ok((b" (x".as_ref(), b"my root".to_vec())));
}
