use imap_grammar::outcome::ParseError;
use imap_grammar::sequence::{seq_number, seq_range, sequence_set, SeqNo, Sequence};

#[test]
fn test_sequence_set() {
    let (rem, val) = sequence_set(b"1:*?").unwrap();
    println!("{:?}, {:?}", rem, val);
    assert_eq!(rem, b"?");
    assert_eq!(val, vec![Sequence::Range(SeqNo::Value(1), SeqNo::Unlimited)]);

    let (rem, val) = sequence_set(b"1:*,5?").unwrap();
    println!("{:?}, {:?}", rem, val);
    assert_eq!(rem, b"?");
    assert_eq!(
        val,
        vec![
            Sequence::Range(SeqNo::Value(1), SeqNo::Unlimited),
            Sequence::Single(SeqNo::Value(5)),
        ]
    );
}

#[test]
fn test_seq_number() {
    // Must not be 0.
    assert!(seq_number(b"0?").is_err());

    let (rem, val) = seq_number(b"1?").unwrap();
    println!("{:?}, {:?}", rem, val);
    assert_eq!((rem, val), (b"?".as_ref(), SeqNo::Value(1)));

    let (rem, val) = seq_number(b"*?").unwrap();
    println!("{:?}, {:?}", rem, val);
    assert_eq!((rem, val), (b"?".as_ref(), SeqNo::Unlimited));
}

#[test]
fn test_seq_range() {
    // Must not be 0.
    assert!(seq_range(b"0:1?").is_err());

    assert_eq!(
        (SeqNo::Value(1), SeqNo::Value(2)),
        seq_range(b"1:2?").unwrap().1
    );
    assert_eq!(
        (SeqNo::Value(1), SeqNo::Unlimited),
        seq_range(b"1:*?").unwrap().1
    );
    assert_eq!(
        (SeqNo::Unlimited, SeqNo::Value(10)),
        seq_range(b"*:10?").unwrap().1
    );
}

#[test]
fn zero_is_invalid_everywhere() {
    assert_eq!(sequence_set(b"0:1"), Err(ParseError::Invalid));
    assert_eq!(sequence_set(b"0"), Err(ParseError::Invalid));
    assert_eq!(seq_number(b"0"), Err(ParseError::Invalid));
    assert_eq!(seq_range(b"1:0?"), Err(ParseError::Invalid));
}

#[test]
fn ranges_keep_their_order() {
    assert_eq!(
        sequence_set(b"4:2,2:4 ").unwrap(),
        (
            b" ".as_ref(),
            vec![
                Sequence::Range(SeqNo::Value(4), SeqNo::Value(2)),
                Sequence::Range(SeqNo::Value(2), SeqNo::Value(4)),
            ]
        )
    );
    assert_eq!(
        sequence_set(b"*:10 ").unwrap().1,
        vec![Sequence::Range(SeqNo::Unlimited, SeqNo::Value(10))]
    );
}

#[test]
fn duplicates_are_kept() {
    assert_eq!(
        sequence_set(b"5,5,* ").unwrap().1,
        vec![
            Sequence::Single(SeqNo::Value(5)),
            Sequence::Single(SeqNo::Value(5)),
            Sequence::Single(SeqNo::Unlimited),
        ]
    );
}

#[test]
fn sequence_set_waits_for_the_end_of_a_number() {
    assert_eq!(sequence_set(b"1:*,5"), Err(ParseError::Incomplete));
    assert_eq!(sequence_set(b""), Err(ParseError::Incomplete));
    assert_eq!(sequence_set(b"1:"), Err(ParseError::Incomplete));
    assert_eq!(sequence_set(b"1,"), Err(ParseError::Incomplete));
}

#[test]
fn a_comma_without_an_element_is_left() {
    assert_eq!(
        sequence_set(b"1,?").unwrap(),
        (b",?".as_ref(), vec![Sequence::Single(SeqNo::Value(1))])
    );
}

#[test]
fn empty_set_is_invalid() {
    assert_eq!(sequence_set(b"?"), Err(ParseError::Invalid));
    assert_eq!(sequence_set(b",1"), Err(ParseError::Invalid));
}
