use imap_proto::command::Command;
use imap_proto::lexer::Fault;
use imap_proto::receiver::{Receiver, ReceiverError};
use imap_proto::token::Token;

#[test]
fn receiver_literal_is_one_argument() {
    let mut receiver = Receiver::new();
    let request = receiver
        .parse(b"A1 APPEND box {5}\r\nhe\r\nx\r\n")
        .unwrap();
    assert_eq!(request.command, Command::Append);
    assert_eq!(
        request.tokens,
        vec![
            Token::Argument(b"box".to_vec()),
            Token::Argument(b"he\r\nx".to_vec())
        ]
    );
}

#[test]
fn receiver_literal_is_binary_safe() {
    let data: Vec<u8> = vec![0, 13, 10, 255, b'"', b'(', 10];
    let mut line = b"A1 APPEND box {7+}\r\n".to_vec();
    line.extend_from_slice(&data);
    line.extend_from_slice(b"\r\n");
    let mut receiver = Receiver::new();
    let request = receiver.parse(&line).unwrap();
    assert_eq!(request.tokens[1], Token::Argument(data));
    assert_eq!(request.tokens.len(), 2);
}

#[test]
fn receiver_synchronizing_literal_asks_for_continuation() {
    let mut receiver = Receiver::new();
    assert_eq!(
        receiver.parse(b"A1 APPEND box {3}\r\n"),
        Err(ReceiverError::NeedsLiteral { size: 3 })
    );
    let request = receiver.parse(b"abc\r\n").unwrap();
    assert_eq!(request.tokens[1], Token::Argument(b"abc".to_vec()));
}

#[test]
fn receiver_non_synchronizing_literal_needs_no_prompt() {
    let mut receiver = Receiver::new();
    assert_eq!(
        receiver.parse(b"A1 APPEND box {3+}\r\n"),
        Err(ReceiverError::NeedsMoreData)
    );
}

#[test]
fn receiver_chunks_give_the_same_request() {
    let line = b"A042 STATUS \"blurdy bloop\" (UIDNEXT {2}\r\nab NIL)\r\n";
    let mut whole = Receiver::new();
    let expected = whole.parse(line).unwrap();
    let mut split = Receiver::new();
    for (i, b) in line.iter().enumerate() {
        let r = split.parse(&[*b]);
        if i + 1 < line.len() {
            assert!(r.is_err());
        } else {
            assert_eq!(r.unwrap(), expected);
        }
    }
    assert_eq!(expected.tag, "A042");
    assert_eq!(expected.command, Command::Status);
    assert_eq!(
        expected.tokens,
        vec![
            Token::Argument(b"blurdy bloop".to_vec()),
            Token::ParenthesisOpen,
            Token::Argument(b"UIDNEXT".to_vec()),
            Token::Argument(b"ab".to_vec()),
            Token::Nil,
            Token::ParenthesisClose
        ]
    );
}

#[test]
fn receiver_keeps_the_next_line() {
    let mut receiver = Receiver::new();
    let first = receiver.parse(b"a NOOP\r\nb LOGOUT\r\n").unwrap();
    assert_eq!(first.tag, "a");
    assert_eq!(first.command, Command::Noop);
    let second = receiver.parse(b"").unwrap();
    assert_eq!(second.tag, "b");
    assert_eq!(second.command, Command::Logout);
    assert_eq!(receiver.parse(b""), Err(ReceiverError::NeedsMoreData));
}

#[test]
fn receiver_quoted_escapes() {
    let mut receiver = Receiver::new();
    let request = receiver.parse(b"a LOGIN \"u\\\"s\\\\r\" \"NIL\"\r\n").unwrap();
    assert_eq!(
        request.tokens,
        vec![
            Token::Argument(b"u\"s\\r".to_vec()),
            Token::Argument(b"NIL".to_vec())
        ]
    );
}

#[test]
fn receiver_unterminated_quote_then_recovers() {
    let mut receiver = Receiver::new();
    assert_eq!(
        receiver.parse(b"A1 LOGIN \"abc\r\n"),
        Err(ReceiverError::Error { tag: Some("A1".to_string()), fault: Fault::InvalidQuote })
    );
    let request = receiver.parse(b"A2 NOOP\r\n").unwrap();
    assert_eq!(request.tag, "A2");
}

#[test]
fn receiver_invalid_literal() {
    let mut receiver = Receiver::new();
    assert_eq!(
        receiver.parse(b"A1 APPEND box {x}\r\n"),
        Err(ReceiverError::Error { tag: Some("A1".to_string()), fault: Fault::InvalidLiteral })
    );
}

#[test]
fn receiver_unknown_command() {
    let mut receiver = Receiver::new();
    assert_eq!(
        receiver.parse(b"A1 FROBNICATE x\r\n"),
        Err(ReceiverError::Error { tag: Some("A1".to_string()), fault: Fault::UnknownCommand })
    );
}

#[test]
fn receiver_invalid_tag() {
    let mut receiver = Receiver::new();
    assert_eq!(
        receiver.parse(b"A*1 NOOP\r\n"),
        Err(ReceiverError::Error { tag: None, fault: Fault::InvalidTag })
    );
    assert_eq!(
        receiver.parse(b"A1\r\n"),
        Err(ReceiverError::Error { tag: Some("A1".to_string()), fault: Fault::MissingCommand })
    );
}

#[test]
fn receiver_line_limit() {
    let mut receiver = Receiver::with_max_request_size(12);
    assert_eq!(
        receiver.parse(b"A1 LOGIN someone secret\r\n"),
        Err(ReceiverError::Error { tag: Some("A1".to_string()), fault: Fault::TooLarge })
    );
    assert_eq!(
        receiver.parse(b"A1 APPEND {99}\r\n"),
        Err(ReceiverError::Error { tag: Some("A1".to_string()), fault: Fault::TooLarge })
    );
    let request = receiver.parse(b"A2 NOOP\r\n").unwrap();
    assert_eq!(request.command, Command::Noop);
}

#[test]
fn command_lookup_ignores_case() {
    assert_eq!(Command::parse(b"status"), Some(Command::Status));
    assert_eq!(Command::parse(b"StartTLS"), Some(Command::StartTls));
    assert_eq!(Command::parse(b"STATUSX"), None);
}
