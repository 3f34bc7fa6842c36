use imap_proto::error::Reason;
use imap_proto::receiver::Receiver;
use imap_proto::status::{Arguments, Status};
use imap_proto::token::Request;
use imap_proto::utf7::ProtocolVersion;

fn request(line: &str) -> Request {
    let mut receiver = Receiver::new();
    receiver.parse(line.as_bytes()).unwrap()
}

#[test]
fn parse_status() {
    let mut receiver = Receiver::new();

    assert_eq!(
        receiver
            .parse("A042 STATUS blurdybloop (UIDNEXT MESSAGES)\r\n".as_bytes())
            .unwrap()
            .parse_status(ProtocolVersion::Rev2)
            .unwrap(),
        Arguments {
            tag: "A042".to_string(),
            mailbox_name: "blurdybloop".to_string(),
            items: vec![Status::UidNext, Status::Messages],
        }
    );
}

#[test]
fn status_items_ignore_case_and_keep_order() {
    let args = request("t1 STATUS box (deleted-storage uidValidity Unseen size uidnext)\r\n")
        .parse_status(ProtocolVersion::Rev2)
        .unwrap();
    assert_eq!(args.tag, "t1");
    assert_eq!(
        args.items,
        vec![
            Status::DeletedStorage,
            Status::UidValidity,
            Status::Unseen,
            Status::Size,
            Status::UidNext
        ]
    );
}

#[test]
fn status_all_ten_items() {
    let args = request(
        "t2 STATUS box (MESSAGES UIDNEXT UIDVALIDITY UNSEEN DELETED SIZE HIGHESTMODSEQ MAILBOXID RECENT DELETED-STORAGE)\r\n",
    )
    .parse_status(ProtocolVersion::Rev2)
    .unwrap();
    assert_eq!(
        args.items,
        vec![
            Status::Messages,
            Status::UidNext,
            Status::UidValidity,
            Status::Unseen,
            Status::Deleted,
            Status::Size,
            Status::HighestModSeq,
            Status::MailboxId,
            Status::Recent,
            Status::DeletedStorage
        ]
    );
}

#[test]
fn status_duplicates_are_kept() {
    let args = request("t3 STATUS box (RECENT recent RECENT)\r\n")
        .parse_status(ProtocolVersion::Rev2)
        .unwrap();
    assert_eq!(args.items, vec![Status::Recent, Status::Recent, Status::Recent]);
}

#[test]
fn status_requires_an_item() {
    let err = request("A1 STATUS inbox ()\r\n")
        .parse_status(ProtocolVersion::Rev2)
        .unwrap_err();
    assert_eq!(err.tag, "A1");
    assert_eq!(err.reason, Reason::NoStatusItems);
    assert_eq!(err.message(), "At least one status item is required.");
}

#[test]
fn status_requires_open_parenthesis() {
    let err = request("A1 STATUS inbox UIDNEXT)\r\n")
        .parse_status(ProtocolVersion::Rev2)
        .unwrap_err();
    assert_eq!(err.tag, "A1");
    assert_eq!(err.reason, Reason::ExpectedParenthesis);
    assert_eq!(err.message(), "Expected parenthesis after mailbox name.");
}

#[test]
fn status_names_the_invalid_option() {
    let err = request("A7 STATUS inbox (MESSAGES FLAGS)\r\n")
        .parse_status(ProtocolVersion::Rev2)
        .unwrap_err();
    assert_eq!(err.tag, "A7");
    assert_eq!(err.reason, Reason::InvalidStatusOption(b"FLAGS".to_vec()));
    assert_eq!(err.message(), "Invalid status option 'FLAGS'.");
}

#[test]
fn status_invalid_option_with_bad_utf8() {
    let reason = Reason::InvalidStatusOption(vec![b'A', 0xff]);
    assert_eq!(reason.message(), "Invalid status option 'A\u{fffd}'.");
}

#[test]
fn status_rejects_nested_list() {
    let err = request("A8 STATUS inbox (MESSAGES (UNSEEN))\r\n")
        .parse_status(ProtocolVersion::Rev2)
        .unwrap_err();
    assert_eq!(err.reason, Reason::InvalidStatusArgument);
    assert_eq!(err.message(), "Invalid status return option argument.");
}

#[test]
fn status_rejects_nil_item() {
    let err = request("A9 STATUS inbox (NIL)\r\n")
        .parse_status(ProtocolVersion::Rev2)
        .unwrap_err();
    assert_eq!(err.reason, Reason::InvalidStatusArgument);
}

#[test]
fn status_missing_arguments() {
    let err = request("A2 STATUS inbox (MESSAGES\r\n")
        .parse_status(ProtocolVersion::Rev2)
        .unwrap_err();
    assert_eq!(err.tag, "A2");
    assert_eq!(err.reason, Reason::MissingArguments);
    assert_eq!(err.message(), "Missing arguments.");
    let err = request("A2 STATUS inbox\r\n")
        .parse_status(ProtocolVersion::Rev2)
        .unwrap_err();
    assert_eq!(err.reason, Reason::MissingArguments);
}

#[test]
fn status_mailbox_must_be_an_argument() {
    let err = request("A3 STATUS NIL (MESSAGES)\r\n")
        .parse_status(ProtocolVersion::Rev2)
        .unwrap_err();
    assert_eq!(err.reason, Reason::InvalidMailboxName);
    assert_eq!(err.message(), "Invalid mailbox name.");
}

#[test]
fn status_mailbox_must_be_utf8() {
    let mut line = b"A4 STATUS \"a".to_vec();
    line.push(0xff);
    line.extend_from_slice(b"\" (MESSAGES)\r\n");
    let mut receiver = Receiver::new();
    let err = receiver
        .parse(&line)
        .unwrap()
        .parse_status(ProtocolVersion::Rev2)
        .unwrap_err();
    assert_eq!(err.reason, Reason::InvalidMailboxName);
}

#[test]
fn status_quoted_and_literal_mailbox() {
    let args = request("A5 STATUS \"my box\" (UNSEEN)\r\n")
        .parse_status(ProtocolVersion::Rev2)
        .unwrap();
    assert_eq!(args.mailbox_name, "my box");
    let args = request("A6 STATUS {3+}\r\nx y (UNSEEN)\r\n")
        .parse_status(ProtocolVersion::Rev2)
        .unwrap();
    assert_eq!(args.mailbox_name, "x y");
}

#[test]
fn status_rev1_decodes_mailbox_name() {
    let args = request("A1 STATUS ~peter/mail/&U,BTFw-/&ZeVnLIqe- (MESSAGES)\r\n")
        .parse_status(ProtocolVersion::Rev1)
        .unwrap();
    assert_eq!(args.mailbox_name, "~peter/mail/\u{53f0}\u{5317}/\u{65e5}\u{672c}\u{8a9e}");
}

#[test]
fn status_rev2_keeps_mailbox_name() {
    let args = request("A1 STATUS ~peter/mail/&U,BTFw- (MESSAGES)\r\n")
        .parse_status(ProtocolVersion::Rev2)
        .unwrap();
    assert_eq!(args.mailbox_name, "~peter/mail/&U,BTFw-");
}

#[test]
fn status_keyword_lookup() {
    assert_eq!(Status::parse(b"HighestModSeq"), Ok(Status::HighestModSeq));
    assert_eq!(Status::parse(b"mailboxid"), Ok(Status::MailboxId));
    assert_eq!(
        Status::parse(b"DELETED_STORAGE"),
        Err(Reason::InvalidStatusOption(b"DELETED_STORAGE".to_vec()))
    );
    assert_eq!(Status::parse(b""), Err(Reason::InvalidStatusOption(Vec::new())));
}
