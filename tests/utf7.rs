use imap_proto::utf7::{utf7_decode, utf7_maybe_decode, ProtocolVersion};

#[test]
fn utf7_ampersand() {
    assert_eq!(utf7_decode(b"Tom &- Jerry"), Some(b"Tom & Jerry".to_vec()));
}

#[test]
fn utf7_decodes_runs() {
    assert_eq!(
        utf7_decode(b"&ZeVnLIqe-"),
        Some("\u{65e5}\u{672c}\u{8a9e}".as_bytes().to_vec())
    );
}

#[test]
fn utf7_rejects_malformed() {
    assert_eq!(utf7_decode(b"&ZeVn"), None);
    assert_eq!(utf7_decode(b"&Ze!-"), None);
    assert_eq!(utf7_decode(b"&AA-"), None);
}

#[test]
fn utf7_maybe_decode_keeps_malformed_names() {
    assert_eq!(utf7_maybe_decode("a&Ze!-".to_string(), ProtocolVersion::Rev1), "a&Ze!-");
    assert_eq!(utf7_maybe_decode("&-".to_string(), ProtocolVersion::Rev1), "&");
    assert_eq!(utf7_maybe_decode("&-".to_string(), ProtocolVersion::Rev2), "&-");
}
