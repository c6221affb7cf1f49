use dns_parser::Error;
use dns_parser::Name;

fn collect_bytes(name: &Name) -> Vec<u8> {
    let mut nb = name.bytes();
    let mut out = Vec::new();
    while let Some(b) = nb.next() {
        out.push(b);
    }
    out
}

#[test]
fn parse_badpointer_same_offset() {
    // A buffer where an offset points to itself,
    // which is a bad compression pointer.
    let same_offset = vec![192, 2, 192, 2];
    let is_match = matches!(
        Name::scan(&same_offset, &same_offset),
        Err(Error::BadPointer)
    );

    assert!(is_match);
}

#[test]
fn parse_badpointer_forward_offset() {
    // A buffer where the offsets points back to each other which causes
    // infinite recursion if never checked, a bad compression pointer.
    let forwards_offset = vec![192, 2, 192, 4, 192, 2];
    let is_match = matches!(
        Name::scan(&forwards_offset, &forwards_offset),
        Err(Error::BadPointer)
    );

    assert!(is_match);
}

#[test]
fn nested_names() {
    let buf = b"\x02xx\x00\x02yy\xc0\x00\x02zz\xc0\x04";

    assert_eq!(Name::scan(&buf[..], buf).unwrap().to_text(), "xx");
    assert_eq!(Name::scan(&buf[..], buf).unwrap().labels(), b"\x02xx\x00");
    assert_eq!(Name::scan(&buf[4..], buf).unwrap().to_text(), "yy.xx");
    assert_eq!(
        Name::scan(&buf[4..], buf).unwrap().labels(),
        b"\x02yy\xc0\x00"
    );
    assert_eq!(Name::scan(&buf[9..], buf).unwrap().to_text(), "zz.yy.xx");
    assert_eq!(
        Name::scan(&buf[9..], buf).unwrap().labels(),
        b"\x02zz\xc0\x04"
    );
}

#[test]
fn byte_len_of_compressed_name() {
    let buf = b"\x02xx\x00\x02yy\xc0\x00\x02zz\xc0\x04";
    // The label header and payload of `yy` plus the two pointer bytes.
    assert_eq!(Name::scan(&buf[4..], buf).unwrap().byte_len(), 5);
    assert_eq!(Name::scan(&buf[..], buf).unwrap().byte_len(), 4);
    assert_eq!(Name::scan(&buf[9..], buf).unwrap().byte_len(), 5);
}

#[test]
fn truncated_buffers_fail_with_truncation() {
    // A length byte that claims more bytes than remain.
    let short = b"\x03ab";
    let is_match = matches!(Name::scan(&short[..], &short[..]), Err(Error::UnexpectedEOF));
    assert!(is_match);

    // Every proper prefix of a valid encoding fails the same way, with the
    // full packet still available for pointer resolution.
    let buf = b"\x02xx\x00\x02yy\xc0\x00\x02zz\xc0\x04";
    for t in 0..4 {
        let is_match = matches!(Name::scan(&buf[..t], buf), Err(Error::UnexpectedEOF));
        assert!(is_match, "prefix of length {} must be a truncation error", t);
    }
    // A name cut in the middle of its pointer bytes.
    let is_match = matches!(Name::scan(&buf[4..8], buf), Err(Error::UnexpectedEOF));
    assert!(is_match);
}

#[test]
fn invalid_utf8_label_fails() {
    // Framing is fine (3-byte label, terminator), but the bytes are not UTF-8.
    let buf = vec![3, 0xff, 0xfe, 0xfd, 0];
    let is_match = matches!(Name::scan(&buf, &buf), Err(Error::LabelIsNotUtf8));
    assert!(is_match);
}

#[test]
fn reserved_label_format_fails() {
    let buf = vec![0x40, 0];
    let is_match = matches!(Name::scan(&buf, &buf), Err(Error::UnknownLabelFormat));
    assert!(is_match);

    let buf2 = vec![0x80, 0];
    let is_match2 = matches!(Name::scan(&buf2, &buf2), Err(Error::UnknownLabelFormat));
    assert!(is_match2);
}

#[test]
fn pointer_past_buffer_end_is_bad() {
    let buf = vec![0xc0, 0x10];
    let is_match = matches!(Name::scan(&buf, &buf), Err(Error::BadPointer));
    assert!(is_match);
}

#[test]
fn expansion_is_idempotent() {
    let buf = b"\x02xx\x00\x02yy\xc0\x00\x02zz\xc0\x04";
    let name = Name::scan(&buf[9..], buf).unwrap();

    let first = collect_bytes(&name);
    let second = collect_bytes(&name);
    assert_eq!(first, second);
    assert_eq!(first, b"zz.yy.xx".to_vec());

    // The byte sequence already carries the separators, so its length is the
    // rendering's length.
    assert_eq!(first.len(), name.to_text().len());
}

#[test]
fn exhausted_expansion_stays_exhausted() {
    let buf = b"\x02xx\x00";
    let name = Name::scan(&buf[..], buf).unwrap();
    let mut nb = name.bytes();
    assert_eq!(nb.next(), Some(b'x'));
    assert_eq!(nb.next(), Some(b'x'));
    assert_eq!(nb.next(), None);
    assert_eq!(nb.next(), None);
}

#[test]
fn root_name() {
    let buf = vec![0];
    let name = Name::scan(&buf, &buf).unwrap();
    assert_eq!(name.byte_len(), 1);
    assert_eq!(name.to_text(), "");
    let mut nb = name.bytes();
    assert_eq!(nb.next(), None);

    let empty: &[u8] = &[];
    let is_match = matches!(Name::scan(empty, empty), Err(Error::UnexpectedEOF));
    assert!(is_match);
}

#[test]
fn equal_values_under_different_compression() {
    // `xx` stored plainly at offset 0 and reached through a pointer at
    // offset 4: the views differ, the expanded values agree.
    let buf = b"\x02xx\x00\xc0\x00";
    let plain = Name::scan(&buf[..], buf).unwrap();
    let via_pointer = Name::scan(&buf[4..], buf).unwrap();
    assert_ne!(plain.labels(), via_pointer.labels());
    assert_eq!(collect_bytes(&plain), collect_bytes(&via_pointer));
    assert_eq!(via_pointer.to_text(), "xx");
    assert_eq!(via_pointer.byte_len(), 2);
}

#[test]
fn pointer_chain_through_pointer() {
    // A pointer that lands on another pointer before reaching a label.
    let buf = b"\x02xx\x00\xc0\x00\xc0\x04";
    let name = Name::scan(&buf[6..], buf).unwrap();
    assert_eq!(name.byte_len(), 2);
    assert_eq!(collect_bytes(&name), b"xx".to_vec());
}

#[test]
fn longest_label_roundtrip() {
    let mut buf = vec![63u8];
    buf.extend(std::iter::repeat(b'a').take(63));
    buf.push(0);
    let name = Name::scan(&buf, &buf).unwrap();
    assert_eq!(name.byte_len(), 65);
    let text = name.to_text();
    assert_eq!(text.len(), 63);
    assert!(text.bytes().all(|b| b == b'a'));
    assert_eq!(collect_bytes(&name).len(), 63);
}

#[test]
fn pointer_to_root_after_label() {
    // A pointer that follows a label and leads to the root name: the byte
    // expansion is just the label, while the textual walk, which writes its
    // separator before taking the pointer, leaves a trailing one.
    let buf = b"\x00\x02xx\xc0\x00";
    let name = Name::scan(&buf[1..], buf).unwrap();
    assert_eq!(name.byte_len(), 5);
    assert_eq!(collect_bytes(&name), b"xx".to_vec());
    assert_eq!(name.to_text(), "xx.");
}
