//! Which messages of the group protocol can be read.

use discord_lite::dave::wire::{is_readable, Part};

#[test]
fn classes_of_lengths() {
    // A key, a credential of type one with an identity.
    assert!(is_readable(Part::ExternalSender, &[2, 9, 9, 0, 1, 1, 9]));
    assert!(is_readable(Part::ExternalSender, &[0x40, 2, 9, 9, 0, 1, 0x80, 0, 0, 1, 9]));
    assert!(!is_readable(Part::ExternalSender, &[0xC0, 9, 9, 0, 1, 1, 9]));
    assert!(!is_readable(Part::ExternalSender, &[2, 9, 9, 0, 1, 0xC0, 9]));
    // Only lengths count: the same byte inside a vector does not.
    assert!(is_readable(Part::ExternalSender, &[2, 0xC0, 0xFF, 0xFF, 0xFF, 1, 0xFF]));
    // What ends too early can be read up to there.
    assert!(is_readable(Part::ExternalSender, &[]));
    assert!(is_readable(Part::ExternalSender, &[9, 0xFF]));
}

#[test]
fn lengths_in_lists_and_extensions() {
    // A welcome for one: a reference, two parts of a ciphertext, and the rest.
    assert!(is_readable(Part::Welcome, &[0, 2, 6, 1, 7, 1, 7, 1, 7, 1, 7]));
    assert!(!is_readable(Part::Welcome, &[0, 2, 6, 1, 7, 1, 7, 0xC1, 7, 1, 7]));
    assert!(!is_readable(Part::Welcome, &[0, 2, 6, 1, 7, 1, 7, 1, 7, 0xC1, 7]));
    // An extension of an unknown type holds what it likes; a known one is looked into.
    assert!(is_readable(Part::Extension, &[0x0A, 0x0A, 1, 0xC0]));
    assert!(!is_readable(Part::Extension, &[0, 5, 1, 0xC0]));
    assert!(is_readable(Part::Extension, &[0, 5, 0x08, 0x07, 2, 9, 9, 0, 1, 1, 9]));
    assert!(!is_readable(Part::Extension, &[0, 5, 0x08, 0x07, 2, 9, 9, 0, 1, 0xC1, 9]));
    // An unknown kind of message is not looked into.
    assert!(is_readable(Part::Message, &[0, 1, 0, 9, 0xC0]));
    assert!(!is_readable(Part::Message, &[0, 1, 0, 3, 0, 2, 0xC0]));
}

#[test]
fn nested_parts_are_looked_into() {
    // A leaf whose extension holds a tree with a leaf, and so on.
    fn vector(content: &[u8]) -> Vec<u8> {
        let n = content.len();
        let mut out = if n < 0x40 {
            vec![n as u8]
        } else if n < 0x4000 {
            vec![0x40 + (n / 256) as u8, (n % 256) as u8]
        } else {
            vec![0x80, (n / 65536) as u8, (n / 256 % 256) as u8, (n % 256) as u8]
        };
        out.extend_from_slice(content);
        out
    }
    fn leaf(extensions: &[u8]) -> Vec<u8> {
        let mut out = vec![0, 0, 0, 1, 0, 0, 0, 0, 0, 0, 2];
        out.extend_from_slice(&vector(extensions));
        out.push(0);
        out
    }
    let mut good = leaf(&[]);
    // The innermost leaf ends with a length out of class.
    let mut bad = leaf(&[]);
    *bad.last_mut().unwrap() = 0xC0;
    for _ in 0..60 {
        good = around(&good);
        bad = around(&bad);
        assert!(is_readable(Part::LeafNode, &good));
        assert!(!is_readable(Part::LeafNode, &bad));
    }
    fn around(node: &[u8]) -> Vec<u8> {
        let mut tree = vec![1u8, 1];
        tree.extend_from_slice(node);
        let mut extension = vec![0u8, 2];
        extension.extend_from_slice(&vector(&vector(&tree)));
        leaf(&extension)
    }
}
