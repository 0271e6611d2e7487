use p2p_core::keys::{decode_key_material, KeyMaterialError};

#[test]
fn decodes_plain_hex() {
    // The decoded bytes differ from the input text: pairs of digits become
    // one byte each.
    let line = b"0a0B10ff".to_vec();
    assert_eq!(decode_key_material(&line).unwrap(), vec![0x0a, 0x0b, 0x10, 0xff]);
}

#[test]
fn decodes_with_0x_prefix() {
    let line = b"0xdeadbeef".to_vec();
    assert_eq!(decode_key_material(&line).unwrap(), vec![0xde, 0xad, 0xbe, 0xef]);
}

#[test]
fn trims_surrounding_whitespace() {
    let line = b"  0x0102 \r\n".to_vec();
    assert_eq!(decode_key_material(&line).unwrap(), vec![1, 2]);
}

#[test]
fn whole_key_line_decodes() {
    let line = b"0x3f28c9bf756219595f7c1eb8a65b3f16779a2a43a1528cfea63d5837fcbbf3dd\n".to_vec();
    let key = decode_key_material(&line).unwrap();
    assert_eq!(key.len(), 32);
    assert_eq!(key[0], 0x3f);
    assert_eq!(key[31], 0xdd);
}

#[test]
fn odd_length_is_rejected() {
    let line = b"0x123".to_vec();
    assert_eq!(decode_key_material(&line), Err(KeyMaterialError::OddLength));
}

#[test]
fn non_hex_character_is_rejected() {
    let line = b"0x12g4".to_vec();
    assert_eq!(decode_key_material(&line), Err(KeyMaterialError::InvalidHexCharacter));
}

#[test]
fn empty_line_decodes_to_empty_key() {
    assert_eq!(decode_key_material(&b"\n".to_vec()).unwrap(), Vec::<u8>::new());
}

#[test]
fn prefix_alone_decodes_to_empty_key() {
    assert_eq!(decode_key_material(&b"0x".to_vec()).unwrap(), Vec::<u8>::new());
}
