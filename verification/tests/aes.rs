use crustopals::aes::{
    key_schedule, pad_bytes, padding_bytes, rc, rcon, s_box, InvalidKeySizeError, Word,
};

#[test]
fn expands_an_aes_key_into_round_keys() {
    let key = hex::decode("2b7e151628aed2a6abf7158809cf4f3c").unwrap();
    let expanded_round_key_words = [
        "2b7e1516", "28aed2a6", "abf71588", "09cf4f3c", "a0fafe17", "88542cb1", "23a33939",
        "2a6c7605", "f2c295f2", "7a96b943", "5935807a", "7359f67f", "3d80477d", "4716fe3e",
        "1e237e44", "6d7a883b", "ef44a541", "a8525b7f", "b671253b", "db0bad00", "d4d1c6f8",
        "7c839d87", "caf2b8bc", "11f915bc", "6d88a37a", "110b3efd", "dbf98641", "ca0093fd",
        "4e54f70e", "5f5fc9f3", "84a64fb2", "4ea6dc4f", "ead27321", "b58dbad2", "312bf560",
        "7f8d292f", "ac7766f3", "19fadc21", "28d12941", "575c006e", "d014f9a8", "c9ee2589",
        "e13f0cc8", "b6630ca6",
    ];

    let computed_round_keys = key_schedule(&key).unwrap();

    assert_eq!(computed_round_keys.len(), 44);
    for (i, word) in expanded_round_key_words.iter().enumerate() {
        assert_eq!(computed_round_keys[i], Word::new(&hex::decode(word).unwrap()));
    }
}

#[test]
fn rejects_keys_that_are_not_16_bytes() {
    let key = b"Hello world";
    assert!(matches!(key_schedule(key), Err(InvalidKeySizeError)));
    assert!(matches!(key_schedule(&[0u8; 17]), Err(InvalidKeySizeError)));
    assert!(matches!(key_schedule(&[]), Err(InvalidKeySizeError)));
}

#[test]
fn first_four_words_are_the_key_itself() {
    let key: Vec<u8> = (0u8..16u8).collect();
    let words = key_schedule(&key).unwrap();
    assert_eq!(words.len(), 44);
    for i in 0..4 {
        assert_eq!(words[i], Word::new(&key[4 * i..4 * i + 4]));
    }
}

#[test]
fn word_operations_rotate_substitute_and_xor() {
    let w = Word::new(&[1, 2, 3, 4]);
    assert_eq!(w.rotated(), Word::new(&[2, 3, 4, 1]));

    assert_eq!(s_box(0x00), 0x63);
    assert_eq!(s_box(0x01), 0x7c);
    assert_eq!(s_box(0x53), 0xed);
    assert_eq!(s_box(0xff), 0x16);
    let z = Word::new(&[0x00, 0x01, 0x53, 0xff]);
    assert_eq!(z.sbox_mapped(), Word::new(&[0x63, 0x7c, 0xed, 0x16]));

    let a = Word::new(&[0xf0, 0x0f, 0xaa, 0x55]);
    let b = Word::new(&[0xff, 0xff, 0x00, 0x55]);
    assert_eq!(a.xor(&b), Word::new(&[0x0f, 0xf0, 0xaa, 0x00]));
}

#[test]
fn round_constants_match_the_fixed_sequence() {
    let expected = [1u8, 2, 4, 8, 16, 32, 64, 128, 27, 54];
    for (i, value) in expected.iter().enumerate() {
        assert_eq!(rc(i + 1), *value);
    }
    assert_eq!(rcon(4), Word::new(&[1, 0, 0, 0]));
    assert_eq!(rcon(36), Word::new(&[27, 0, 0, 0]));
    assert_eq!(rcon(40), Word::new(&[54, 0, 0, 0]));
}

#[test]
fn pads_bytes_to_the_next_block_boundary() {
    assert_eq!(padding_bytes(3), vec![3u8, 3, 3]);
    assert_eq!(padding_bytes(0), Vec::<u8>::new());

    assert_eq!(pad_bytes(&[]), vec![16u8; 16]);

    let fifteen = [7u8; 15];
    let mut expected = fifteen.to_vec();
    expected.push(1);
    assert_eq!(pad_bytes(&fifteen), expected);

    let sixteen = [9u8; 16];
    let mut expected = sixteen.to_vec();
    expected.extend(vec![16u8; 16]);
    assert_eq!(pad_bytes(&sixteen), expected);
}
