use httpget::base64::{base64_encode_table, decode, encode, generate_decode_table_from, DecodeError};

#[test]
fn encode_rfc4648_vectors() {
    assert_eq!(encode(b""), "");
    assert_eq!(encode(b"f"), "Zg==");
    assert_eq!(encode(b"fo"), "Zm8=");
    assert_eq!(encode(b"foo"), "Zm9v");
    assert_eq!(encode(b"foob"), "Zm9vYg==");
    assert_eq!(encode(b"fooba"), "Zm9vYmE=");
    assert_eq!(encode(b"foobar"), "Zm9vYmFy");
}

#[test]
fn encode_uses_whole_alphabet() {
    assert_eq!(encode(&[0xfb, 0xff, 0xbf]), "+/+/");
    assert_eq!(encode(&[0x00, 0x00, 0x00]), "AAAA");
    assert_eq!(encode(&[0xff]), "/w==");
}

#[test]
fn decode_rfc4648_vectors() {
    assert_eq!(decode(b""), Ok(vec![]));
    assert_eq!(decode(b"Zg=="), Ok(b"f".to_vec()));
    assert_eq!(decode(b"Zm8="), Ok(b"fo".to_vec()));
    assert_eq!(decode(b"Zm9v"), Ok(b"foo".to_vec()));
    assert_eq!(decode(b"Zm9vYg=="), Ok(b"foob".to_vec()));
    assert_eq!(decode(b"Zm9vYmE="), Ok(b"fooba".to_vec()));
    assert_eq!(decode(b"Zm9vYmFy"), Ok(b"foobar".to_vec()));
    assert_eq!(decode(b"+/+/"), Ok(vec![0xfb, 0xff, 0xbf]));
}

#[test]
fn decode_invalid_length() {
    assert_eq!(decode(b"Zm9"), Err(DecodeError::InvalidLength));
    assert_eq!(decode(b"Zm9vY"), Err(DecodeError::InvalidLength));
    assert_eq!(decode(b"A"), Err(DecodeError::InvalidLength));
}

#[test]
fn decode_invalid_byte_reports_first() {
    assert_eq!(decode(b"Zm9v*m!y"), Err(DecodeError::InvalidByte(4, b'*')));
    assert_eq!(decode(b"===="), Err(DecodeError::InvalidByte(0, b'=')));
    assert_eq!(decode(b"A==="), Err(DecodeError::InvalidByte(1, b'=')));
    assert_eq!(decode(b"AB=C"), Err(DecodeError::InvalidByte(2, b'=')));
    assert_eq!(decode(b"Zg==Zg=="), Err(DecodeError::InvalidByte(2, b'=')));
    assert_eq!(decode(b"Zm 9"), Err(DecodeError::InvalidByte(2, b' ')));
}

#[test]
fn decode_invalid_last_symbol() {
    assert_eq!(decode(b"Zh=="), Err(DecodeError::InvalidLastSymbol(1, b'h')));
    assert_eq!(decode(b"Zm9="), Err(DecodeError::InvalidLastSymbol(2, b'9')));
    assert_eq!(decode(b"AAAAAB=="), Err(DecodeError::InvalidLastSymbol(5, b'B')));
}

#[test]
fn round_trip_all_lengths() {
    for len in 0..40usize {
        let data: Vec<u8> = (0..len).map(|i| (i * 37 + 11) as u8).collect();
        let text = encode(&data);
        assert_eq!(text.len(), 4 * ((len + 2) / 3));
        assert_eq!(decode(text.as_bytes()), Ok(data));
    }
}

#[test]
fn round_trip_every_byte() {
    for b in 0..=255u8 {
        let data = vec![b, 255 - b, b ^ 0x5a];
        for n in 1..=3 {
            let part = &data[..n];
            assert_eq!(decode(encode(part).as_bytes()), Ok(part.to_vec()));
        }
    }
}

#[test]
fn decode_then_encode_gives_input() {
    for text in ["", "QQ==", "QUI=", "QUJD", "SGVsbG8sIHdvcmxkIQ=="] {
        let data = decode(text.as_bytes()).unwrap();
        assert_eq!(encode(&data), text);
    }
}

#[test]
fn encode_table_is_alphabet() {
    let table = base64_encode_table();
    assert_eq!(
        table,
        b"ABCDEFGHIJKLMNOPQRSTUVWXYZabcdefghijklmnopqrstuvwxyz0123456789+/".to_vec()
    );
}

#[test]
fn decode_table_from_alphabet() {
    let table = generate_decode_table_from(&base64_encode_table());
    assert_eq!(table.len(), 256);
    assert_eq!(table[b'A' as usize], 0);
    assert_eq!(table[b'Z' as usize], 25);
    assert_eq!(table[b'a' as usize], 26);
    assert_eq!(table[b'z' as usize], 51);
    assert_eq!(table[b'0' as usize], 52);
    assert_eq!(table[b'9' as usize], 61);
    assert_eq!(table[b'+' as usize], 62);
    assert_eq!(table[b'/' as usize], 63);
    assert_eq!(table[b'=' as usize], 0xff);
    assert_eq!(table[0], 0xff);
}

#[test]
fn decode_table_last_entry_wins() {
    let mut t = vec![b'x'; 64];
    t[3] = b'q';
    let table = generate_decode_table_from(&t);
    assert_eq!(table[b'x' as usize], 63);
    assert_eq!(table[b'q' as usize], 3);
    assert_eq!(table[b'A' as usize], 0xff);
}

#[test]
fn encode_joins_at_group_boundary() {
    let a = b"abcdef".to_vec();
    let b = b"gh".to_vec();
    let mut ab = a.clone();
    ab.extend_from_slice(&b);
    assert_eq!(encode(&ab), encode(&a) + &encode(&b));
}

#[test]
fn encode_bits_six_at_a_time() {
    let data = [0b1010_1100u8, 0b0101_0011];
    let text = encode(&data);
    let table = base64_encode_table();
    let symbols: Vec<u8> = text.bytes().take_while(|b| *b != b'=').collect();
    assert_eq!(symbols.len(), (8 * data.len() + 5) / 6);
    for (j, s) in symbols.iter().enumerate() {
        let v = table.iter().position(|t| t == s).unwrap();
        for k in 0..6 {
            let i = 6 * j + k;
            let bit = if i < 8 * data.len() { (data[i / 8] >> (7 - i % 8)) & 1 } else { 0 };
            assert_eq!(((v >> (5 - k)) & 1) as u8, bit);
        }
    }
}

#[test]
fn encode_man() {
    assert_eq!(encode(b"Man"), "TWFu");
    assert_eq!(encode(b"Ma"), "TWE=");
    assert_eq!(encode(b"M"), "TQ==");
    assert_eq!(decode(b"TWFu"), Ok(b"Man".to_vec()));
}
