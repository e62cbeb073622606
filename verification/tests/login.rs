use pumpkin::login::{LoginReadError, SLogin, MAX_TOKEN_SIZE};

fn packet(version: i32, request_len: &[u8], jwt: &[u8], raw: &[u8]) -> Vec<u8> {
    let mut b = Vec::new();
    b.extend_from_slice(&version.to_be_bytes());
    b.extend_from_slice(request_len);
    b.extend_from_slice(&(jwt.len() as u32).to_le_bytes());
    b.extend_from_slice(jwt);
    b.extend_from_slice(&(raw.len() as u32).to_le_bytes());
    b.extend_from_slice(raw);
    b
}

fn eof(needed: usize) -> LoginReadError {
    LoginReadError::UnexpectedEof { needed }
}

#[test]
fn reads_a_login_packet() {
    let b = packet(766, &[0x91, 0x02], b"header.payload.sig", b"token");
    let (login, end) = SLogin::read(&b).expect("valid packet");
    assert_eq!(login.protocol_version, 766);
    assert_eq!(login.jwt, b"header.payload.sig".to_vec());
    assert_eq!(login.raw_token, b"token".to_vec());
    assert_eq!(end, b.len());
}

#[test]
fn empty_tokens_take_thirteen_bytes() {
    let b = [0x00, 0x00, 0x02, 0x9A, 0x08, 0x00, 0x00, 0x00, 0x00, 0x00, 0x00, 0x00, 0x00];
    let (login, end) = SLogin::read(&b).unwrap();
    assert_eq!(login.protocol_version, 666);
    assert!(login.jwt.is_empty() && login.raw_token.is_empty());
    assert_eq!(end, 13);
}

#[test]
fn protocol_version_is_big_endian_and_signed() {
    let b = packet(-2, &[0x00], b"", b"");
    assert_eq!(SLogin::read(&b).unwrap().0.protocol_version, -2);
    let b = packet(0x0102_0304, &[0x7f], b"a", b"bc");
    assert_eq!(SLogin::read(&b).unwrap().0.protocol_version, 0x0102_0304);
}

#[test]
fn trailing_bytes_are_left() {
    let mut b = packet(1, &[0x05], b"jwt", b"raw");
    let len = b.len();
    b.extend_from_slice(&[9, 9, 9]);
    let (login, end) = SLogin::read(&b).unwrap();
    assert_eq!(login.raw_token, b"raw".to_vec());
    assert_eq!(end, len);
    assert_eq!(&b[end..], &[9, 9, 9]);
}

#[test]
fn short_packets_ask_for_more() {
    assert_eq!(SLogin::read(&[0, 0, 1]).err(), Some((eof(4), 3)));
    let b = packet(1, &[0x85, 0x01], b"jwt", b"raw");
    // 4 + 2 + 4 + 3 + 4 + 3 bytes.
    let expected = [4, 4, 4, 4, 5, 6, 10, 10, 10, 10, 13, 13, 13, 17, 17, 17, 17, 20, 20, 20];
    for cut in 0..b.len() {
        assert_eq!(SLogin::read(&b[..cut]).err(), Some((eof(expected[cut]), cut)), "cut {cut}");
    }
}

#[test]
fn var_uint_longer_than_five_bytes_is_refused() {
    let b = packet(1, &[0x80, 0x80, 0x80, 0x80, 0x80, 0x00], b"", b"");
    assert_eq!(SLogin::read(&b).err(), Some((LoginReadError::VarUIntTooLarge, 9)));
    let b = packet(1, &[0x80, 0x80, 0x80, 0x80, 0x01], b"x", b"y");
    assert!(SLogin::read(&b).is_ok());
}

#[test]
fn oversized_tokens_are_refused_right_after_their_length() {
    let b = [0, 0, 0, 1, 0x00, 0x01, 0x40, 0x1F, 0x00, 0xAA];
    assert_eq!(SLogin::read(&b).err(), Some((LoginReadError::JwtTooLong, 9)));
    let b = [0, 0, 0, 1, 0x00, 0, 0, 0, 0, 0x01, 0x40, 0x1F, 0x00, 0xBB];
    assert_eq!(SLogin::read(&b).err(), Some((LoginReadError::RawTokenTooLong, 13)));
    let mut b = Vec::new();
    b.extend_from_slice(&1i32.to_be_bytes());
    b.push(0);
    b.extend_from_slice(&0u32.to_le_bytes());
    b.extend_from_slice(&u32::MAX.to_le_bytes());
    assert_eq!(SLogin::read(&b).err(), Some((LoginReadError::RawTokenTooLong, 13)));
}

#[test]
fn tokens_at_the_limit_are_read() {
    assert_eq!(MAX_TOKEN_SIZE, 2_048_000);
    let b = [&[0, 0, 0, 1, 0x00, 0x00, 0x40, 0x1F, 0x00][..], &vec![7u8; 2048000][..], &[0, 0, 0, 0][..]].concat();
    let (login, end) = SLogin::read(&b).unwrap();
    assert_eq!(login.protocol_version, 1);
    assert_eq!(login.jwt, vec![7u8; 2048000]);
    assert!(login.raw_token.is_empty());
    assert_eq!(end, b.len());
}
