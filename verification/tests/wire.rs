//! Framing.
use membrane_daemon::wire::{decode, decoded, encode, DecodeError};

fn round_trip(body: &[u8]) -> Vec<u8> {
    let encoded = encode(body);
    let (back, n) = decode(&encoded).unwrap();
    assert_eq!(n, encoded.len());
    back
}

#[test]
fn read_file_roundtrip() {
    let body = bincode::serialize(&(0u32, "/home/adam/Documents/notes.md", 1u64 << 20)).unwrap();
    let back = round_trip(&body);
    let (variant, path, max): (u32, String, u64) = bincode::deserialize(&back).unwrap();
    assert_eq!(variant, 0);
    assert_eq!(path, "/home/adam/Documents/notes.md");
    assert_eq!(max, 1 << 20);
}

#[test]
fn write_file_with_mtime_check() {
    let msg = (1u32, "/tmp/test.md", b"new content".to_vec(), Some(1234567890i64));
    let back = round_trip(&bincode::serialize(&msg).unwrap());
    let (variant, _, _, mtime): (u32, String, Vec<u8>, Option<i64>) =
        bincode::deserialize(&back).unwrap();
    assert_eq!(variant, 1);
    assert_eq!(mtime, Some(1234567890));
}

#[test]
fn exec_response_with_truncation() {
    let stdout: Vec<u8> = vec![0; 1024];
    let stderr: Vec<u8> = vec![];
    let msg = (3u32, 0u32, stdout, stderr, Some(0i32), 42u32, false, true);
    let back = round_trip(&bincode::serialize(&msg).unwrap());
    let got: (u32, u32, Vec<u8>, Vec<u8>, Option<i32>, u32, bool, bool) =
        bincode::deserialize(&back).unwrap();
    assert!(got.7);
    assert_eq!(got.2.len(), 1024);
}

#[test]
fn need_more_signals_partial_buffer() {
    let encoded = encode(&bincode::serialize(&4u32).unwrap());
    match decode(&encoded[..encoded.len() - 1]) {
        Err(DecodeError::NeedMore(n)) => assert_eq!(n, 1),
        _ => panic!("expected NeedMore(1)"),
    }
}

#[test]
fn list_dir_with_entries() {
    let entries = vec![("a.md", false, 1024u64), ("subdir", true, 4096u64)];
    let back = round_trip(&bincode::serialize(&(2u32, 0u32, entries)).unwrap());
    let (_, _, got): (u32, u32, Vec<(String, bool, u64)>) = bincode::deserialize(&back).unwrap();
    assert_eq!(got.len(), 2);
    assert!(got[1].1);
}

#[test]
fn frame_is_length_then_body() {
    assert_eq!(encode(b"abc"), vec![3, 0, 0, 0, b'a', b'b', b'c']);
    assert_eq!(encode(b""), vec![0, 0, 0, 0]);
    assert_eq!(&encode(&[7; 0x1_0203])[..4], &[0x03, 0x02, 0x01, 0]);
}

#[test]
fn decode_takes_the_first_frame_only() {
    let mut buf = encode(b"one");
    buf.extend_from_slice(&encode(b"second"));
    let (body, n) = decode(&buf).unwrap();
    assert_eq!(body, b"one");
    assert_eq!(n, 7);
    let (body, m) = decode(&buf[n..]).unwrap();
    assert_eq!(body, b"second");
    assert_eq!(n + m, buf.len());
}

#[test]
fn need_more_counts_what_is_missing() {
    assert!(matches!(decode(b""), Err(DecodeError::NeedMore(4))));
    assert!(matches!(decode(&[1, 0]), Err(DecodeError::NeedMore(2))));
    assert!(matches!(decode(&[10, 0, 0, 0]), Err(DecodeError::NeedMore(10))));
    assert!(matches!(decode(&[10, 0, 0, 0, 1, 2, 3]), Err(DecodeError::NeedMore(7))));
    assert!(matches!(decode(&[255, 255, 255, 255]), Err(DecodeError::NeedMore(4294967295))));
}

#[test]
fn decode_errors_say_what_is_wrong() {
    assert_eq!(DecodeError::NeedMore(12).message(), "need 12 more bytes");
    assert_eq!(DecodeError::Bincode("bad tag".into()).message(), "decode error: bad tag");
    let ok: Result<(u8, usize), DecodeError> = decoded(Ok(9u8), 5);
    assert!(matches!(ok, Ok((9, 5))));
    let err: Result<(u8, usize), DecodeError> = decoded(Err("x".to_string()), 5);
    assert!(matches!(err, Err(DecodeError::Bincode(e)) if e == "x"));
}

#[test]
fn daemon_error_variants_roundtrip() {
    let bodies = vec![
        bincode::serialize(&(0u32, 1u32, 0u32, "/etc/shadow")).unwrap(),
        bincode::serialize(&(0u32, 1u32, 1u32, "/nope")).unwrap(),
        bincode::serialize(&(0u32, 1u32, 4u32, 1u64 << 30, 1u64 << 20)).unwrap(),
        bincode::serialize(&(0u32, 1u32, 6u32, 0i64, 1i64)).unwrap(),
        bincode::serialize(&(0u32, 1u32, 5u32)).unwrap(),
    ];
    for body in bodies {
        assert_eq!(format!("{:?}", round_trip(&body)), format!("{:?}", body));
    }
}
