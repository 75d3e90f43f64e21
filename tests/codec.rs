use crash_context::CrashContext;
use crash_recovery::{decode_context, encode_context, pid_placeholder, DumpRequest, Error, DUMP_REQUEST_SIZE};

#[test]
fn dump_request_bytes_are_exact() {
    let r = DumpRequest {
        exception_pointers: 0x1122_3344_5566_7788,
        process_id: 0x0a0b_0c0d,
        thread_id: 7,
        exception_code: -1,
    };
    let b = r.as_bytes();
    assert_eq!(b.len(), DUMP_REQUEST_SIZE);
    assert_eq!(
        b,
        vec![
            0x88, 0x77, 0x66, 0x55, 0x44, 0x33, 0x22, 0x11, 0x0d, 0x0c, 0x0b, 0x0a, 7, 0, 0, 0,
            0xff, 0xff, 0xff, 0xff, 0, 0, 0, 0
        ]
    );
    assert_eq!(DumpRequest::from_bytes(&b), Some(r));
}

#[test]
fn dump_request_round_trip_keeps_negative_code() {
    let r = DumpRequest {
        exception_pointers: u64::MAX,
        process_id: 0,
        thread_id: u32::MAX,
        exception_code: i32::MIN,
    };
    assert_eq!(DumpRequest::from_bytes(&r.as_bytes()), Some(r));
}

#[test]
fn dump_request_rejects_every_other_size() {
    for n in 0..64usize {
        let buf = vec![0xabu8; n];
        let got = DumpRequest::from_bytes(&buf);
        assert_eq!(got.is_some(), n == DUMP_REQUEST_SIZE, "size {}", n);
    }
}

#[test]
fn pid_placeholder_is_little_endian() {
    assert_eq!(pid_placeholder(0x0102_0304), vec![4, 3, 2, 1]);
}

#[test]
fn crash_context_decode_checks_size() {
    let size = std::mem::size_of::<CrashContext>();
    assert!(matches!(decode_context(&[]), Err(Error::Payload)));
    assert!(matches!(decode_context(&vec![0u8; size - 1]), Err(Error::Payload)));
    assert!(matches!(decode_context(&vec![0u8; size + 1]), Err(Error::Payload)));
    assert!(decode_context(&vec![0u8; size]).is_ok());
}

#[test]
fn crash_context_bytes_survive_a_round_trip() {
    let size = std::mem::size_of::<CrashContext>();
    let mut ctx = decode_context(&vec![0u8; size]).ok().unwrap();
    ctx.pid = 42;
    ctx.tid = 7;
    let bytes = encode_context(&ctx);
    assert_eq!(bytes.len(), size);
    assert!(bytes.iter().any(|b| *b != 0));
    let back = decode_context(&bytes).ok().unwrap();
    assert_eq!(back.pid, 42);
    assert_eq!(back.tid, 7);
}

#[test]
fn empty_crash_body_is_a_payload_error() {
    assert!(matches!(decode_context(&[]), Err(Error::Payload)));
}

#[test]
fn encoded_context_is_the_record_image() {
    let size = std::mem::size_of::<CrashContext>();
    let mut ctx = decode_context(&vec![0u8; size]).ok().unwrap();
    ctx.pid = 0x0102_0304;
    let bytes = encode_context(&ctx);
    assert_eq!(bytes.as_slice(), ctx.as_bytes());
}
