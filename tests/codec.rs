use bytes::{BufMut, Bytes, BytesMut};
use gargoyle::codec::{CodecError, TWSCodec, MAX_FRAME_LEN};
use gargoyle::scan::{round_up, scalar_scan, vectorized_scan};

/// A stream of frame payload bytes in the shape the gateway sends.
fn sample() -> Vec<u8> {
    let mut v = Vec::new();
    for i in 0..200u32 {
        v.extend_from_slice(b"1\x002\x00");
        v.extend_from_slice(format!("{}", i * 37).as_bytes());
        v.push(0);
        v.extend_from_slice(b"4\x001.25\x00100\x00\x00");
        if i % 7 == 0 {
            v.extend_from_slice(b"20210419  15:56:15\x00");
        }
    }
    v.extend_from_slice(b"tail");
    v
}

fn naive_boundaries(b: &[u8]) -> Vec<usize> {
    let mut r: Vec<usize> = b
        .iter()
        .enumerate()
        .filter_map(|(i, c)| if *c == 0 { Some(i) } else { None })
        .collect();
    if let Some(c) = b.last() {
        if *c != 0 {
            r.push(b.len());
        }
    }
    r
}

fn lcg_buffer(seed: u64, len: usize, zero_every: u64) -> Vec<u8> {
    let mut x = seed;
    (0..len)
        .map(|_| {
            x = x.wrapping_mul(6364136223846793005).wrapping_add(1442695040888963407);
            if (x >> 33) % zero_every == 0 {
                0
            } else {
                ((x >> 40) as u8) | 1
            }
        })
        .collect()
}

fn frame(payload: &[u8]) -> BytesMut {
    let mut buf = BytesMut::new();
    buf.put_u32(payload.len() as u32);
    buf.put(payload);
    buf
}

#[test]
fn sse_wip() {
    let data = sample();
    let res = vectorized_scan(&data);
    assert_eq!(res, naive_boundaries(&data));
    assert_eq!(res, scalar_scan(&data));
}

#[test]
fn scans_agree_on_random_buffers() {
    for seed in 0..64u64 {
        for len in [0usize, 1, 2, 15, 16, 17, 31, 32, 33, 100, 257] {
            let b = lcg_buffer(seed, len, 1 + seed % 5);
            assert_eq!(scalar_scan(&b), vectorized_scan(&b), "seed {} len {}", seed, len);
            assert_eq!(scalar_scan(&b), naive_boundaries(&b));
        }
    }
}

#[test]
fn scans_agree_on_edge_buffers() {
    for len in 0..70usize {
        let zeros = vec![0u8; len];
        assert_eq!(scalar_scan(&zeros), (0..len).collect::<Vec<_>>());
        assert_eq!(vectorized_scan(&zeros), scalar_scan(&zeros));
        let ones = vec![7u8; len];
        let expected: Vec<usize> = if len == 0 { vec![] } else { vec![len] };
        assert_eq!(scalar_scan(&ones), expected);
        assert_eq!(vectorized_scan(&ones), expected);
    }
}

#[test]
fn round_up_to_multiples() {
    assert_eq!(round_up::<32>(0), 0);
    assert_eq!(round_up::<32>(1), 32);
    assert_eq!(round_up::<32>(32), 32);
    assert_eq!(round_up::<4>(13), 16);
}

#[test]
fn empty_bytes_behaves_as_expected() {
    let mut buf = BytesMut::from(&b""[..]);
    let empty = buf.split_to(0);
    assert!(buf.is_empty());
    assert!(empty.is_empty());
}

#[test]
fn empty_bytes_behaves_as_expected2() {
    let mut buf = BytesMut::from(&b"\0"[..]);
    let empty = buf.split_to(0);
    assert_eq!(buf.len(), 1);
    assert!(empty.is_empty());
}

#[test]
fn empty_bytes_behaves_as_expected3() {
    let mut buf = BytesMut::from(&b"\0\0\0\0"[..]);
    assert!(buf.split_to(0).is_empty());
    assert_eq!(buf.len(), 4);
    assert!(buf.split_to(0).is_empty());
    assert_eq!(buf.len(), 4);
    assert!(buf.split_to(0).is_empty());
    assert_eq!(buf.len(), 4);
    assert!(buf.split_to(0).is_empty());
    assert_eq!(buf.len(), 4);
}

#[test]
fn empty_buffer_needs_more() {
    let mut c = TWSCodec::new();
    let mut buf = BytesMut::from(&b""[..]);
    assert_eq!(c.decode(&mut buf), Ok(None));
    let mut buf = BytesMut::new();
    buf.put_i16(123);
    assert_eq!(c.decode(&mut buf), Ok(None));
    assert_eq!(buf.len(), 2);
}

#[test]
fn partial_payload_needs_more_then_completes() {
    let mut c = TWSCodec::new();
    let mut buf = BytesMut::new();
    buf.put_u32(6);
    buf.put(&b"ab\0c"[..]);
    assert_eq!(c.decode(&mut buf), Ok(None));
    assert_eq!(buf.len(), 8);
    buf.put(&b"d\0"[..]);
    let fields = c.decode(&mut buf).unwrap().unwrap();
    assert_eq!(fields, vec![Bytes::from("ab"), Bytes::from("cd")]);
    assert_eq!(buf.len(), 0);
}

#[test]
fn exact_frame_leaves_nothing_and_extra_bytes_stay() {
    let mut c = TWSCodec::new();
    let mut buf = frame(b"151\x0020210309 22:54:30 CET\x00");
    buf.put(&b"\0\0"[..]);
    let fields = c.decode(&mut buf).unwrap().unwrap();
    assert_eq!(fields, vec![Bytes::from("151"), Bytes::from("20210309 22:54:30 CET")]);
    assert_eq!(&buf[..], b"\0\0");
}

#[test]
fn four_delimiters_are_four_empty_fields() {
    let mut c = TWSCodec::new();
    let mut buf = frame(b"\0\0\0\0");
    let fields = c.decode(&mut buf).unwrap().unwrap();
    assert_eq!(fields.len(), 4);
    assert!(fields.iter().all(|f| f.is_empty()));
}

#[test]
fn unterminated_last_field_counts() {
    let mut c = TWSCodec::new();
    let mut buf = frame(b"a\0\0bc\0d");
    let fields = c.decode(&mut buf).unwrap().unwrap();
    assert_eq!(
        fields,
        vec![Bytes::from("a"), Bytes::from(""), Bytes::from("bc"), Bytes::from("d")]
    );
    let mut buf = frame(b"0\0");
    assert_eq!(c.decode(&mut buf).unwrap().unwrap(), vec![Bytes::from("0")]);
    let mut buf = frame(b"");
    assert_eq!(c.decode(&mut buf).unwrap().unwrap(), Vec::<Bytes>::new());
}

#[test]
fn oversized_frame_is_rejected_before_payload() {
    let mut c = TWSCodec::new();
    let mut buf = BytesMut::new();
    buf.put_u32((MAX_FRAME_LEN + 1) as u32);
    buf.put(&b"xy"[..]);
    assert_eq!(
        c.decode(&mut buf),
        Err(CodecError::FrameTooLarge { length: (MAX_FRAME_LEN + 1) as u32 })
    );
    assert_eq!(buf.len(), 6);
    let mut buf = BytesMut::new();
    buf.put_u32(MAX_FRAME_LEN as u32);
    assert_eq!(c.decode(&mut buf), Ok(None));
}

#[test]
fn encode_writes_length_and_delimiters() {
    let mut c = TWSCodec::new();
    let mut dst = BytesMut::new();
    c.encode(
        vec![Bytes::from("71"), Bytes::from("2"), Bytes::from("0"), Bytes::new(), Bytes::new()],
        &mut dst,
    );
    assert_eq!(&dst[..], b"\0\0\0\x0871\x002\x000\x00\x00");
    let mut dst = BytesMut::new();
    c.encode(vec![Bytes::from("abc")], &mut dst);
    assert_eq!(&dst[..], b"\0\0\0\x03abc");
}

#[test]
fn encode_then_decode_round_trips() {
    let mut c = TWSCodec::new();
    let cases: Vec<Vec<&str>> = vec![
        vec!["x"],
        vec!["1", "2", "3"],
        vec!["", "", "last"],
        vec!["17", "0", "20210101", "", "10.5"],
    ];
    for case in cases {
        let item: Vec<Bytes> = case.iter().map(|s| Bytes::from(s.to_string())).collect();
        let mut buf = BytesMut::new();
        c.encode(item.clone(), &mut buf);
        c.encode(item.clone(), &mut buf);
        assert_eq!(c.decode(&mut buf).unwrap().unwrap(), item);
        assert_eq!(c.decode(&mut buf).unwrap().unwrap(), item);
        assert!(buf.is_empty());
    }
}
