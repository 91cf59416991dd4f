use byte_histo::range::{validate_range, ByteRange, InvalidRange};
use byte_histo::scan::{IoRequest, Scan};
use byte_histo::stream::MemStream;

fn sample() -> MemStream {
    MemStream::new(b"AAAABBBBCC".to_vec())
}

fn expected(pairs: &[(u8, u32)]) -> [u32; 256] {
    let mut h = [0u32; 256];
    for &(b, n) in pairs {
        h[b as usize] = n;
    }
    h
}

#[test]
fn whole_range_counts_letters() {
    let mut s = sample();
    let h = s.histogram::<u32>(0, 10).unwrap();
    assert_eq!(h, expected(&[(b'A', 4), (b'B', 4), (b'C', 2)]));
    assert_eq!(s.requests(), &[IoRequest::Seek(0), IoRequest::Read(10)]);
}

#[test]
fn delta_in_two_chunks() {
    let mut s = sample();
    let hs = s.histogram_delta::<u32>(0, 10, 5).unwrap();
    assert_eq!(hs.len(), 2);
    assert_eq!(hs[0], expected(&[(b'A', 4), (b'B', 1)]));
    assert_eq!(hs[1], expected(&[(b'B', 3), (b'C', 2)]));
    let whole = s.histogram::<u32>(0, 10).unwrap();
    for b in 0..256 {
        assert_eq!(hs[0][b] + hs[1][b], whole[b]);
    }
}

#[test]
fn delta_accuracy_larger_than_range_is_clamped() {
    let mut s = sample();
    let hs = s.histogram_delta::<u32>(0, 10, 20).unwrap();
    assert_eq!(hs.len(), 1);
    assert_eq!(hs[0], s.histogram::<u32>(0, 10).unwrap());
    assert_eq!(
        &s.requests()[..2],
        &[IoRequest::Seek(0), IoRequest::Read(10)]
    );
}

#[test]
fn empty_range_is_all_zero_without_io() {
    let mut s = sample();
    let h = s.histogram::<u32>(3, 3).unwrap();
    assert_eq!(h, [0u32; 256]);
    assert!(s.requests().is_empty());
}

#[test]
fn range_past_end_is_invalid_without_io() {
    let mut s = sample();
    let r = s.histogram::<u32>(0, 11);
    assert_eq!(r, Err(InvalidRange { start: 0, end: 11, stream_len: 10 }));
    let d = s.histogram_delta::<u32>(0, 11, 4);
    assert_eq!(d, Err(InvalidRange { start: 0, end: 11, stream_len: 10 }));
    assert!(s.requests().is_empty());
}

#[test]
fn start_after_end_is_invalid() {
    let mut s = sample();
    assert_eq!(
        s.histogram::<u64>(6, 2),
        Err(InvalidRange { start: 6, end: 2, stream_len: 10 })
    );
    assert!(s.requests().is_empty());
}

#[test]
fn validate_range_bounds() {
    assert_eq!(validate_range(2, 7, 10), Ok(ByteRange { start: 2, end: 7 }));
    assert_eq!(validate_range(0, 10, 10), Ok(ByteRange { start: 0, end: 10 }));
    assert_eq!(validate_range(10, 10, 10), Ok(ByteRange { start: 10, end: 10 }));
    assert_eq!(
        validate_range(0, 11, 10),
        Err(InvalidRange { start: 0, end: 11, stream_len: 10 })
    );
    assert_eq!(
        validate_range(5, 4, 10),
        Err(InvalidRange { start: 5, end: 4, stream_len: 10 })
    );
}

#[test]
fn counts_add_up_to_range_size() {
    let mut s = sample();
    let h = s.histogram::<u64>(2, 9).unwrap();
    assert_eq!(h.iter().sum::<u64>(), 7);
    assert_eq!(h[b'A' as usize], 2);
    assert_eq!(h[b'B' as usize], 4);
    assert_eq!(h[b'C' as usize], 1);
}

#[test]
fn delta_with_remainder_reads_without_reseeking() {
    let mut s = sample();
    let hs = s.histogram_delta::<u16>(0, 10, 3).unwrap();
    assert_eq!(hs.len(), 4);
    assert_eq!(
        s.requests(),
        &[
            IoRequest::Seek(0),
            IoRequest::Read(3),
            IoRequest::Read(3),
            IoRequest::Read(3),
            IoRequest::Read(1),
        ]
    );
    let mut h3 = [0u16; 256];
    h3[b'C' as usize] = 1;
    assert_eq!(hs[3], h3);
    let whole = s.histogram::<u16>(0, 10).unwrap();
    for b in 0..256 {
        let sum: u16 = hs.iter().map(|h| h[b]).sum();
        assert_eq!(sum, whole[b]);
    }
}

#[test]
fn delta_from_offset() {
    let mut s = sample();
    let hs = s.histogram_delta::<u32>(3, 9, 4).unwrap();
    assert_eq!(hs.len(), 2);
    assert_eq!(hs[0], expected(&[(b'A', 1), (b'B', 3)]));
    assert_eq!(hs[1], expected(&[(b'B', 1), (b'C', 1)]));
    assert_eq!(
        s.requests(),
        &[IoRequest::Seek(3), IoRequest::Read(4), IoRequest::Read(2)]
    );
}

#[test]
fn delta_accuracy_zero_is_one_chunk() {
    let mut s = sample();
    let hs = s.histogram_delta::<u32>(1, 8, 0).unwrap();
    assert_eq!(hs.len(), 1);
    assert_eq!(hs[0], expected(&[(b'A', 3), (b'B', 4)]));
    assert_eq!(s.requests(), &[IoRequest::Seek(1), IoRequest::Read(7)]);
}

#[test]
fn delta_of_empty_range_is_empty() {
    let mut s = sample();
    let hs = s.histogram_delta::<u32>(4, 4, 3).unwrap();
    assert!(hs.is_empty());
    let hs = s.histogram_delta::<u32>(10, 10, 0).unwrap();
    assert!(hs.is_empty());
    assert!(s.requests().is_empty());
}

#[test]
fn narrow_counters_wrap_around() {
    let mut s = MemStream::new(vec![7u8; 300]);
    let h = s.histogram::<u8>(0, 300).unwrap();
    assert_eq!(h[7], 44);
    let h = s.histogram::<u16>(0, 300).unwrap();
    assert_eq!(h[7], 300);
}

#[test]
fn every_byte_value_has_its_own_bucket() {
    let data: Vec<u8> = (0..=255u8).chain(0..=255u8).collect();
    let mut s = MemStream::new(data);
    let h = s.histogram::<u32>(0, 512).unwrap();
    assert_eq!(h, [2u32; 256]);
}

#[test]
fn scan_driven_by_hand() {
    let data = b"xyzzyx".to_vec();
    let mut scan = Scan::<u32>::delta(1, 6, 2, 6).unwrap();
    assert_eq!(scan.next_request(), Some(IoRequest::Seek(1)));
    scan.sought();
    let mut at: usize = 1;
    while let Some(req) = scan.next_request() {
        match req {
            IoRequest::Read(n) => {
                let n = n as usize;
                scan.fold_chunk(&data[at..at + n]);
                at += n;
            }
            IoRequest::Seek(_) => panic!("unexpected seek"),
        }
    }
    assert!(scan.is_done());
    assert_eq!(at, 6);
    let hs = scan.into_histograms();
    assert_eq!(hs.len(), 3);
    assert_eq!(hs[0], expected(&[(b'y', 1), (b'z', 1)]));
    assert_eq!(hs[1], expected(&[(b'z', 1), (b'y', 1)]));
    assert_eq!(hs[2], expected(&[(b'x', 1)]));
}

#[test]
fn whole_scan_rejects_out_of_range_before_io() {
    let r = Scan::<u64>::whole(4, 12, 8);
    assert!(matches!(
        r,
        Err(InvalidRange { start: 4, end: 12, stream_len: 8 })
    ));
}

#[test]
fn whole_scan_reads_range_in_one_piece() {
    let mut scan = Scan::<u64>::whole(2, 5, 8).unwrap();
    assert_eq!(scan.next_request(), Some(IoRequest::Seek(2)));
    scan.sought();
    assert_eq!(scan.next_request(), Some(IoRequest::Read(3)));
    scan.fold_chunk(&[9, 9, 1]);
    assert_eq!(scan.next_request(), None);
    let h = scan.into_histogram();
    assert_eq!(h[9], 2);
    assert_eq!(h[1], 1);
    assert_eq!(h.iter().sum::<u64>(), 3);
}

#[test]
fn stream_length_is_reported() {
    assert_eq!(sample().len(), 10);
    assert_eq!(MemStream::new(Vec::new()).len(), 0);
}
