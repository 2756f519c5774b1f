use osmpbfreader::par::ReorderBuffer;
use osmpbfreader::segment::{
    check_header, header_len, check_inflated, frame_len, segment_data, DataKind, SegmentHeader,
};
use osmpbfreader::features::check_features;
use osmpbfreader::Error;
use std::io::Write;

fn zlib(data: &[u8]) -> Vec<u8> {
    let mut e = flate2::write::ZlibEncoder::new(Vec::new(), flate2::Compression::default());
    e.write_all(data).unwrap();
    e.finish().unwrap()
}

#[test]
fn ceiling_is_enforced() {
    let h = SegmentHeader { kind: DataKind::Zlib, compressed_size: 10, raw_size: 2_000_000_000 };
    assert_eq!(check_header(&h, 32 * 1024 * 1024), Err(Error::BlobTooLarge));
    assert_eq!(segment_data(&h, &vec![0; 10], 32 * 1024 * 1024), Err(Error::BlobTooLarge));
    let ok = SegmentHeader { kind: DataKind::Raw, compressed_size: 3, raw_size: 3 };
    assert_eq!(check_header(&ok, 3), Ok(()));
    assert_eq!(check_header(&ok, 2), Err(Error::BlobTooLarge));
}

#[test]
fn unknown_compression_is_refused() {
    let h = SegmentHeader { kind: DataKind::Other, compressed_size: 1, raw_size: 1 };
    assert_eq!(segment_data(&h, &vec![1], 100), Err(Error::UnsupportedCompression));
}

#[test]
fn raw_body_and_size_mismatch() {
    let h = SegmentHeader { kind: DataKind::Raw, compressed_size: 3, raw_size: 3 };
    assert_eq!(segment_data(&h, &vec![7, 8, 9], 100), Ok(vec![7, 8, 9]));
    assert_eq!(segment_data(&h, &vec![7, 8], 100), Err(Error::FormatError));
    let lying = SegmentHeader { kind: DataKind::Raw, compressed_size: 3, raw_size: 4 };
    assert_eq!(segment_data(&lying, &vec![7, 8, 9], 100), Err(Error::FormatError));
}

#[test]
fn zlib_body_is_inflated() {
    let plain = b"a block of map data, a block of map data".to_vec();
    let body = zlib(&plain);
    let h = SegmentHeader {
        kind: DataKind::Zlib,
        compressed_size: body.len() as u32,
        raw_size: plain.len() as u32,
    };
    assert_eq!(segment_data(&h, &body, 1 << 20), Ok(plain.clone()));
    let short = SegmentHeader { raw_size: plain.len() as u32 - 1, ..h };
    assert_eq!(segment_data(&short, &body, 1 << 20), Err(Error::FormatError));
    let garbage = vec![1, 2, 3, 4];
    let g = SegmentHeader { kind: DataKind::Zlib, compressed_size: 4, raw_size: 4 };
    assert_eq!(segment_data(&g, &garbage, 1 << 20), Err(Error::FormatError));
}

#[test]
fn inflated_size_is_checked() {
    let h = SegmentHeader { kind: DataKind::Zlib, compressed_size: 5, raw_size: 2 };
    assert_eq!(check_inflated(&h, Some(vec![1, 2])), Ok(vec![1, 2]));
    assert_eq!(check_inflated(&h, Some(vec![1, 2, 3])), Err(Error::FormatError));
    assert_eq!(check_inflated(&h, None), Err(Error::FormatError));
}

#[test]
fn frame_length_is_big_endian() {
    let data = vec![9, 0, 0, 1, 2, 5];
    assert_eq!(frame_len(&data, 1), Some(0x0000_0102));
    assert_eq!(frame_len(&data, 0), Some(0x0900_0001));
    assert_eq!(frame_len(&data, 3), None);
    assert_eq!(frame_len(&data, 40), None);
}

/// Completes submissions in a scrambled order and collects what comes out.
fn run(n: usize, workers: usize, fail_at: Option<usize>) -> Vec<Result<usize, Error>> {
    let mut buf: ReorderBuffer<Result<usize, Error>> = ReorderBuffer::new(workers);
    let mut pending: Vec<usize> = Vec::new();
    let mut out = Vec::new();
    let mut submitted = 0;
    while out.len() < n {
        while submitted < n && buf.has_room() {
            pending.push(buf.submit());
            submitted += 1;
        }
        // The newest submission finishes first.
        let idx = pending.pop().unwrap();
        let item = if Some(idx) == fail_at { Err(Error::FormatError) } else { Ok(idx * 10) };
        buf.complete(idx, item);
        while let Some(r) = buf.pop_ready() {
            out.push(r);
        }
    }
    out
}

#[test]
fn pipeline_keeps_input_order() {
    let n = 12;
    let expected: Vec<Result<usize, Error>> = (0..n).map(|i| Ok(i * 10)).collect();
    for k in 1..=n {
        assert_eq!(run(n, k, None), expected);
    }
}

#[test]
fn pipeline_isolates_errors() {
    let n = 8;
    for k in 1..=n {
        let out = run(n, k, Some(3));
        for (i, r) in out.iter().enumerate() {
            if i == 3 {
                assert_eq!(*r, Err(Error::FormatError));
            } else {
                assert_eq!(*r, Ok(i * 10));
            }
        }
    }
}

#[test]
fn pipeline_waits_for_the_oldest() {
    let mut buf: ReorderBuffer<u8> = ReorderBuffer::new(2);
    let a = buf.submit();
    let b = buf.submit();
    assert!(!buf.has_room());
    buf.complete(b, 2);
    assert_eq!(buf.pop_ready(), None);
    buf.complete(a, 1);
    assert_eq!(buf.pop_ready(), Some(1));
    assert_eq!(buf.pop_ready(), Some(2));
    assert_eq!(buf.in_flight(), 0);
}

#[test]
fn required_features_are_checked() {
    let allow = vec![b"OsmSchema-V0.6".to_vec(), b"DenseNodes".to_vec()];
    assert_eq!(check_features(&vec![b"DenseNodes".to_vec()], &allow), Ok(()));
    assert_eq!(check_features(&vec![], &allow), Ok(()));
    assert_eq!(
        check_features(&vec![b"OsmSchema-V0.6".to_vec(), b"HistoricalInformation".to_vec()], &allow),
        Err(Error::UnsupportedFeature)
    );
    assert_eq!(check_features(&vec![b"DenseNode".to_vec()], &allow), Err(Error::UnsupportedFeature));
}

#[test]
fn header_length_is_checked() {
    assert_eq!(header_len(&vec![0, 0, 1, 0], 1000), Ok(256));
    assert_eq!(header_len(&vec![0, 1, 0, 0], 1000), Err(Error::BlobTooLarge));
    assert_eq!(header_len(&vec![0, 1], 1000), Err(Error::FormatError));
}
