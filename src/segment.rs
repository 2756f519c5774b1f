use vstd::prelude::*;
use crate::block::copy_bytes;
use crate::error::Error;
use std::io::Read;

verus! {

/// How a segment's body is stored.
#[derive(Clone, Copy, Debug, PartialEq, Eq, Structural)]
pub enum DataKind {
    Raw,
    Zlib,
    /// A compression kind that is not handled.
    Other,
}

/// What a segment's header declares about its body.
#[derive(Clone, Copy, Debug, PartialEq, Eq, Structural)]
pub struct SegmentHeader {
    pub kind: DataKind,
    /// Size of the body as stored.
    pub compressed_size: u32,
    /// Size of the body once decompressed.
    pub raw_size: u32,
}

/// The big-endian integer that four bytes hold.
pub open spec fn be_u32(b0: u8, b1: u8, b2: u8, b3: u8) -> int {
    b0 * 0x100_0000 + b1 * 0x1_0000 + b2 * 0x100 + b3
}

/// The length prefix of the record that starts at `pos`, or `None` where
/// fewer than four bytes are left.
pub fn frame_len(data: &Vec<u8>, pos: usize) -> (r: Option<u32>)
    ensures
        pos as int + 4 > data@.len() ==> r is None,
        pos as int + 4 <= data@.len() ==> (r matches Some(v) && v as int == be_u32(
            data@[pos as int],
            data@[pos + 1],
            data@[pos + 2],
            data@[pos + 3],
        )),
{
    if pos > data.len() || data.len() - pos < 4 {
        return None;
    }
    let v: u32 = (data[pos] as u32) * 0x100_0000 + (data[pos + 1] as u32) * 0x1_0000 + (
    data[pos + 2] as u32) * 0x100 + data[pos + 3] as u32;
    Some(v)
}

/// Reads a record's length prefix from its four bytes and checks it against
/// the size ceiling before the header is read.
pub fn header_len(prefix: &Vec<u8>, ceiling: u32) -> (r: Result<u32, Error>)
    ensures
        prefix@.len() < 4 ==> r == Err::<u32, Error>(Error::FormatError),
        prefix@.len() >= 4 ==> {
            let v = be_u32(prefix@[0], prefix@[1], prefix@[2], prefix@[3]);
            &&& v > ceiling ==> r == Err::<u32, Error>(Error::BlobTooLarge)
            &&& v <= ceiling ==> (r matches Ok(n) && n as int == v)
        },
{
    match frame_len(prefix, 0) {
        None => Err(Error::FormatError),
        Some(n) => if n > ceiling {
            Err(Error::BlobTooLarge)
        } else {
            Ok(n)
        },
    }
}

/// Which error, if any, a header gives under a size ceiling: an unknown
/// compression first, then a declared size above the ceiling.
pub open spec fn header_error(h: SegmentHeader, ceiling: u32) -> Option<Error> {
    if h.kind == DataKind::Other {
        Some(Error::UnsupportedCompression)
    } else if h.compressed_size > ceiling || h.raw_size > ceiling {
        Some(Error::BlobTooLarge)
    } else {
        None
    }
}

/// Checks a header before anything of its declared size is allocated.
pub fn check_header(h: &SegmentHeader, ceiling: u32) -> (r: Result<(), Error>)
    ensures
        r is Ok <==> header_error(*h, ceiling) is None,
        r matches Err(e) ==> header_error(*h, ceiling) == Some(e),
{
    if h.kind == DataKind::Other {
        Err(Error::UnsupportedCompression)
    } else if h.compressed_size > ceiling || h.raw_size > ceiling {
        Err(Error::BlobTooLarge)
    } else {
        Ok(())
    }
}

/// What inflating a zlib stream gives when at most `limit` bytes of output
/// are read: the bytes, or `None` where the stream is malformed.
pub uninterp spec fn zlib_inflated(data: Seq<u8>, limit: nat) -> Option<Seq<u8>>;

/// Relies on flate2's `ZlibDecoder` read through `Read::take(limit)`: the
/// output depends on the input bytes and the limit alone, and `take` hands
/// out at most `limit` bytes.
#[verifier::external_body]
fn zlib_decompress(data: &Vec<u8>, limit: u64) -> (r: Option<Vec<u8>>)
    ensures
        r is None <==> zlib_inflated(data@, limit as nat) is None,
        r matches Some(v) ==> zlib_inflated(data@, limit as nat) == Some(v@) && v@.len() <= limit,
{
    let mut out: Vec<u8> = Vec::new();
    match flate2::read::ZlibDecoder::new(&data[..]).take(limit).read_to_end(&mut out) {
        Ok(_) => Some(out),
        Err(_) => None,
    }
}

/// What a zlib body must inflate to: exactly `raw_size` bytes.
pub open spec fn inflated_result(h: SegmentHeader, inflated: Option<Seq<u8>>) -> Result<Seq<u8>, Error> {
    match inflated {
        Some(v) => if v.len() == h.raw_size {
            Ok(v)
        } else {
            Err(Error::FormatError)
        },
        None => Err(Error::FormatError),
    }
}

pub open spec fn bytes_opt(o: Option<Vec<u8>>) -> Option<Seq<u8>> {
    match o {
        Some(v) => Some(v@),
        None => None,
    }
}

/// Checks what a zlib body inflated to against the declared raw size.
pub fn check_inflated(h: &SegmentHeader, inflated: Option<Vec<u8>>) -> (r: Result<Vec<u8>, Error>)
    ensures
        r is Ok <==> inflated_result(*h, bytes_opt(inflated)) is Ok,
        r matches Ok(v) ==> inflated_result(*h, bytes_opt(inflated)) == Ok::<Seq<u8>, Error>(v@),
        r matches Err(e) ==> inflated_result(*h, bytes_opt(inflated)) == Err::<Seq<u8>, Error>(e),
{
    match inflated {
        Some(v) => if v.len() == h.raw_size as usize {
            Ok(v)
        } else {
            Err(Error::FormatError)
        },
        None => Err(Error::FormatError),
    }
}

/// The raw block bytes of a segment: header checks first, then the body's
/// stored size, then its decompressed size.
pub open spec fn segment_result(h: SegmentHeader, body: Seq<u8>, ceiling: u32) -> Result<Seq<u8>, Error> {
    match header_error(h, ceiling) {
        Some(e) => Err(e),
        None => if body.len() != h.compressed_size {
            Err(Error::FormatError)
        } else if h.kind == DataKind::Raw {
            if h.raw_size == body.len() {
                Ok(body)
            } else {
                Err(Error::FormatError)
            }
        } else {
            inflated_result(h, zlib_inflated(body, h.raw_size as nat + 1))
        },
    }
}

/// Decompresses a segment's body according to its header.
pub fn segment_data(h: &SegmentHeader, body: &Vec<u8>, ceiling: u32) -> (r: Result<Vec<u8>, Error>)
    ensures
        r is Ok <==> segment_result(*h, body@, ceiling) is Ok,
        r matches Ok(v) ==> segment_result(*h, body@, ceiling) == Ok::<Seq<u8>, Error>(v@),
        r matches Err(e) ==> segment_result(*h, body@, ceiling) == Err::<Seq<u8>, Error>(e),
{
    check_header(h, ceiling)?;
    if body.len() != h.compressed_size as usize {
        return Err(Error::FormatError);
    }
    if h.kind == DataKind::Raw {
        if h.raw_size as usize == body.len() {
            Ok(copy_bytes(body))
        } else {
            Err(Error::FormatError)
        }
    } else {
        let inflated = zlib_decompress(body, h.raw_size as u64 + 1);
        check_inflated(h, inflated)
    }
}

} // verus!
