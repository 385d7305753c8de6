//! SWD texture tables (`Texture_*.tbl`): an 8-byte header followed by a
//! zlib stream that inflates to at most `TEXTURE_TABLE_LIMIT` bytes.
use vstd::prelude::*;

verus! {

/// Bytes of header before the zlib stream.
pub const TEXTURE_TABLE_HEADER: usize = 8;

/// Largest inflated table.
pub const TEXTURE_TABLE_LIMIT: usize = 0x21c;

/// What `miniz_oxide::inflate::decompress_to_vec_zlib_with_limit` gives for
/// `input` and `max_size`: the inflated bytes, or `None` where it reports an
/// error.
pub uninterp spec fn zlib_inflate_limited(input: Seq<u8>, max_size: usize) -> Option<Seq<u8>>;

/// Inflates a zlib stream into at most `max_size` bytes
/// (`miniz_oxide::inflate::decompress_to_vec_zlib_with_limit`); the output
/// never grows past `max_size`, and a stream that would is an error.
#[verifier::external_body]
fn inflate_zlib_limited(input: &[u8], max_size: usize) -> (r: Option<Vec<u8>>)
    ensures
        zlib_inflate_limited(input@, max_size) == (match r {
            Some(v) => Some(v@),
            None => None::<Seq<u8>>,
        }),
        r matches Some(v) ==> v@.len() <= max_size,
{
    miniz_oxide::inflate::decompress_to_vec_zlib_with_limit(input, max_size).ok()
}

/// The bytes after the header (none when the data is shorter).
pub open spec fn payload_of(data: Seq<u8>) -> Seq<u8> {
    if data.len() >= TEXTURE_TABLE_HEADER {
        data.subrange(TEXTURE_TABLE_HEADER as int, data.len() as int)
    } else {
        Seq::empty()
    }
}

/// The zlib stream of a texture table: its bytes after the header.
pub fn texture_table_payload(data: &[u8]) -> (r: Vec<u8>)
    ensures
        r@ == payload_of(data@),
{
    let mut out: Vec<u8> = Vec::new();
    let n = data.len();
    let mut i: usize = TEXTURE_TABLE_HEADER;
    if n < TEXTURE_TABLE_HEADER {
        return out;
    }
    while i < n
        invariant
            TEXTURE_TABLE_HEADER <= i <= n,
            n == data@.len(),
            out@ == data@.subrange(TEXTURE_TABLE_HEADER as int, i as int),
        decreases n - i,
    {
        out.push(data[i]);
        proof {
            assert(data@.subrange(TEXTURE_TABLE_HEADER as int, i + 1) =~= data@.subrange(
                TEXTURE_TABLE_HEADER as int,
                i as int,
            ).push(data@[i as int]));
        }
        i = i + 1;
    }
    out
}

/// The inflated table, or `None` when its stream does not inflate within
/// the limit.
pub fn decode_texture_table(data: &[u8]) -> (r: Option<Vec<u8>>)
    ensures
        zlib_inflate_limited(payload_of(data@), TEXTURE_TABLE_LIMIT) == (match r {
            Some(v) => Some(v@),
            None => None::<Seq<u8>>,
        }),
        r matches Some(v) ==> v@.len() <= TEXTURE_TABLE_LIMIT,
{
    let payload = texture_table_payload(data);
    inflate_zlib_limited(payload.as_slice(), TEXTURE_TABLE_LIMIT)
}

} // verus!
