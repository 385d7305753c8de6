use yaobow_shared::swd5::{decode_big5, unpack_main_script, ScriptUnpackError};
use yaobow_shared::texture_table::{decode_texture_table, texture_table_payload, TEXTURE_TABLE_LIMIT};

#[test]
fn big5_strings_are_decoded() {
    assert_eq!(decode_big5(&[0xA4, 0xA4, 0xA4, 0xE5]), "中文");
    assert_eq!(decode_big5(b"abc"), "abc");
}

#[test]
fn main_script_unpacks_to_its_recorded_size() {
    let mut lzo = minilzo_rs::LZO::init().unwrap();
    let original: Vec<u8> = (0..200u32).map(|i| (i % 7) as u8).collect();
    let packed = lzo.compress(&original).unwrap();
    assert_ne!(packed, original);
    assert_eq!(unpack_main_script(&packed, original.len()).unwrap(), original);
}

#[test]
fn texture_table_skips_its_header_and_inflates() {
    let body: Vec<u8> = b"texture table body".to_vec();
    let mut data = vec![9u8; 8];
    data.extend(miniz_oxide::deflate::compress_to_vec_zlib(&body, 6));
    assert_eq!(texture_table_payload(&data).len(), data.len() - 8);
    assert_eq!(decode_texture_table(&data), Some(body));
    assert_eq!(texture_table_payload(&[1, 2, 3]), Vec::<u8>::new());
}

#[test]
fn texture_table_larger_than_the_limit_is_refused() {
    let body = vec![1u8; TEXTURE_TABLE_LIMIT + 1];
    let mut data = vec![0u8; 8];
    data.extend(miniz_oxide::deflate::compress_to_vec_zlib(&body, 6));
    assert_eq!(decode_texture_table(&data), None);
    assert_eq!(decode_texture_table(&[0u8; 12]), None);
}

#[test]
fn corrupt_main_script_is_an_error() {
    assert_eq!(
        unpack_main_script(&[0xff; 16], 100),
        Err(ScriptUnpackError::Decompress)
    );
    let mut lzo = minilzo_rs::LZO::init().unwrap();
    let original: Vec<u8> = (0..200u32).map(|i| (i % 7) as u8).collect();
    let packed = lzo.compress(&original).unwrap();
    assert_eq!(
        unpack_main_script(&packed[..packed.len() / 2], original.len()),
        Err(ScriptUnpackError::Decompress)
    );
}
