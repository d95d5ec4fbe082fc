use rstun::compression::{
    choose_shorter, compress, compress_if_worthwhile, decompress, CompressionError,
};

#[test]
fn test_compress_decompress() {
    let original = b"Hello, World! This is a test message that should compress well because it has repetition. repetition. repetition.";

    let compressed = compress(original).unwrap();
    assert!(compressed.len() < original.len());

    let decompressed = decompress(&compressed).unwrap();
    assert_eq!(original.as_slice(), decompressed.as_slice());
}

#[test]
fn test_compress_if_worthwhile_small() {
    let small_data = b"Hi";
    let (result, was_compressed) = compress_if_worthwhile(small_data, 64).unwrap();
    assert!(!was_compressed);
    assert_eq!(result, small_data);
}

#[test]
fn test_compress_if_worthwhile_large() {
    let large_data = vec![b'A'; 1000];
    let (result, was_compressed) = compress_if_worthwhile(&large_data, 64).unwrap();
    assert!(was_compressed);
    assert!(result.len() < large_data.len());
}

#[test]
fn compressed_data_is_what_snappy_makes_of_it() {
    let data = vec![b'A'; 1000];
    let expected = snap::raw::Encoder::new().compress_vec(&data).unwrap();
    assert_eq!(compress(&data).unwrap(), expected);
    assert_ne!(compress(&data).unwrap(), data);
    let (sent, was_compressed) = compress_if_worthwhile(&data, 1000).unwrap();
    assert!(was_compressed);
    assert_eq!(sent, expected);
    assert_eq!(decompress(&sent).unwrap(), data);
}

#[test]
fn data_that_does_not_shrink_is_sent_as_it_is() {
    let data: Vec<u8> = (0u8..=255).collect();
    assert!(compress(&data).unwrap().len() >= data.len());
    let (sent, was_compressed) = compress_if_worthwhile(&data, 0).unwrap();
    assert!(!was_compressed);
    assert_eq!(sent, data);
}

#[test]
fn the_shorter_form_is_chosen() {
    assert_eq!(choose_shorter(b"abcd", vec![1, 2, 3]), (vec![1, 2, 3], true));
    assert_eq!(choose_shorter(b"abc", vec![1, 2, 3]), (b"abc".to_vec(), false));
}

#[test]
fn other_data_is_not_decompressed() {
    assert_eq!(decompress(&[0xff; 20]), Err(CompressionError::NotSnappy));
}
