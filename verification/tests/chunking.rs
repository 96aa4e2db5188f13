use publish_core::chunker::chunk_file_name;
use publish_core::chunker::split_chunks;
use publish_core::chunker::CHUNK_EXTENSION;
use publish_core::text::decimal_string;

#[test]
fn splits_into_fixed_size_chunks_with_a_shorter_last_one() {
    let data: Vec<u8> = (0u8..10).collect();
    let chunks = split_chunks(&data, 4);
    assert_eq!(chunks, vec![vec![0, 1, 2, 3], vec![4, 5, 6, 7], vec![8, 9]]);
}

#[test]
fn exact_multiple_has_no_short_chunk() {
    let data: Vec<u8> = (0u8..8).collect();
    let chunks = split_chunks(&data, 4);
    assert_eq!(chunks, vec![vec![0, 1, 2, 3], vec![4, 5, 6, 7]]);
}

#[test]
fn empty_input_gives_no_chunk() {
    let chunks = split_chunks(&[], 4);
    assert_eq!(chunks.len(), 0);
}

#[test]
fn input_shorter_than_a_chunk_is_one_chunk() {
    let chunks = split_chunks(&[5, 6, 7], 1024);
    assert_eq!(chunks, vec![vec![5, 6, 7]]);
}

#[test]
fn chunk_size_of_one_gives_one_chunk_per_byte() {
    let chunks = split_chunks(&[9, 8, 7], 1);
    assert_eq!(chunks, vec![vec![9], vec![8], vec![7]]);
}

#[test]
fn chunks_put_together_are_the_input() {
    let data: Vec<u8> = (0..1000u32).map(|i| (i % 251) as u8).collect();
    for size in [1usize, 7, 64, 999, 1000, 1001] {
        let chunks = split_chunks(&data, size);
        assert_eq!(chunks.len(), (data.len() + size - 1) / size);
        let mut joined: Vec<u8> = Vec::new();
        for (i, chunk) in chunks.iter().enumerate() {
            assert!(!chunk.is_empty());
            if i + 1 < chunks.len() {
                assert_eq!(chunk.len(), size);
            } else {
                assert!(chunk.len() <= size);
            }
            joined.extend_from_slice(chunk);
        }
        assert_eq!(joined, data);
    }
}

#[test]
fn chunk_files_are_named_by_index() {
    assert_eq!(CHUNK_EXTENSION, ".chunk");
    assert_eq!(chunk_file_name(0), "0.chunk");
    assert_eq!(chunk_file_name(9), "9.chunk");
    assert_eq!(chunk_file_name(10), "10.chunk");
    assert_eq!(chunk_file_name(12345), "12345.chunk");
}

#[test]
fn decimal_text_of_numbers() {
    assert_eq!(decimal_string(0), "0");
    assert_eq!(decimal_string(7), "7");
    assert_eq!(decimal_string(10), "10");
    assert_eq!(decimal_string(65535), "65535");
    assert_eq!(decimal_string(1000000), "1000000");
    assert_eq!(decimal_string(u64::MAX), "18446744073709551615");
}
