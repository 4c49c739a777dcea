use capsa::embeddings::{pack_embeddings, unpack_embeddings, EmbeddedChunk};
use capsa::error::{CapsaError, ProcessingError};

fn bits(values: &[f32]) -> Vec<u32> {
    values.iter().map(|f| f.to_bits()).collect()
}

fn packed(embeddings: &[(Vec<f32>, usize, usize)]) -> Vec<u8> {
    let chunks: Vec<EmbeddedChunk> = embeddings.iter().map(|(v, s, e)| (bits(v), *s, *e)).collect();
    pack_embeddings(&chunks)
}

fn unpacked(data: &[u8]) -> Result<Vec<(Vec<f32>, usize, usize)>, CapsaError> {
    let chunks = unpack_embeddings(data)?;
    Ok(chunks
        .into_iter()
        .map(|(v, s, e)| (v.into_iter().map(f32::from_bits).collect(), s, e))
        .collect())
}

#[test]
fn test_pack_unpack_empty() {
    let embeddings: Vec<(Vec<f32>, usize, usize)> = vec![];
    let blob = packed(&embeddings);
    let result = unpacked(&blob).unwrap();
    assert!(result.is_empty());
}

#[test]
fn test_pack_unpack_single_chunk() {
    let embeddings = vec![(vec![1.0f32, 2.0, 3.0], 0usize, 10usize)];
    let blob = packed(&embeddings);
    let result = unpacked(&blob).unwrap();
    assert_eq!(result.len(), 1);
    assert_eq!(result[0].0, vec![1.0f32, 2.0, 3.0]);
    assert_eq!(result[0].1, 0);
    assert_eq!(result[0].2, 10);
}

#[test]
fn test_pack_unpack_multiple_chunks() {
    let embeddings = vec![
        (vec![0.1f32, 0.2, 0.3], 0usize, 50usize),
        (vec![0.4f32, 0.5, 0.6], 45usize, 100usize),
        (vec![0.7f32, 0.8, 0.9], 95usize, 150usize),
    ];
    let blob = packed(&embeddings);
    let result = unpacked(&blob).unwrap();
    assert_eq!(result.len(), 3);
    for (i, (vec, start, end)) in result.iter().enumerate() {
        assert_eq!(vec.len(), 3);
        assert!((vec[0] - embeddings[i].0[0]).abs() < 1e-6);
        assert_eq!(*start, embeddings[i].1);
        assert_eq!(*end, embeddings[i].2);
    }
}

#[test]
fn test_pack_unpack_large_vectors() {
    let vec: Vec<f32> = (0..384).map(|i| i as f32 * 0.001).collect();
    let embeddings = vec![(vec.clone(), 0usize, 1000usize)];
    let blob = packed(&embeddings);
    let result = unpacked(&blob).unwrap();
    assert_eq!(result[0].0.len(), 384);
    for (a, b) in result[0].0.iter().zip(vec.iter()) {
        assert!((a - b).abs() < 1e-6);
    }
}

#[test]
fn test_unpack_malformed_data() {
    assert!(unpacked(&[]).is_err());
    assert!(unpacked(&[1, 0, 0, 0]).is_err()); // one chunk announced, no data
}

#[test]
fn packed_bytes_are_little_endian() {
    let blob = pack_embeddings(&[(vec![0x0403_0201], 5, 0x0102)]);
    let expected: Vec<u8> = vec![
        1, 0, 0, 0, 5, 0, 0, 0, 0, 0, 0, 0, 2, 1, 0, 0, 0, 0, 0, 0, 1, 0, 0, 0, 1, 2, 3, 4,
    ];
    assert_eq!(blob, expected);
}

#[test]
fn unpack_refuses_every_shortened_blob() {
    let blob = packed(&[(vec![1.0, 2.0], 3, 4), (vec![], 5, 6)]);
    for len in 0..blob.len() {
        match unpack_embeddings(&blob[..len]) {
            Err(CapsaError::Processing(ProcessingError::MissingData(text))) => {
                assert_eq!(text, "malformed embeddings blob")
            }
            other => panic!("unexpected: {:?}", other),
        }
    }
    assert!(unpack_embeddings(&blob).is_ok());
}

#[test]
fn unpack_refuses_a_huge_count() {
    assert!(unpack_embeddings(&[255, 255, 255, 255]).is_err());
}

#[test]
fn unpack_leaves_trailing_bytes() {
    let mut blob = packed(&[(vec![1.5], 0, 1)]);
    blob.push(9);
    assert_eq!(unpacked(&blob).unwrap(), vec![(vec![1.5], 0, 1)]);
}
