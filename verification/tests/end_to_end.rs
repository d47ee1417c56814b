use libsox::decoder::{Action, Decoder, SAMPLES};
use libsox::rawfile::{read_chunk, CHUNK_BYTES};
use libsox::sample::SOX_SAMPLE_MAX;

/// A stream of native samples that covers the whole range.
fn native_stream(len: usize) -> Vec<i32> {
    let mut state: u32 = 0x1234_5678;
    (0..len)
        .map(|_| {
            state = state.wrapping_mul(1_664_525).wrapping_add(1_013_904_223);
            state as i32
        })
        .collect()
}

/// Decodes the stream as the engine would hand it over: in full blocks, then
/// a short one.
fn decode_through_the_protocol(stream: &[i32]) -> Vec<f32> {
    let mut decoder = Decoder::new();
    assert_eq!(decoder.pending(), Action::Open);
    decoder.opened();
    decoder.configured();

    let mut buffer = [0i32; SAMPLES];
    let mut at = 0;
    while decoder.pending() == (Action::Read { max: SAMPLES }) {
        let count = (stream.len() - at).min(SAMPLES);
        buffer[..count].copy_from_slice(&stream[at..at + count]);
        at += count;
        decoder.block_read(count, &buffer);
        buffer = [0; SAMPLES];
    }
    assert_eq!(decoder.pending(), Action::Close);
    decoder.closed(0);
    decoder.finish().unwrap().into_iter().map(f32::from_bits).collect()
}

/// Writes the stream as a raw file of converted samples and reads it back in
/// chunks.
fn decode_through_a_raw_file(stream: &[i32]) -> Vec<f32> {
    let mut file = Vec::new();
    for d in stream {
        let x: f32 = if *d > SOX_SAMPLE_MAX - 64 {
            1.0
        } else {
            ((*d + 64) & !127) as f32 * (1.0 / (SOX_SAMPLE_MAX as f32 + 1.0))
        };
        file.extend_from_slice(&x.to_le_bytes());
    }
    let mut patterns = Vec::new();
    for chunk in file.chunks(CHUNK_BYTES) {
        assert!(read_chunk(&mut patterns, chunk));
    }
    assert!(!read_chunk(&mut patterns, &[]));
    patterns.into_iter().map(f32::from_bits).collect()
}

#[test]
fn both_ways_give_the_same_samples() {
    let stream = native_stream(5 * SAMPLES + 777);
    let lib_result = decode_through_the_protocol(&stream);
    let cmd_result = decode_through_a_raw_file(&stream);
    assert_eq!(lib_result.len(), stream.len());
    assert_eq!(cmd_result.len(), stream.len());
    assert_eq!(
        &lib_result[lib_result.len() - 16..],
        &cmd_result[cmd_result.len() - 16..]
    );
    assert_eq!(lib_result, cmd_result);
}

#[test]
fn both_ways_agree_on_a_stream_of_whole_blocks() {
    let stream = native_stream(3 * SAMPLES);
    let lib_result = decode_through_the_protocol(&stream);
    let cmd_result = decode_through_a_raw_file(&stream);
    assert_eq!(lib_result.len(), 3 * SAMPLES);
    assert_eq!(lib_result, cmd_result);
}

#[test]
fn both_ways_agree_on_an_empty_stream() {
    let lib_result = decode_through_the_protocol(&[]);
    let cmd_result = decode_through_a_raw_file(&[]);
    assert!(lib_result.is_empty());
    assert!(cmd_result.is_empty());
}
