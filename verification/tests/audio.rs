use oss_lma::audio::StereoChunk;

#[test]
fn stereo_chunk_has_the_documented_wire_size() {
    assert_eq!(StereoChunk::byte_len(48_000), 19_200);
}

#[test]
fn chunk_size_follows_the_rate() {
    assert_eq!(StereoChunk::byte_len(8_000), 3_200);
    assert_eq!(StereoChunk::byte_len(100), 40);
    assert_eq!(StereoChunk::byte_len(0), 0);
}
