use contract_build::Error;
use contract_build::ScanState;

const SIGNATURE: &[u8] = b"error[E0601]";

fn feed_in_chunks(chunks: &[&[u8]]) -> (ScanState, Vec<u8>) {
    let mut scanner = ScanState::new();
    let mut relayed = Vec::new();
    for chunk in chunks {
        let forwarded = scanner.push_chunk(&chunk.to_vec());
        relayed.extend_from_slice(&forwarded);
    }
    (scanner, relayed)
}

#[test]
fn signature_split_across_reads_is_detected_once() {
    let stream = b"warning: something\nerror[E0601]: `main` function not found\n";
    for split in 1..stream.len() {
        let (first, second) = stream.split_at(split);
        let mut scanner = ScanState::new();
        let mut matches = 0;
        for byte in first.iter().chain(second.iter()) {
            let was_matched = scanner.matched();
            scanner.push_byte(*byte);
            if scanner.matched() && !was_matched {
                matches += 1;
            }
        }
        assert!(scanner.matched(), "split at {split} must still match");
        assert_eq!(matches, 1, "the match must latch exactly once");
    }
}

#[test]
fn detection_maps_to_the_dedicated_error() {
    assert_eq!(Error::MissingNoMainAttribute.message(), "missing `no_main` attribute");
    assert_eq!(
        Error::SidecarUnreadable { path: "/t/target".to_string() }.message(),
        "Cannot read /t/target.\n A clean build will fix this."
    );
    assert_eq!(
        Error::ArtifactMissing { path: "/t/code.wasm".to_string() }.message(),
        "Expected '/t/code.wasm' to be generated by build"
    );
}

#[test]
fn byte_by_byte_feed_matches() {
    let chunks: Vec<&[u8]> = SIGNATURE.chunks(1).collect();
    let (scanner, _) = feed_in_chunks(&chunks);
    assert!(scanner.matched());
}

#[test]
fn altered_signature_byte_never_matches() {
    for i in 0..SIGNATURE.len() {
        let mut altered = SIGNATURE.to_vec();
        altered[i] = altered[i].wrapping_add(1);
        let mut stream = b"some compiler output ".to_vec();
        stream.extend_from_slice(&altered);
        stream.extend_from_slice(b" trailing text");
        let (scanner, _) = feed_in_chunks(&[&stream]);
        assert!(!scanner.matched(), "altered byte {i} must not match");
    }
}

#[test]
fn forwarding_preserves_the_whole_stream() {
    let stream = b"plain compiler chatter without the magic words".to_vec();
    let (scanner, mut relayed) = feed_in_chunks(&[&stream]);
    assert!(!scanner.matched());
    let rest = scanner.finish();
    relayed.extend_from_slice(&rest);
    assert_eq!(relayed, stream);
}

#[test]
fn short_stream_is_flushed_on_finish() {
    let stream = b"tiny".to_vec();
    let (scanner, relayed) = feed_in_chunks(&[&stream]);
    assert!(relayed.is_empty());
    assert_eq!(scanner.finish(), stream);
}
