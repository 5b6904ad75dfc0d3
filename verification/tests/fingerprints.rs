use blake2::Digest;
use contract_build::code_hash;
use contract_build::Fingerprint;

#[test]
fn code_hash_matches_the_known_empty_digest() {
    let expected = "0e5751c026e543b2e8ab2eb06099daa1d1e5df47778f7787faab45cdf12fe3a8";
    let hash = code_hash(&[]);
    let rendered: String = hash.iter().map(|b| format!("{b:02x}")).collect();
    assert_eq!(rendered, expected);
}

#[test]
fn code_hash_agrees_with_the_digest_crate() {
    let data = b"some compiled artifact bytes";
    let reference: [u8; 32] =
        blake2::Blake2b::<blake2::digest::consts::U32>::digest(data).into();
    assert_eq!(code_hash(data), reference);
    assert_ne!(code_hash(data), code_hash(b"other bytes"));
}

fn fingerprint_of(target: &str, modified: u128) -> Fingerprint {
    Fingerprint::compute(
        "/path/to/code.wasm".to_string(),
        b"artifact bytes",
        modified,
        target.to_string(),
    )
}

#[test]
fn fingerprints_of_identical_artifacts_are_equal() {
    assert_eq!(fingerprint_of("wasm32", 7), fingerprint_of("wasm32", 7));
}

#[test]
fn fingerprints_differ_when_any_field_differs() {
    let base = fingerprint_of("wasm32", 7);
    assert_ne!(base, fingerprint_of("riscv32", 7));
    assert_ne!(base, fingerprint_of("wasm32", 8));
    assert_ne!(
        base,
        Fingerprint::compute(
            "/path/to/code.wasm".to_string(),
            b"different bytes",
            7,
            "wasm32".to_string(),
        )
    );
}
