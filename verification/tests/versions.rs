use contract_build::assert_debug_mode_supported;
use contract_build::version::PreIdent;
use contract_build::Version;

fn pre(parts: &[&str]) -> Vec<PreIdent> {
    parts
        .iter()
        .map(|p| {
            if p.chars().all(|c| c.is_ascii_digit()) {
                PreIdent::Numeric(p.parse().expect("parsing must work"))
            } else {
                PreIdent::Alpha(p.to_string())
            }
        })
        .collect()
}

fn version(major: u64, minor: u64, patch: u64, pre_parts: &[&str]) -> Version {
    Version { major, minor, patch, pre: pre(pre_parts) }
}

#[test]
pub fn debug_mode_must_be_compatible() {
    assert_debug_mode_supported(&version(3, 0, 0, &["rc4"])).expect("debug mode must be compatible");
    assert_debug_mode_supported(&version(4, 0, 0, &["rc1"])).expect("debug mode must be compatible");
    assert_debug_mode_supported(&version(5, 0, 0, &[])).expect("debug mode must be compatible");
}

#[test]
pub fn debug_mode_must_be_incompatible() {
    let res = assert_debug_mode_supported(&version(3, 0, 0, &["rc3"])).expect_err(
        "assertion must fail",
    );
    assert_eq!(
        res.message(),
        "Building the contract in debug mode requires an ink! version newer than `3.0.0-rc3`!"
    );
}

#[test]
fn version_precedence_matches_the_versioning_scheme() {
    let cases: Vec<(&str, Version)> = vec![
        ("1.0.0-alpha", version(1, 0, 0, &["alpha"])),
        ("1.0.0-alpha.1", version(1, 0, 0, &["alpha", "1"])),
        ("1.0.0-alpha.beta", version(1, 0, 0, &["alpha", "beta"])),
        ("1.0.0-beta.2", version(1, 0, 0, &["beta", "2"])),
        ("1.0.0-beta.11", version(1, 0, 0, &["beta", "11"])),
        ("1.0.0-rc.1", version(1, 0, 0, &["rc", "1"])),
        ("1.0.0", version(1, 0, 0, &[])),
        ("1.0.1", version(1, 0, 1, &[])),
        ("2.0.0", version(2, 0, 0, &[])),
    ];
    for (i, (si, vi)) in cases.iter().enumerate() {
        for (j, (sj, vj)) in cases.iter().enumerate() {
            let reference = semver::Version::parse(si).expect("parsing must work")
                < semver::Version::parse(sj).expect("parsing must work");
            assert_eq!(vi.lt(vj), reference, "disagreement on {si} < {sj}");
            assert_eq!(reference, i < j);
        }
    }
}
