//! A plain model of semantic versions — major, minor, patch and
//! pre-release identifiers — with the precedence order the versioning
//! scheme defines, and the debug-mode support check built on it.

use vstd::prelude::*;
use crate::error::Error;
use crate::strutil::str_eq;
use crate::strutil::views_of;

verus! {

/// One pre-release identifier: purely numeric, or alphanumeric.
#[derive(Debug, Clone, PartialEq, Eq)]
pub enum PreIdent {
    Numeric(u64),
    Alpha(String),
}

/// A semantic version: major, minor and patch numbers plus the ordered
/// pre-release identifiers (empty for a release version).
#[derive(Debug, Clone, PartialEq, Eq)]
pub struct Version {
    pub major: u64,
    pub minor: u64,
    pub patch: u64,
    pub pre: Vec<PreIdent>,
}

/// Mathematical model of a pre-release identifier.
#[verifier::ext_equal]
pub enum SpecPreIdent {
    Numeric(u64),
    Alpha(Seq<char>),
}

/// Mathematical model of a version.
#[verifier::ext_equal]
pub struct SpecVersion {
    pub major: u64,
    pub minor: u64,
    pub patch: u64,
    pub pre: Seq<SpecPreIdent>,
}

impl View for PreIdent {
    type V = SpecPreIdent;

    open spec fn view(&self) -> SpecPreIdent {
        match self {
            PreIdent::Numeric(n) => SpecPreIdent::Numeric(*n),
            PreIdent::Alpha(s) => SpecPreIdent::Alpha(s@),
        }
    }
}

impl View for Version {
    type V = SpecVersion;

    open spec fn view(&self) -> SpecVersion {
        SpecVersion {
            major: self.major,
            minor: self.minor,
            patch: self.patch,
            pre: views_of(self.pre@),
        }
    }
}

/// Lexicographic order on character sequences, by code point.
pub open spec fn spec_chars_lt(a: Seq<char>, b: Seq<char>) -> bool
    decreases a.len(),
{
    if b.len() == 0 {
        false
    } else if a.len() == 0 {
        true
    } else if a[0] == b[0] {
        spec_chars_lt(a.drop_first(), b.drop_first())
    } else {
        (a[0] as int) < (b[0] as int)
    }
}

/// Precedence order on single pre-release identifiers: numeric identifiers
/// order by value and rank below alphanumeric ones; alphanumeric
/// identifiers order lexicographically.
pub open spec fn spec_ident_lt(a: SpecPreIdent, b: SpecPreIdent) -> bool {
    match (a, b) {
        (SpecPreIdent::Numeric(m), SpecPreIdent::Numeric(n)) => m < n,
        (SpecPreIdent::Numeric(_), SpecPreIdent::Alpha(_)) => true,
        (SpecPreIdent::Alpha(_), SpecPreIdent::Numeric(_)) => false,
        (SpecPreIdent::Alpha(s), SpecPreIdent::Alpha(t)) => spec_chars_lt(s, t),
    }
}

/// Precedence order on pre-release identifier lists: identifiers compare
/// left to right; a strict prefix ranks lower.
pub open spec fn spec_pre_lt(a: Seq<SpecPreIdent>, b: Seq<SpecPreIdent>) -> bool
    decreases a.len(),
{
    if b.len() == 0 {
        false
    } else if a.len() == 0 {
        true
    } else if a[0] == b[0] {
        spec_pre_lt(a.drop_first(), b.drop_first())
    } else {
        spec_ident_lt(a[0], b[0])
    }
}

/// Version precedence: numbers compare first; a pre-release version ranks
/// below the release it precedes; two pre-release versions compare by
/// their identifier lists.
pub open spec fn spec_version_lt(a: SpecVersion, b: SpecVersion) -> bool {
    if a.major != b.major {
        a.major < b.major
    } else if a.minor != b.minor {
        a.minor < b.minor
    } else if a.patch != b.patch {
        a.patch < b.patch
    } else if a.pre.len() == 0 {
        false
    } else if b.pre.len() == 0 {
        true
    } else {
        spec_pre_lt(a.pre, b.pre)
    }
}

/// Lexicographic comparison of two string slices, character by character.
#[verifier::loop_isolation(false)]
fn chars_lt(a: &str, b: &str) -> (r: bool)
    ensures
        r == spec_chars_lt(a@, b@),
    decreases a@.len(),
{
    let a_len = a.unicode_len();
    let b_len = b.unicode_len();
    if b_len == 0 {
        false
    } else if a_len == 0 {
        true
    } else {
        let ca = a.get_char(0);
        let cb = b.get_char(0);
        if ca == cb {
            let a_rest = a.substring_char(1, a_len);
            let b_rest = b.substring_char(1, b_len);
            proof {
                assert(a_rest@ =~= a@.drop_first());
                assert(b_rest@ =~= b@.drop_first());
            }
            chars_lt(a_rest, b_rest)
        } else {
            (ca as u32) < (cb as u32)
        }
    }
}

/// Equality of two pre-release identifiers.
fn ident_eq(a: &PreIdent, b: &PreIdent) -> (r: bool)
    ensures
        r == (a@ == b@),
{
    match (a, b) {
        (PreIdent::Numeric(m), PreIdent::Numeric(n)) => m == n,
        (PreIdent::Alpha(s), PreIdent::Alpha(t)) => str_eq(s.as_str(), t.as_str()),
        _ => false,
    }
}

/// Precedence comparison of two pre-release identifiers.
fn ident_lt(a: &PreIdent, b: &PreIdent) -> (r: bool)
    ensures
        r == spec_ident_lt(a@, b@),
{
    match (a, b) {
        (PreIdent::Numeric(m), PreIdent::Numeric(n)) => m < n,
        (PreIdent::Numeric(_), PreIdent::Alpha(_)) => true,
        (PreIdent::Alpha(_), PreIdent::Numeric(_)) => false,
        (PreIdent::Alpha(s), PreIdent::Alpha(t)) => chars_lt(s.as_str(), t.as_str()),
    }
}

/// Precedence comparison of the identifier lists from position `i` on.
#[verifier::loop_isolation(false)]
fn pre_lt_from(a: &Vec<PreIdent>, b: &Vec<PreIdent>, i: usize) -> (r: bool)
    requires
        i <= a@.len(),
        i <= b@.len(),
    ensures
        r == spec_pre_lt(views_of(a@).skip(i as int), views_of(b@).skip(i as int)),
    decreases a@.len() - i,
{
    let ghost va = views_of(a@).skip(i as int);
    let ghost vb = views_of(b@).skip(i as int);
    if b.len() == i {
        false
    } else if a.len() == i {
        true
    } else {
        proof {
            assert(va[0] == a@[i as int]@);
            assert(vb[0] == b@[i as int]@);
        }
        if ident_eq(&a[i], &b[i]) {
            let r = pre_lt_from(a, b, i + 1);
            proof {
                assert(views_of(a@).skip(i + 1) =~= va.drop_first());
                assert(views_of(b@).skip(i + 1) =~= vb.drop_first());
            }
            r
        } else {
            ident_lt(&a[i], &b[i])
        }
    }
}

impl Version {
    /// A release version without pre-release identifiers.
    pub fn release(major: u64, minor: u64, patch: u64) -> (v: Version)
        ensures
            v@ == (SpecVersion { major, minor, patch, pre: Seq::<SpecPreIdent>::empty() }),
    {
        let v = Version { major, minor, patch, pre: Vec::new() };
        proof {
            assert(views_of(v.pre@) =~= Seq::<SpecPreIdent>::empty());
            assert(v@ =~= (SpecVersion { major, minor, patch, pre: Seq::<SpecPreIdent>::empty() }));
        }
        v
    }

    /// Whether this version strictly precedes the other.
    pub fn lt(&self, other: &Version) -> (r: bool)
        ensures
            r == spec_version_lt(self@, other@),
    {
        if self.major != other.major {
            self.major < other.major
        } else if self.minor != other.minor {
            self.minor < other.minor
        } else if self.patch != other.patch {
            self.patch < other.patch
        } else if self.pre.len() == 0 {
            false
        } else if other.pre.len() == 0 {
            true
        } else {
            let r = pre_lt_from(&self.pre, &other.pre, 0);
            proof {
                assert(views_of(self.pre@).skip(0) =~= views_of(self.pre@));
                assert(views_of(other.pre@).skip(0) =~= views_of(other.pre@));
            }
            r
        }
    }
}

/// The first version that knows the debug feature: everything older cannot
/// build in debug mode.
pub open spec fn spec_first_debug_version() -> SpecVersion {
    SpecVersion { major: 3, minor: 0, patch: 0, pre: seq![SpecPreIdent::Alpha("rc4"@)] }
}

/// Checks whether the supplied contract-language version already contains
/// the debug feature; versions before the first pre-release that shipped it
/// are rejected.
pub fn assert_debug_mode_supported(ink_version: &Version) -> (r: Result<(), Error>)
    ensures
        r is Ok <==> !spec_version_lt(ink_version@, spec_first_debug_version()),
        r is Err ==> r->Err_0 == Error::DebugModeUnsupported,
{
    let mut pre: Vec<PreIdent> = Vec::new();
    pre.push(PreIdent::Alpha("rc4".to_owned()));
    let minimum_version = Version { major: 3, minor: 0, patch: 0, pre };
    proof {
        assert(views_of(minimum_version.pre@) =~= seq![SpecPreIdent::Alpha("rc4"@)]);
        assert(minimum_version@ =~= spec_first_debug_version());
    }
    if ink_version.lt(&minimum_version) {
        Err(Error::DebugModeUnsupported)
    } else {
        Ok(())
    }
}

} // verus!
