use vstd::prelude::*;

use crate::text::dec_digits;
use crate::text::str_eq;
use crate::text::u64_to_string;

verus! {

/// A parsed semantic version: `major.minor.patch`, plus the pre-release tag
/// and the build metadata as the raw text between the markers (empty when
/// absent).
#[derive(Debug, Clone)]
pub struct SemVer {
    pub major: u64,
    pub minor: u64,
    pub patch: u64,
    pub pre: String,
    pub build: String,
}

/// Structural equality of two versions: all five components agree.
pub open spec fn sv_eq(a: SemVer, b: SemVer) -> bool {
    a.major == b.major && a.minor == b.minor && a.patch == b.patch && a.pre@ == b.pre@ && a.build@
        == b.build@
}

impl PartialEq for SemVer {
    fn eq(&self, other: &SemVer) -> (r: bool) {
        self.major == other.major && self.minor == other.minor && self.patch == other.patch
            && str_eq(self.pre.as_str(), other.pre.as_str()) && str_eq(
            self.build.as_str(),
            other.build.as_str(),
        )
    }
}

impl vstd::std_specs::cmp::PartialEqSpecImpl for SemVer {
    open spec fn obeys_eq_spec() -> bool {
        true
    }

    open spec fn eq_spec(&self, other: &SemVer) -> bool {
        sv_eq(*self, *other)
    }
}

/// The normalized writing of a version given as its five components:
/// `major.minor.patch`, then `-pre` when a pre-release tag is present, then
/// `+build` when build metadata is present.
pub open spec fn version_chars_of(t: (u64, u64, u64, Seq<char>, Seq<char>)) -> Seq<char> {
    dec_digits(t.0 as nat) + seq!['.'] + dec_digits(t.1 as nat) + seq!['.'] + dec_digits(
        t.2 as nat,
    ) + (if t.3.len() > 0 {
        seq!['-'] + t.3
    } else {
        Seq::<char>::empty()
    }) + (if t.4.len() > 0 {
        seq!['+'] + t.4
    } else {
        Seq::<char>::empty()
    })
}

/// The normalized writing of a version value.
pub open spec fn version_chars(v: SemVer) -> Seq<char> {
    version_chars_of((v.major, v.minor, v.patch, v.pre@, v.build@))
}

/// Writes a version in its normalized form.
pub fn to_version_string(v: &SemVer) -> (s: String)
    ensures
        s@ == version_chars(*v),
{
    proof {
        reveal_strlit(".");
        reveal_strlit("-");
        reveal_strlit("+");
    }
    let mut s = u64_to_string(v.major);
    s.append(".");
    s.append(u64_to_string(v.minor).as_str());
    s.append(".");
    s.append(u64_to_string(v.patch).as_str());
    if !v.pre.as_str().is_empty() {
        s.append("-");
        s.append(v.pre.as_str());
    }
    if !v.build.as_str().is_empty() {
        s.append("+");
        s.append(v.build.as_str());
    }
    proof {
        assert(s@ =~= version_chars(*v));
    }
    s
}

/// What `semver::Version::parse` makes of a string: the five components of
/// the version on success, the diagnostic text on failure.
pub uninterp spec fn semver_parse_spec(s: Seq<char>) -> Result<
    (u64, u64, u64, Seq<char>, Seq<char>),
    Seq<char>,
>;

/// Relies on `semver::Version::parse` to decide whether the text is a valid
/// semantic version and to split it into its components; on failure the
/// error's text is returned.
#[verifier::external_body]
fn semver_parse_raw(s: &str) -> (r: Result<SemVer, String>)
    ensures
        r is Ok ==> semver_parse_spec(s@) == Ok::<_, Seq<char>>(
            ((r->Ok_0).major, (r->Ok_0).minor, (r->Ok_0).patch, (r->Ok_0).pre@, (r->Ok_0).build@),
        ),
        r is Err ==> semver_parse_spec(s@) == Err::<(u64, u64, u64, Seq<char>, Seq<char>), _>(
            (r->Err_0)@,
        ),
{
    match semver::Version::parse(s) {
        Ok(v) => Ok(
            SemVer {
                major: v.major,
                minor: v.minor,
                patch: v.patch,
                pre: v.pre.as_str().to_string(),
                build: v.build.as_str().to_string(),
            },
        ),
        Err(e) => Err(format!("{}", e)),
    }
}

/// Parses a semantic version, exactly as the semver grammar has it.
pub fn parse_version(s: &str) -> (r: Result<SemVer, String>)
    ensures
        r is Ok ==> semver_parse_spec(s@) == Ok::<_, Seq<char>>(
            ((r->Ok_0).major, (r->Ok_0).minor, (r->Ok_0).patch, (r->Ok_0).pre@, (r->Ok_0).build@),
        ),
        r is Err ==> semver_parse_spec(s@) == Err::<(u64, u64, u64, Seq<char>, Seq<char>), _>(
            (r->Err_0)@,
        ),
{
    semver_parse_raw(s)
}

} // verus!
