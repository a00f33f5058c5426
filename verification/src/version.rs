//! Semantic versions, as the `semver` crate reads and orders them.

use crate::text::{decimal, decimal_digits};
use vstd::prelude::*;
use vstd::string::*;

verus! {

/// The five parts of a semantic version: the three numbers, the pre-release
/// tag and the build metadata, the last two without their leading sign and
/// empty where the version has none.
pub type VersionParts = (u64, u64, u64, Seq<char>, Seq<char>);

/// A semantic version, held as the plain values that make it up.
#[derive(Debug, Clone, PartialEq, Eq)]
pub struct Version {
    pub major: u64,
    pub minor: u64,
    pub patch: u64,
    /// The pre-release tag, without its hyphen; empty for a release.
    pub pre: String,
    /// The build metadata, without its plus sign; empty where there is none.
    pub build: String,
}

impl View for Version {
    type V = VersionParts;

    open spec fn view(&self) -> VersionParts {
        (self.major, self.minor, self.patch, self.pre@, self.build@)
    }
}

/// What `semver::Version::parse` makes of `text`: the parts of the version it
/// read, or the message of the error it reported.
pub uninterp spec fn semver_parse(text: Seq<char>) -> Result<VersionParts, Seq<char>>;

/// Whether `semver` orders the version with parts `left` strictly after the
/// one with parts `right`. A tag or metadata that `semver` does not accept
/// counts as empty.
pub uninterp spec fn semver_greater(left: VersionParts, right: VersionParts) -> bool;

/// Whether the three numbers of `left` come after those of `right`, the major
/// number weighing most and the patch number least.
pub open spec fn numbers_greater(left: VersionParts, right: VersionParts) -> bool {
    left.0 > right.0 || (left.0 == right.0 && (left.1 > right.1 || (left.1 == right.1 && left.2
        > right.2)))
}

/// Whether `left` and `right` have the same three numbers.
pub open spec fn numbers_equal(left: VersionParts, right: VersionParts) -> bool {
    left.0 == right.0 && left.1 == right.1 && left.2 == right.2
}

/// The text of a version: the three numbers with dots between them, then a
/// hyphen and the pre-release tag if there is one, then a plus sign and the
/// build metadata if there is any.
pub open spec fn version_text(v: VersionParts) -> Seq<char> {
    decimal_digits(v.0 as nat) + seq!['.'] + decimal_digits(v.1 as nat) + seq!['.']
        + decimal_digits(v.2 as nat) + (if v.3.len() > 0 {
        seq!['-'] + v.3
    } else {
        Seq::<char>::empty()
    }) + (if v.4.len() > 0 {
        seq!['+'] + v.4
    } else {
        Seq::<char>::empty()
    })
}

/// Calls `semver::Version::parse`. The result is the one that `semver_parse`
/// names: on success the five parts of the version that was read, on failure
/// the text of the error.
#[verifier::external_body]
fn semver_parse_text(text: &str) -> (r: Result<Version, String>)
    ensures
        match r {
            Ok(v) => semver_parse(text@) == Ok::<VersionParts, Seq<char>>(v@),
            Err(e) => semver_parse(text@) == Err::<VersionParts, Seq<char>>(e@),
        },
{
    match semver::Version::parse(text) {
        Ok(v) => Ok(
            Version {
                major: v.major,
                minor: v.minor,
                patch: v.patch,
                pre: v.pre.as_str().to_string(),
                build: v.build.as_str().to_string(),
            },
        ),
        Err(e) => Err(e.to_string()),
    }
}

/// Compares two versions with `>` of `semver::Version`, which orders by the
/// major, minor and patch numbers, then by the pre-release tag, then by the
/// build metadata. The result is the one that `semver_greater` names. Where
/// the three numbers differ they alone decide; versions that agree in every
/// part are not greater than one another.
#[verifier::external_body]
fn semver_is_greater(left: &Version, right: &Version) -> (r: bool)
    ensures
        r == semver_greater(left@, right@),
        !numbers_equal(left@, right@) ==> r == numbers_greater(left@, right@),
        left@ == right@ ==> !r,
{
    let l = semver::Version {
        major: left.major,
        minor: left.minor,
        patch: left.patch,
        pre: semver::Prerelease::new(&left.pre).unwrap_or_default(),
        build: semver::BuildMetadata::new(&left.build).unwrap_or_default(),
    };
    let r = semver::Version {
        major: right.major,
        minor: right.minor,
        patch: right.patch,
        pre: semver::Prerelease::new(&right.pre).unwrap_or_default(),
        build: semver::BuildMetadata::new(&right.build).unwrap_or_default(),
    };
    l > r
}

impl Version {
    /// A release version: the three numbers, no pre-release tag, no build
    /// metadata.
    pub fn new(major: u64, minor: u64, patch: u64) -> (r: Version)
        ensures
            r@ == (major, minor, patch, Seq::<char>::empty(), Seq::<char>::empty()),
    {
        Version { major, minor, patch, pre: String::new(), build: String::new() }
    }

    /// Reads a version from its text. Fails with the parser's message where
    /// the text is no semantic version.
    pub fn parse(text: &str) -> (r: Result<Version, String>)
        ensures
            match r {
                Ok(v) => semver_parse(text@) == Ok::<VersionParts, Seq<char>>(v@),
                Err(e) => semver_parse(text@) == Err::<VersionParts, Seq<char>>(e@),
            },
    {
        semver_parse_text(text)
    }

    /// Whether this version is strictly newer than `other`.
    pub fn newer_than(&self, other: &Version) -> (r: bool)
        ensures
            r == semver_greater(self@, other@),
            !numbers_equal(self@, other@) ==> r == numbers_greater(self@, other@),
            self@ == other@ ==> !r,
    {
        semver_is_greater(self, other)
    }

    /// The version as text, as it is shown to the user.
    pub fn to_text(&self) -> (r: String)
        ensures
            r@ == version_text(self@),
    {
        proof {
            reveal_strlit(".");
            reveal_strlit("-");
            reveal_strlit("+");
        }
        let mut r = decimal(self.major);
        r.append(".");
        let minor = decimal(self.minor);
        r.append(minor.as_str());
        r.append(".");
        let patch = decimal(self.patch);
        r.append(patch.as_str());
        if self.pre.as_str().unicode_len() > 0 {
            r.append("-");
            r.append(self.pre.as_str());
        }
        if self.build.as_str().unicode_len() > 0 {
            r.append("+");
            r.append(self.build.as_str());
        }
        assert(r@ =~= version_text(self@));
        r
    }
}

} // verus!
