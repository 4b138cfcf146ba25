//! The NDK's version, as its `source.properties` file states it.
use vstd::prelude::*;

use crate::text::{has_prefix, split_char, split_on, starts_with, suffix_from};

verus! {

/// What semver makes of a version string: major, minor, patch and the
/// pre-release text, or nothing when the string is no version.
pub uninterp spec fn semver_of(s: Seq<char>) -> Option<(u64, u64, u64, Seq<char>)>;

/// Relies on `semver::Version::parse` (as re-exported by `cargo_metadata`):
/// the version numbers and pre-release text it reads from `s`, or `None`
/// where it reports an error.
#[verifier::external_body]
fn parse_semver(s: &str) -> (r: Option<(u64, u64, u64, String)>)
    ensures
        match r {
            Some(v) => semver_of(s@) == Some((v.0, v.1, v.2, v.3@)),
            None => semver_of(s@) is None,
        },
{
    match cargo_metadata::semver::Version::parse(s) {
        Ok(v) => Some((v.major, v.minor, v.patch, v.pre.as_str().to_string())),
        Err(_) => None,
    }
}

/// The oldest NDK major version whose layout is supported.
pub const MIN_SUPPORTED_MAJOR: u64 = 23;

/// The key that starts the version line of `source.properties`.
pub const REVISION_PREFIX: &'static str = "Pkg.Revision = ";

/// A version of the NDK.
#[derive(Debug)]
pub struct NdkVersion {
    pub major: u64,
    pub minor: u64,
    pub patch: u64,
    /// The pre-release text (`beta1`), empty for a release.
    pub pre: String,
}

/// Why no usable version was found.
#[derive(Debug)]
pub enum VersionError {
    /// No line starts with the revision key.
    MissingRevision,
    /// The revision's value is not a version; it holds that value.
    MalformedVersion(String),
    /// The NDK is older than the layout this library knows; holds its major.
    UnsupportedVersion(u64),
}

/// The value of the first line of `lines` that starts with the revision key.
pub open spec fn revision_in(lines: Seq<Seq<char>>) -> Option<Seq<char>>
    decreases lines.len(),
{
    if lines.len() == 0 {
        None
    } else if has_prefix(lines[0], REVISION_PREFIX@) {
        Some(lines[0].subrange(REVISION_PREFIX@.len() as int, lines[0].len() as int))
    } else {
        revision_in(lines.drop_first())
    }
}

/// The revision value stated in the text of a `source.properties` file.
pub open spec fn revision_value(text: Seq<char>) -> Option<Seq<char>> {
    revision_in(split_on(text, '\n'))
}

impl NdkVersion {
    /// Whether this version holds the given numbers and pre-release text.
    pub open spec fn is(&self, v: (u64, u64, u64, Seq<char>)) -> bool {
        self.major == v.0 && self.minor == v.1 && self.patch == v.2 && self.pre@ == v.3
    }

    /// Whether the NDK's layout is one this library resolves paths in.
    pub fn is_supported(&self) -> (r: bool)
        ensures
            r == (self.major >= MIN_SUPPORTED_MAJOR),
    {
        self.major >= MIN_SUPPORTED_MAJOR
    }

    /// Refuses versions older than the supported layout.
    pub fn check_supported(&self) -> (r: Result<(), VersionError>)
        ensures
            self.major >= MIN_SUPPORTED_MAJOR ==> r is Ok,
            self.major < MIN_SUPPORTED_MAJOR ==> (r matches Err(
                VersionError::UnsupportedVersion(m),
            ) && m == self.major),
    {
        if self.is_supported() {
            Ok(())
        } else {
            Err(VersionError::UnsupportedVersion(self.major))
        }
    }
}

/// The value of the first line of a `source.properties` text that starts
/// with `Pkg.Revision = `.
pub fn find_revision(text: &str) -> (r: Option<String>)
    ensures
        match r {
            Some(v) => revision_value(text@) == Some(v@),
            None => revision_value(text@) is None,
        },
{
    let lines = split_char(text, '\n');
    let ghost all = lines@.map_values(|p: String| p@);
    let n = lines.len();
    let plen = REVISION_PREFIX.unicode_len();
    let mut j: usize = 0;
    proof {
        assert(all.subrange(0, n as int) =~= all);
    }
    while j < n
        invariant
            n == lines@.len(),
            all == lines@.map_values(|p: String| p@),
            all == split_on(text@, '\n'),
            plen == REVISION_PREFIX@.len(),
            j <= n,
            revision_in(all) == revision_in(all.subrange(j as int, n as int)),
        decreases n - j,
    {
        let line = lines[j].as_str();
        proof {
            assert(all[j as int] == line@);
        }
        if starts_with(line, REVISION_PREFIX) {
            return Some(suffix_from(line, plen));
        }
        proof {
            assert(all.subrange(j as int, n as int).drop_first() =~= all.subrange(j + 1, n as int));
        }
        j = j + 1;
    }
    None
}

/// The version for what semver read from the revision value `raw`: the
/// numbers and pre-release text, or `MalformedVersion(raw)` when it read
/// nothing.
pub fn version_from_semver(parsed: Option<(u64, u64, u64, String)>, raw: String) -> (r: Result<
    NdkVersion,
    VersionError,
>)
    ensures
        match parsed {
            Some(v) => r matches Ok(n) && n.is((v.0, v.1, v.2, v.3@)),
            None => r matches Err(VersionError::MalformedVersion(m)) && m@ == raw@,
        },
{
    match parsed {
        Some(v) => Ok(NdkVersion { major: v.0, minor: v.1, patch: v.2, pre: v.3 }),
        None => Err(VersionError::MalformedVersion(raw)),
    }
}

/// Reads the version from the text of a `source.properties` file: the value
/// of the first line that starts with `Pkg.Revision = `, read as a semantic
/// version.
pub fn parse_source_properties(text: &str) -> (r: Result<NdkVersion, VersionError>)
    ensures
        match revision_value(text@) {
            None => r matches Err(VersionError::MissingRevision),
            Some(v) => match semver_of(v) {
                Some(parsed) => r matches Ok(n) && n.is(parsed),
                None => r matches Err(VersionError::MalformedVersion(m)) && m@ == v,
            },
        },
{
    match find_revision(text) {
        Some(value) => {
            let parsed = parse_semver(value.as_str());
            version_from_semver(parsed, value)
        },
        None => Err(VersionError::MissingRevision),
    }
}

/// Whether the version semver reads from `a` is at most the one it reads
/// from `b`, in semver's ordering of `Version`.
pub uninterp spec fn semver_le(a: Seq<char>, b: Seq<char>) -> bool;

/// Relies on `semver::Version::parse` and on the `Ord` that `Version`
/// derives (major, minor, patch, pre-release, build metadata, in turn):
/// whether `a`'s version is at most `b`'s. Being a total order, it places
/// every two versions one way or the other, and chains.
#[verifier::external_body]
fn semver_at_most(a: &str, b: &str) -> (r: bool)
    requires
        semver_of(a@) is Some,
        semver_of(b@) is Some,
    ensures
        r == semver_le(a@, b@),
        !r ==> semver_le(b@, a@),
        forall|c: Seq<char>|
            r && semver_of(c) is Some && #[trigger] semver_le(c, a@) ==> semver_le(c, b@),
{
    match (cargo_metadata::semver::Version::parse(a), cargo_metadata::semver::Version::parse(b)) {
        (Ok(x), Ok(y)) => x <= y,
        _ => false,
    }
}

/// Whether `i` is the last of the entries whose names read as versions with
/// the highest version in semver's ordering.
pub open spec fn is_highest(names: Seq<Seq<char>>, i: int) -> bool {
    &&& 0 <= i < names.len()
    &&& semver_of(names[i]) is Some
    &&& forall|j: int|
        0 <= j < names.len() && j != i && #[trigger] semver_of(names[j]) is Some ==> semver_le(
            names[j],
            names[i],
        ) && (j > i ==> !semver_le(names[i], names[j]))
}

/// Of directory names, the index of the one with the highest version; where
/// several rank highest, the last of them. `None` when no name is a version.
pub fn highest_version_index(names: &Vec<String>) -> (r: Option<usize>)
    ensures
        match r {
            Some(i) => is_highest(names@.map_values(|p: String| p@), i as int),
            None => forall|j: int|
                0 <= j < names@.len() ==> #[trigger] semver_of(names@[j]@) is None,
        },
{
    let ghost all = names@.map_values(|p: String| p@);
    let n = names.len();
    let mut best: Option<usize> = None;
    let mut i: usize = 0;
    while i < n
        invariant
            n == names@.len(),
            all == names@.map_values(|p: String| p@),
            i <= n,
            best is None ==> forall|j: int| 0 <= j < i ==> #[trigger] semver_of(all[j]) is None,
            best is Some ==> best->0 < i,
            best is Some ==> semver_of(all[best->0 as int]) is Some,
            best is Some ==> forall|j: int|
                0 <= j < i && j != best->0 && #[trigger] semver_of(all[j]) is Some ==> semver_le(
                    all[j],
                    all[best->0 as int],
                ),
            best is Some ==> forall|j: int|
                best->0 < j < i && #[trigger] semver_of(all[j]) is Some ==> !semver_le(
                    all[best->0 as int],
                    all[j],
                ),
        decreases n - i,
    {
        proof {
            assert(all[i as int] == names@[i as int]@);
        }
        let parsed = parse_semver(names[i].as_str());
        if let Some(_) = parsed {
            match best {
                None => {
                    best = Some(i);
                },
                Some(b) => {
                    proof {
                        assert(all[b as int] == names@[b as int]@);
                    }
                    let take = semver_at_most(names[b].as_str(), names[i].as_str());
                    if take {
                        best = Some(i);
                    }
                },
            }
        }
        i = i + 1;
    }
    proof {
        if best is None {
            assert forall|j: int| 0 <= j < names@.len() implies #[trigger] semver_of(
                names@[j]@,
            ) is None by {
                assert(all[j] == names@[j]@);
            }
        }
    }
    best
}

} // verus!
