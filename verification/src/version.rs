//! Release-tag versions, ranked by semantic-version precedence so that the
//! desktop updater and the command line agree on what is newer.

use vstd::prelude::*;
use crate::text::{chars_of, string_from_range, trim, trim_seq, str_eq, trim_start_char};

verus! {

#[verifier::external_type_specification]
#[verifier::external_body]
pub struct ExSemverVersion(semver::Version);

/// Major, minor, patch, pre-release and build metadata of a version.
pub type VersionParts = (u64, u64, u64, Seq<char>, Seq<char>);

/// What `semver::Version::parse` gives for a text, field by field; none when
/// the text is not a semantic version.
pub uninterp spec fn semver_parse(text: Seq<char>) -> Option<VersionParts>;

/// Whether `semver::Version`'s ordering puts the first version above the
/// second.
pub uninterp spec fn semver_greater(a: VersionParts, b: VersionParts) -> bool;

/// A parsed release version.
pub struct ReleaseVersion {
    major: u64,
    minor: u64,
    patch: u64,
    pre: String,
    build: String,
    version: semver::Version,
}

/// `(a0, a1, a2)` is above `(b0, b1, b2)` in lexicographic order.
pub open spec fn triple_greater(a: (u64, u64, u64), b: (u64, u64, u64)) -> bool {
    a.0 > b.0 || (a.0 == b.0 && (a.1 > b.1 || (a.1 == b.1 && a.2 > b.2)))
}

/// Semantic-version precedence as far as it is settled by the numbers and
/// by whether each side is a pre-release: the higher `major.minor.patch`
/// wins; for equal numbers a release ranks above any of its pre-releases,
/// and a version never ranks above itself. Between two pre-releases (or two
/// build tags) of the same numbers, `semver`'s ordering decides.
pub open spec fn version_greater(a: VersionParts, b: VersionParts) -> bool {
    if (a.0, a.1, a.2) != (b.0, b.1, b.2) {
        triple_greater((a.0, a.1, a.2), (b.0, b.1, b.2))
    } else if a.3.len() == 0 && b.3.len() > 0 {
        true
    } else if a.3.len() > 0 && b.3.len() == 0 {
        false
    } else if a == b {
        false
    } else {
        semver_greater(a, b)
    }
}

impl ReleaseVersion {
    pub closed spec fn parts(&self) -> VersionParts {
        (self.major, self.minor, self.patch, self.pre@, self.build@)
    }

    pub fn major(&self) -> (r: u64)
        ensures
            r == self.parts().0,
    {
        self.major
    }

    pub fn minor(&self) -> (r: u64)
        ensures
            r == self.parts().1,
    {
        self.minor
    }

    pub fn patch(&self) -> (r: u64)
        ensures
            r == self.parts().2,
    {
        self.patch
    }

    /// The pre-release identifiers, such as `beta.6`; empty for a release.
    pub fn pre(&self) -> (r: &str)
        ensures
            r@ == self.parts().3,
    {
        self.pre.as_str()
    }

    /// Whether this version ranks above `other`.
    pub fn is_newer_than(&self, other: &ReleaseVersion) -> (b: bool)
        ensures
            b == semver_greater(self.parts(), other.parts()),
            b == version_greater(self.parts(), other.parts()),
            (self.parts().0, self.parts().1, self.parts().2) != (other.parts().0, other.parts().1, other.parts().2)
                ==> b == triple_greater((self.parts().0, self.parts().1, self.parts().2), (other.parts().0, other.parts().1, other.parts().2)),
    {
        semver_gt(self, other)
    }
}

/// The parts of an optional version.
pub open spec fn opt_parts(v: Option<ReleaseVersion>) -> Option<VersionParts> {
    match v {
        Some(v) => Some(v.parts()),
        None => None,
    }
}

/// `semver::Version::parse`, with the fields of the version it gives.
#[verifier::external_body]
fn semver_parse_exec(text: &str) -> (r: Option<ReleaseVersion>)
    ensures
        opt_parts(r) == semver_parse(text@),
{
    match semver::Version::parse(text) {
        Ok(v) => Some(ReleaseVersion {
            major: v.major,
            minor: v.minor,
            patch: v.patch,
            pre: v.pre.as_str().to_string(),
            build: v.build.as_str().to_string(),
            version: v,
        }),
        Err(_) => None,
    }
}

/// `>` on `semver::Version`, whose ordering is derived field by field:
/// major, minor and patch first, then pre-release, then build metadata.
/// `Prerelease`'s ordering puts an empty pre-release (a release) above a
/// non-empty one, and equal fields compare equal, so a version is never
/// above itself. How two non-empty pre-releases compare is left to the name.
#[verifier::external_body]
fn semver_gt(a: &ReleaseVersion, b: &ReleaseVersion) -> (r: bool)
    ensures
        r == semver_greater(a.parts(), b.parts()),
        (a.parts().0, a.parts().1, a.parts().2) != (b.parts().0, b.parts().1, b.parts().2)
            ==> r == triple_greater((a.parts().0, a.parts().1, a.parts().2), (b.parts().0, b.parts().1, b.parts().2)),
        (a.parts().0, a.parts().1, a.parts().2) == (b.parts().0, b.parts().1, b.parts().2)
            && a.parts().3.len() == 0 && b.parts().3.len() > 0 ==> r,
        (a.parts().0, a.parts().1, a.parts().2) == (b.parts().0, b.parts().1, b.parts().2)
            && a.parts().3.len() > 0 && b.parts().3.len() == 0 ==> !r,
        a.parts() == b.parts() ==> !r,
{
    a.version > b.version
}

/// The text of a tag that is read as a version: trimmed, leading `v`s dropped.
pub open spec fn tag_version_text(s: Seq<char>) -> Seq<char> {
    trim_start_char(trim_seq(s), 'v')
}

/// Parse a release tag such as `v0.2.0-beta.6` into a comparable version.
pub fn parse_release_version(s: &str) -> (r: Option<ReleaseVersion>)
    ensures
        opt_parts(r) == semver_parse(tag_version_text(s@)),
{
    let t = trim(s);
    let v = chars_of(t.as_str());
    let mut start: usize = 0;
    assert(v@.subrange(0, v@.len() as int) =~= v@);
    while start < v.len() && v[start] == 'v'
        invariant
            start <= v@.len(),
            trim_start_char(v@, 'v') == trim_start_char(v@.subrange(start as int, v@.len() as int), 'v'),
        decreases v.len() - start,
    {
        assert(v@.subrange(start as int, v@.len() as int).drop_first() =~= v@.subrange(start + 1, v@.len() as int));
        start = start + 1;
    }
    let rest = string_from_range(&v, start, v.len());
    semver_parse_exec(rest.as_str())
}

/// Whether the release tagged `latest_tag` is newer than the running
/// `current` version: by version precedence when both parse, else whenever
/// the tag is not `v` followed by the current version.
pub open spec fn update_available_spec(latest_tag: Seq<char>, current: Seq<char>) -> bool {
    match (semver_parse(tag_version_text(latest_tag)), semver_parse(tag_version_text(current))) {
        (Some(l), Some(c)) => version_greater(l, c),
        _ => latest_tag != "v"@ + current,
    }
}

/// Decide whether a newer release is available.
pub fn update_available(latest_tag: &str, current: &str) -> (b: bool)
    ensures
        b == update_available_spec(latest_tag@, current@),
{
    match (parse_release_version(latest_tag), parse_release_version(current)) {
        (Some(l), Some(c)) => l.is_newer_than(&c),
        _ => {
            let mut tag = "v".to_owned();
            crate::text::string_push_str(&mut tag, current);
            !str_eq(latest_tag, tag.as_str())
        },
    }
}

/// When both tags parse as versions, an update is available exactly when
/// the latest ranks above the current one by full precedence: a higher
/// `major.minor.patch` is newer and a lower one is not; for equal numbers a
/// release is newer than any of its pre-releases, a pre-release is not newer
/// than its release, and a version is not newer than itself.
pub proof fn law_update_follows_precedence(latest_tag: Seq<char>, current: Seq<char>)
    ensures
        match (semver_parse(tag_version_text(latest_tag)), semver_parse(tag_version_text(current))) {
            (Some(l), Some(c)) => {
                &&& (l.0, l.1, l.2) != (c.0, c.1, c.2) ==> (update_available_spec(latest_tag, current)
                    == (l.0 > c.0 || (l.0 == c.0 && (l.1 > c.1 || (l.1 == c.1 && l.2 > c.2)))))
                &&& (l.0, l.1, l.2) == (c.0, c.1, c.2) && l.3.len() == 0 && c.3.len() > 0
                    ==> update_available_spec(latest_tag, current)
                &&& (l.0, l.1, l.2) == (c.0, c.1, c.2) && l.3.len() > 0 && c.3.len() == 0
                    ==> !update_available_spec(latest_tag, current)
                &&& l == c ==> !update_available_spec(latest_tag, current)
            },
            _ => update_available_spec(latest_tag, current) == (latest_tag != "v"@ + current),
        },
{
}

} // verus!
