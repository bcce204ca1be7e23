//! Build provenance shared by the GUI, relay, and diagnostics.

use vstd::prelude::*;
use crate::text::push_str;

verus! {

/// Number of characters of the git hash shown in a version label.
pub const SHORT_HASH_LEN: usize = 12;

/// The package version this library was built as.
pub const PACKAGE_VERSION: &'static str = "0.1.0";

#[derive(Clone, Copy, Debug, PartialEq, Eq)]
pub struct BuildInfo {
    pub version: &'static str,
    pub git_hash: Option<&'static str>,
}

/// The first `SHORT_HASH_LEN` characters of `hash`, or all of it when shorter.
pub open spec fn spec_short_git_hash(hash: Seq<char>) -> Seq<char> {
    if hash.len() > SHORT_HASH_LEN { hash.take(SHORT_HASH_LEN as int) } else { hash }
}

/// `version`, followed by `+` and the short git hash when a hash is known.
pub open spec fn spec_version_label(version: Seq<char>, git_hash: Option<Seq<char>>) -> Seq<char> {
    match git_hash {
        Some(hash) => version + seq!['+'] + spec_short_git_hash(hash),
        None => version,
    }
}

/// The first `SHORT_HASH_LEN` characters of `hash`.
fn short_git_hash(hash: &str) -> (s: String)
    ensures
        s@ == spec_short_git_hash(hash@),
{
    let n = hash.unicode_len();
    if n > SHORT_HASH_LEN {
        let prefix = hash.substring_char(0, SHORT_HASH_LEN);
        String::from_str(prefix)
    } else {
        String::from_str(hash)
    }
}

/// A git hash given at build time, trimmed; none when blank.
pub open spec fn spec_normalized_git_hash(raw: Option<Seq<char>>) -> Option<Seq<char>> {
    match raw {
        Some(h) => if crate::text::spec_trim(h).len() == 0 { None } else { Some(crate::text::spec_trim(h)) },
        None => None,
    }
}

/// A git hash given at build time, trimmed; none when blank.
pub fn normalized_git_hash(raw: Option<&'static str>) -> (h: Option<&'static str>)
    ensures
        match h { Some(x) => Some(x@), None => None::<Seq<char>> } == spec_normalized_git_hash(
            match raw { Some(x) => Some(x@), None => None },
        ),
{
    match raw {
        Some(hash) => {
            let trimmed = crate::text::trim_str(hash);
            if trimmed.unicode_len() == 0 {
                None
            } else {
                Some(trimmed)
            }
        },
        None => None,
    }
}

impl BuildInfo {
    /// The build information of this library, built with `raw_git_hash` (the
    /// `TRACTOR_BEAM_GIT_HASH` of the build, if it was set): the package
    /// version and the trimmed hash, none when blank.
    pub fn current(raw_git_hash: Option<&'static str>) -> (info: BuildInfo)
        ensures
            info.version@ == PACKAGE_VERSION@,
            match info.git_hash { Some(x) => Some(x@), None => None::<Seq<char>> } == spec_normalized_git_hash(
                match raw_git_hash { Some(x) => Some(x@), None => None },
            ),
    {
        BuildInfo { version: PACKAGE_VERSION, git_hash: normalized_git_hash(raw_git_hash) }
    }

    /// The version, with `+` and the first twelve characters of the git hash
    /// appended when a hash is known.
    pub fn version_label(self) -> (label: String)
        ensures
            label@ == spec_version_label(
                self.version@,
                match self.git_hash { Some(h) => Some(h@), None => None },
            ),
    {
        match self.git_hash {
            Some(hash) => {
                let mut label = String::from_str(self.version);
                proof { reveal_strlit("+"); }
                push_str(&mut label, "+");
                let short = short_git_hash(hash);
                push_str(&mut label, short.as_str());
                label
            },
            None => String::from_str(self.version),
        }
    }
}

/// The build information of this library, built with `raw_git_hash`.
pub fn current(raw_git_hash: Option<&'static str>) -> (info: BuildInfo)
    ensures
        info.version@ == PACKAGE_VERSION@,
        match info.git_hash { Some(x) => Some(x@), None => None::<Seq<char>> } == spec_normalized_git_hash(
            match raw_git_hash { Some(x) => Some(x@), None => None },
        ),
{
    BuildInfo::current(raw_git_hash)
}

/// The version label of this library's build, built with `raw_git_hash`.
pub fn version_label(raw_git_hash: Option<&'static str>) -> (label: String)
    ensures
        label@ == spec_version_label(
            PACKAGE_VERSION@,
            spec_normalized_git_hash(match raw_git_hash { Some(x) => Some(x@), None => None }),
        ),
{
    current(raw_git_hash).version_label()
}

} // verus!
