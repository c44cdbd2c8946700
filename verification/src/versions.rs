//! Semantic versions. The three numbers are plain fields; the pre-release and
//! the build metadata are values of the `semver` crate, which reads and
//! orders them.
use crate::text::{chars_of, decimal, find, find_from, parse_u64, parsed_u64, push_decimal, string_of, extend};
use semver::{BuildMetadata, Prerelease};
use vstd::prelude::*;

verus! {

#[verifier::external_type_specification]
#[verifier::external_body]
pub struct ExPrerelease(semver::Prerelease);

#[verifier::external_type_specification]
#[verifier::external_body]
pub struct ExBuildMetadata(semver::BuildMetadata);

#[verifier::external_type_specification]
#[verifier::external_body]
pub struct ExVersionError(semver::Error);

/// The text that a pre-release holds; empty for a release.
pub uninterp spec fn prerelease_text(pre: Prerelease) -> Seq<char>;

/// The text that build metadata holds; empty where there is none.
pub uninterp spec fn build_text(build: BuildMetadata) -> Seq<char>;

/// The version that `text` is read as: its three numbers, the text of its
/// pre-release and of its build metadata. None where `text` is no semantic
/// version.
pub uninterp spec fn version_parsed(text: Seq<char>) -> Option<
    (u64, u64, u64, Seq<char>, Seq<char>),
>;

/// Whether the pre-release with the text `a` comes before the one with the
/// text `b` in the order of semantic versions.
pub uninterp spec fn prerelease_before(a: Seq<char>, b: Seq<char>) -> bool;

/// `Prerelease::as_str`: the text of the pre-release.
pub assume_specification<'a>[ semver::Prerelease::as_str ](pre: &'a semver::Prerelease) -> (s: &'a str)
    ensures
        s@ == prerelease_text(*pre),
;

/// `Prerelease::is_empty`: whether the text of the pre-release is empty.
pub assume_specification[ semver::Prerelease::is_empty ](pre: &semver::Prerelease) -> (b: bool)
    ensures
        b == (prerelease_text(*pre).len() == 0),
;

/// `BuildMetadata::as_str`: the text of the build metadata.
pub assume_specification<'a>[ semver::BuildMetadata::as_str ](build: &'a semver::BuildMetadata) -> (s: &'a str)
    ensures
        s@ == build_text(*build),
;

/// `Prerelease::clone`: a pre-release with the same text.
pub assume_specification[ <semver::Prerelease as Clone>::clone ](pre: &semver::Prerelease) -> (r: semver::Prerelease)
    ensures
        prerelease_text(r) == prerelease_text(*pre),
;

/// `BuildMetadata::clone`: build metadata with the same text.
pub assume_specification[ <semver::BuildMetadata as Clone>::clone ](build: &semver::BuildMetadata) -> (r:
    semver::BuildMetadata)
    ensures
        build_text(r) == build_text(*build),
;

/// `Prerelease::EMPTY`: the pre-release of a release, whose text is empty.
#[verifier::external_body]
pub(crate) fn no_prerelease() -> (pre: Prerelease)
    ensures
        prerelease_text(pre).len() == 0,
{
    Prerelease::EMPTY
}

/// `BuildMetadata::EMPTY`: no build metadata, with an empty text.
#[verifier::external_body]
pub(crate) fn no_build() -> (build: BuildMetadata)
    ensures
        build_text(build).len() == 0,
{
    BuildMetadata::EMPTY
}

/// `Prerelease::new` on the text of `stem`, a dot and `number` in decimal
/// digits. With `stem` not empty that text is a pre-release again: one more
/// identifier, made of digits, without a leading zero.
#[verifier::external_body]
fn numbered(stem: &Prerelease, number: u64) -> (pre: Prerelease)
    requires
        prerelease_text(*stem).len() > 0,
    ensures
        prerelease_text(pre) == prerelease_text(*stem) + seq!['.'] + decimal(number as nat),
{
    Prerelease::new(&format!("{}.{}", stem, number)).unwrap()
}

/// The order of `Prerelease`: a release, whose text is empty, comes after
/// every pre-release and before none.
#[verifier::external_body]
fn comes_before(a: &Prerelease, b: &Prerelease) -> (r: bool)
    ensures
        r == prerelease_before(prerelease_text(*a), prerelease_text(*b)),
        prerelease_text(*a).len() == 0 ==> !r,
        prerelease_text(*a).len() > 0 && prerelease_text(*b).len() == 0 ==> r,
{
    a < b
}

/// A semantic version.
#[derive(Debug, PartialEq, Eq)]
pub struct SemVer {
    pub major: u64,
    pub minor: u64,
    pub patch: u64,
    pub pre: Prerelease,
    pub build: BuildMetadata,
}

pub struct SemVerModel {
    pub major: nat,
    pub minor: nat,
    pub patch: nat,
    pub pre: Seq<char>,
    pub build: Seq<char>,
}

impl View for SemVer {
    type V = SemVerModel;

    open spec fn view(&self) -> SemVerModel {
        SemVerModel {
            major: self.major as nat,
            minor: self.minor as nat,
            patch: self.patch as nat,
            pre: prerelease_text(self.pre),
            build: build_text(self.build),
        }
    }
}

impl Clone for SemVer {
    fn clone(&self) -> (v: SemVer)
        ensures
            v@ == self@,
    {
        SemVer {
            major: self.major,
            minor: self.minor,
            patch: self.patch,
            pre: self.pre.clone(),
            build: self.build.clone(),
        }
    }
}

pub open spec fn parsed_view(r: Result<SemVer, semver::Error>) -> Option<
    (u64, u64, u64, Seq<char>, Seq<char>),
> {
    match r {
        Ok(v) => Some((v.major, v.minor, v.patch, prerelease_text(v.pre), build_text(v.build))),
        Err(_) => None,
    }
}

/// `Version::parse`, with the fields of the version it gives moved into a
/// `SemVer`.
#[verifier::external_body]
fn parse_version(text: &str) -> (r: Result<SemVer, semver::Error>)
    ensures
        parsed_view(r) == version_parsed(text@),
{
    semver::Version::parse(text).map(
        |v| SemVer { major: v.major, minor: v.minor, patch: v.patch, pre: v.pre, build: v.build },
    )
}

/// The model of the version that `parsed` holds.
pub open spec fn model_of(parsed: (u64, u64, u64, Seq<char>, Seq<char>)) -> SemVerModel {
    SemVerModel {
        major: parsed.0 as nat,
        minor: parsed.1 as nat,
        patch: parsed.2 as nat,
        pre: parsed.3,
        build: parsed.4,
    }
}

/// The version that `text` is read as.
pub open spec fn version_of(text: Seq<char>) -> Option<SemVerModel> {
    match version_parsed(text) {
        Some(parsed) => Some(model_of(parsed)),
        None => None,
    }
}

pub open spec fn option_view(o: Option<SemVer>) -> Option<SemVerModel> {
    match o {
        Some(v) => Some(v@),
        None => None,
    }
}

/// The number that a pre-release counts with: what follows its first dot,
/// read as a number; zero where it has no dot or no number follows.
pub open spec fn counter(pre: Seq<char>) -> nat {
    let dot = find(pre, '.');
    if dot < pre.len() {
        match parsed_u64(pre.skip(dot + 1)) {
            Some(n) => n as nat,
            None => 0,
        }
    } else {
        0
    }
}

impl SemVerModel {
    pub open spec fn is_prerelease(self) -> bool {
        self.pre.len() > 0
    }

    /// The version as it is written: the three numbers with dots between
    /// them, then `-` and the pre-release, then `+` and the build metadata,
    /// each where there is one.
    pub open spec fn text(self) -> Seq<char> {
        decimal(self.major) + seq!['.'] + decimal(self.minor) + seq!['.'] + decimal(self.patch)
            + (if self.pre.len() > 0 {
            seq!['-'] + self.pre
        } else {
            Seq::empty()
        }) + (if self.build.len() > 0 {
            seq!['+'] + self.build
        } else {
            Seq::empty()
        })
    }

    /// The release with the numbers `major`, `minor` and `patch`.
    pub open spec fn release(major: nat, minor: nat, patch: nat) -> SemVerModel {
        SemVerModel { major, minor, patch, pre: Seq::empty(), build: Seq::empty() }
    }

    /// Whether the three numbers of `self` come before those of `other`.
    pub open spec fn numbers_before(self, other: SemVerModel) -> bool {
        self.major < other.major || (self.major == other.major && (self.minor < other.minor || (
        self.minor == other.minor && self.patch < other.patch)))
    }

    pub open spec fn same_numbers(self, other: SemVerModel) -> bool {
        self.major == other.major && self.minor == other.minor && self.patch == other.patch
    }

    /// The precedence of semantic versions: by the three numbers, then by the
    /// pre-release. Build metadata takes no part.
    pub open spec fn before(self, other: SemVerModel) -> bool {
        self.numbers_before(other) || (self.same_numbers(other) && prerelease_before(
            self.pre,
            other.pre,
        ))
    }
}

/// A text that is no semantic version.
#[derive(Debug, Clone, Copy, PartialEq, Eq)]
pub struct InvalidVersion;

impl SemVer {
    pub fn new(major: u64, minor: u64, patch: u64) -> (v: SemVer)
        ensures
            v@ == SemVerModel::release(major as nat, minor as nat, patch as nat),
    {
        let v = SemVer { major, minor, patch, pre: no_prerelease(), build: no_build() };
        assert(v@.pre =~= Seq::empty());
        assert(v@.build =~= Seq::empty());
        v
    }

    /// Reads `s` as a semantic version.
    pub fn from_str(s: &str) -> (r: Result<SemVer, InvalidVersion>)
        ensures
            match r {
                Ok(v) => version_of(s@) == Some(v@),
                Err(_) => version_of(s@) is None,
            },
    {
        match parse_version(s) {
            Ok(v) => Ok(v),
            Err(_) => Err(InvalidVersion),
        }
    }

    /// Reads `s` as a semantic version.
    pub fn parse(s: &str) -> (r: Option<SemVer>)
        ensures
            option_view(r) == version_of(s@),
    {
        match parse_version(s) {
            Ok(v) => Some(v),
            Err(_) => None,
        }
    }

    pub fn increment_patch(&mut self)
        requires
            old(self).patch < u64::MAX,
        ensures
            final(self)@ == SemVerModel::release(
                old(self)@.major,
                old(self)@.minor,
                old(self)@.patch + 1,
            ),
    {
        self.patch += 1;
        self.pre = no_prerelease();
        self.build = no_build();
        assert(self@.pre =~= Seq::empty());
        assert(self@.build =~= Seq::empty());
    }

    pub fn increment_minor(&mut self)
        requires
            old(self).minor < u64::MAX,
        ensures
            final(self)@ == SemVerModel::release(old(self)@.major, old(self)@.minor + 1, 0),
    {
        self.minor += 1;
        self.patch = 0;
        self.pre = no_prerelease();
        self.build = no_build();
        assert(self@.pre =~= Seq::empty());
        assert(self@.build =~= Seq::empty());
    }

    pub fn increment_major(&mut self)
        requires
            old(self).major < u64::MAX,
        ensures
            final(self)@ == SemVerModel::release(old(self)@.major + 1, 0, 0),
    {
        self.major += 1;
        self.minor = 0;
        self.patch = 0;
        self.pre = no_prerelease();
        self.build = no_build();
        assert(self@.pre =~= Seq::empty());
        assert(self@.build =~= Seq::empty());
    }

    pub fn major(&self) -> (n: u64)
        ensures
            n == self@.major,
    {
        self.major
    }

    pub fn minor(&self) -> (n: u64)
        ensures
            n == self@.minor,
    {
        self.minor
    }

    pub fn patch(&self) -> (n: u64)
        ensures
            n == self@.patch,
    {
        self.patch
    }

    pub fn is_prerelease(&self) -> (b: bool)
        ensures
            b == self@.is_prerelease(),
    {
        !self.pre.is_empty()
    }

    pub fn pre_clear(&mut self)
        ensures
            final(self)@ == (SemVerModel { pre: Seq::empty(), ..old(self)@ }),
    {
        self.pre = no_prerelease();
        assert(self@.pre =~= Seq::empty());
    }

    pub fn build_clear(&mut self)
        ensures
            final(self)@ == (SemVerModel { build: Seq::empty(), ..old(self)@ }),
    {
        self.build = no_build();
        assert(self@.build =~= Seq::empty());
    }

    /// The number that the next pre-release of this version counts with.
    pub open spec fn next_counter(self, height: Option<usize>) -> nat {
        if self@.pre.len() == 0 {
            match height {
                Some(h) => h as nat,
                None => 1,
            }
        } else {
            counter(self@.pre) + 1
        }
    }

    /// Makes the version the next pre-release named `prerelease`. A release
    /// gets the number `height`, or 1 where none is given; a pre-release gets
    /// the number after the one it counts with.
    pub fn increment_prerelease(&mut self, prerelease: &Prerelease, height: Option<usize>)
        requires
            prerelease_text(*prerelease).len() > 0,
            old(self).next_counter(height) <= u64::MAX,
        ensures
            final(self)@ == (SemVerModel {
                pre: prerelease_text(*prerelease) + seq!['.'] + decimal(
                    old(self).next_counter(height),
                ),
                ..old(self)@
            }),
    {
        if self.pre.is_empty() {
            let h: u64 = match height {
                Some(h) => h as u64,
                None => 1,
            };
            self.pre = numbered(prerelease, h);
        } else {
            let pre = chars_of(self.pre.as_str());
            let dot = find_from(&pre, 0, '.');
            assert(pre@.skip(0) == pre@);
            let number: u64 = if dot < pre.len() {
                match parse_u64(&pre, dot + 1) {
                    Some(n) => n,
                    None => 0,
                }
            } else {
                0
            };
            self.pre = numbered(prerelease, number + 1);
        }
    }

    /// Whether the three numbers of `self` come before those of `other`.
    pub fn numbers_precede(&self, other: &SemVer) -> (r: bool)
        ensures
            r == self@.numbers_before(other@),
    {
        if self.major != other.major {
            self.major < other.major
        } else if self.minor != other.minor {
            self.minor < other.minor
        } else {
            self.patch < other.patch
        }
    }

    /// Whether `self` comes before `other` in the precedence of semantic
    /// versions.
    pub fn precedes(&self, other: &SemVer) -> (r: bool)
        ensures
            r == self@.before(other@),
    {
        if self.major != other.major {
            self.major < other.major
        } else if self.minor != other.minor {
            self.minor < other.minor
        } else if self.patch != other.patch {
            self.patch < other.patch
        } else {
            comes_before(&self.pre, &other.pre)
        }
    }

    /// The version as it is written.
    pub fn to_string(&self) -> (s: String)
        ensures
            s@ == self@.text(),
    {
        let mut out: Vec<char> = Vec::new();
        push_decimal(&mut out, self.major);
        out.push('.');
        push_decimal(&mut out, self.minor);
        out.push('.');
        push_decimal(&mut out, self.patch);
        let pre = chars_of(self.pre.as_str());
        if pre.len() > 0 {
            out.push('-');
            extend(&mut out, &pre);
        }
        let build = chars_of(self.build.as_str());
        if build.len() > 0 {
            out.push('+');
            extend(&mut out, &build);
        }
        assert(out@ =~= self@.text());
        string_of(&out)
    }
}

} // verus!
