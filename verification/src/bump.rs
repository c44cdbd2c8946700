//! The next version: what the commits since the last release ask for, and
//! what the flags of the command put in its place.
use crate::commits::CommitModel;
use crate::config::{type_views, Increment, Type, TypeModel};
use crate::git::{item_views, Commit, RawCommit, WalkItemModel};
use crate::commits::ParseError;
use crate::releases::VersionAndTag;
use crate::text::decimal;
use crate::versions::{counter, prerelease_text, SemVer, SemVerModel};
use semver::Prerelease;
use vstd::prelude::*;
use vstd::string::StringExecFns;

verus! {

/// What kind of step the next version is.
#[derive(Debug, Clone, Copy, PartialEq, Eq, Structural)]
pub enum Label {
    /// The major number rises.
    Major,
    /// The minor number rises.
    Minor,
    /// The patch number rises.
    Patch,
    /// The numbers stay; a pre-release becomes the release.
    Release,
    /// A pre-release.
    Prerelease,
}

impl Label {
    pub open spec fn text(self) -> Seq<char> {
        match self {
            Label::Major => "major"@,
            Label::Minor => "minor"@,
            Label::Patch => "patch"@,
            Label::Release => "release"@,
            Label::Prerelease => "prerelease"@,
        }
    }

    pub fn to_string(&self) -> (s: String)
        ensures
            s@ == self.text(),
    {
        match self {
            Label::Major => "major".to_owned(),
            Label::Minor => "minor".to_owned(),
            Label::Patch => "patch".to_owned(),
            Label::Release => "release".to_owned(),
            Label::Prerelease => "prerelease".to_owned(),
        }
    }
}

/// What the commits read so far ask for, and whether a breaking change has
/// ended the reading.
#[derive(Debug, Clone, Copy, PartialEq, Eq, Structural)]
pub struct Scan {
    pub major: bool,
    pub minor: bool,
    pub patch: bool,
    pub done: bool,
}

/// The index of the first of `types` with the name `ty`; the length of
/// `types` where none has it.
pub open spec fn type_index(types: Seq<TypeModel>, ty: Seq<char>, n: int) -> int
    decreases n,
{
    if n <= 0 {
        0
    } else {
        let i = type_index(types, ty, n - 1);
        if i < n - 1 || types[n - 1].ty == ty {
            i
        } else {
            n
        }
    }
}

/// What the type named `ty` does to the version: the increment of the first
/// of `types` with that name, and nothing where none has it.
pub open spec fn policy(types: Seq<TypeModel>, ty: Seq<char>) -> Increment {
    let i = type_index(types, ty, types.len() as int);
    if i < types.len() {
        types[i].increment
    } else {
        Increment::Nothing
    }
}

impl Scan {
    pub open spec fn start() -> Scan {
        Scan { major: false, minor: false, patch: false, done: false }
    }

    /// The scan after one more commit. A breaking change asks for a major
    /// version, or for a minor one as long as the major number is zero, and
    /// ends the reading. Any other commit asks for what its type is
    /// configured to, a minor increment turning into a patch as long as the
    /// major number is zero.
    pub open spec fn after(self, commit: CommitModel, types: Seq<TypeModel>, zero: bool) -> Scan {
        if self.done {
            self
        } else if commit.is_breaking() {
            if zero {
                Scan { minor: true, done: true, ..self }
            } else {
                Scan { major: true, done: true, ..self }
            }
        } else {
            match policy(types, commit.ty) {
                Increment::Major => Scan { major: true, ..self },
                Increment::Minor => if zero {
                    Scan { patch: true, ..self }
                } else {
                    Scan { minor: true, ..self }
                },
                Increment::Patch => Scan { patch: true, ..self },
                Increment::Nothing => self,
            }
        }
    }

    /// The scan after one more item of a walk: a message that is no
    /// conventional commit is passed over.
    pub open spec fn after_item(self, item: WalkItemModel, types: Seq<TypeModel>, zero: bool) -> Scan {
        match item.parsed {
            Ok(commit) => self.after(commit, types, zero),
            Err(_) => self,
        }
    }

    /// The scan after the first `n` of `items`.
    pub open spec fn upto(items: Seq<WalkItemModel>, types: Seq<TypeModel>, zero: bool, n: int) -> Scan
        decreases n,
    {
        if n <= 0 {
            Scan::start()
        } else {
            Scan::upto(items, types, zero, n - 1).after_item(items[n - 1], types, zero)
        }
    }

    /// What the scan comes to: the major number before the minor one before
    /// the patch; a release with the same numbers where nothing is asked for.
    pub open spec fn label(self) -> Label {
        if self.major {
            Label::Major
        } else if self.minor {
            Label::Minor
        } else if self.patch {
            Label::Patch
        } else {
            Label::Release
        }
    }

    pub fn resolve(&self) -> (label: Label)
        ensures
            label == self.label(),
    {
        if self.major {
            Label::Major
        } else if self.minor {
            Label::Minor
        } else if self.patch {
            Label::Patch
        } else {
            Label::Release
        }
    }
}

/// What the type named `ty` does to the version.
pub fn increment_for(types: &Vec<Type>, ty: &String) -> (increment: Increment)
    ensures
        increment == policy(type_views(types@), ty@),
{
    let ghost all = type_views(types@);
    let mut i: usize = 0;
    while i < types.len()
        invariant
            i <= types.len(),
            all == type_views(types@),
            type_index(all, ty@, i as int) == i,
        decreases types.len() - i,
    {
        assert(all[i as int] == types@[i as int]@);
        if types[i].ty == *ty {
            proof {
                lemma_type_index_stays(all, ty@, i as int, all.len() as int);
            }
            return types[i].increment;
        }
        i += 1;
    }
    Increment::Nothing
}

proof fn lemma_type_index_stays(types: Seq<TypeModel>, ty: Seq<char>, i: int, n: int)
    requires
        0 <= i < n <= types.len(),
        type_index(types, ty, i) == i,
        types[i].ty == ty,
    ensures
        type_index(types, ty, n) == i,
    decreases n - i,
{
    if n > i + 1 {
        lemma_type_index_stays(types, ty, i, n - 1);
    }
}

/// Reads one more commit into the scan.
pub fn scan_commit(scan: Scan, commit: &crate::commits::Commit, types: &Vec<Type>, zero: bool) -> (next:
    Scan)
    ensures
        next == scan.after(commit@, type_views(types@), zero),
{
    if scan.done {
        scan
    } else if commit.is_breaking() {
        if zero {
            Scan { major: scan.major, minor: true, patch: scan.patch, done: true }
        } else {
            Scan { major: true, minor: scan.minor, patch: scan.patch, done: true }
        }
    } else {
        match increment_for(types, &commit.ty) {
            Increment::Major => Scan {
                major: true,
                minor: scan.minor,
                patch: scan.patch,
                done: scan.done,
            },
            Increment::Minor => if zero {
                Scan { major: scan.major, minor: scan.minor, patch: true, done: scan.done }
            } else {
                Scan { major: scan.major, minor: true, patch: scan.patch, done: scan.done }
            },
            Increment::Patch => Scan {
                major: scan.major,
                minor: scan.minor,
                patch: true,
                done: scan.done,
            },
            Increment::Nothing => scan,
        }
    }
}

/// The short id of the first commit of `items` whose message was parsed;
/// empty where there is none.
pub open spec fn first_parsed(items: Seq<WalkItemModel>, n: int) -> Seq<char>
    decreases n,
{
    if n <= 0 {
        Seq::empty()
    } else {
        let before = first_parsed(items, n - 1);
        if items[n - 1].parsed is Ok && forall|k: int|
            0 <= k < n - 1 ==> (#[trigger] items[k]).parsed is Err {
            items[n - 1].commit.short_id@
        } else {
            before
        }
    }
}

/// The version after `last` that the label `label` stands for.
pub open spec fn stepped(last: SemVerModel, label: Label) -> SemVerModel {
    match label {
        Label::Major => SemVerModel::release(last.major + 1, 0, 0),
        Label::Minor => SemVerModel::release(last.major, last.minor + 1, 0),
        Label::Patch => SemVerModel::release(last.major, last.minor, last.patch + 1),
        _ => last,
    }
}

/// Whether the step `label` from `last` stays within `u64`.
pub open spec fn step_fits(last: SemVerModel, label: Label) -> bool {
    match label {
        Label::Major => last.major < u64::MAX,
        Label::Minor => last.minor < u64::MAX,
        Label::Patch => last.patch < u64::MAX,
        _ => true,
    }
}

/// The version `version` as the next pre-release named `suffix`: a release
/// becomes the first, a pre-release the one after the number it counts with.
pub open spec fn as_prerelease(version: SemVerModel, suffix: Seq<char>) -> SemVerModel {
    SemVerModel { pre: suffix + seq!['.'] + decimal(next_number(version)), ..version }
}

pub open spec fn next_number(version: SemVerModel) -> nat {
    if version.pre.len() == 0 {
        1
    } else {
        counter(version.pre) + 1
    }
}

/// The version that follows `last` when the commits since then came to
/// `label` and the pre-release `suffix` was asked for, if it is not empty.
pub open spec fn bumped(last: SemVerModel, label: Label, suffix: Seq<char>) -> SemVerModel {
    if suffix.len() > 0 {
        as_prerelease(stepped(last, label), suffix)
    } else {
        stepped(last, label)
    }
}

/// Whether `bumped` stays within `u64`.
pub open spec fn bump_fits(last: SemVerModel, label: Label, suffix: Seq<char>) -> bool {
    step_fits(last, label) && (suffix.len() > 0 ==> next_number(stepped(last, label)) <= u64::MAX)
}

/// The label that the commits `items` since the last release `last` come
/// to, under the increments of `types`.
pub open spec fn label_of(last: SemVerModel, items: Seq<WalkItemModel>, types: Seq<TypeModel>) -> Label {
    Scan::upto(items, types, last.major == 0, items.len() as int).label()
}

/// The scan of all of `items`.
pub fn scan_items(
    items: &Vec<Result<Commit<RawCommit>, (ParseError, RawCommit)>>,
    types: &Vec<Type>,
    zero: bool,
) -> (r: (Scan, String))
    ensures
        r.0 == Scan::upto(item_views(items@), type_views(types@), zero, items@.len() as int),
        r.1@ == first_parsed(item_views(items@), items@.len() as int),
{
    let ghost all = item_views(items@);
    let mut scan = Scan { major: false, minor: false, patch: false, done: false };
    let mut commit_sha: Option<String> = None;
    let mut i: usize = 0;
    while i < items.len()
        invariant
            i <= items.len(),
            all == item_views(items@),
            scan == Scan::upto(all, type_views(types@), zero, i as int),
            match commit_sha {
                Some(sha) => sha@ == first_parsed(all, i as int) && exists|k: int|
                    0 <= k < i && (#[trigger] all[k]).parsed is Ok,
                None => forall|k: int| 0 <= k < i ==> (#[trigger] all[k]).parsed is Err,
            },
        decreases items.len() - i,
    {
        assert(all[i as int] == crate::git::item_view(items@[i as int]));
        match &items[i] {
            Ok(commit) => {
                if commit_sha.is_none() {
                    commit_sha = Some(commit.commit.short_id.clone());
                }
                scan = scan_commit(scan, &commit.conventional_commit, types, zero);
            },
            Err(_) => {},
        }
        i += 1;
    }
    let sha = match commit_sha {
        Some(sha) => sha,
        None => {
            proof {
                lemma_none_parsed(all, all.len() as int);
            }
            String::new()
        },
    };
    (scan, sha)
}

proof fn lemma_none_parsed(items: Seq<WalkItemModel>, n: int)
    requires
        0 <= n <= items.len(),
        forall|k: int| 0 <= k < n ==> (#[trigger] items[k]).parsed is Err,
    ensures
        first_parsed(items, n) == Seq::<char>::empty(),
    decreases n,
{
    if n > 0 {
        lemma_none_parsed(items, n - 1);
    }
}

/// The next version after the release `last_version`, from the commits
/// `items` made since: the version, what kind of step it is, and the short id
/// of the newest of those commits, which is the first of the walk. A
/// pre-release named `prerelease` is made of the version where that name is
/// not empty.
pub fn find_bump_version(
    last_version: SemVer,
    items: &Vec<Result<Commit<RawCommit>, (ParseError, RawCommit)>>,
    types: &Vec<Type>,
    prerelease: &Prerelease,
) -> (r: (SemVer, Label, String))
    requires
        bump_fits(
            last_version@,
            label_of(last_version@, item_views(items@), type_views(types@)),
            prerelease_text(*prerelease),
        ),
    ensures
        r.1 == label_of(last_version@, item_views(items@), type_views(types@)),
        r.0@ == bumped(last_version@, r.1, prerelease_text(*prerelease)),
        r.2@ == first_parsed(item_views(items@), items@.len() as int),
{
    let mut version = last_version;
    let zero = version.major == 0;
    let (scan, commit_sha) = scan_items(items, types, zero);
    let label = scan.resolve();
    match label {
        Label::Major => {
            version.increment_major();
        },
        Label::Minor => {
            version.increment_minor();
        },
        Label::Patch => {
            version.increment_patch();
        },
        _ => {},
    }
    if !prerelease.is_empty() {
        version.increment_prerelease(prerelease, None);
    }
    (version, label, commit_sha)
}

/// What the command for the version was given.
pub struct VersionCommand {
    /// The prefix in front of the version in the name of a tag.
    pub prefix: String,
    /// Whether the prefix is printed in front of the version.
    pub print_prefix: bool,
    /// The revision that the version is asked for.
    pub rev: String,
    /// Whether the next version is asked for.
    pub bump: bool,
    /// Whether the kind of step is printed in place of the version.
    pub label: bool,
    pub major: bool,
    pub minor: bool,
    pub patch: bool,
    /// The name of the pre-release that is asked for; empty for a release.
    pub prerelease: Prerelease,
    /// The paths of which a commit has to change one to count.
    pub paths: Vec<String>,
    /// Whether the short id of a commit is printed in place of the version.
    pub commit_sha: bool,
    pub ignore_prereleases: bool,
    /// The version of the first release where nothing was released yet.
    pub initial_bump_version: Option<SemVer>,
}

/// What is known of the version once the last release is known.
pub enum VersionPlan {
    /// The version, the kind of step, and the short id of a commit.
    Known(SemVer, Label, String),
    /// The version follows from the commits since the release.
    FromHistory(VersionAndTag),
}

pub struct Flags {
    pub bump: bool,
    pub major: bool,
    pub minor: bool,
    pub patch: bool,
    pub suffix: Seq<char>,
}

impl VersionCommand {
    pub open spec fn flags(&self) -> Flags {
        Flags {
            bump: self.bump,
            major: self.major,
            minor: self.minor,
            patch: self.patch,
            suffix: prerelease_text(self.prerelease),
        }
    }
}

/// The kind of step that a first release with the version `initial` is: by
/// the last of its three numbers that is not zero.
pub open spec fn first_label(initial: SemVerModel) -> Label {
    if initial.minor == 0 && initial.patch == 0 {
        Label::Major
    } else if initial.patch == 0 {
        Label::Minor
    } else {
        Label::Patch
    }
}

/// The version and the kind of step where nothing was released yet. Asked to
/// bump, it is the version `initial`, or its first pre-release. Else it is
/// the first patch, minor or major version, as the flags ask, and `0.0.0`
/// where they ask for nothing.
pub open spec fn first_version(flags: Flags, initial: SemVerModel) -> (SemVerModel, Label) {
    if flags.bump {
        if flags.suffix.len() == 0 {
            (initial, first_label(initial))
        } else {
            (as_prerelease(initial, flags.suffix), Label::Prerelease)
        }
    } else if flags.patch {
        (SemVerModel::release(0, 0, 1), Label::Patch)
    } else if flags.minor {
        (SemVerModel::release(0, 1, 0), Label::Minor)
    } else if flags.major {
        (SemVerModel::release(1, 0, 0), Label::Major)
    } else {
        (SemVerModel::release(0, 0, 0), Label::Patch)
    }
}

/// The version and the kind of step after the release `last`, as far as the
/// flags alone decide it; none where the commits since the release decide.
/// A flag for one of the three numbers goes before everything else. Asked to
/// bump a pre-release, it becomes the release, or the next pre-release where
/// one is asked for. Asked for nothing, the version is that of the release.
pub open spec fn next_version(flags: Flags, last: SemVerModel) -> Option<(SemVerModel, Label)> {
    if flags.major {
        Some((stepped(last, Label::Major), Label::Major))
    } else if flags.minor {
        Some((stepped(last, Label::Minor), Label::Minor))
    } else if flags.patch {
        Some((stepped(last, Label::Patch), Label::Patch))
    } else if flags.bump {
        if last.is_prerelease() {
            if flags.suffix.len() == 0 {
                Some(
                    (
                        SemVerModel { pre: Seq::empty(), build: Seq::empty(), ..last },
                        Label::Release,
                    ),
                )
            } else {
                Some((as_prerelease(last, flags.suffix), Label::Prerelease))
            }
        } else {
            None
        }
    } else {
        Some((last, Label::Release))
    }
}

/// Whether `next_version` stays within `u64`.
pub open spec fn next_fits(flags: Flags, last: SemVerModel) -> bool {
    if flags.major {
        last.major < u64::MAX
    } else if flags.minor {
        last.minor < u64::MAX
    } else if flags.patch {
        last.patch < u64::MAX
    } else if flags.bump && last.is_prerelease() && flags.suffix.len() > 0 {
        next_number(last) <= u64::MAX
    } else {
        true
    }
}

pub open spec fn plan_view(plan: VersionPlan) -> Option<(SemVerModel, Label, Seq<char>)> {
    match plan {
        VersionPlan::Known(version, label, sha) => Some((version@, label, sha@)),
        VersionPlan::FromHistory(_) => None,
    }
}

impl VersionCommand {
    /// The version where nothing was released yet, with the short id
    /// `rev_short_id` of the commit that the version is asked for.
    pub fn first_version(&self, initial_bump_version: SemVer, rev_short_id: String) -> (r: (
        SemVer,
        Label,
        String,
    ))
        requires
            self.bump && prerelease_text(self.prerelease).len() > 0 ==> next_number(
                initial_bump_version@,
            ) <= u64::MAX,
        ensures
            (r.0@, r.1) == first_version(self.flags(), initial_bump_version@),
            r.2 == rev_short_id,
    {
        let mut initial = initial_bump_version;
        if self.bump {
            if self.prerelease.is_empty() {
                let label = if initial.minor == 0 && initial.patch == 0 {
                    Label::Major
                } else if initial.patch == 0 {
                    Label::Minor
                } else {
                    Label::Patch
                };
                (initial, label, rev_short_id)
            } else {
                initial.increment_prerelease(&self.prerelease, None);
                (initial, Label::Prerelease, rev_short_id)
            }
        } else if self.patch {
            (SemVer::new(0, 0, 1), Label::Patch, rev_short_id)
        } else if self.minor {
            (SemVer::new(0, 1, 0), Label::Minor, rev_short_id)
        } else if self.major {
            (SemVer::new(1, 0, 0), Label::Major, rev_short_id)
        } else {
            (SemVer::new(0, 0, 0), Label::Patch, rev_short_id)
        }
    }

    /// What is known of the version once the last release is known: with
    /// none, the first version; with one, the version that the flags decide,
    /// together with the short id of the commit of that release, or the word
    /// that the commits since the release decide.
    pub fn get_version(
        &self,
        last_version: Option<VersionAndTag>,
        initial_bump_version: SemVer,
        rev_short_id: String,
    ) -> (plan: VersionPlan)
        requires
            match last_version {
                Some(last) => next_fits(self.flags(), last@.version),
                None => self.bump && prerelease_text(self.prerelease).len() > 0 ==> next_number(
                    initial_bump_version@,
                ) <= u64::MAX,
            },
        ensures
            match last_version {
                None => plan_view(plan) == Some(
                    (
                        first_version(self.flags(), initial_bump_version@).0,
                        first_version(self.flags(), initial_bump_version@).1,
                        rev_short_id@,
                    ),
                ),
                Some(last) => match next_version(self.flags(), last@.version) {
                    Some((version, label)) => plan_view(plan) == Some(
                        (version, label, last.commit.short_id@),
                    ),
                    None => plan matches VersionPlan::FromHistory(from) && from@ == last@,
                },
            },
    {
        match last_version {
            None => {
                let (version, label, sha) = self.first_version(initial_bump_version, rev_short_id);
                VersionPlan::Known(version, label, sha)
            },
            Some(last) => {
                let sha = last.commit.short_id.clone();
                let mut version = last.version.clone();
                if self.major {
                    version.increment_major();
                    VersionPlan::Known(version, Label::Major, sha)
                } else if self.minor {
                    version.increment_minor();
                    VersionPlan::Known(version, Label::Minor, sha)
                } else if self.patch {
                    version.increment_patch();
                    VersionPlan::Known(version, Label::Patch, sha)
                } else if self.bump {
                    if version.is_prerelease() {
                        if self.prerelease.is_empty() {
                            version.pre_clear();
                            version.build_clear();
                            VersionPlan::Known(version, Label::Release, sha)
                        } else {
                            version.increment_prerelease(&self.prerelease, None);
                            VersionPlan::Known(version, Label::Prerelease, sha)
                        }
                    } else {
                        VersionPlan::FromHistory(last)
                    }
                } else {
                    VersionPlan::Known(version, Label::Release, sha)
                }
            },
        }
    }

    /// What the command prints: the kind of step, the short id of the
    /// commit, or the version, with the prefix in front where that is asked
    /// for.
    pub open spec fn printed(&self, version: SemVerModel, label: Label, sha: Seq<char>) -> Seq<char> {
        if self.label {
            label.text()
        } else if self.commit_sha {
            sha
        } else if self.print_prefix {
            self.prefix@ + version.text()
        } else {
            version.text()
        }
    }

    pub fn output(&self, version: &SemVer, label: Label, commit_sha: &String) -> (s: String)
        ensures
            s@ == self.printed(version@, label, commit_sha@),
    {
        if self.label {
            label.to_string()
        } else if self.commit_sha {
            commit_sha.clone()
        } else if self.print_prefix {
            self.prefix.clone().concat(version.to_string().as_str())
        } else {
            version.to_string()
        }
    }
}

/// Whether none of `items` asks for a step: none is breaking and none has a
/// type with an increment.
pub open spec fn nothing_qualifies(items: Seq<WalkItemModel>, types: Seq<TypeModel>) -> bool {
    forall|k: int|
        0 <= k < items.len() ==> match (#[trigger] items[k]).parsed {
            Ok(commit) => !commit.is_breaking() && policy(types, commit.ty) == Increment::Nothing,
            Err(_) => true,
        }
}

proof fn lemma_nothing_scanned(items: Seq<WalkItemModel>, types: Seq<TypeModel>, zero: bool, n: int)
    requires
        nothing_qualifies(items, types),
        0 <= n <= items.len(),
    ensures
        Scan::upto(items, types, zero, n) == Scan::start(),
    decreases n,
{
    if n > 0 {
        lemma_nothing_scanned(items, types, zero, n - 1);
        let item = items[n - 1];
    }
}

/// Bumping where no commit since the release asks for a step gives a release
/// with the same three numbers: the version of the release itself, or, of a
/// pre-release, the version without its pre-release and build metadata.
pub proof fn law_bump_without_commits(
    flags: Flags,
    last: SemVerModel,
    items: Seq<WalkItemModel>,
    types: Seq<TypeModel>,
)
    requires
        flags.bump && !flags.major && !flags.minor && !flags.patch,
        flags.suffix.len() == 0,
        nothing_qualifies(items, types),
    ensures
        label_of(last, items, types) == Label::Release,
        bumped(last, label_of(last, items, types), flags.suffix) == last,
        last.is_prerelease() ==> next_version(flags, last) == Some(
            (SemVerModel::release(last.major, last.minor, last.patch), Label::Release),
        ),
        !last.is_prerelease() ==> next_version(flags, last) is None,
{
    lemma_nothing_scanned(items, types, last.major == 0, items.len() as int);
    if last.is_prerelease() {
        assert(SemVerModel { pre: Seq::empty(), build: Seq::empty(), ..last }
            == SemVerModel::release(last.major, last.minor, last.patch));
    }
}

/// Whether `b` is the index of the first breaking commit of `items`, and no
/// commit before it has a type whose increment is a major one.
pub open spec fn first_breaking_at(items: Seq<WalkItemModel>, types: Seq<TypeModel>, b: int) -> bool {
    &&& 0 <= b < items.len()
    &&& items[b].parsed is Ok
    &&& items[b].parsed->Ok_0.is_breaking()
    &&& forall|k: int|
        0 <= k < b ==> match (#[trigger] items[k]).parsed {
            Ok(commit) => !commit.is_breaking() && policy(types, commit.ty) != Increment::Major,
            Err(_) => true,
        }
}

proof fn lemma_scan_before_breaking(
    items: Seq<WalkItemModel>,
    types: Seq<TypeModel>,
    zero: bool,
    b: int,
    n: int,
)
    requires
        first_breaking_at(items, types, b),
        0 <= n <= b,
    ensures
        !Scan::upto(items, types, zero, n).done,
        !Scan::upto(items, types, zero, n).major,
        zero ==> !Scan::upto(items, types, zero, n).minor,
    decreases n,
{
    if n > 0 {
        lemma_scan_before_breaking(items, types, zero, b, n - 1);
        let item = items[n - 1];
    }
}

proof fn lemma_scan_after_breaking(
    items: Seq<WalkItemModel>,
    types: Seq<TypeModel>,
    zero: bool,
    b: int,
    n: int,
)
    requires
        first_breaking_at(items, types, b),
        b < n <= items.len(),
    ensures
        Scan::upto(items, types, zero, n).done,
        Scan::upto(items, types, zero, n).major == !zero,
        Scan::upto(items, types, zero, n).minor || !zero,
    decreases n,
{
    if n == b + 1 {
        lemma_scan_before_breaking(items, types, zero, b, b);
    } else {
        lemma_scan_after_breaking(items, types, zero, b, n - 1);
    }
}

/// A breaking change since a release with the major number zero makes the
/// next version a minor one, and since any other release a major one. This
/// is said of commits of which none before the breaking change has a type
/// that is configured to a major increment.
pub proof fn law_breaking_change(
    last: SemVerModel,
    items: Seq<WalkItemModel>,
    types: Seq<TypeModel>,
    b: int,
)
    requires
        first_breaking_at(items, types, b),
    ensures
        last.major == 0 ==> label_of(last, items, types) == Label::Minor,
        last.major >= 1 ==> label_of(last, items, types) == Label::Major,
{
    lemma_scan_after_breaking(items, types, last.major == 0, b, items.len() as int);
}

/// Whether the number that the next pre-release of `version` counts with
/// stays within `u64`.
pub fn counts_on(version: &SemVer) -> (r: bool)
    ensures
        r == (next_number(version@) <= u64::MAX),
{
    if version.pre.is_empty() {
        true
    } else {
        let pre = crate::text::chars_of(version.pre.as_str());
        let dot = crate::text::find_from(&pre, 0, '.');
        assert(pre@.skip(0) == pre@);
        if dot < pre.len() {
            match crate::text::parse_u64(&pre, dot + 1) {
                Some(n) => n < u64::MAX,
                None => true,
            }
        } else {
            true
        }
    }
}

/// Whether the step `label` from `last` stays within `u64`.
pub fn step_fits_for(last: &SemVer, label: Label) -> (r: bool)
    ensures
        r == step_fits(last@, label),
{
    match label {
        Label::Major => last.major < u64::MAX,
        Label::Minor => last.minor < u64::MAX,
        Label::Patch => last.patch < u64::MAX,
        _ => true,
    }
}

/// Whether the next version after `last_version` from the commits `items`
/// stays within `u64`, so that `find_bump_version` can be asked for it.
pub fn bump_fits_for(
    last_version: &SemVer,
    items: &Vec<Result<Commit<RawCommit>, (ParseError, RawCommit)>>,
    types: &Vec<Type>,
    prerelease: &Prerelease,
) -> (r: bool)
    ensures
        r == bump_fits(
            last_version@,
            label_of(last_version@, item_views(items@), type_views(types@)),
            prerelease_text(*prerelease),
        ),
{
    let (scan, _) = scan_items(items, types, last_version.major == 0);
    let label = scan.resolve();
    if !step_fits_for(last_version, label) {
        return false;
    }
    if prerelease.is_empty() {
        return true;
    }
    match label {
        Label::Major | Label::Minor | Label::Patch => true,
        _ => counts_on(last_version),
    }
}

/// Whether the version that the flags of `cmd` decide stays within `u64`,
/// so that `get_version` can be asked for it.
pub fn plan_fits(cmd: &VersionCommand, last_version: &Option<VersionAndTag>, initial: &SemVer) -> (r:
    bool)
    ensures
        r == match last_version {
            Some(last) => next_fits(cmd.flags(), last@.version),
            None => cmd.bump && prerelease_text(cmd.prerelease).len() > 0 ==> next_number(
                initial@,
            ) <= u64::MAX,
        },
{
    match last_version {
        Some(last) => {
            if cmd.major {
                last.version.major < u64::MAX
            } else if cmd.minor {
                last.version.minor < u64::MAX
            } else if cmd.patch {
                last.version.patch < u64::MAX
            } else if cmd.bump && last.version.is_prerelease() && !cmd.prerelease.is_empty() {
                counts_on(&last.version)
            } else {
                true
            }
        },
        None => !(cmd.bump && !cmd.prerelease.is_empty()) || counts_on(initial),
    }
}

} // verus!
