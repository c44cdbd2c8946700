//! Release tags: the index of the tags that name a version, the last release
//! before a commit, and the releases that came before another.
use crate::git::RawCommit;
use crate::text::{chars_of, has_prefix, holds, slice, starts_with, string_of, string_views};
use crate::versions::{version_of, SemVer, SemVerModel};
use vstd::prelude::*;

verus! {

/// A tag of the repository with the commit it points at.
#[derive(Debug, PartialEq, Eq)]
pub struct TagRef {
    pub name: String,
    pub commit: RawCommit,
}

/// A release: a tag, the version that its name stands for, and the commit it
/// points at.
#[derive(Debug, PartialEq, Eq)]
pub struct VersionAndTag {
    pub tag: String,
    pub version: SemVer,
    pub commit: RawCommit,
}

pub struct ReleaseModel {
    pub tag: Seq<char>,
    pub version: SemVerModel,
    pub commit: RawCommit,
}

impl View for VersionAndTag {
    type V = ReleaseModel;

    open spec fn view(&self) -> ReleaseModel {
        ReleaseModel { tag: self.tag@, version: self.version@, commit: self.commit }
    }
}

impl Clone for VersionAndTag {
    fn clone(&self) -> (r: VersionAndTag)
        ensures
            r@ == self@,
    {
        VersionAndTag {
            tag: self.tag.clone(),
            version: self.version.clone(),
            commit: self.commit.clone(),
        }
    }
}

pub open spec fn release_views(v: Seq<VersionAndTag>) -> Seq<ReleaseModel> {
    v.map_values(|r: VersionAndTag| r@)
}

pub open spec fn release_view(o: Option<VersionAndTag>) -> Option<ReleaseModel> {
    match o {
        Some(r) => Some(r@),
        None => None,
    }
}

/// The release that the tag `tag` stands for under the prefix `prefix`: its
/// name begins with the prefix, and what follows is a version.
pub open spec fn release_of(prefix: Seq<char>, tag: TagRef) -> Option<ReleaseModel> {
    if has_prefix(tag.name@, prefix) {
        match version_of(tag.name@.skip(prefix.len() as int)) {
            Some(version) => Some(ReleaseModel { tag: tag.name@, version, commit: tag.commit }),
            None => None,
        }
    } else {
        None
    }
}

/// Where `x` goes into the list `list`, which runs from the newest version
/// to the oldest: in front of the first release that comes before it.
pub open spec fn place(list: Seq<ReleaseModel>, x: SemVerModel, n: int) -> int
    decreases n,
{
    if n <= 0 {
        0
    } else {
        let p = place(list, x, n - 1);
        if p < n - 1 || list[n - 1].version.before(x) {
            p
        } else {
            n
        }
    }
}

pub proof fn lemma_place(list: Seq<ReleaseModel>, x: SemVerModel, n: int)
    requires
        0 <= n <= list.len(),
    ensures
        0 <= place(list, x, n) <= n,
        forall|k: int| 0 <= k < place(list, x, n) ==> !(#[trigger] list[k]).version.before(x),
        place(list, x, n) < n ==> list[place(list, x, n)].version.before(x),
    decreases n,
{
    if n > 0 {
        lemma_place(list, x, n - 1);
    }
}

/// The releases among the first `n` of `tags`, from the newest version to
/// the oldest. Of two with the same precedence the one that came first in
/// `tags` stands first.
pub open spec fn index_upto(prefix: Seq<char>, tags: Seq<TagRef>, n: int) -> Seq<ReleaseModel>
    decreases n,
{
    if n <= 0 {
        Seq::empty()
    } else {
        let before = index_upto(prefix, tags, n - 1);
        match release_of(prefix, tags[n - 1]) {
            Some(r) => before.insert(place(before, r.version, before.len() as int), r),
            None => before,
        }
    }
}

/// Whether the three numbers of the versions in `list` never rise.
pub open spec fn descending(list: Seq<ReleaseModel>) -> bool {
    forall|i: int, j: int|
        0 <= i < j < list.len() ==> !(#[trigger] list[i]).version.numbers_before(
            (#[trigger] list[j]).version,
        )
}

/// Reads `name` as a tag under `prefix`.
fn read_tag(prefix: &Vec<char>, tag: &TagRef) -> (r: Option<VersionAndTag>)
    ensures
        release_view(r) == release_of(prefix@, *tag),
{
    let name = chars_of(tag.name.as_str());
    if !starts_with(&name, prefix) {
        return None;
    }
    let rest = slice(&name, prefix.len(), name.len());
    assert(name@.skip(prefix.len() as int) == name@.subrange(
        prefix.len() as int,
        name.len() as int,
    ));
    let text = string_of(&rest);
    match SemVer::parse(text.as_str()) {
        Some(version) => Some(
            VersionAndTag { tag: tag.name.clone(), version, commit: tag.commit.clone() },
        ),
        None => None,
    }
}

/// The tags under `prefix` that name a version, from the newest version to
/// the oldest.
pub fn semver_tags(prefix: &str, tags: &Vec<TagRef>) -> (index: Vec<VersionAndTag>)
    ensures
        release_views(index@) == index_upto(prefix@, tags@, tags@.len() as int),
        descending(release_views(index@)),
{
    let prefix_chars = chars_of(prefix);
    let mut index: Vec<VersionAndTag> = Vec::new();
    let mut i: usize = 0;
    assert(release_views(index@) == index_upto(prefix@, tags@, 0));
    while i < tags.len()
        invariant
            i <= tags.len(),
            prefix_chars@ == prefix@,
            release_views(index@) == index_upto(prefix@, tags@, i as int),
            descending(release_views(index@)),
        decreases tags.len() - i,
    {
        match read_tag(&prefix_chars, &tags[i]) {
            Some(release) => {
                let ghost list = release_views(index@);
                let ghost prior = index@;
                let mut p: usize = 0;
                while p < index.len() && !index[p].version.precedes(&release.version)
                    invariant
                        p <= index.len(),
                        list == release_views(index@),
                        place(list, release@.version, p as int) == p,
                    decreases index.len() - p,
                {
                    assert(list[p as int] == index@[p as int]@);
                    p += 1;
                }
                proof {
                    if p < index.len() {
                        assert(list[p as int] == index@[p as int]@);
                    }
                    lemma_place_stays(list, release@.version, p as int, list.len() as int);
                    lemma_place(list, release@.version, list.len() as int);
                    lemma_insert_descending(list, release@, p as int);
                }
                index.insert(p, release);
                assert(release_views(index@) == list.insert(p as int, release@));
            },
            None => {},
        }
        i += 1;
    }
    index
}

proof fn lemma_place_stays(list: Seq<ReleaseModel>, x: SemVerModel, p: int, n: int)
    requires
        0 <= p <= n <= list.len(),
        place(list, x, p) == p,
        p < list.len() ==> list[p].version.before(x),
    ensures
        place(list, x, n) == p,
    decreases n - p,
{
    if n > p {
        lemma_place_stays(list, x, p, n - 1);
    }
}

proof fn lemma_insert_descending(list: Seq<ReleaseModel>, x: ReleaseModel, p: int)
    requires
        descending(list),
        0 <= p <= list.len(),
        forall|k: int| 0 <= k < p ==> !(#[trigger] list[k]).version.before(x.version),
        p < list.len() ==> list[p].version.before(x.version),
    ensures
        descending(list.insert(p, x)),
{
    let out = list.insert(p, x);
    assert forall|i: int, j: int| 0 <= i < j < out.len() implies !(#[trigger] out[i]).version.numbers_before(
        (#[trigger] out[j]).version,
    ) by {
        if j < p {
            assert(out[i] == list[i] && out[j] == list[j]);
        } else if j == p {
            assert(out[i] == list[i]);
        } else if i == p {
            assert(out[j] == list[j - 1]);
            if j - 1 > p {
                assert(!list[p].version.numbers_before(list[j - 1].version));
            }
        } else if i < p {
            assert(out[i] == list[i] && out[j] == list[j - 1]);
        } else {
            assert(out[i] == list[i - 1] && out[j] == list[j - 1]);
        }
    }
}

/// Whether the release `r` can be the last release before a commit whose
/// ancestors, itself among them, have the ids `ancestors`: its tag points at
/// one of them, and it is no pre-release where those are ignored.
pub open spec fn is_candidate(
    r: ReleaseModel,
    ancestors: Seq<Seq<char>>,
    ignore_prereleases: bool,
) -> bool {
    ancestors.contains(r.commit.id@) && !(ignore_prereleases && r.version.is_prerelease())
}

/// The index of the last release among the first `n` of `all`: the candidate
/// with the greatest version, and of several with the same precedence the
/// first.
pub open spec fn last_upto(
    all: Seq<ReleaseModel>,
    ancestors: Seq<Seq<char>>,
    ignore_prereleases: bool,
    n: int,
) -> Option<int>
    decreases n,
{
    if n <= 0 {
        None
    } else {
        let best = last_upto(all, ancestors, ignore_prereleases, n - 1);
        if is_candidate(all[n - 1], ancestors, ignore_prereleases) && (best is None
            || all[best->0].version.before(all[n - 1].version)) {
            Some(n - 1)
        } else {
            best
        }
    }
}

/// The last release among the first `n` of `all` is a candidate, there is one
/// wherever there is a candidate, and no candidate has greater numbers.
pub proof fn lemma_last_upto(
    all: Seq<ReleaseModel>,
    ancestors: Seq<Seq<char>>,
    ignore_prereleases: bool,
    n: int,
)
    requires
        0 <= n <= all.len(),
    ensures
        match last_upto(all, ancestors, ignore_prereleases, n) {
            Some(best) => {
                &&& 0 <= best < n
                &&& is_candidate(all[best], ancestors, ignore_prereleases)
                &&& forall|k: int|
                    0 <= k < n && is_candidate(#[trigger] all[k], ancestors, ignore_prereleases)
                        ==> !all[best].version.numbers_before(all[k].version)
            },
            None => forall|k: int|
                0 <= k < n ==> !is_candidate(#[trigger] all[k], ancestors, ignore_prereleases),
        },
    decreases n,
{
    if n > 0 {
        lemma_last_upto(all, ancestors, ignore_prereleases, n - 1);
    }
}

/// The last release before a commit: of the releases in `all` whose tag
/// points at the commit or at one of its ancestors, the one with the greatest
/// version. `ancestors` holds the ids of the commit and of its ancestors.
/// Pre-releases take no part where `ignore_prereleases` is set. None means
/// that nothing was released yet.
pub fn find_last_version(
    ancestors: &Vec<String>,
    ignore_prereleases: bool,
    all: &Vec<VersionAndTag>,
) -> (last: Option<VersionAndTag>)
    ensures
        match last_upto(
            release_views(all@),
            string_views(ancestors@),
            ignore_prereleases,
            all@.len() as int,
        ) {
            Some(best) => release_view(last) == Some(release_views(all@)[best]),
            None => last is None,
        },
        last is None <==> forall|k: int|
            0 <= k < all@.len() ==> !is_candidate(
                #[trigger] release_views(all@)[k],
                string_views(ancestors@),
                ignore_prereleases,
            ),
        last is Some ==> is_candidate(last->0@, string_views(ancestors@), ignore_prereleases),
        last is Some ==> forall|k: int|
            0 <= k < all@.len() && is_candidate(
                #[trigger] release_views(all@)[k],
                string_views(ancestors@),
                ignore_prereleases,
            ) ==> !last->0@.version.numbers_before(release_views(all@)[k].version),
{
    let ghost list = release_views(all@);
    let ghost ids = string_views(ancestors@);
    let mut best: Option<usize> = None;
    let mut i: usize = 0;
    while i < all.len()
        invariant
            i <= all.len(),
            list == release_views(all@),
            ids == string_views(ancestors@),
            match last_upto(list, ids, ignore_prereleases, i as int) {
                Some(b) => best == Some(b as usize) && 0 <= b < i,
                None => best is None,
            },
        decreases all.len() - i,
    {
        proof {
            lemma_last_upto(list, ids, ignore_prereleases, i as int);
        }
        assert(list[i as int] == all@[i as int]@);
        let release = &all[i];
        if holds(ancestors, &release.commit.id) && !(ignore_prereleases
            && release.version.is_prerelease()) {
            let better = match best {
                None => true,
                Some(b) => {
                    assert(list[b as int] == all@[b as int]@);
                    all[b].version.precedes(&release.version)
                },
            };
            if better {
                best = Some(i);
            }
        }
        i += 1;
    }
    proof {
        lemma_last_upto(list, ids, ignore_prereleases, all@.len() as int);
    }
    match best {
        Some(b) => {
            assert(list[b as int] == all@[b as int]@);
            Some(all[b].clone())
        },
        None => None,
    }
}

/// Whether the release `r` is one that came before the version `release`: it
/// is no pre-release, and its version comes before `release`.
pub open spec fn came_before(r: ReleaseModel, release: SemVerModel) -> bool {
    !r.version.is_prerelease() && r.version.before(release)
}

/// Whether `r` is the first of `all` with its three numbers that came before
/// `release`.
pub open spec fn first_of_its_numbers(all: Seq<ReleaseModel>, k: int, release: SemVerModel) -> bool {
    &&& 0 <= k < all.len()
    &&& came_before(all[k], release)
    &&& forall|e: int|
        0 <= e < k && came_before(#[trigger] all[e], release) ==> !all[e].version.same_numbers(
            all[k].version,
        )
}

/// Whether the three numbers of the versions in `list` rise from each to the
/// next.
pub open spec fn ascending(list: Seq<ReleaseModel>) -> bool {
    forall|i: int, j: int|
        0 <= i < j < list.len() ==> (#[trigger] list[i]).version.numbers_before(
            (#[trigger] list[j]).version,
        )
}

/// Whether some release of `out` has the three numbers of `r`.
pub open spec fn covers(out: Seq<ReleaseModel>, r: ReleaseModel) -> bool {
    exists|i: int| 0 <= i < out.len() && (#[trigger] out[i]).version.same_numbers(r.version)
}

/// Whether each release of `out` is one of `all`, the first with its three
/// numbers that came before `release`.
pub open spec fn chosen_from(
    out: Seq<ReleaseModel>,
    all: Seq<ReleaseModel>,
    release: SemVerModel,
) -> bool {
    forall|i: int| 0 <= i < out.len() ==> is_chosen(#[trigger] out[i], all, release)
}

/// Whether `r` is one of `all`, the first with its three numbers that came
/// before `release`.
pub open spec fn is_chosen(r: ReleaseModel, all: Seq<ReleaseModel>, release: SemVerModel) -> bool {
    exists|k: int| #[trigger] first_of_its_numbers(all, k, release) && all[k] == r
}

/// Whether `source` tells, for each release of `out`, which of the first `n`
/// of `all` it is.
spec fn tracks(
    out: Seq<ReleaseModel>,
    source: Seq<int>,
    all: Seq<ReleaseModel>,
    release: SemVerModel,
    n: int,
) -> bool {
    &&& source.len() == out.len()
    &&& forall|i: int|
        0 <= i < out.len() ==> 0 <= #[trigger] source[i] < n && all[source[i]] == out[i]
            && first_of_its_numbers(all, source[i], release)
}

proof fn lemma_insert_release(
    out: Seq<ReleaseModel>,
    source: Seq<int>,
    all: Seq<ReleaseModel>,
    release: SemVerModel,
    n: int,
    p: int,
)
    requires
        0 <= n < all.len(),
        0 <= p <= out.len(),
        came_before(all[n], release),
        ascending(out),
        tracks(out, source, all, release, n),
        forall|k: int| 0 <= k < n && came_before(#[trigger] all[k], release) ==> covers(out, all[k]),
        forall|i: int| 0 <= i < p ==> (#[trigger] out[i]).version.numbers_before(all[n].version),
        p < out.len() ==> !out[p].version.numbers_before(all[n].version)
            && !out[p].version.same_numbers(all[n].version),
    ensures
        ascending(out.insert(p, all[n])),
        tracks(out.insert(p, all[n]), source.insert(p, n), all, release, n + 1),
        forall|k: int|
            0 <= k < n + 1 && came_before(#[trigger] all[k], release) ==> covers(
                out.insert(p, all[n]),
                all[k],
            ),
{
    let x = all[n];
    let grown = out.insert(p, x);
    let from = source.insert(p, n);
    assert forall|i: int, j: int| 0 <= i < j < grown.len() implies (#[trigger] grown[i]).version.numbers_before(
        (#[trigger] grown[j]).version,
    ) by {
        if j < p {
            assert(grown[i] == out[i] && grown[j] == out[j]);
        } else if j == p {
            assert(grown[i] == out[i]);
        } else if i == p {
            assert(grown[j] == out[j - 1]);
            if j - 1 > p {
                assert(out[p].version.numbers_before(out[j - 1].version));
            }
        } else if i < p {
            assert(grown[i] == out[i] && grown[j] == out[j - 1]);
        } else {
            assert(grown[i] == out[i - 1] && grown[j] == out[j - 1]);
        }
    }
    assert forall|e: int| 0 <= e < n && came_before(#[trigger] all[e], release) implies !all[e].version.same_numbers(
        x.version,
    ) by {
        if all[e].version.same_numbers(x.version) {
            assert(covers(out, all[e]));
            let i = choose|i: int|
                0 <= i < out.len() && (#[trigger] out[i]).version.same_numbers(all[e].version);
            if i < p {
                assert(out[i].version.numbers_before(x.version));
            } else if i > p {
                assert(out[p].version.numbers_before(out[i].version));
            }
        }
    }
    assert forall|i: int| 0 <= i < grown.len() implies 0 <= #[trigger] from[i] < n + 1 && all[from[i]]
        == grown[i] && first_of_its_numbers(all, from[i], release) by {
        if i < p {
            assert(from[i] == source[i] && grown[i] == out[i]);
        } else if i > p {
            assert(from[i] == source[i - 1] && grown[i] == out[i - 1]);
        }
    }
    assert forall|k: int| 0 <= k < n + 1 && came_before(#[trigger] all[k], release) implies covers(
        grown,
        all[k],
    ) by {
        if k == n {
            assert(grown[p].version.same_numbers(all[k].version));
        } else {
            assert(covers(out, all[k]));
            let i = choose|i: int|
                0 <= i < out.len() && (#[trigger] out[i]).version.same_numbers(all[k].version);
            if i < p {
                assert(grown[i] == out[i]);
            } else {
                assert(grown[i + 1] == out[i]);
            }
        }
    }
}

/// The releases that came before the version `release`, from the oldest
/// version to the newest: all of `all` that are no pre-release and whose
/// version comes before `release`. Of several with the same three numbers
/// the first in `all` stands for them.
pub fn versions_from(release: &SemVer, all: &Vec<VersionAndTag>) -> (before: Vec<VersionAndTag>)
    ensures
        ascending(release_views(before@)),
        forall|i: int|
            0 <= i < before@.len() ==> came_before(
                #[trigger] release_views(before@)[i],
                release@,
            ),
        chosen_from(release_views(before@), release_views(all@), release@),
        forall|k: int|
            0 <= k < all@.len() && came_before(#[trigger] release_views(all@)[k], release@)
                ==> covers(release_views(before@), release_views(all@)[k]),
{
    let ghost list = release_views(all@);
    let mut before: Vec<VersionAndTag> = Vec::new();
    let ghost mut source: Seq<int> = Seq::empty();
    let mut n: usize = 0;
    while n < all.len()
        invariant
            n <= all.len(),
            list == release_views(all@),
            ascending(release_views(before@)),
            tracks(release_views(before@), source, list, release@, n as int),
            forall|k: int|
                0 <= k < n && came_before(#[trigger] list[k], release@) ==> covers(
                    release_views(before@),
                    list[k],
                ),
        decreases all.len() - n,
    {
        assert(list[n as int] == all@[n as int]@);
        let x = &all[n];
        let ghost out = release_views(before@);
        if !x.version.is_prerelease() && x.version.precedes(release) {
            let mut p: usize = 0;
            while p < before.len() && before[p].version.numbers_precede(&x.version)
                invariant
                    p <= before.len(),
                    out == release_views(before@),
                    forall|i: int|
                        0 <= i < p ==> (#[trigger] out[i]).version.numbers_before(x@.version),
                decreases before.len() - p,
            {
                assert(out[p as int] == before@[p as int]@);
                p += 1;
            }
            if p < before.len() {
                assert(out[p as int] == before@[p as int]@);
            }
            let same = p < before.len() && before[p].version.major == x.version.major
                && before[p].version.minor == x.version.minor && before[p].version.patch
                == x.version.patch;
            if same {
                assert(out[p as int].version.same_numbers(list[n as int].version));
                assert(covers(out, list[n as int]));
            } else {
                proof {
                    lemma_insert_release(out, source, list, release@, n as int, p as int);
                    source = source.insert(p as int, n as int);
                }
                before.insert(p, x.clone());
                assert(release_views(before@) == out.insert(p as int, x@));
            }
        }
        n += 1;
    }
    proof {
        let out = release_views(before@);
        assert forall|i: int| 0 <= i < out.len() implies came_before(#[trigger] out[i], release@) by {
            assert(list[source[i]] == out[i]);
        }
        assert forall|i: int| 0 <= i < out.len() implies is_chosen(
            #[trigger] out[i],
            list,
            release@,
        ) by {
            assert(first_of_its_numbers(list, source[i], release@) && list[source[i]] == out[i]);
        }
    }
    before
}

/// One of the three numbers of a version.
#[derive(Debug, Clone, Copy, PartialEq, Eq, Structural)]
pub enum Component {
    Major,
    Minor,
    Patch,
}

impl Component {
    pub open spec fn of(self, version: SemVerModel) -> nat {
        match self {
            Component::Major => version.major,
            Component::Minor => version.minor,
            Component::Patch => version.patch,
        }
    }

    pub fn read(self, version: &SemVer) -> (n: u64)
        ensures
            n == self.of(version@),
    {
        match self {
            Component::Major => version.major,
            Component::Minor => version.minor,
            Component::Patch => version.patch,
        }
    }
}

/// How far a list of releases has been read under a limit: how many values
/// of the component may still follow the current one, and the current value,
/// which `u64::MAX` stands for as long as none was read.
pub struct Limit {
    pub left: u64,
    pub current: u64,
}

impl Limit {
    pub open spec fn start(max_count: u64) -> Limit {
        Limit { left: max_count, current: u64::MAX }
    }

    /// The value that counts as the current one when `value` is read.
    pub open spec fn current_at(self, value: nat) -> nat {
        if self.current == u64::MAX {
            value
        } else {
            self.current as nat
        }
    }

    /// Whether a release with the value `value` ends the list: it brings a
    /// new value, and none may follow.
    pub open spec fn ends_at(self, value: nat) -> bool {
        value != self.current_at(value) && self.left <= 1
    }

    /// The limit after a release with the value `value` was taken.
    pub open spec fn after(self, value: nat) -> Limit {
        if value != self.current_at(value) {
            Limit { left: (self.left - 1) as u64, current: value as u64 }
        } else {
            Limit { left: self.left, current: value as u64 }
        }
    }
}

/// What is taken of the releases `list` from index `from` on under the limit
/// `limit` on the number of values of `component`: all up to the release
/// where one value more than allowed begins.
pub open spec fn limited(
    list: Seq<ReleaseModel>,
    component: Component,
    limit: Limit,
    from: int,
) -> Seq<ReleaseModel>
    decreases list.len() - from,
{
    if from < 0 || from >= list.len() {
        Seq::empty()
    } else {
        let value = component.of(list[from].version);
        if limit.ends_at(value) {
            Seq::empty()
        } else {
            seq![list[from]] + limited(list, component, limit.after(value), from + 1)
        }
    }
}

/// The first releases of `list`, as long as the component `component` of
/// their versions takes no more than `max_count` values one after the other.
pub fn take_max(list: &Vec<VersionAndTag>, component: Component, max_count: u64) -> (taken: Vec<
    VersionAndTag,
>)
    requires
        max_count >= 1,
    ensures
        release_views(taken@) == limited(
            release_views(list@),
            component,
            Limit::start(max_count),
            0,
        ),
{
    let ghost all = release_views(list@);
    let mut taken: Vec<VersionAndTag> = Vec::new();
    let mut limit = Limit { left: max_count, current: u64::MAX };
    let mut i: usize = 0;
    assert(release_views(taken@) + limited(all, component, limit, 0) == limited(
        all,
        component,
        Limit::start(max_count),
        0,
    ));
    while i < list.len()
        invariant
            i <= list.len(),
            all == release_views(list@),
            limit.left >= 1,
            release_views(taken@) + limited(all, component, limit, i as int) == limited(
                all,
                component,
                Limit::start(max_count),
                0,
            ),
        decreases list.len() - i,
    {
        assert(all[i as int] == list@[i as int]@);
        let ghost before = release_views(taken@);
        let ghost old_limit = limit;
        let value = component.read(&list[i].version);
        if limit.current == u64::MAX {
            limit.current = value;
        }
        if value != limit.current {
            limit.left = limit.left - 1;
            if limit.left == 0 {
                assert(old_limit.ends_at(value as nat));
                assert(before + Seq::<ReleaseModel>::empty() == before);
                return taken;
            }
            limit.current = value;
        }
        assert(limit == old_limit.after(value as nat));
        taken.push(list[i].clone());
        assert(release_views(taken@) == before.push(all[i as int]));
        assert(before + (seq![all[i as int]] + limited(all, component, limit, i + 1))
            == before.push(all[i as int]) + limited(all, component, limit, i + 1));
        i += 1;
    }
    assert(release_views(taken@) + Seq::<ReleaseModel>::empty() == release_views(taken@));
    taken
}

/// A list of versions whose three numbers rise holds no version twice, and
/// each comes before the next in the precedence of semantic versions.
pub proof fn lemma_ascending_is_strict(list: Seq<ReleaseModel>, i: int, j: int)
    requires
        ascending(list),
        0 <= i < j < list.len(),
    ensures
        list[i].version.before(list[j].version),
        list[i].version != list[j].version,
{
    assert(list[i].version.numbers_before(list[j].version));
}

} // verus!
