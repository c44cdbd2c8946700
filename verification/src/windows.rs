//! The windows of a changelog: from the newest commit down through the
//! releases, each window between one release and the one before it.
use crate::cli::ChangelogCommand;
use crate::config::{Config, ConfigModel};
use crate::git::RawCommit;
use crate::releases::{
    limited, release_views, take_max, Component, Limit, ReleaseModel, VersionAndTag,
};
use crate::text::{chars_of, extend, has_prefix, join, slice, string_of, string_views};
use crate::transform::Rev;
use crate::versions::{option_view, version_of, SemVer, SemVerModel};
use vstd::prelude::*;

verus! {

pub struct RevModel {
    pub commit: Option<RawCommit>,
    pub version: Option<SemVerModel>,
}

impl View for Rev {
    type V = RevModel;

    open spec fn view(&self) -> RevModel {
        RevModel { commit: self.commit, version: option_view(self.version) }
    }
}

pub open spec fn rev_views(v: Seq<Rev>) -> Seq<RevModel> {
    v.map_values(|r: Rev| r@)
}

pub open spec fn pair_views(v: Seq<(Rev, Rev)>) -> Seq<(RevModel, RevModel)> {
    v.map_values(|p: (Rev, Rev)| (p.0@, p.1@))
}

/// The configuration as the flags of the command change it.
pub open spec fn configured(cmd: ChangelogCommand, config: ConfigModel) -> ConfigModel {
    ConfigModel {
        link_references: config.link_references && !cmd.no_links,
        link_compare: config.link_compare && !cmd.no_links,
        merges: config.merges || cmd.merges,
        first_parent: config.first_parent || cmd.first_parent,
        line_length: match cmd.line_length {
            Some(n) => n,
            None => config.line_length,
        },
        wrap_disabled: config.wrap_disabled || cmd.no_wrap,
        ..config
    }
}

/// `s` without `prefix` at its start, as often as it stands there.
pub open spec fn without_prefix(s: Seq<char>, prefix: Seq<char>) -> Seq<char>
    decreases s.len(),
{
    if prefix.len() > 0 && has_prefix(s, prefix) {
        without_prefix(s.skip(prefix.len() as int), prefix)
    } else {
        s
    }
}

pub fn strip_prefix(s: &Vec<char>, prefix: &Vec<char>) -> (r: Vec<char>)
    ensures
        r@ == without_prefix(s@, prefix@),
{
    let mut from: usize = 0;
    assert(s@.skip(0) == s@);
    while prefix.len() > 0 && prefix.len() <= s.len() - from && crate::text::begins_at(
        s,
        from,
        prefix,
    )
        invariant
            from <= s.len(),
            without_prefix(s@, prefix@) == without_prefix(s@.skip(from as int), prefix@),
        decreases s.len() - from,
    {
        assert(s@.skip(from as int).skip(prefix.len() as int) == s@.skip(from + prefix.len()));
        from += prefix.len();
    }
    assert(s@.skip(from as int) == s@.subrange(from as int, s.len() as int));
    slice(s, from, s.len())
}

/// The pattern that finds references with one of the prefixes `prefixes`:
/// the prefixes as one group, with `|` between them, then the digits as
/// another.
pub open spec fn references_pattern_of(prefixes: Seq<Seq<char>>) -> Seq<char> {
    seq!['('] + join(prefixes, seq!['|']) + ")([0-9]+)"@
}

pub fn references_pattern(prefixes: &Vec<String>) -> (pattern: String)
    ensures
        pattern@ == references_pattern_of(string_views(prefixes@)),
{
    let mut parts: Vec<Vec<char>> = Vec::new();
    let mut i: usize = 0;
    while i < prefixes.len()
        invariant
            i <= prefixes.len(),
            crate::text::views(parts@) == string_views(prefixes@).take(i as int),
        decreases prefixes.len() - i,
    {
        let ghost prior = parts@;
        let part = chars_of(prefixes[i].as_str());
        parts.push(part);
        assert(crate::text::views(parts@) =~= crate::text::views(prior).push(part@));
        assert(string_views(prefixes@).take(i + 1) =~= string_views(prefixes@).take(
            i as int,
        ).push(prefixes@[i as int]@));
        i += 1;
    }
    assert(string_views(prefixes@).take(prefixes.len() as int) == string_views(prefixes@));
    let mut sep: Vec<char> = Vec::new();
    sep.push('|');
    let mut out: Vec<char> = Vec::new();
    out.push('(');
    let joined = crate::text::joined(&parts, &sep);
    extend(&mut out, &joined);
    extend(&mut out, &chars_of(")([0-9]+)"));
    assert(sep@ =~= seq!['|']);
    assert(out@ =~= references_pattern_of(string_views(prefixes@)));
    string_of(&out)
}

/// The releases `list` under the limits of the command, each of which counts
/// unless it is `u64::MAX`: first on the major numbers, then on the minor
/// ones, then on the patches.
pub open spec fn limited_by(cmd: ChangelogCommand, list: Seq<ReleaseModel>) -> Seq<ReleaseModel> {
    let majors = if cmd.max_majors != u64::MAX {
        limited(list, Component::Major, Limit::start(cmd.max_majors), 0)
    } else {
        list
    };
    let minors = if cmd.max_minors != u64::MAX {
        limited(majors, Component::Minor, Limit::start(cmd.max_minors), 0)
    } else {
        majors
    };
    if cmd.max_patches != u64::MAX {
        limited(minors, Component::Patch, Limit::start(cmd.max_patches), 0)
    } else {
        minors
    }
}

/// The newest end of the first window. Where the revision of the command
/// names a version, it is the commit of that revision as this version. Where
/// that commit is the commit of the last release, it is that release. Else
/// it is the commit, not released.
pub open spec fn newest_of(
    rev_text: Seq<char>,
    prefix: Seq<char>,
    rev: RawCommit,
    last: ReleaseModel,
) -> RevModel {
    match version_of(without_prefix(rev_text, prefix)) {
        Some(v) => RevModel { commit: Some(rev), version: Some(v) },
        None => if rev.id@ == last.commit.id@ {
            RevModel { commit: Some(last.commit), version: Some(last.version) }
        } else {
            RevModel { commit: Some(rev), version: None }
        },
    }
}

pub open spec fn release_revs(list: Seq<ReleaseModel>) -> Seq<RevModel> {
    Seq::new(
        list.len(),
        |i: int| RevModel { commit: Some(list[i].commit), version: Some(list[i].version) },
    )
}

pub open spec fn id_of(commit: Option<RawCommit>) -> Option<Seq<char>> {
    match commit {
        Some(c) => Some(c.id@),
        None => None,
    }
}

/// The ends of the windows, newest first: the newest end, unless the first
/// release is at its commit; the releases; and the commit to stop at, or
/// the root of the history where there is none, unless the last release is
/// at that commit. Without releases there is no window.
pub open spec fn ends_of(newest: RevModel, list: Seq<ReleaseModel>, stop: Option<RawCommit>) -> Seq<
    RevModel,
> {
    if list.len() == 0 {
        Seq::empty()
    } else {
        let head = if Some(list[0].commit.id@) != id_of(newest.commit) {
            seq![newest]
        } else {
            Seq::empty()
        };
        let tail = if Some(list.last().commit.id@) != id_of(stop) {
            seq![RevModel { commit: stop, version: None }]
        } else {
            Seq::empty()
        };
        head + release_revs(list) + tail
    }
}

/// The windows between the ends `ends`: each end with the one after it.
pub open spec fn windows_of(ends: Seq<RevModel>) -> Seq<(RevModel, RevModel)> {
    Seq::new(
        if ends.len() >= 1 {
            (ends.len() - 1) as nat
        } else {
            0
        },
        |i: int| (ends[i], ends[i + 1]),
    )
}

fn same_id(a: &RawCommit, b: &Option<RawCommit>) -> (r: bool)
    ensures
        r == (Some(a.id@) == id_of(*b)),
{
    match b {
        Some(c) => a.id == c.id,
        None => false,
    }
}

/// The windows between the ends `ends`.
pub fn windows(ends: &Vec<Rev>) -> (pairs: Vec<(Rev, Rev)>)
    ensures
        pair_views(pairs@) == windows_of(rev_views(ends@)),
{
    let ghost all = rev_views(ends@);
    let mut pairs: Vec<(Rev, Rev)> = Vec::new();
    if ends.len() == 0 {
        assert(pair_views(pairs@) =~= windows_of(all));
        return pairs;
    }
    let n: usize = ends.len() - 1;
    let mut i: usize = 0;
    assert(pair_views(pairs@) =~= windows_of(all).take(0));
    while i < n
        invariant
            i <= n == ends.len() - 1,
            all == rev_views(ends@),
            pair_views(pairs@) == windows_of(all).take(i as int),
        decreases n - i,
    {
        let ghost prior = pairs@;
        assert(all[i as int] == ends@[i as int]@);
        assert(all[i + 1] == ends@[i + 1]@);
        let pair = (ends[i].clone(), ends[i + 1].clone());
        pairs.push(pair);
        assert(pair_views(pairs@) =~= pair_views(prior).push((pair.0@, pair.1@)));
        assert(windows_of(all).take(i + 1) =~= windows_of(all).take(i as int).push(
            (all[i as int], all[i + 1]),
        ));
        i += 1;
    }
    assert(windows_of(all).take(n as int) =~= windows_of(all));
    pairs
}

impl ChangelogCommand {
    /// The configuration as the flags of the command change it.
    pub fn configure(&self, config: Config) -> (changed: Config)
        ensures
            changed@ == configured(*self, config@),
    {
        let mut config = config;
        if self.no_links {
            config.link_references = false;
            config.link_compare = false;
        }
        if self.merges {
            config.merges = true;
        }
        if self.first_parent {
            config.first_parent = true;
        }
        match self.line_length {
            Some(n) => {
                config.line_length = n;
            },
            None => {},
        }
        if self.no_wrap {
            config.wrap_disabled = true;
        }
        config
    }

    /// The releases under the limits of the command.
    pub fn limit(&self, list: Vec<VersionAndTag>) -> (kept: Vec<VersionAndTag>)
        requires
            self.max_majors >= 1,
            self.max_minors >= 1,
            self.max_patches >= 1,
        ensures
            release_views(kept@) == limited_by(*self, release_views(list@)),
    {
        let majors = if self.max_majors != u64::MAX {
            take_max(&list, Component::Major, self.max_majors)
        } else {
            list
        };
        let minors = if self.max_minors != u64::MAX {
            take_max(&majors, Component::Minor, self.max_minors)
        } else {
            majors
        };
        if self.max_patches != u64::MAX {
            take_max(&minors, Component::Patch, self.max_patches)
        } else {
            minors
        }
    }

    /// The newest end of the first window, for the commit `rev` that the
    /// revision of the command names and the last release `last` before it.
    pub fn newest(&self, rev: &RawCommit, last: &VersionAndTag) -> (end: Rev)
        ensures
            end@ == newest_of(self.rev@, self.prefix@, *rev, last@),
    {
        let text = strip_prefix(&chars_of(self.rev.as_str()), &chars_of(self.prefix.as_str()));
        match SemVer::parse(string_of(&text).as_str()) {
            Some(v) => Rev { commit: Some(rev.clone()), version: Some(v) },
            None => if rev.id == last.commit.id {
                Rev { commit: Some(last.commit.clone()), version: Some(last.version.clone()) }
            } else {
                Rev { commit: Some(rev.clone()), version: None }
            },
        }
    }

    /// The ends of the windows, newest first.
    pub fn ends(newest: Rev, list: &Vec<VersionAndTag>, stop: &Option<RawCommit>) -> (ends: Vec<Rev>)
        ensures
            rev_views(ends@) == ends_of(newest@, release_views(list@), *stop),
    {
        let ghost all = release_views(list@);
        let mut ends: Vec<Rev> = Vec::new();
        if list.len() == 0 {
            assert(rev_views(ends@) =~= Seq::empty());
            return ends;
        }
        assert(all[0] == list@[0]@);
        assert(all.last() == list@[list@.len() - 1]@);
        let ghost head = if Some(all[0].commit.id@) != id_of(newest@.commit) {
            seq![newest@]
        } else {
            Seq::empty()
        };
        if !same_id(&list[0].commit, &newest.commit) {
            ends.push(newest);
        }
        assert(rev_views(ends@) =~= head);
        let mut i: usize = 0;
        while i < list.len()
            invariant
                i <= list.len(),
                all == release_views(list@),
                rev_views(ends@) == head + release_revs(all).take(i as int),
            decreases list.len() - i,
        {
            let ghost prior = ends@;
            assert(all[i as int] == list@[i as int]@);
            let end = Rev {
                commit: Some(list[i].commit.clone()),
                version: Some(list[i].version.clone()),
            };
            ends.push(end);
            assert(rev_views(ends@) =~= rev_views(prior).push(end@));
            assert(head + release_revs(all).take(i + 1) =~= (head + release_revs(all).take(
                i as int,
            )).push(end@));
            i += 1;
        }
        assert(release_revs(all).take(list.len() as int) == release_revs(all));
        if !same_id(&list[list.len() - 1].commit, stop) {
            let ghost prior = ends@;
            let end = Rev {
                commit: match stop {
                    Some(c) => Some(c.clone()),
                    None => None,
                },
                version: None,
            };
            ends.push(end);
            assert(rev_views(ends@) =~= rev_views(prior).push(end@));
            assert(rev_views(ends@) =~= ends_of(newest@, all, *stop));
        } else {
            assert(rev_views(ends@) =~= ends_of(newest@, all, *stop));
        }
        ends
    }

    /// The windows of the changelog. With a last release, they lie between
    /// the ends that the releases `list` give. Where nothing was released
    /// yet, there is one window, from the commit `rev` down to the root.
    pub fn plan(
        &self,
        rev: &RawCommit,
        last: &Option<VersionAndTag>,
        list: &Vec<VersionAndTag>,
        stop: &Option<RawCommit>,
    ) -> (pairs: Vec<(Rev, Rev)>)
        ensures
            pair_views(pairs@) == match last {
                Some(l) => windows_of(
                    ends_of(
                        newest_of(self.rev@, self.prefix@, *rev, l@),
                        release_views(list@),
                        *stop,
                    ),
                ),
                None => seq![
                    (
                        RevModel { commit: Some(*rev), version: None },
                        RevModel { commit: None, version: None },
                    ),
                ],
            },
    {
        match last {
            Some(l) => {
                let newest = self.newest(rev, l);
                let ends = ChangelogCommand::ends(newest, list, stop);
                windows(&ends)
            },
            None => {
                let mut pairs: Vec<(Rev, Rev)> = Vec::new();
                let pair = (
                    Rev { commit: Some(rev.clone()), version: None },
                    Rev { commit: None, version: None },
                );
                pairs.push(pair);
                assert(pair_views(pairs@) =~= seq![(pair.0@, pair.1@)]);
                pairs
            },
        }
    }
}

} // verus!
