//! The history as this library reads it: what it holds of a commit, the
//! filters of a walk, and the release tags.
use crate::commits::{Commit as ConventionalCommit, CommitModel, CommitParser, ParseError, ParseErrorModel, parse_model};
use crate::text::{chars_of, has_prefix, starts_with};
use vstd::prelude::*;

verus! {

#[verifier::external_type_specification]
#[verifier::external_body]
pub struct ExTimeError(jiff::Error);

/// A day of the calendar.
#[derive(Debug, Clone, Copy, PartialEq, Eq, Structural)]
pub struct Date {
    pub year: i16,
    pub month: i8,
    pub day: i8,
}

/// The day, as year, month and day, on which the instant `seconds` after the
/// Unix epoch falls where clocks are `offset_seconds` ahead of UTC; none where
/// either number is out of range.
pub uninterp spec fn civil_date(seconds: i64, offset_seconds: i32) -> Option<(i16, i8, i8)>;

pub open spec fn date_view(r: Result<Date, jiff::Error>) -> Option<(i16, i8, i8)> {
    match r {
        Ok(d) => Some((d.year, d.month, d.day)),
        Err(_) => None,
    }
}

/// `Timestamp::from_second`, `Offset::from_seconds`, `TimeZone::fixed`,
/// `Timestamp::to_zoned` and `Zoned::date`: the civil date of an instant at
/// a fixed offset from UTC, or the error of the first two.
#[verifier::external_body]
fn date_at(seconds: i64, offset_seconds: i32) -> (r: Result<Date, jiff::Error>)
    ensures
        date_view(r) == civil_date(seconds, offset_seconds),
{
    let instant = jiff::Timestamp::from_second(seconds)?;
    let offset = jiff::tz::Offset::from_seconds(offset_seconds)?;
    let date = instant.to_zoned(jiff::tz::TimeZone::fixed(offset)).date();
    Ok(Date { year: date.year(), month: date.month(), day: date.day() })
}

/// What the history holds of one commit.
#[derive(Debug, PartialEq, Eq)]
pub struct RawCommit {
    /// The full id, in hexadecimal digits.
    pub id: String,
    /// The id as it is abbreviated.
    pub short_id: String,
    pub message: String,
    /// The number of parents.
    pub parents: usize,
    /// When it was committed, in seconds after the Unix epoch.
    pub seconds: i64,
    /// How far the committer's clock was ahead of UTC, in seconds.
    pub offset_seconds: i32,
}

impl Clone for RawCommit {
    fn clone(&self) -> (r: RawCommit)
        ensures
            r == *self,
    {
        RawCommit {
            id: self.id.clone(),
            short_id: self.short_id.clone(),
            message: self.message.clone(),
            parents: self.parents,
            seconds: self.seconds,
            offset_seconds: self.offset_seconds,
        }
    }
}

/// A commit could not be dated.
#[derive(Debug, Clone, Copy, PartialEq, Eq)]
pub struct TimeOutOfRange;

impl RawCommit {
    pub fn short_id(&self) -> (s: String)
        ensures
            s == self.short_id,
    {
        self.short_id.clone()
    }

    pub fn id(&self) -> (s: String)
        ensures
            s == self.id,
    {
        self.id.clone()
    }

    pub fn commit_message(&self) -> (s: String)
        ensures
            s == self.message,
    {
        self.message.clone()
    }

    /// The day on which the commit was made, by the committer's clock.
    pub fn commit_date(&self) -> (r: Result<Date, TimeOutOfRange>)
        ensures
            match r {
                Ok(d) => civil_date(self.seconds, self.offset_seconds) == Some(
                    (d.year, d.month, d.day),
                ),
                Err(_) => civil_date(self.seconds, self.offset_seconds) is None,
            },
    {
        match date_at(self.seconds, self.offset_seconds) {
            Ok(d) => Ok(d),
            Err(_) => Err(TimeOutOfRange),
        }
    }
}

/// A commit of the history with the conventional commit that its message
/// was parsed into.
#[derive(Debug)]
pub struct Commit<C> {
    pub conventional_commit: ConventionalCommit,
    pub commit: C,
}

/// How the history is walked.
pub struct RevWalkOptions<'a, C> {
    /// The commits that are hidden, with their ancestors.
    pub from_rev: Vec<C>,
    /// The commit that the walk starts from.
    pub to_rev: C,
    /// Whether only first parents are followed.
    pub first_parent: bool,
    /// Whether commits with more than one parent are dropped.
    pub no_merge_commits: bool,
    /// Whether commits that revert another are dropped.
    pub no_revert_commits: bool,
    /// The paths of which a commit has to change one, if there are any.
    pub paths: Vec<String>,
    pub parser: &'a CommitParser,
}

/// The words that the message of a revert begins with.
pub open spec fn revert_marker() -> Seq<char> {
    "Revert \""@
}

/// What a walk needs to know of a commit to tell whether it is kept.
pub struct Visit {
    pub parents: nat,
    /// Whether the tree of the commit differs from that of a parent under
    /// one of the paths of the walk.
    pub changes_paths: bool,
    pub message: Seq<char>,
}

impl<'a, C> RevWalkOptions<'a, C> {
    /// Whether the walk looks at what a commit changes.
    pub open spec fn filters_paths(&self) -> bool {
        self.paths@.len() > 0
    }

    /// Whether a commit passes the filter for merges.
    pub open spec fn keeps_parents(&self, parents: nat) -> bool {
        !self.no_merge_commits || parents <= 1
    }

    /// Whether a commit passes the filter for reverts.
    pub open spec fn keeps_message(&self, message: Seq<char>) -> bool {
        !self.no_revert_commits || !has_prefix(message, revert_marker())
    }

    /// Whether the walk keeps a commit: it passes the filter for merges,
    /// then the filter for paths, then the filter for reverts.
    pub open spec fn keeps(&self, visit: Visit) -> bool {
        &&& self.keeps_parents(visit.parents)
        &&& (self.filters_paths() ==> visit.changes_paths)
        &&& self.keeps_message(visit.message)
    }

    /// Whether a commit with `parents` parents is still in the walk after the
    /// filter for merges, so that the next filter is worth asking.
    pub fn passes_merge_filter(&self, parents: usize) -> (r: bool)
        ensures
            r == self.keeps_parents(parents as nat),
    {
        !self.no_merge_commits || parents <= 1
    }

    /// Whether the walk has to find out what a commit changes.
    pub fn wants_changes(&self) -> (r: bool)
        ensures
            r == self.filters_paths(),
    {
        self.paths.len() > 0
    }

    /// Whether a commit with the message `message` passes the filter for
    /// reverts.
    pub fn passes_revert_filter(&self, message: &str) -> (r: bool)
        ensures
            r == self.keeps_message(message@),
    {
        if !self.no_revert_commits {
            return true;
        }
        let m = chars_of(message);
        let marker = chars_of("Revert \"");
        !starts_with(&m, &marker)
    }

    /// Whether the walk keeps a commit with `parents` parents and the message
    /// `message`, of which `changes_paths` says whether it changes one of
    /// the paths.
    pub fn retains(&self, parents: usize, changes_paths: bool, message: &str) -> (r: bool)
        ensures
            r == self.keeps(
                Visit { parents: parents as nat, changes_paths, message: message@ },
            ),
    {
        self.passes_merge_filter(parents) && (!self.wants_changes() || changes_paths)
            && self.passes_revert_filter(message)
    }
}

/// A commit as the history hands it to a walk, with what the history found
/// out about its changes.
pub struct Visited {
    pub commit: RawCommit,
    /// Whether the tree of the commit differs from that of a parent under
    /// one of the paths of the walk; of no account where the walk has none.
    pub changes_paths: bool,
}

impl Visited {
    pub open spec fn visit(self) -> Visit {
        Visit {
            parents: self.commit.parents as nat,
            changes_paths: self.changes_paths,
            message: self.commit.message@,
        }
    }
}

/// What a walk yields for a commit it keeps: the commit, and what its
/// message was parsed into or why it could not be.
pub struct WalkItemModel {
    pub commit: RawCommit,
    pub parsed: Result<CommitModel, ParseErrorModel>,
}

pub open spec fn item_view(item: Result<Commit<RawCommit>, (ParseError, RawCommit)>) -> WalkItemModel {
    match item {
        Ok(c) => WalkItemModel { commit: c.commit, parsed: Ok(c.conventional_commit@) },
        Err((e, commit)) => WalkItemModel { commit, parsed: Err(e@) },
    }
}

pub open spec fn item_views(
    items: Seq<Result<Commit<RawCommit>, (ParseError, RawCommit)>>,
) -> Seq<WalkItemModel> {
    items.map_values(|i: Result<Commit<RawCommit>, (ParseError, RawCommit)>| item_view(i))
}

impl<'a> RevWalkOptions<'a, RawCommit> {
    /// What the walk yields for a commit that it keeps.
    pub open spec fn item_of(&self, commit: RawCommit) -> WalkItemModel {
        WalkItemModel {
            commit,
            parsed: parse_model(
                self.parser.strip_pattern(),
                self.parser.scope_pattern(),
                self.parser.references_pattern(),
                commit.message@,
            ),
        }
    }

    /// What the walk yields for the first `n` commits of `history`: for each
    /// commit that it keeps, in the order of the history, its item.
    pub open spec fn walked(&self, history: Seq<Visited>, n: int) -> Seq<WalkItemModel>
        decreases n,
    {
        if n <= 0 {
            Seq::empty()
        } else {
            let before = self.walked(history, n - 1);
            if self.keeps(history[n - 1].visit()) {
                before.push(self.item_of(history[n - 1].commit))
            } else {
                before
            }
        }
    }

    /// Parses the message of a commit that the walk keeps. A message that is
    /// no conventional commit gives the error together with the commit.
    pub fn parse_commit(&self, commit: RawCommit) -> (item: Result<
        Commit<RawCommit>,
        (ParseError, RawCommit),
    >)
        ensures
            item_view(item) == self.item_of(commit),
    {
        match self.parser.parse(commit.message.as_str()) {
            Ok(conventional_commit) => Ok(Commit { conventional_commit, commit }),
            Err(e) => Err((e, commit)),
        }
    }

    /// Walks `history`, the commits that the repository reaches from `to_rev`
    /// without those hidden by `from_rev`, in its own order and along first
    /// parents only where `first_parent` says so. Each commit that passes the
    /// filters is parsed.
    pub fn revwalk(&self, history: &Vec<Visited>) -> (items: Vec<
        Result<Commit<RawCommit>, (ParseError, RawCommit)>,
    >)
        ensures
            item_views(items@) == self.walked(history@, history@.len() as int),
    {
        let mut items: Vec<Result<Commit<RawCommit>, (ParseError, RawCommit)>> = Vec::new();
        let mut i: usize = 0;
        assert(item_views(items@) == self.walked(history@, 0));
        while i < history.len()
            invariant
                i <= history.len(),
                item_views(items@) == self.walked(history@, i as int),
            decreases history.len() - i,
        {
            let visited = &history[i];
            if self.retains(
                visited.commit.parents,
                visited.changes_paths,
                visited.commit.message.as_str(),
            ) {
                let ghost prior = items@;
                let item = self.parse_commit(visited.commit.clone());
                items.push(item);
                assert(item_views(items@) == item_views(prior).push(item_view(item)));
            }
            i += 1;
        }
        items
    }
}

/// What a walk gave, handed out item by item.
pub struct CommitIter<O> {
    inner: Vec<Result<Commit<O>, ParseError>>,
}

impl<O> CommitIter<O> {
    /// The items that are still to come, in their order.
    pub closed spec fn remaining(&self) -> Seq<Result<Commit<O>, ParseError>> {
        self.inner@.reverse()
    }

    pub fn new(items: Vec<Result<Commit<O>, ParseError>>) -> (iter: Self)
        ensures
            iter.remaining() == items@,
    {
        let mut items = items;
        let ghost all = items@;
        let mut inner: Vec<Result<Commit<O>, ParseError>> = Vec::new();
        while items.len() > 0
            invariant
                items@.len() <= all.len(),
                items@ == all.take(items@.len() as int),
                inner@.len() + items@.len() == all.len(),
                forall|k: int|
                    0 <= k < inner@.len() ==> inner@[k] == all[all.len() - 1 - k],
            decreases items.len(),
        {
            let item = items.pop().unwrap();
            inner.push(item);
        }
        assert(inner@.reverse() =~= all);
        CommitIter { inner }
    }

    /// The next item, if one is left.
    pub fn next(&mut self) -> (item: Option<Result<Commit<O>, ParseError>>)
        ensures
            match item {
                Some(i) => old(self).remaining().len() > 0 && i == old(self).remaining()[0]
                    && final(self).remaining() == old(self).remaining().skip(1),
                None => old(self).remaining().len() == 0 && final(self).remaining().len() == 0,
            },
    {
        let ghost before = self.inner@;
        let item = self.inner.pop();
        proof {
            if before.len() > 0 {
                assert(self.inner@.reverse() =~= before.reverse().skip(1));
            }
        }
        item
    }
}

} // verus!
