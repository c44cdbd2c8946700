//! From the commits of one window to the context of its release: the entries
//! in their sections, the notes on breaking changes, and the name of the
//! version.
use crate::changelog::{
    entry_views, group_views, link_views, note_views, CommitContext, CommitGroup, ContextBase,
    EntryModel, GroupModel, LinkModel, Note, NoteGroup, NoteGroupModel, NoteModel, Reference,
    BaseModel,
};
use crate::commits::{
    footer_views, reference_views, Commit as ConventionalCommit, CommitModel, Footer,
    FooterKeyModel, FooterModel, ParseError, ReferenceModel,
};
use crate::config::{type_views, Config, ConfigModel, Type, TypeModel};
use crate::git::{
    civil_date, item_view, item_views, Commit, Date, RawCommit, TimeOutOfRange, WalkItemModel,
};
use crate::grammar::breaking_change_words;
use crate::pattern::{clone_option, opt_view};
use crate::text::{chars_of, slice, string_of};
use crate::versions::{option_view, version_of, SemVer, SemVerModel};
use vstd::prelude::*;
use vstd::string::StringExecFns;

verus! {

/// The section that commits of the type `ty` go to: that of the last of the
/// first `n` types with this name whose section is shown. A hidden section is
/// shown where `include_hidden` asks for it.
pub open spec fn section_of(types: Seq<TypeModel>, include_hidden: bool, ty: Seq<char>, n: int) -> Option<
    Seq<char>,
>
    decreases n,
{
    if n <= 0 {
        None
    } else if types[n - 1].ty == ty && (include_hidden || !types[n - 1].hidden) {
        Some(types[n - 1].section)
    } else {
        section_of(types, include_hidden, ty, n - 1)
    }
}

pub fn section_for(types: &Vec<Type>, include_hidden: bool, ty: &String) -> (section: Option<String>)
    ensures
        opt_view(section) == section_of(
            type_views(types@),
            include_hidden,
            ty@,
            types@.len() as int,
        ),
{
    let ghost all = type_views(types@);
    let mut n: usize = types.len();
    while n > 0
        invariant
            n <= types.len(),
            all == type_views(types@),
            section_of(all, include_hidden, ty@, n as int) == section_of(
                all,
                include_hidden,
                ty@,
                types@.len() as int,
            ),
        decreases n,
    {
        assert(all[n - 1] == types@[n - 1]@);
        let t = &types[n - 1];
        if t.ty == *ty && (include_hidden || !t.hidden) {
            return Some(t.section.clone());
        }
        n -= 1;
    }
    None
}

/// The notes that the footers `footers` of a commit with the scope `scope`
/// give: one for each footer with the breaking-change key, with its value.
pub open spec fn notes_of(footers: Seq<FooterModel>, scope: Option<Seq<char>>, n: int) -> Seq<
    NoteModel,
>
    decreases n,
{
    if n <= 0 {
        Seq::empty()
    } else {
        let before = notes_of(footers, scope, n - 1);
        if footers[n - 1].key == FooterKeyModel::BreakingChange {
            before.push(NoteModel { scope, text: footers[n - 1].value })
        } else {
            before
        }
    }
}

/// Adds to `notes` the notes on the breaking changes among `footers`.
pub fn make_notes(notes: &mut Vec<Note>, footers: &Vec<Footer>, scope: &Option<String>)
    ensures
        note_views(final(notes)@) == note_views(old(notes)@) + notes_of(
            footer_views(footers@),
            opt_view(*scope),
            footers@.len() as int,
        ),
{
    let ghost before = note_views(notes@);
    let ghost all = footer_views(footers@);
    let mut i: usize = 0;
    assert(before + notes_of(all, opt_view(*scope), 0) == before);
    while i < footers.len()
        invariant
            i <= footers.len(),
            all == footer_views(footers@),
            note_views(notes@) == before + notes_of(all, opt_view(*scope), i as int),
        decreases footers.len() - i,
    {
        assert(all[i as int] == footers@[i as int]@);
        if footers[i].key.is_breaking_change() {
            let ghost prior = notes@;
            let ghost done = notes_of(all, opt_view(*scope), i as int);
            let note = Note { scope: clone_option(scope), text: footers[i].value.clone() };
            notes.push(note);
            assert(note_views(notes@) == note_views(prior).push(note@));
            assert(before + done.push(note@) == (before + done).push(note@));
        }
        i += 1;
    }
}

/// The first `n` characters of `s`, or all of it where it has fewer.
pub open spec fn first_chars(s: Seq<char>, n: int) -> Seq<char> {
    if s.len() <= n {
        s
    } else {
        s.take(n)
    }
}

/// The references of a commit as links into the repository `repository` of
/// `owner`.
pub open spec fn links_of(refs: Seq<ReferenceModel>, owner: Seq<char>, repository: Seq<char>) -> Seq<
    LinkModel,
> {
    Seq::new(
        refs.len(),
        |i: int|
            LinkModel {
                action: refs[i].action,
                owner,
                repository,
                prefix: refs[i].prefix,
                issue: refs[i].issue,
            },
    )
}

pub open spec fn text_or_empty(o: Option<Seq<char>>) -> Seq<char> {
    match o {
        Some(s) => s,
        None => Seq::empty(),
    }
}

/// The entry of the commit `raw`, made on the day `date`, whose message was
/// parsed into `commit`.
pub open spec fn entry_of(commit: CommitModel, raw: RawCommit, date: Date, config: ConfigModel) -> EntryModel {
    EntryModel {
        hash: raw.id@,
        date,
        subject: commit.description,
        body: commit.body,
        scope: commit.scope,
        short_hash: first_chars(raw.id@, 7),
        references: links_of(
            commit.references,
            text_or_empty(config.owner),
            text_or_empty(config.repository),
        ),
    }
}

fn text_of(o: &Option<String>) -> (s: String)
    ensures
        s@ == text_or_empty(opt_view(*o)),
{
    match o {
        Some(s) => s.clone(),
        None => String::new(),
    }
}

/// The entry of a commit.
pub fn make_entry(commit: &ConventionalCommit, raw: &RawCommit, date: Date, config: &Config) -> (entry:
    CommitContext)
    ensures
        entry@ == entry_of(commit@, *raw, date, config@),
{
    let owner = text_of(&config.owner);
    let repository = text_of(&config.repository);
    let mut references: Vec<Reference> = Vec::new();
    let ghost refs = reference_views(commit.references@);
    let mut i: usize = 0;
    while i < commit.references.len()
        invariant
            i <= commit.references.len(),
            refs == reference_views(commit.references@),
            link_views(references@) == links_of(refs, owner@, repository@).take(i as int),
        decreases commit.references.len() - i,
    {
        let ghost prior = references@;
        assert(refs[i as int] == commit.references@[i as int]@);
        let r = &commit.references[i];
        let link = Reference {
            action: clone_option(&r.action),
            owner: owner.clone(),
            repository: repository.clone(),
            prefix: r.prefix.clone(),
            issue: r.issue.clone(),
        };
        references.push(link);
        assert(link_views(references@) == link_views(prior).push(link@));
        assert(links_of(refs, owner@, repository@).take(i + 1) == links_of(
            refs,
            owner@,
            repository@,
        ).take(i as int).push(link@));
        i += 1;
    }
    assert(links_of(refs, owner@, repository@).take(refs.len() as int) == links_of(
        refs,
        owner@,
        repository@,
    ));
    let id = chars_of(raw.id.as_str());
    let short = if id.len() <= 7 {
        string_of(&id)
    } else {
        assert(id@.take(7) == id@.subrange(0, 7));
        string_of(&slice(&id, 0, 7))
    };
    CommitContext {
        hash: raw.id.clone(),
        date,
        subject: commit.description.clone(),
        body: clone_option(&commit.body),
        scope: clone_option(&commit.scope),
        short_hash: short,
        references,
    }
}

/// The index of the first of the first `n` groups with the title `title`;
/// `n` where none has it.
pub open spec fn group_index(groups: Seq<GroupModel>, title: Seq<char>, n: int) -> int
    decreases n,
{
    if n <= 0 {
        0
    } else {
        let i = group_index(groups, title, n - 1);
        if i < n - 1 || groups[n - 1].title == title {
            i
        } else {
            n
        }
    }
}

proof fn lemma_group_index_stays(groups: Seq<GroupModel>, title: Seq<char>, i: int, n: int)
    requires
        0 <= i < n <= groups.len(),
        group_index(groups, title, i) == i,
        groups[i].title == title,
    ensures
        group_index(groups, title, n) == i,
    decreases n - i,
{
    if n > i + 1 {
        lemma_group_index_stays(groups, title, i, n - 1);
    }
}

/// The groups with one more entry: it goes to the end of the group with the
/// title `section`, and into a new group at the end where there is none.
pub open spec fn with_entry(groups: Seq<GroupModel>, section: Seq<char>, entry: EntryModel) -> Seq<
    GroupModel,
> {
    let i = group_index(groups, section, groups.len() as int);
    if i < groups.len() {
        groups.update(i, GroupModel { title: section, commits: groups[i].commits.push(entry) })
    } else {
        groups.push(GroupModel { title: section, commits: seq![entry] })
    }
}

/// Adds an entry to the group of its section.
pub fn add_entry(groups: &mut Vec<CommitGroup>, section: String, entry: CommitContext)
    ensures
        group_views(final(groups)@) == with_entry(group_views(old(groups)@), section@, entry@),
{
    let ghost all = group_views(groups@);
    let mut i: usize = 0;
    while i < groups.len()
        invariant
            i <= groups.len(),
            groups@ == old(groups)@,
            all == group_views(groups@),
            group_index(all, section@, i as int) == i,
        decreases groups.len() - i,
    {
        assert(all[i as int] == groups@[i as int]@);
        if groups[i].title == section {
            proof {
                lemma_group_index_stays(all, section@, i as int, all.len() as int);
            }
            let mut group = groups.remove(i);
            let ghost prior = group.commits@;
            group.commits.push(entry);
            assert(entry_views(group.commits@) == entry_views(prior).push(entry@));
            groups.insert(i, group);
            assert(group_views(groups@) =~= all.update(
                i as int,
                GroupModel { title: section@, commits: all[i as int].commits.push(entry@) },
            ));
            return ;
        }
        i += 1;
    }
    let mut commits: Vec<CommitContext> = Vec::new();
    commits.push(entry);
    assert(entry_views(commits@) =~= seq![entry@]);
    let group = CommitGroup { title: section, commits };
    groups.push(group);
    assert(group_views(groups@) =~= all.push(group@));
}

/// The day of the commit `raw`, where it can be told.
pub open spec fn date_of(raw: RawCommit) -> Option<Date> {
    match civil_date(raw.seconds, raw.offset_seconds) {
        Some((year, month, day)) => Some(Date { year, month, day }),
        None => None,
    }
}

/// Whether the day of each of the first `n` items whose message was parsed
/// can be told.
pub open spec fn all_dated(items: Seq<WalkItemModel>, n: int) -> bool {
    forall|k: int| 0 <= k < n && (#[trigger] items[k]).parsed is Ok ==> date_of(items[k].commit) is Some
}

/// The groups of the first `n` items of a walk: each commit whose message was
/// parsed and whose type has a section that is shown gives an entry.
pub open spec fn grouped(
    items: Seq<WalkItemModel>,
    config: ConfigModel,
    include_hidden: bool,
    n: int,
) -> Seq<GroupModel>
    decreases n,
{
    if n <= 0 {
        Seq::empty()
    } else {
        let before = grouped(items, config, include_hidden, n - 1);
        match items[n - 1].parsed {
            Ok(commit) => match section_of(
                config.types,
                include_hidden,
                commit.ty,
                config.types.len() as int,
            ) {
                Some(section) => with_entry(
                    before,
                    section,
                    entry_of(commit, items[n - 1].commit, date_of(items[n - 1].commit)->0, config),
                ),
                None => before,
            },
            Err(_) => before,
        }
    }
}

/// The notes on the breaking changes among the first `n` items of a walk.
pub open spec fn noted(items: Seq<WalkItemModel>, n: int) -> Seq<NoteModel>
    decreases n,
{
    if n <= 0 {
        Seq::empty()
    } else {
        let before = noted(items, n - 1);
        match items[n - 1].parsed {
            Ok(commit) => before + notes_of(commit.footers, commit.scope, commit.footers.len() as int),
            Err(_) => before,
        }
    }
}

/// The place of the section `title` among the first `n` types: the index of
/// the first type with this section, and `n` where none has it.
pub open spec fn position(types: Seq<TypeModel>, title: Seq<char>, n: int) -> int
    decreases n,
{
    if n <= 0 {
        0
    } else {
        let i = position(types, title, n - 1);
        if i < n - 1 || types[n - 1].section == title {
            i
        } else {
            n
        }
    }
}

proof fn lemma_position_stays(types: Seq<TypeModel>, title: Seq<char>, i: int, n: int)
    requires
        0 <= i < n <= types.len(),
        position(types, title, i) == i,
        types[i].section == title,
    ensures
        position(types, title, n) == i,
    decreases n - i,
{
    if n > i + 1 {
        lemma_position_stays(types, title, i, n - 1);
    }
}

/// The place of the section `title` in the order of the configuration.
pub fn find_position(types: &Vec<Type>, title: &String) -> (p: usize)
    ensures
        p == position(type_views(types@), title@, types@.len() as int),
        p <= types@.len(),
{
    let ghost all = type_views(types@);
    let mut i: usize = 0;
    while i < types.len()
        invariant
            i <= types.len(),
            all == type_views(types@),
            position(all, title@, i as int) == i,
        decreases types.len() - i,
    {
        assert(all[i as int] == types@[i as int]@);
        if types[i].section == *title {
            proof {
                lemma_position_stays(all, title@, i as int, all.len() as int);
            }
            return i;
        }
        i += 1;
    }
    i
}

/// Where a group with the place `p` goes into the first `n` of `sorted`: in
/// front of the first group with a greater place.
pub open spec fn slot(sorted: Seq<GroupModel>, types: Seq<TypeModel>, p: int, n: int) -> int
    decreases n,
{
    if n <= 0 {
        0
    } else {
        let s = slot(sorted, types, p, n - 1);
        if s < n - 1 || position(types, sorted[n - 1].title, types.len() as int) > p {
            s
        } else {
            n
        }
    }
}

proof fn lemma_slot(sorted: Seq<GroupModel>, types: Seq<TypeModel>, p: int, n: int)
    requires
        0 <= n <= sorted.len(),
    ensures
        0 <= slot(sorted, types, p, n) <= n,
        forall|k: int|
            0 <= k < slot(sorted, types, p, n) ==> position(
                types,
                (#[trigger] sorted[k]).title,
                types.len() as int,
            ) <= p,
        slot(sorted, types, p, n) < n ==> position(
            types,
            sorted[slot(sorted, types, p, n)].title,
            types.len() as int,
        ) > p,
    decreases n,
{
    if n > 0 {
        lemma_slot(sorted, types, p, n - 1);
    }
}

proof fn lemma_slot_stays(sorted: Seq<GroupModel>, types: Seq<TypeModel>, p: int, s: int, n: int)
    requires
        0 <= s < n <= sorted.len(),
        slot(sorted, types, p, s) == s,
        position(types, sorted[s].title, types.len() as int) > p,
    ensures
        slot(sorted, types, p, n) == s,
    decreases n - s,
{
    if n > s + 1 {
        lemma_slot_stays(sorted, types, p, s, n - 1);
    }
}

/// The first `n` of `groups` in the order of their sections in the
/// configuration. Groups of sections that the configuration does not name
/// come last, and groups with the same place stay in their order.
pub open spec fn sorted_groups(groups: Seq<GroupModel>, types: Seq<TypeModel>, n: int) -> Seq<GroupModel>
    decreases n,
{
    if n <= 0 {
        Seq::empty()
    } else {
        let before = sorted_groups(groups, types, n - 1);
        let p = position(types, groups[n - 1].title, types.len() as int);
        before.insert(slot(before, types, p, before.len() as int), groups[n - 1])
    }
}

/// Whether the places of the groups never fall.
pub open spec fn in_order(groups: Seq<GroupModel>, types: Seq<TypeModel>) -> bool {
    forall|i: int, j: int|
        0 <= i < j < groups.len() ==> position(
            types,
            (#[trigger] groups[i]).title,
            types.len() as int,
        ) <= position(types, (#[trigger] groups[j]).title, types.len() as int)
}

proof fn lemma_insert_in_order(sorted: Seq<GroupModel>, types: Seq<TypeModel>, x: GroupModel, s: int)
    requires
        in_order(sorted, types),
        0 <= s <= sorted.len(),
        forall|k: int|
            0 <= k < s ==> position(types, (#[trigger] sorted[k]).title, types.len() as int)
                <= position(types, x.title, types.len() as int),
        s < sorted.len() ==> position(types, sorted[s].title, types.len() as int) > position(
            types,
            x.title,
            types.len() as int,
        ),
    ensures
        in_order(sorted.insert(s, x), types),
{
    let out = sorted.insert(s, x);
    assert forall|i: int, j: int| 0 <= i < j < out.len() implies position(
        types,
        (#[trigger] out[i]).title,
        types.len() as int,
    ) <= position(types, (#[trigger] out[j]).title, types.len() as int) by {
        if j < s {
            assert(out[i] == sorted[i] && out[j] == sorted[j]);
        } else if j == s {
            assert(out[i] == sorted[i]);
        } else if i == s {
            assert(out[j] == sorted[j - 1]);
            if j - 1 > s {
                assert(position(types, sorted[s].title, types.len() as int) <= position(
                    types,
                    sorted[j - 1].title,
                    types.len() as int,
                ));
            }
        } else if i < s {
            assert(out[i] == sorted[i] && out[j] == sorted[j - 1]);
        } else {
            assert(out[i] == sorted[i - 1] && out[j] == sorted[j - 1]);
        }
    }
}

/// Puts the groups in the order of their sections in the configuration.
pub fn sort_commit_groups(groups: Vec<CommitGroup>, types: &Vec<Type>) -> (sorted: Vec<CommitGroup>)
    ensures
        group_views(sorted@) == sorted_groups(
            group_views(groups@),
            type_views(types@),
            groups@.len() as int,
        ),
        in_order(group_views(sorted@), type_views(types@)),
{
    let ghost all = group_views(groups@);
    let ghost order = type_views(types@);
    let mut rest = groups;
    let mut sorted: Vec<CommitGroup> = Vec::new();
    let ghost mut n: int = 0;
    assert(group_views(sorted@) =~= sorted_groups(all, order, 0));
    while rest.len() > 0
        invariant
            0 <= n <= all.len(),
            order == type_views(types@),
            group_views(rest@) == all.skip(n),
            group_views(sorted@) == sorted_groups(all, order, n),
            in_order(group_views(sorted@), order),
        decreases rest.len(),
    {
        let ghost left = group_views(rest@);
        let ghost done = group_views(sorted@);
        let ghost old_rest = rest@;
        assert(left.len() == old_rest.len());
        assert(left[0] == old_rest[0]@);
        assert(all.skip(n)[0] == all[n]);
        let group = rest.remove(0);
        assert(group@ == all[n]);
        assert(rest@ == old_rest.remove(0));
        assert(group_views(rest@) =~= all.skip(n + 1)) by {
            assert forall|k: int| 0 <= k < rest@.len() implies group_views(rest@)[k] == all.skip(
                n + 1,
            )[k] by {
                assert(rest@[k] == old_rest[k + 1]);
                assert(left[k + 1] == old_rest[k + 1]@);
                assert(all.skip(n)[k + 1] == all[n + 1 + k]);
            }
        }
        let p = find_position(types, &group.title);
        let mut s: usize = 0;
        while s < sorted.len() && find_position(types, &sorted[s].title) <= p
            invariant
                s <= sorted.len(),
                order == type_views(types@),
                done == group_views(sorted@),
                slot(done, order, p as int, s as int) == s,
            decreases sorted.len() - s,
        {
            assert(done[s as int] == sorted@[s as int]@);
            s += 1;
        }
        proof {
            if s < sorted.len() {
                assert(done[s as int] == sorted@[s as int]@);
                lemma_slot_stays(done, order, p as int, s as int, done.len() as int);
            }
            lemma_slot(done, order, p as int, done.len() as int);
            lemma_insert_in_order(done, order, group@, s as int);
        }
        sorted.insert(s, group);
        assert(group_views(sorted@) =~= done.insert(s as int, all[n]));
        proof {
            n = n + 1;
        }
    }
    sorted
}

/// One end of a window: a commit, and the version it was released as, if it
/// was.
pub struct Rev {
    pub commit: Option<RawCommit>,
    pub version: Option<SemVer>,
}

impl Clone for Rev {
    fn clone(&self) -> (r: Rev)
        ensures
            r.commit == self.commit,
            option_view(r.version) == option_view(self.version),
    {
        Rev {
            commit: match &self.commit {
                Some(c) => Some(c.clone()),
                None => None,
            },
            version: match &self.version {
                Some(v) => Some(v.clone()),
                None => None,
            },
        }
    }
}

/// The title of what is not released yet, and the version that it stands
/// for, where it is one.
pub struct Unreleased {
    pub text: String,
    pub version: Option<SemVer>,
}

impl Unreleased {
    pub fn new(text: String) -> (u: Unreleased)
        ensures
            u.text == text,
            option_view(u.version) == version_of(text@),
    {
        let version = SemVer::parse(text.as_str());
        Unreleased { text, version }
    }
}

/// The version that a window is named after: the one its newest commit was
/// released as, else the one that the title of the unreleased stands for.
pub open spec fn resolved_version(released: Option<SemVerModel>, unreleased: Option<SemVerModel>) -> Option<
    SemVerModel,
> {
    if released is Some {
        released
    } else {
        unreleased
    }
}

/// The name of a window: the prefix and the version it is named after, or
/// the title of the unreleased where there is no such version.
pub open spec fn version_label(
    prefix: Seq<char>,
    title: Seq<char>,
    released: Option<SemVerModel>,
    unreleased: Option<SemVerModel>,
) -> Seq<char> {
    match resolved_version(released, unreleased) {
        Some(v) => prefix + v.text(),
        None => title,
    }
}

/// Whether a window is a patch release: the version it is named after has a
/// patch number other than zero.
pub open spec fn is_patch_of(released: Option<SemVerModel>, unreleased: Option<SemVerModel>) -> bool {
    match resolved_version(released, unreleased) {
        Some(v) => v.patch != 0,
        None => false,
    }
}

pub open spec fn released_text(prefix: Seq<char>, released: Option<SemVerModel>) -> Seq<char> {
    match released {
        Some(v) => prefix + v.text(),
        None => Seq::empty(),
    }
}

/// The note groups for the notes `notes`: one group under the words of the
/// breaking-change key, and none where there is no note.
pub open spec fn note_groups_of(notes: Seq<NoteModel>) -> Seq<NoteGroupModel> {
    if notes.len() == 0 {
        Seq::empty()
    } else {
        seq![NoteGroupModel { title: breaking_change_words(), notes }]
    }
}

/// The context of the window whose newest commit was made on `date` and
/// released as `released`, with the commits `items` made since the release
/// `previous`. The two tags are the names of the two releases, and empty
/// where there is no release.
pub open spec fn base_of(
    config: ConfigModel,
    include_hidden: bool,
    title: Seq<char>,
    unreleased: Option<SemVerModel>,
    prefix: Seq<char>,
    date: Date,
    released: Option<SemVerModel>,
    previous: Option<SemVerModel>,
    items: Seq<WalkItemModel>,
) -> BaseModel {
    BaseModel {
        version: version_label(prefix, title, released, unreleased),
        date: Some(date),
        is_patch: is_patch_of(released, unreleased),
        commit_groups: sorted_groups(
            grouped(items, config, include_hidden, items.len() as int),
            config.types,
            grouped(items, config, include_hidden, items.len() as int).len() as int,
        ),
        note_groups: note_groups_of(noted(items, items.len() as int)),
        previous_tag: released_text(prefix, previous),
        current_tag: released_text(prefix, released),
        host: config.host,
        owner: config.owner,
        repository: config.repository,
        link_compare: config.link_compare,
        link_references: config.link_references,
    }
}

pub open spec fn base_view(r: Result<ContextBase, TimeOutOfRange>) -> Option<BaseModel> {
    match r {
        Ok(base) => Some(base@),
        Err(_) => None,
    }
}

/// The context of one window, from the commits `items` that a walk from
/// `to_rev` down to `from_rev` gave. It fails where the day of `to_rev` or of
/// one of the parsed commits cannot be told.
pub fn transform(
    config: &Config,
    include_hidden_sections: bool,
    unreleased: &Unreleased,
    prefix: &str,
    to_rev: &Rev,
    from_rev: &Rev,
    items: &Vec<Result<Commit<RawCommit>, (ParseError, RawCommit)>>,
) -> (r: Result<ContextBase, TimeOutOfRange>)
    requires
        to_rev.commit is Some,
    ensures
        base_view(r) == if date_of(to_rev.commit->0) is Some && all_dated(
            item_views(items@),
            items@.len() as int,
        ) {
            Some(
                base_of(
                    config@,
                    include_hidden_sections,
                    unreleased.text@,
                    option_view(unreleased.version),
                    prefix@,
                    date_of(to_rev.commit->0)->0,
                    option_view(to_rev.version),
                    option_view(from_rev.version),
                    item_views(items@),
                ),
            )
        } else {
            None
        },
{
    let ghost all = item_views(items@);
    let version_date = match &to_rev.commit {
        Some(c) => match c.commit_date() {
            Ok(d) => d,
            Err(e) => {
                return Err(e);
            },
        },
        None => {
            return Err(TimeOutOfRange);
        },
    };
    let mut groups: Vec<CommitGroup> = Vec::new();
    let mut notes: Vec<Note> = Vec::new();
    let mut i: usize = 0;
    assert(group_views(groups@) =~= grouped(all, config@, include_hidden_sections, 0));
    assert(note_views(notes@) =~= noted(all, 0));
    while i < items.len()
        invariant
            i <= items.len(),
            all == item_views(items@),
            all_dated(all, i as int),
            group_views(groups@) == grouped(all, config@, include_hidden_sections, i as int),
            note_views(notes@) == noted(all, i as int),
        decreases items.len() - i,
    {
        assert(all[i as int] == item_view(items@[i as int]));
        match &items[i] {
            Ok(commit) => {
                let conv = &commit.conventional_commit;
                make_notes(&mut notes, &conv.footers, &conv.scope);
                let date = match commit.commit.commit_date() {
                    Ok(d) => d,
                    Err(e) => {
                        assert(date_of(all[i as int].commit) is None);
                        assert(!all_dated(all, items@.len() as int));
                        return Err(e);
                    },
                };
                assert(date_of(all[i as int].commit) == Some(date));
                match section_for(&config.types, include_hidden_sections, &conv.ty) {
                    Some(section) => {
                        let entry = make_entry(conv, &commit.commit, date, config);
                        add_entry(&mut groups, section, entry);
                    },
                    None => {},
                }
            },
            Err(_) => {},
        }
        i += 1;
    }
    let version = match &to_rev.version {
        Some(v) => prefix.to_owned().concat(v.to_string().as_str()),
        None => match &unreleased.version {
            Some(v) => prefix.to_owned().concat(v.to_string().as_str()),
            None => unreleased.text.clone(),
        },
    };
    let is_patch = match &to_rev.version {
        Some(v) => v.patch != 0,
        None => match &unreleased.version {
            Some(v) => v.patch != 0,
            None => false,
        },
    };
    let commit_groups = sort_commit_groups(groups, &config.types);
    let mut note_groups: Vec<NoteGroup> = Vec::new();
    if notes.len() > 0 {
        proof {
            reveal_strlit("BREAKING CHANGE");
            assert("BREAKING CHANGE"@ =~= breaking_change_words());
        }
        let group = NoteGroup { title: "BREAKING CHANGE".to_owned(), notes };
        note_groups.push(group);
        assert(crate::changelog::note_group_views(note_groups@) =~= seq![group@]);
    } else {
        assert(crate::changelog::note_group_views(note_groups@) =~= Seq::empty());
    }
    let current_tag = match &to_rev.version {
        Some(v) => prefix.to_owned().concat(v.to_string().as_str()),
        None => String::new(),
    };
    let previous_tag = match &from_rev.version {
        Some(v) => prefix.to_owned().concat(v.to_string().as_str()),
        None => String::new(),
    };
    Ok(
        ContextBase {
            version,
            date: Some(version_date),
            is_patch,
            commit_groups,
            note_groups,
            previous_tag,
            current_tag,
            host: clone_option(&config.host),
            owner: clone_option(&config.owner),
            repository: clone_option(&config.repository),
            link_compare: config.link_compare,
            link_references: config.link_references,
        },
    )
}

} // verus!
