//! Checking commits: the line that reports a commit that fails, the type
//! that a wrong type may have been meant as, and the closing words.
use crate::commits::ParseError;
use crate::git::{item_view, item_views, Commit, RawCommit, WalkItemModel};
use crate::text::{byte_len, bytes_in, chars_of, decimal, holds, lines, push_decimal, slice, split_lines, string_of, string_views, views};
use crate::transform::first_chars;
use vstd::prelude::*;
use vstd::string::StringExecFns;

verus! {

/// How alike `a` and `b` are by the measure of Jaro and Winkler, as the bits
/// of the number between 0 and 1 that the measure gives. Of two such numbers
/// the greater has the greater bits.
pub uninterp spec fn likeness(a: Seq<char>, b: Seq<char>) -> u64;

/// `strsim::jaro_winkler`, and `f64::to_bits` of what it returns.
#[verifier::external_body]
fn alike(a: &str, b: &str) -> (bits: u64)
    ensures
        bits == likeness(a@, b@),
{
    strsim::jaro_winkler(a, b).to_bits()
}

/// The index of the first of the first `n` scores that none of them
/// exceeds.
pub open spec fn best_upto(scores: Seq<u64>, n: int) -> int
    decreases n,
{
    if n <= 1 {
        0
    } else {
        let b = best_upto(scores, n - 1);
        if scores[n - 1] > scores[b] {
            n - 1
        } else {
            b
        }
    }
}

pub proof fn lemma_best_upto(scores: Seq<u64>, n: int)
    requires
        1 <= n <= scores.len(),
    ensures
        0 <= best_upto(scores, n) < n,
        forall|k: int| 0 <= k < n ==> #[trigger] scores[k] <= scores[best_upto(scores, n)],
        forall|k: int|
            0 <= k < best_upto(scores, n) ==> #[trigger] scores[k] < scores[best_upto(scores, n)],
    decreases n,
{
    if n > 1 {
        lemma_best_upto(scores, n - 1);
    }
}

/// The index of the greatest of `scores`, and of several the first; none
/// where there is no score.
pub fn best(scores: &Vec<u64>) -> (r: Option<usize>)
    ensures
        match r {
            Some(i) => scores@.len() > 0 && i == best_upto(scores@, scores@.len() as int),
            None => scores@.len() == 0,
        },
{
    if scores.len() == 0 {
        return None;
    }
    let mut b: usize = 0;
    let mut i: usize = 1;
    while i < scores.len()
        invariant
            1 <= i <= scores.len(),
            b == best_upto(scores@, i as int),
            0 <= b < i,
        decreases scores.len() - i,
    {
        if scores[i] > scores[b] {
            b = i;
        }
        i += 1;
    }
    Some(b)
}

/// How alike `wrong_type` is to each of `valid_types`.
pub open spec fn scores_of(wrong_type: Seq<char>, valid_types: Seq<Seq<char>>) -> Seq<u64> {
    Seq::new(valid_types.len(), |i: int| likeness(wrong_type, valid_types[i]))
}

/// The type that `wrong_type` may have been meant as: of `valid_types` the
/// one most like it, and of several the first.
pub open spec fn suggested(wrong_type: Seq<char>, valid_types: Seq<Seq<char>>) -> Option<Seq<char>> {
    if valid_types.len() == 0 {
        None
    } else {
        Some(
            valid_types[best_upto(
                scores_of(wrong_type, valid_types),
                valid_types.len() as int,
            )],
        )
    }
}

pub fn suggestion(wrong_type: &str, valid_types: &Vec<String>) -> (r: Option<String>)
    ensures
        crate::pattern::opt_view(r) == suggested(wrong_type@, string_views(valid_types@)),
{
    let ghost wanted = scores_of(wrong_type@, string_views(valid_types@));
    let mut scores: Vec<u64> = Vec::new();
    let mut i: usize = 0;
    while i < valid_types.len()
        invariant
            i <= valid_types.len(),
            wanted == scores_of(wrong_type@, string_views(valid_types@)),
            scores@ == wanted.take(i as int),
        decreases valid_types.len() - i,
    {
        assert(string_views(valid_types@)[i as int] == valid_types@[i as int]@);
        scores.push(alike(wrong_type, valid_types[i].as_str()));
        assert(wanted.take(i + 1) =~= wanted.take(i as int).push(wanted[i as int]));
        i += 1;
    }
    assert(wanted.take(valid_types.len() as int) =~= wanted);
    match best(&scores) {
        Some(b) => {
            proof {
                lemma_best_upto(scores@, scores@.len() as int);
            }
            assert(string_views(valid_types@)[b as int] == valid_types@[b as int]@);
            Some(valid_types[b].clone())
        },
        None => None,
    }
}

/// What is said of a commit with the type `wrong_type`, which is none of
/// `valid_types`.
pub open spec fn wrong_type_text(wrong_type: Seq<char>, valid_types: Seq<Seq<char>>) -> Seq<char> {
    "wrong type: "@ + wrong_type + match suggested(wrong_type, valid_types) {
        Some(s) => ", did you mean `"@ + s + "`"@,
        None => Seq::empty(),
    }
}

/// A wrong type, with the types that are valid.
pub struct TypeErrorWithSimilaritySuggestions<'a, 'b> {
    pub valid_types: &'a Vec<String>,
    pub wrong_type: &'b str,
}

impl<'a, 'b> TypeErrorWithSimilaritySuggestions<'a, 'b> {
    pub fn to_string(&self) -> (s: String)
        ensures
            s@ == wrong_type_text(self.wrong_type@, string_views(self.valid_types@)),
    {
        let text = "wrong type: ".to_owned().concat(self.wrong_type);
        match suggestion(self.wrong_type, self.valid_types) {
            Some(s) => {
                let out = text.concat(", did you mean `").concat(s.as_str()).concat("`");
                assert(out@ =~= wrong_type_text(
                    self.wrong_type@,
                    string_views(self.valid_types@),
                ));
                out
            },
            None => {
                assert(text@ =~= wrong_type_text(
                    self.wrong_type@,
                    string_views(self.valid_types@),
                ));
                text
            },
        }
    }
}

/// The first line of `msg`; empty where it has none.
pub open spec fn first_line_of(msg: Seq<char>) -> Seq<char> {
    if lines(msg).len() > 0 {
        lines(msg)[0]
    } else {
        Seq::empty()
    }
}

/// The line that reports a commit that fails: its short id, why it fails,
/// and the first forty characters of the first line of `msg`, with three
/// dots where that line takes more than forty bytes.
pub open spec fn fail_text(msg: Seq<char>, short_id: Seq<char>, reason: Seq<char>) -> Seq<char> {
    "FAIL  "@ + short_id + "  "@ + reason + "  "@ + first_chars(first_line_of(msg), 40) + if byte_len(
        first_line_of(msg),
    ) > 40 {
        "..."@
    } else {
        Seq::empty()
    }
}

pub fn print_fail(msg: &str, short_id: &str, reason: &str) -> (line: String)
    ensures
        line@ == fail_text(msg@, short_id@, reason@),
{
    let all = split_lines(&chars_of(msg));
    let first: Vec<char> = if all.len() > 0 {
        assert(views(all@)[0] == all@[0]@);
        slice(&all[0], 0, all[0].len())
    } else {
        Vec::new()
    };
    assert(first@ =~= first_line_of(msg@));
    let short: Vec<char> = if first.len() <= 40 {
        slice(&first, 0, first.len())
    } else {
        assert(first@.take(40) == first@.subrange(0, 40));
        slice(&first, 0, 40)
    };
    assert(short@ =~= first_chars(first@, 40));
    let long = bytes_in(string_of(&first).as_str()) > 40;
    let line = "FAIL  ".to_owned().concat(short_id).concat("  ").concat(reason).concat("  ").concat(
        string_of(&short).as_str(),
    );
    if long {
        let out = line.concat("...");
        assert(out@ =~= fail_text(msg@, short_id@, reason@));
        out
    } else {
        assert(line@ =~= fail_text(msg@, short_id@, reason@));
        line
    }
}

/// The line that reports a commit whose type `commit_type` is none of
/// `valid_types`.
pub fn print_wrong_type(msg: &str, short_id: &str, commit_type: &str, valid_types: &Vec<String>) -> (line:
    String)
    ensures
        line@ == fail_text(msg@, short_id@, wrong_type_text(commit_type@, string_views(valid_types@))),
{
    let reason = TypeErrorWithSimilaritySuggestions { valid_types, wrong_type: commit_type }.to_string();
    print_fail(msg, short_id, reason.as_str())
}

/// What is reported of an item of a walk: a message that is no conventional
/// commit, or a commit whose type is none of `types`; nothing where the
/// commit is in order.
pub open spec fn report_of(item: WalkItemModel, types: Seq<Seq<char>>) -> Option<Seq<char>> {
    match item.parsed {
        Err(e) => Some(fail_text(item.commit.message@, item.commit.short_id@, e.message())),
        Ok(commit) => if !types.contains(commit.ty) {
            Some(
                fail_text(
                    commit.description,
                    item.commit.short_id@,
                    wrong_type_text(commit.ty, types),
                ),
            )
        } else {
            None
        },
    }
}

/// Checks one item of a walk against the valid types `types`.
pub fn print_check(item: &Result<Commit<RawCommit>, (ParseError, RawCommit)>, types: &Vec<String>) -> (report:
    Option<String>)
    ensures
        crate::pattern::opt_view(report) == report_of(item_view(*item), string_views(types@)),
{
    match item {
        Err((e, o)) => Some(
            print_fail(o.message.as_str(), o.short_id.as_str(), e.to_string().as_str()),
        ),
        Ok(commit) => {
            let conv = &commit.conventional_commit;
            if !holds(types, &conv.ty) {
                Some(
                    print_wrong_type(
                        conv.description.as_str(),
                        commit.commit.short_id.as_str(),
                        conv.ty.as_str(),
                        types,
                    ),
                )
            } else {
                None
            }
        },
    }
}

/// How a check ended.
pub struct Checked {
    /// The lines of the commits that fail, in the order of the walk.
    pub reports: Vec<String>,
    pub total: usize,
    pub fail: usize,
}

/// The reports of the first `n` items.
pub open spec fn reports_upto(items: Seq<WalkItemModel>, types: Seq<Seq<char>>, n: int) -> Seq<Seq<char>>
    decreases n,
{
    if n <= 0 {
        Seq::empty()
    } else {
        let before = reports_upto(items, types, n - 1);
        match report_of(items[n - 1], types) {
            Some(r) => before.push(r),
            None => before,
        }
    }
}

/// How many of `items` are looked at: all, or no more than `number`.
pub open spec fn looked_at(items: Seq<WalkItemModel>, number: Option<usize>) -> int {
    match number {
        Some(n) => if n < items.len() {
            n as int
        } else {
            items.len() as int
        },
        None => items.len() as int,
    }
}

/// Checks the first `number` items of a walk, or all of them.
pub fn check_all(
    items: &Vec<Result<Commit<RawCommit>, (ParseError, RawCommit)>>,
    types: &Vec<String>,
    number: Option<usize>,
) -> (r: Checked)
    ensures
        r.total == looked_at(item_views(items@), number),
        string_views(r.reports@) == reports_upto(
            item_views(items@),
            string_views(types@),
            r.total as int,
        ),
        r.fail == r.reports@.len(),
{
    let ghost all = item_views(items@);
    let limit: usize = match number {
        Some(n) => if n < items.len() {
            n
        } else {
            items.len()
        },
        None => items.len(),
    };
    let mut reports: Vec<String> = Vec::new();
    let mut i: usize = 0;
    assert(string_views(reports@) =~= reports_upto(all, string_views(types@), 0));
    while i < limit
        invariant
            i <= limit <= items.len(),
            all == item_views(items@),
            string_views(reports@) == reports_upto(all, string_views(types@), i as int),
            reports@.len() <= i,
        decreases limit - i,
    {
        assert(all[i as int] == item_view(items@[i as int]));
        match print_check(&items[i], types) {
            Some(r) => {
                let ghost prior = reports@;
                reports.push(r);
                assert(string_views(reports@) =~= string_views(prior).push(r@));
            },
            None => {},
        }
        i += 1;
    }
    let fail = reports.len();
    Checked { reports, total: limit, fail }
}

/// The closing words of a check of `total` commits of which `fail` fail.
pub open spec fn summary_text(total: nat, fail: nat) -> Seq<char> {
    if fail == 0 {
        if total == 0 {
            "no commits checked"@
        } else if total == 1 {
            "no errors in 1 commit"@
        } else {
            "no errors in "@ + decimal(total) + " commits"@
        }
    } else {
        "\n"@ + decimal(fail) + "/"@ + decimal(total) + " failed"@
    }
}

/// The closing words of a check, and whether it passed.
pub fn summary(total: usize, fail: usize) -> (r: (String, bool))
    ensures
        r.0@ == summary_text(total as nat, fail as nat),
        r.1 == (fail == 0),
{
    let mut t: Vec<char> = Vec::new();
    push_decimal(&mut t, total as u64);
    let mut f: Vec<char> = Vec::new();
    push_decimal(&mut f, fail as u64);
    if fail == 0 {
        if total == 0 {
            ("no commits checked".to_owned(), true)
        } else if total == 1 {
            ("no errors in 1 commit".to_owned(), true)
        } else {
            let s = "no errors in ".to_owned().concat(string_of(&t).as_str()).concat(" commits");
            assert(s@ =~= summary_text(total as nat, fail as nat));
            (s, true)
        }
    } else {
        let s = "\n".to_owned().concat(string_of(&f).as_str()).concat("/").concat(
            string_of(&t).as_str(),
        ).concat(" failed");
        assert(s@ =~= summary_text(total as nat, fail as nat));
        (s, false)
    }
}

} // verus!
