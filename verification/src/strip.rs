//! A commit message as it is cleaned up before it is used: without comment
//! lines, without trailing blank space, and without more than one blank line
//! in a row.
use crate::text::{
    blank, chars_of, is_blank, join, joined, lines, split_lines, string_of, trim, trim_end, trimmed,
    trimmed_end, views,
};
use vstd::prelude::*;

verus! {

/// Whether `line` is a comment: it begins with `#`.
pub open spec fn is_comment(line: Seq<char>) -> bool {
    line.len() > 0 && line[0] == '#'
}

/// The first `n` lines as they are kept: no comment is, each line loses its
/// trailing blank space, and a blank line directly after a blank line that
/// is kept is dropped.
pub open spec fn kept(all: Seq<Seq<char>>, n: int) -> Seq<Seq<char>>
    decreases n,
{
    if n <= 0 {
        Seq::empty()
    } else {
        let before = kept(all, n - 1);
        let line = trim_end(all[n - 1]);
        if is_comment(all[n - 1]) {
            before
        } else if is_blank(line) && before.len() > 0 && is_blank(before.last()) {
            before
        } else {
            before.push(line)
        }
    }
}

/// The message `s` stripped: the lines that are kept, joined by line feeds,
/// without blank space at either end.
pub open spec fn stripped(s: Seq<char>) -> Seq<char> {
    trim(join(kept(lines(s), lines(s).len() as int), seq!['\n']))
}

/// Strips the message `s`.
pub fn strip_message(s: &str) -> (r: String)
    ensures
        r@ == stripped(s@),
{
    let all = split_lines(&chars_of(s));
    let mut out: Vec<Vec<char>> = Vec::new();
    let mut i: usize = 0;
    assert(views(out@) =~= kept(views(all@), 0));
    while i < all.len()
        invariant
            i <= all.len(),
            views(out@) == kept(views(all@), i as int),
        decreases all.len() - i,
    {
        let ghost prior = out@;
        assert(views(all@)[i as int] == all@[i as int]@);
        let raw = &all[i];
        if !(raw.len() > 0 && raw[0] == '#') {
            let line = trimmed_end(raw);
            let repeated = if out.len() > 0 {
                assert(views(out@).last() == out@[out@.len() - 1]@);
                blank(&line) && blank(&out[out.len() - 1])
            } else {
                false
            };
            if !repeated {
                out.push(line);
                assert(views(out@) =~= views(prior).push(line@));
            }
        }
        i += 1;
    }
    let mut sep: Vec<char> = Vec::new();
    sep.push('\n');
    assert(sep@ =~= seq!['\n']);
    string_of(&trimmed(&joined(&out, &sep)))
}

/// Text that can be stripped as a commit message is.
pub trait Strip {
    /// The text.
    spec fn text(&self) -> Seq<char>;

    fn strip(&self) -> (r: String)
        ensures
            r@ == stripped(self.text()),
    ;
}

impl Strip for str {
    open spec fn text(&self) -> Seq<char> {
        self@
    }

    fn strip(&self) -> (r: String) {
        strip_message(self)
    }
}

impl Strip for String {
    open spec fn text(&self) -> Seq<char> {
        self@
    }

    fn strip(&self) -> (r: String) {
        strip_message(self.as_str())
    }
}

} // verus!
