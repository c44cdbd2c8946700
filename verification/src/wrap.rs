//! Wrapping the words of a text into lines of a given length.
use crate::text::{
    byte_len, bytes_in, chars_of, join, joined, split, split_at_each, string_of, string_views, views,
};
use vstd::prelude::*;
use vstd::string::StringExecFns;

verus! {

/// The lines after one more word: it goes after the last line and a space
/// where the two together take fewer bytes than `limit`, and on a new line
/// where they do not.
pub open spec fn wrapped_with(lines: Seq<Seq<char>>, word: Seq<char>, limit: int) -> Seq<Seq<char>> {
    if lines.len() > 0 && byte_len(lines.last()) + byte_len(word) < limit {
        lines.drop_last().push(lines.last() + seq![' '] + word)
    } else {
        lines.push(word)
    }
}

/// The lines that the first `n` of `words` are wrapped into.
pub open spec fn wrapped(words: Seq<Seq<char>>, limit: int, n: int) -> Seq<Seq<char>>
    decreases n,
{
    if n <= 0 {
        Seq::empty()
    } else {
        wrapped_with(wrapped(words, limit, n - 1), words[n - 1], limit)
    }
}

/// The text `s` with its words, which single spaces part, wrapped into
/// lines for the length `line_length`: a word joins a line as long as the
/// two take fewer bytes than `line_length - 2`.
pub open spec fn word_wrapped(s: Seq<char>, line_length: int) -> Seq<char> {
    join(wrapped(split(s, ' '), line_length - 2, split(s, ' ').len() as int), seq!['\n'])
}

/// Adds one word to the lines.
pub fn word_wrap_acc(acc: Vec<String>, word: &str, line_length: usize) -> (lines: Vec<String>)
    ensures
        string_views(lines@) == wrapped_with(string_views(acc@), word@, line_length as int),
{
    let mut acc = acc;
    let ghost before = string_views(acc@);
    let length = acc.len();
    let joins = if length != 0 {
        assert(before.last() == acc@[length - 1]@);
        let last = bytes_in(acc[length - 1].as_str());
        let more = bytes_in(word);
        more < line_length && last < line_length - more
    } else {
        false
    };
    if joins {
        let ghost prior = acc@;
        let mut last = acc.pop().unwrap();
        let ghost popped = acc@;
        proof {
            reveal_strlit(" ");
            assert(" "@ =~= seq![' ']);
        }
        last.append(" ");
        last.append(word);
        acc.push(last);
        assert(string_views(popped) =~= before.drop_last());
        assert(string_views(acc@) =~= string_views(popped).push(last@));
    } else {
        let ghost prior = acc@;
        let w = word.to_owned();
        acc.push(w);
        assert(string_views(acc@) =~= string_views(prior).push(w@));
    }
    acc
}

/// Wraps the words of `s` into lines for the length `line_length`.
pub fn word_wrap(s: &str, line_length: usize) -> (r: String)
    requires
        line_length >= 2,
    ensures
        r@ == word_wrapped(s@, line_length as int),
{
    let words = split_at_each(&chars_of(s), ' ');
    let mut lines: Vec<String> = Vec::new();
    let mut i: usize = 0;
    assert(string_views(lines@) =~= wrapped(views(words@), line_length - 2, 0));
    while i < words.len()
        invariant
            i <= words.len(),
            line_length >= 2,
            string_views(lines@) == wrapped(views(words@), line_length - 2, i as int),
        decreases words.len() - i,
    {
        assert(views(words@)[i as int] == words@[i as int]@);
        let word = string_of(&words[i]);
        lines = word_wrap_acc(lines, word.as_str(), line_length - 2);
        i += 1;
    }
    let mut parts: Vec<Vec<char>> = Vec::new();
    let mut k: usize = 0;
    while k < lines.len()
        invariant
            k <= lines.len(),
            views(parts@) == string_views(lines@).take(k as int),
        decreases lines.len() - k,
    {
        let ghost prior = parts@;
        let part = chars_of(lines[k].as_str());
        parts.push(part);
        assert(views(parts@) =~= views(prior).push(part@));
        assert(string_views(lines@).take(k + 1) =~= string_views(lines@).take(k as int).push(
            lines@[k as int]@,
        ));
        k += 1;
    }
    assert(string_views(lines@).take(lines.len() as int) == string_views(lines@));
    let mut sep: Vec<char> = Vec::new();
    sep.push('\n');
    assert(sep@ =~= seq!['\n']);
    string_of(&joined(&parts, &sep))
}

/// The block of a template whose text is wrapped.
pub struct WordWrapBlock {
    /// The length of a line.
    pub max: usize,
    /// Whether the text is left as it is.
    pub disabled: bool,
}

/// The block that wraps for the length `max`, or not at all.
pub fn new(max: usize, disabled: bool) -> (block: WordWrapBlock)
    ensures
        block.max == max,
        block.disabled == disabled,
{
    WordWrapBlock { max, disabled }
}

impl WordWrapBlock {
    /// What the block writes for the text `unwrapped` that was rendered
    /// inside it.
    pub fn call(&self, unwrapped: &str) -> (out: String)
        requires
            !self.disabled ==> self.max >= 2,
        ensures
            out@ == if self.disabled {
                unwrapped@
            } else {
                word_wrapped(unwrapped@, self.max as int)
            },
    {
        if self.disabled {
            unwrapped.to_owned()
        } else {
            word_wrap(unwrapped, self.max)
        }
    }
}

} // verus!
