//! The grammar of a commit message, line by line: the first line
//! `type(scope)!: description`, and a footer line `Token: value` or
//! `Token #value`.
use crate::pattern::opt_view;
use crate::text::{
    chars_of, find, find_from, is_letter, char_is_letter, lemma_find, same, slice, string_of,
};
use vstd::prelude::*;

verus! {

/// The number of letters that `s` begins with.
pub open spec fn letters(s: Seq<char>) -> int
    decreases s.len(),
{
    if s.len() > 0 && is_letter(s[0]) {
        1 + letters(s.skip(1))
    } else {
        0
    }
}

pub proof fn lemma_letters_is(s: Seq<char>, i: int)
    requires
        0 <= i <= s.len(),
        forall|k: int| 0 <= k < i ==> is_letter(#[trigger] s[k]),
        i < s.len() ==> !is_letter(s[i]),
    ensures
        letters(s) == i,
    decreases i,
{
    if i > 0 {
        assert(is_letter(s[0]));
        let t = s.skip(1);
        assert forall|k: int| 0 <= k < i - 1 implies is_letter(#[trigger] t[k]) by {
            assert(t[k] == s[k + 1]);
        }
        lemma_letters_is(t, i - 1);
    }
}

/// Whether `s` holds no `c`.
pub open spec fn lacks(s: Seq<char>, c: char) -> bool {
    forall|k: int| 0 <= k < s.len() ==> s[k] != c
}

/// Whether the part of `v` from `from` up to `to` holds no `c`.
pub fn lacks_between(v: &Vec<char>, from: usize, to: usize, c: char) -> (r: bool)
    requires
        from <= to <= v.len(),
    ensures
        r == lacks(v@.subrange(from as int, to as int), c),
{
    let mut i: usize = from;
    while i < to
        invariant
            from <= i <= to <= v.len(),
            forall|k: int| from <= k < i ==> v@[k] != c,
        decreases to - i,
    {
        if v[i] == c {
            assert(v@.subrange(from as int, to as int)[i - from] == c);
            return false;
        }
        i += 1;
    }
    true
}

/// What the first line of a conventional commit says.
#[derive(Debug, PartialEq, Eq, Clone)]
pub struct FirstLine {
    pub ty: String,
    pub scope: Option<String>,
    pub breaking: bool,
    pub description: String,
}

pub struct FirstLineModel {
    pub ty: Seq<char>,
    pub scope: Option<Seq<char>>,
    pub breaking: bool,
    pub description: Seq<char>,
}

impl View for FirstLine {
    type V = FirstLineModel;

    open spec fn view(&self) -> FirstLineModel {
        FirstLineModel {
            ty: self.ty@,
            scope: opt_view(self.scope),
            breaking: self.breaking,
            description: self.description@,
        }
    }
}

pub open spec fn first_line_view(o: Option<FirstLine>) -> Option<FirstLineModel> {
    match o {
        Some(f) => Some(f@),
        None => None,
    }
}

/// Whether `s` can stand between the brackets after the type: it is not
/// empty and holds no bracket, carriage return or line feed.
pub open spec fn is_scope_text(s: Seq<char>) -> bool {
    s.len() > 0 && lacks(s, '(') && lacks(s, ')') && lacks(s, '\r') && lacks(s, '\n')
}

/// Whether `s` can be a description: it is not empty and holds neither a
/// carriage return nor a line feed.
pub open spec fn is_description_text(s: Seq<char>) -> bool {
    s.len() > 0 && lacks(s, '\r') && lacks(s, '\n')
}

/// The first line of a conventional commit: one or more letters, the type;
/// then, optionally, the scope in round brackets; then, optionally, `!`; then
/// a colon, a space and the description, up to the end of the line.
pub open spec fn first_line(s: Seq<char>) -> Option<FirstLineModel> {
    let t = letters(s);
    let scoped = t < s.len() && s[t] == '(';
    let close = if scoped {
        t + 1 + find(s.skip(t + 1), ')')
    } else {
        t
    };
    let scope = if scoped {
        s.subrange(t + 1, close)
    } else {
        Seq::empty()
    };
    let p = if scoped {
        close + 1
    } else {
        t
    };
    let breaking = p < s.len() && s[p] == '!';
    let q = if breaking {
        p + 1
    } else {
        p
    };
    let description = s.skip(q + 2);
    if t > 0 && (scoped ==> close < s.len() && is_scope_text(scope)) && q + 2 < s.len() && s[q]
        == ':' && s[q + 1] == ' ' && is_description_text(description) {
        Some(
            FirstLineModel {
                ty: s.take(t),
                scope: if scoped {
                    Some(scope)
                } else {
                    None
                },
                breaking,
                description,
            },
        )
    } else {
        None
    }
}

/// Reads `line` as the first line of a conventional commit.
pub fn parse_first_line(line: &Vec<char>) -> (r: Option<FirstLine>)
    ensures
        first_line_view(r) == first_line(line@),
{
    let n = line.len();
    let mut t: usize = 0;
    while t < n && char_is_letter(line[t])
        invariant
            t <= n == line.len(),
            forall|k: int| 0 <= k < t ==> is_letter(#[trigger] line@[k]),
        decreases n - t,
    {
        t += 1;
    }
    proof {
        lemma_letters_is(line@, t as int);
    }
    if t == 0 {
        return None;
    }
    let scoped = t < n && line[t] == '(';
    let mut scope: Option<String> = None;
    let mut p: usize = t;
    if scoped {
        let close = find_from(line, t + 1, ')');
        if close >= n {
            return None;
        }
        proof {
            lemma_find(line@.skip(t + 1), ')');
            let inside = line@.subrange(t + 1, close as int);
            assert forall|k: int| 0 <= k < inside.len() implies #[trigger] inside[k] != ')' by {
                assert(line@.skip(t + 1)[k] == line@[t + 1 + k]);
            }
        }
        if close == t + 1 || !lacks_between(line, t + 1, close, '(') || !lacks_between(
            line,
            t + 1,
            close,
            '\r',
        ) || !lacks_between(line, t + 1, close, '\n') {
            return None;
        }
        let inner = slice(line, t + 1, close);
        scope = Some(string_of(&inner));
        p = close + 1;
    }
    let breaking = p < n && line[p] == '!';
    let q: usize = if breaking {
        p + 1
    } else {
        p
    };
    if n < 3 || q >= n - 2 || line[q] != ':' || line[q + 1] != ' ' {
        return None;
    }
    assert(line@.skip(q + 2) == line@.subrange(q + 2, n as int));
    if !lacks_between(line, q + 2, n, '\r') || !lacks_between(line, q + 2, n, '\n') {
        return None;
    }
    let ty = slice(line, 0, t);
    let description = slice(line, q + 2, n);
    assert(line@.take(t as int) == line@.subrange(0, t as int));
    Some(
        FirstLine {
            ty: string_of(&ty),
            scope,
            breaking,
            description: string_of(&description),
        },
    )
}

/// Whether the character of `s` at `k` can stand there in a token: it is a
/// letter, or a hyphen that no hyphen follows.
pub open spec fn token_char(s: Seq<char>, k: int) -> bool {
    (is_letter(s[k]) || s[k] == '-') && !(k + 1 < s.len() && s[k] == '-' && s[k + 1] == '-')
}

/// Whether `s` is a footer token: groups of letters with one hyphen between
/// each two.
pub open spec fn is_token(s: Seq<char>) -> bool {
    &&& s.len() > 0
    &&& is_letter(s[0])
    &&& is_letter(s.last())
    &&& forall|k: int| 0 <= k < s.len() ==> #[trigger] token_char(s, k)
}

/// Whether the first `to` characters of `v` are a footer token.
pub fn token_upto(v: &Vec<char>, to: usize) -> (r: bool)
    requires
        to <= v.len(),
    ensures
        r == is_token(v@.take(to as int)),
{
    let ghost s = v@.take(to as int);
    if to == 0 || !char_is_letter(v[0]) || !char_is_letter(v[to - 1]) {
        return false;
    }
    let mut k: usize = 0;
    while k < to
        invariant
            k <= to <= v.len(),
            s == v@.take(to as int),
            forall|j: int| 0 <= j < k ==> #[trigger] token_char(s, j),
        decreases to - k,
    {
        let c = v[k];
        if !(char_is_letter(c) || c == '-') || (k + 1 < to && c == '-' && v[k + 1] == '-') {
            assert(!token_char(s, k as int));
            return false;
        }
        k += 1;
    }
    true
}

/// The words of the breaking-change footer key.
pub open spec fn breaking_change_words() -> Seq<char> {
    seq!['B', 'R', 'E', 'A', 'K', 'I', 'N', 'G', ' ', 'C', 'H', 'A', 'N', 'G', 'E']
}

/// A footer line, as its key and its value: a token, or the words
/// `BREAKING CHANGE`, then a colon and a space; or a token, then a space and
/// `#`. The value is what follows, and is not empty.
pub open spec fn footer_line(s: Seq<char>) -> Option<(Seq<char>, Seq<char>)> {
    let k = find(s, ':');
    let j = find(s, ' ');
    if k + 2 < s.len() && s[k + 1] == ' ' && (is_token(s.take(k)) || s.take(k)
        == breaking_change_words()) {
        Some((s.take(k), s.skip(k + 2)))
    } else if j + 2 < s.len() && s[j + 1] == '#' && is_token(s.take(j)) {
        Some((s.take(j), s.skip(j + 2)))
    } else {
        None
    }
}

pub open spec fn pair_view(o: Option<(Vec<char>, Vec<char>)>) -> Option<(Seq<char>, Seq<char>)> {
    match o {
        Some((k, v)) => Some((k@, v@)),
        None => None,
    }
}

/// Reads `line` as a footer line.
pub fn parse_footer_line(line: &Vec<char>) -> (r: Option<(Vec<char>, Vec<char>)>)
    ensures
        pair_view(r) == footer_line(line@),
{
    let n = line.len();
    let k = find_from(line, 0, ':');
    let j = find_from(line, 0, ' ');
    assert(line@.skip(0) == line@);
    if n >= 3 && k < n - 2 && line[k + 1] == ' ' {
        let key = slice(line, 0, k);
        assert(line@.take(k as int) == line@.subrange(0, k as int));
        let words = chars_of("BREAKING CHANGE");
        proof {
            reveal_strlit("BREAKING CHANGE");
            assert(words@ =~= breaking_change_words());
        }
        if token_upto(line, k) || same(&key, &words) {
            assert(line@.skip(k + 2) == line@.subrange(k + 2, n as int));
            return Some((key, slice(line, k + 2, n)));
        }
    }
    if n >= 3 && j < n - 2 && line[j + 1] == '#' && token_upto(line, j) {
        assert(line@.take(j as int) == line@.subrange(0, j as int));
        assert(line@.skip(j + 2) == line@.subrange(j + 2, n as int));
        return Some((slice(line, 0, j), slice(line, j + 2, n)));
    }
    None
}

/// Whether every character of `s` is a letter.
pub open spec fn all_letters(s: Seq<char>) -> bool {
    forall|k: int| 0 <= k < s.len() ==> is_letter(#[trigger] s[k])
}

/// The line `type(scope)!: description`.
pub open spec fn marked_line(ty: Seq<char>, scope: Seq<char>, description: Seq<char>) -> Seq<char> {
    ty + seq!['('] + scope + seq![')', '!', ':', ' '] + description
}

/// A first line with a type, a scope in brackets, the mark `!`, a colon, a
/// space and a description is read as a breaking change with this type,
/// this scope and this description.
pub proof fn law_marked_first_line(ty: Seq<char>, scope: Seq<char>, description: Seq<char>)
    requires
        ty.len() > 0,
        all_letters(ty),
        is_scope_text(scope),
        is_description_text(description),
    ensures
        first_line(marked_line(ty, scope, description)) == Some(
            FirstLineModel { ty, scope: Some(scope), breaking: true, description },
        ),
{
    let s = marked_line(ty, scope, description);
    let t = ty.len() as int;
    assert forall|k: int| 0 <= k < t implies is_letter(#[trigger] s[k]) by {
        assert(s[k] == ty[k]);
    }
    assert(s[t] == '(');
    lemma_letters_is(s, t);
    let rest = s.skip(t + 1);
    let n = scope.len() as int;
    assert forall|k: int| 0 <= k < n implies rest[k] != ')' by {
        assert(rest[k] == scope[k]);
    }
    assert(rest[n] == ')');
    crate::text::lemma_find_is(rest, ')', n);
    let close = t + 1 + n;
    assert(s.subrange(t + 1, close) =~= scope);
    assert(s[close + 1] == '!');
    assert(s[close + 2] == ':');
    assert(s[close + 3] == ' ');
    assert(s.skip(close + 4) =~= description);
    assert(s.take(t) =~= ty);
}

/// A footer line whose key is the words `BREAKING CHANGE` or the token
/// `BREAKING-CHANGE` is read with this key and with the value after the
/// colon and the space.
pub proof fn lemma_breaking_footer_lines(value: Seq<char>)
    requires
        value.len() > 0,
    ensures
        footer_line(breaking_change_words() + seq![':', ' '] + value) == Some(
            (breaking_change_words(), value),
        ),
        footer_line(breaking_change_token() + seq![':', ' '] + value) == Some(
            (breaking_change_token(), value),
        ),
{
    let a = breaking_change_words() + seq![':', ' '] + value;
    crate::text::lemma_find_is(a, ':', 15);
    assert(a.take(15) =~= breaking_change_words());
    assert(a.skip(17) =~= value);
    let b = breaking_change_token() + seq![':', ' '] + value;
    crate::text::lemma_find_is(b, ':', 15);
    assert(b.take(15) =~= breaking_change_token());
    assert(b.skip(17) =~= value);
    let tok = breaking_change_token();
    assert forall|k: int| 0 <= k < tok.len() implies #[trigger] token_char(tok, k) by {}
    assert(is_token(tok));
}

/// The token `BREAKING-CHANGE`.
pub open spec fn breaking_change_token() -> Seq<char> {
    seq!['B', 'R', 'E', 'A', 'K', 'I', 'N', 'G', '-', 'C', 'H', 'A', 'N', 'G', 'E']
}

} // verus!
