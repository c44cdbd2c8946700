//! Where a repository is hosted: the host, the owner and the name of the
//! repository, read from the address of its remote.
use crate::config::{Config, ConfigModel};
use crate::pattern::opt_view;
use crate::text::{chars_of, char_is_digit, ends_with, find, find_from, find_text, find_text_in, has_suffix, is_digit, same, slice, string_of};
use vstd::prelude::*;
use vstd::string::StringExecFns;

verus! {

/// What is read of an address: its scheme, its host if it has one, and its
/// path.
pub struct UrlParts {
    pub scheme: String,
    pub host: Option<String>,
    pub path: String,
}

/// The scheme, the host and the path of the address `text`; none where it
/// is no address.
pub uninterp spec fn url_parts(text: Seq<char>) -> Option<(Seq<char>, Option<Seq<char>>, Seq<char>)>;

pub open spec fn parts_view(r: Option<UrlParts>) -> Option<
    (Seq<char>, Option<Seq<char>>, Seq<char>),
> {
    match r {
        Some(p) => Some((p.scheme@, opt_view(p.host), p.path@)),
        None => None,
    }
}

/// `Url::parse`, and of the address it gives `Url::scheme`, `Url::host` as
/// it is written, and `Url::path`; none where it gives an error.
#[verifier::external_body]
fn parse_url(text: &str) -> (r: Option<UrlParts>)
    ensures
        parts_view(r) == url_parts(text@),
{
    url::Url::parse(text).ok().map(
        |u|
            UrlParts {
                scheme: u.scheme().to_owned(),
                host: u.host().map(|h| h.to_string()),
                path: u.path().to_owned(),
            },
    )
}

/// The index of the last `c` among the first `n` characters of `s`; -1
/// where there is none.
pub open spec fn find_last(s: Seq<char>, c: char, n: int) -> int
    decreases n,
{
    if n <= 0 {
        -1
    } else if s[n - 1] == c {
        n - 1
    } else {
        find_last(s, c, n - 1)
    }
}

/// `s` without the `c` that it begins with, however many.
pub open spec fn without_leading(s: Seq<char>, c: char) -> Seq<char>
    decreases s.len(),
{
    if s.len() > 0 && s[0] == c {
        without_leading(s.skip(1), c)
    } else {
        s
    }
}

/// `s` without `suffix` at its end, as often as it stands there.
pub open spec fn without_suffix(s: Seq<char>, suffix: Seq<char>) -> Seq<char>
    decreases s.len(),
{
    if suffix.len() > 0 && has_suffix(s, suffix) {
        without_suffix(s.take(s.len() - suffix.len()), suffix)
    } else {
        s
    }
}

/// The scheme that a host is shown with: `https` in place of the scheme that
/// `normalized` puts in front of an address without one.
pub open spec fn shown_scheme(scheme: Seq<char>) -> Seq<char> {
    if scheme == "scheme"@ {
        "https"@
    } else {
        scheme
    }
}

/// The host, the owner and the repository that the parts of an address
/// stand for. The host is shown with its scheme. The path is parted at its
/// last slash: the owner is what stands before, without leading slashes, and
/// the repository what stands after, without `.git` at its end.
pub open spec fn host_owner_repo(parts: (Seq<char>, Option<Seq<char>>, Seq<char>)) -> (
    Option<Seq<char>>,
    Option<Seq<char>>,
    Option<Seq<char>>,
) {
    let host = match parts.1 {
        Some(h) => Some(shown_scheme(parts.0) + "://"@ + h),
        None => None,
    };
    let i = find_last(parts.2, '/', parts.2.len() as int);
    if i >= 0 {
        (
            host,
            Some(without_leading(parts.2.take(i), '/')),
            Some(without_suffix(parts.2.skip(i + 1), ".git"@)),
        )
    } else {
        (host, None, None)
    }
}

pub open spec fn triple_view(t: (Option<String>, Option<String>, Option<String>)) -> (
    Option<Seq<char>>,
    Option<Seq<char>>,
    Option<Seq<char>>,
) {
    (opt_view(t.0), opt_view(t.1), opt_view(t.2))
}

fn strip_leading(v: &Vec<char>, c: char) -> (r: Vec<char>)
    ensures
        r@ == without_leading(v@, c),
{
    let mut i: usize = 0;
    assert(v@.skip(0) == v@);
    while i < v.len() && v[i] == c
        invariant
            i <= v.len(),
            without_leading(v@, c) == without_leading(v@.skip(i as int), c),
        decreases v.len() - i,
    {
        assert(v@.skip(i as int).skip(1) == v@.skip(i + 1));
        i += 1;
    }
    assert(v@.skip(i as int) == v@.subrange(i as int, v.len() as int));
    slice(v, i, v.len())
}

fn strip_suffix(v: &Vec<char>, suffix: &Vec<char>) -> (r: Vec<char>)
    ensures
        r@ == without_suffix(v@, suffix@),
{
    let mut n: usize = v.len();
    let mut cur = slice(v, 0, n);
    assert(cur@ =~= v@);
    while suffix.len() > 0 && ends_with(&cur, suffix)
        invariant
            without_suffix(v@, suffix@) == without_suffix(cur@, suffix@),
        decreases cur@.len(),
    {
        let m = cur.len() - suffix.len();
        assert(cur@.take(m as int) == cur@.subrange(0, m as int));
        cur = slice(&cur, 0, m);
    }
    cur
}

/// The host, the owner and the repository that `parts` stand for.
pub fn host_info_from_parts(parts: &UrlParts) -> (r: (Option<String>, Option<String>, Option<String>))
    ensures
        triple_view(r) == host_owner_repo((parts.scheme@, opt_view(parts.host), parts.path@)),
{
    let scheme = chars_of(parts.scheme.as_str());
    let shown = if same(&scheme, &chars_of("scheme")) {
        "https".to_owned()
    } else {
        parts.scheme.clone()
    };
    let host = match &parts.host {
        Some(h) => Some(shown.concat("://").concat(h.as_str())),
        None => None,
    };
    let path = chars_of(parts.path.as_str());
    let mut n: usize = path.len();
    while n > 0 && path[n - 1] != '/'
        invariant
            n <= path.len(),
            find_last(path@, '/', path@.len() as int) == find_last(path@, '/', n as int),
        decreases n,
    {
        n -= 1;
    }
    if n > 0 {
        let i = n - 1;
        assert(path@.take(i as int) == path@.subrange(0, i as int));
        assert(path@.skip(i + 1) == path@.subrange(i + 1, path.len() as int));
        let owner = strip_leading(&slice(&path, 0, i), '/');
        let repository = strip_suffix(&slice(&path, i + 1, path.len()), &chars_of(".git"));
        (host, Some(string_of(&owner)), Some(string_of(&repository)))
    } else {
        (host, None, None)
    }
}

/// An address that cannot be read.
#[derive(Debug, Clone, Copy, PartialEq, Eq)]
pub struct InvalidUrl;

/// The host, the owner and the repository of the address `url`.
pub fn host_info_from_url(url: &str) -> (r: Result<
    (Option<String>, Option<String>, Option<String>),
    InvalidUrl,
>)
    ensures
        match r {
            Ok(t) => url_parts(url@) is Some && triple_view(t) == host_owner_repo(
                url_parts(url@)->0,
            ),
            Err(_) => url_parts(url@) is None,
        },
{
    match parse_url(url) {
        Some(parts) => Ok(host_info_from_parts(&parts)),
        None => Err(InvalidUrl),
    }
}

/// The address `url` with a scheme: one that holds `://` stays as it is.
/// Else, where it holds a colon, it gets a scheme in front; a digit after
/// the colon begins a port, and anything else a path, for which the colon
/// turns into a slash.
pub open spec fn normalized(url: Seq<char>) -> Seq<char> {
    let colon = find(url, ':');
    if 0 <= find_text(url, "://"@) < url.len() || !(0 <= colon < url.len()) {
        url
    } else if colon + 1 < url.len() && is_digit(url[colon + 1]) {
        "scheme://"@ + url
    } else {
        "scheme://"@ + url.take(colon) + "/"@ + url.skip(colon + 1)
    }
}

pub fn normalize(url: &str) -> (r: String)
    ensures
        r@ == normalized(url@),
{
    let v = chars_of(url);
    let colon = find_from(&v, 0, ':');
    assert(v@.skip(0) == v@);
    if find_text_in(&v, &chars_of("://")) < v.len() || colon >= v.len() {
        url.to_owned()
    } else if colon + 1 < v.len() && char_is_digit(v[colon + 1]) {
        "scheme://".to_owned().concat(url)
    } else {
        assert(v@.take(colon as int) == v@.subrange(0, colon as int));
        assert(v@.skip(colon + 1) == v@.subrange(colon + 1, v.len() as int));
        let before = string_of(&slice(&v, 0, colon));
        let after = string_of(&slice(&v, colon + 1, v.len()));
        "scheme://".to_owned().concat(before.as_str()).concat("/").concat(after.as_str())
    }
}

/// The host, the owner and the repository of a repository whose remote has
/// the address `url`; nothing of a repository without one.
pub fn host_info(url: Option<&str>) -> (r: Result<
    (Option<String>, Option<String>, Option<String>),
    InvalidUrl,
>)
    ensures
        match url {
            None => r is Ok && triple_view(r->Ok_0) == (None::<Seq<char>>, None::<Seq<char>>, None::<Seq<char>>),
            Some(u) => match r {
                Ok(t) => url_parts(normalized(u@)) is Some && triple_view(t) == host_owner_repo(
                    url_parts(normalized(u@))->0,
                ),
                Err(_) => url_parts(normalized(u@)) is None,
            },
        },
{
    match url {
        Some(u) => host_info_from_url(normalize(u).as_str()),
        None => Ok((None, None, None)),
    }
}

/// The configuration `config` completed by what is known of the host.
/// Where it names neither host nor owner nor repository, they are `found`.
/// References are not linked where no host is known or the format of a link
/// to a commit is empty.
pub open spec fn completed(
    config: ConfigModel,
    found: Option<(Option<Seq<char>>, Option<Seq<char>>, Option<Seq<char>>)>,
) -> ConfigModel {
    let fill = config.host is None && config.owner is None && config.repository is None;
    let known = match found {
        Some(t) => if fill {
            t
        } else {
            (config.host, config.owner, config.repository)
        },
        None => (config.host, config.owner, config.repository),
    };
    let (host, owner, repository) = known;
    ConfigModel {
        host,
        owner,
        repository,
        link_references: config.link_references && !(host is None
            || config.commit_url_format.len() == 0),
        ..config
    }
}

pub open spec fn found_view(found: Option<(Option<String>, Option<String>, Option<String>)>) -> Option<
    (Option<Seq<char>>, Option<Seq<char>>, Option<Seq<char>>),
> {
    match found {
        Some(t) => Some(triple_view(t)),
        None => None,
    }
}

/// Completes the configuration that was read by what was found out about
/// the host of the repository, if anything was.
pub fn make_cl_config(config: Config, found: Option<(Option<String>, Option<String>, Option<String>)>) -> (r:
    Config)
    ensures
        r@ == completed(config@, found_view(found)),
{
    let mut config = config;
    if config.host.is_none() && config.owner.is_none() && config.repository.is_none() {
        match found {
            Some((host, owner, repository)) => {
                config.host = host;
                config.owner = owner;
                config.repository = repository;
            },
            None => {},
        }
    }
    if config.host.is_none() || config.commit_url_format.as_str().is_empty() {
        config.link_references = false;
    }
    config
}

} // verus!
