//! Git provenance of a run: the commit, the origin remote, dirtiness and the
//! directory of the run inside the working tree.
use vstd::prelude::*;
use vstd::string::*;
use crate::text::{find_char, first_index};

verus! {

/// The origin remote URL, as git-url-parse splits it.
pub struct RemoteUrl {
    pub host: Option<String>,
    pub path: String,
    /// The `owner/repo` name and the repository name, when the path has that shape.
    pub provider: Option<(String, String)>,
}

/// The host and path that git-url-parse finds in a remote URL, with the
/// `owner/repo` name and the repository name that its generic provider reads
/// from the path; `None` when it rejects the URL.
pub uninterp spec fn git_url_parts(url: Seq<char>) -> Option<
    (Option<Seq<char>>, Seq<char>, Option<(Seq<char>, Seq<char>)>),
>;

/// What `path` is relative to `base`, component by component, or `None` when
/// `base` is not a prefix of it.
pub uninterp spec fn relative_path(path: Seq<char>, base: Seq<char>) -> Option<Seq<char>>;

pub open spec fn pair_view(o: Option<(String, String)>) -> Option<(Seq<char>, Seq<char>)> {
    match o {
        Some(p) => Some((p.0@, p.1@)),
        None => None,
    }
}

pub open spec fn opt_view(o: Option<String>) -> Option<Seq<char>> {
    match o {
        Some(s) => Some(s@),
        None => None,
    }
}

/// Where the text after the `://` of an ssh-scheme URL starts: the text before
/// the first `:` contains `ssh` and `//` follows that `:`.
pub open spec fn ssh_scheme_end(u: Seq<char>) -> Option<int> {
    match first_index(u, ':') {
        Some(k) => if k + 3 <= u.len() && u[k + 1] == '/' && u[k + 2] == '/' && exists|i: int|
            0 <= i && i + 3 <= k && #[trigger] u[i] == 's' && u[i + 1] == 's' && u[i + 2] == 'h' {
            Some(k + 3)
        } else {
            None
        },
        None => None,
    }
}

/// An ASCII letter or digit, or one of `-._~/:@`.
pub open spec fn ssh_rest_char(c: char) -> bool {
    ('a' <= c <= 'z') || ('A' <= c <= 'Z') || ('0' <= c <= '9') || c == '-' || c == '.' || c
        == '_' || c == '~' || c == '/' || c == ':' || c == '@'
}

/// What follows `ssh://` reads as an authority and a non-empty path: it holds
/// a `/`, only characters of `ssh_rest_char`, and no `:` before an `@`.
pub open spec fn readable_ssh_rest(r: Seq<char>) -> bool {
    &&& forall|i: int| 0 <= i < r.len() ==> ssh_rest_char(#[trigger] r[i])
    &&& r.contains('/')
    &&& forall|i: int, j: int| 0 <= i < j < r.len() ==> !(#[trigger] r[i] == ':' && #[trigger] r[j] == '@')
}

/// Whether git-url-parse reads the URL without panicking. For a URL whose
/// scheme contains `ssh` it drops the first byte of the path it found, which
/// panics when that path is empty or starts with a multi-byte character; any
/// other URL is safe.
pub open spec fn parse_safe(u: Seq<char>) -> bool {
    match ssh_scheme_end(u) {
        Some(e) => readable_ssh_rest(u.subrange(e, u.len() as int)),
        None => true,
    }
}

fn ssh_rest_char_exec(c: char) -> (r: bool)
    ensures
        r == ssh_rest_char(c),
{
    ('a' <= c && c <= 'z') || ('A' <= c && c <= 'Z') || ('0' <= c && c <= '9') || c == '-' || c
        == '.' || c == '_' || c == '~' || c == '/' || c == ':' || c == '@'
}

/// Tests `parse_safe`.
pub fn is_parse_safe(u: &str) -> (r: bool)
    ensures
        r == parse_safe(u@),
{
    let n = u.unicode_len();
    let k = match find_char(u, ':') {
        None => return true,
        Some(k) => k,
    };
    if n - k < 3 || u.get_char(k + 1) != '/' || u.get_char(k + 2) != '/' {
        return true;
    }
    let mut i: usize = 0;
    let mut found = false;
    while k >= 3 && i <= k - 3 && !found
        invariant
            n == u@.len(),
            k < n,
            found ==> exists|x: int|
                0 <= x && x + 3 <= k && #[trigger] u@[x] == 's' && u@[x + 1] == 's' && u@[x + 2]
                    == 'h',
            !found ==> forall|x: int|
                0 <= x < i ==> !(#[trigger] u@[x] == 's' && u@[x + 1] == 's' && u@[x + 2] == 'h'),
        decreases k + 1 - i, (if found { 0int } else { 1int }),
    {
        if u.get_char(i) == 's' && u.get_char(i + 1) == 's' && u.get_char(i + 2) == 'h' {
            found = true;
        } else {
            i = i + 1;
        }
    }
    if !found {
        proof {
            if exists|x: int|
                0 <= x && x + 3 <= k && #[trigger] u@[x] == 's' && u@[x + 1] == 's' && u@[x + 2]
                    == 'h' {
                let x = choose|x: int|
                    0 <= x && x + 3 <= k && #[trigger] u@[x] == 's' && u@[x + 1] == 's' && u@[x
                        + 2] == 'h';
                assert(x < i);
            }
        }
        return true;
    }
    let e = k + 3;
    proof {
        assert(ssh_scheme_end(u@) == Some(e as int));
    }
    readable_rest(u, e)
}

fn readable_rest(u: &str, e: usize) -> (r: bool)
    requires
        e <= u@.len(),
    ensures
        r == readable_ssh_rest(u@.subrange(e as int, u@.len() as int)),
{
    let n = u.unicode_len();
    let ghost r = u@.subrange(e as int, n as int);
    let mut t: usize = e;
    let mut colon = false;
    let mut slash = false;
    while t < n
        invariant
            n == u@.len(),
            e <= t <= n,
            r == u@.subrange(e as int, n as int),
            forall|x: int| 0 <= x < t - e ==> ssh_rest_char(#[trigger] r[x]),
            colon == exists|x: int| 0 <= x < t - e && #[trigger] r[x] == ':',
            slash == exists|x: int| 0 <= x < t - e && #[trigger] r[x] == '/',
            forall|x: int, y: int|
                0 <= x < y < t - e ==> !(#[trigger] r[x] == ':' && #[trigger] r[y] == '@'),
        decreases n - t,
    {
        let c = u.get_char(t);
        proof {
            assert(r[t - e] == c);
        }
        if !ssh_rest_char_exec(c) {
            return false;
        }
        if c == '@' && colon {
            proof {
                let x = choose|x: int| 0 <= x < t - e && #[trigger] r[x] == ':';
                assert(r[x] == ':' && r[t - e] == '@');
            }
            return false;
        }
        if c == ':' {
            colon = true;
        }
        if c == '/' {
            slash = true;
        }
        t = t + 1;
    }
    proof {
        if slash {
            let x = choose|x: int| 0 <= x < t - e && #[trigger] r[x] == '/';
            assert(r.contains('/'));
        }
    }
    slash
}

/// Relies on `git_url_parse::GitUrl::parse`, its `host` and `path` getters, and
/// `GitUrl::provider_info::<GenericProvider>` with `fullname` and `repo`: the
/// result depends on the URL text alone. Only URLs that `parse` reads without
/// panicking are handed over (see `parse_safe`).
#[verifier::external_body]
fn parse_git_url(url: &str) -> (r: Option<RemoteUrl>)
    requires
        parse_safe(url@),
    ensures
        match r {
            Some(u) => git_url_parts(url@) == Some((opt_view(u.host), u.path@, pair_view(u.provider))),
            None => git_url_parts(url@) is None,
        },
{
    let u = git_url_parse::GitUrl::parse(url).ok()?;
    let provider = u
        .provider_info::<git_url_parse::types::provider::GenericProvider>()
        .ok()
        .map(|p| (p.fullname(), p.repo().clone()));
    Some(RemoteUrl { host: u.host().map(|h| h.to_owned()), path: u.path().to_owned(), provider })
}

/// Relies on `std::path::Path::strip_prefix`: the result depends on the two paths alone.
#[verifier::external_body]
fn strip_dir_prefix(path: &str, base: &str) -> (r: Option<String>)
    ensures
        match r {
            Some(t) => relative_path(path@, base@) == Some(t@),
            None => relative_path(path@, base@) is None,
        },
{
    std::path::Path::new(path).strip_prefix(base).ok().and_then(|p| p.to_str()).map(|p| p.to_owned())
}

/// Why the git state of a run could not be read.
#[derive(Clone, Copy, Debug, PartialEq, Eq, Structural)]
pub enum GitError {
    NoRepository,
    NoHead,
    NoOrigin,
    /// The changes between HEAD and the working tree could not be read.
    Status,
    OriginNotUtf8,
    MalformedUrl,
    Bare,
    OutsideWorkdir,
}

/// One snapshot of the repository a run starts in.
pub struct GitInfo {
    /// The HEAD commit id in hexadecimal.
    pub commit: String,
    pub origin_url: RemoteUrl,
    pub is_dirty: bool,
    /// The run's directory relative to the top of the working tree.
    pub current_dir: String,
}

/// `p` without one leading `/`.
pub open spec fn without_leading_slash(p: Seq<char>) -> Seq<char> {
    if p.len() > 0 && p[0] == '/' {
        p.drop_first()
    } else {
        p
    }
}

/// The repository's path on its host: the `owner/repo` name when the
/// provider read one, else the path without its leading `/`.
pub open spec fn repo_path(u: RemoteUrl) -> Seq<char> {
    match u.provider {
        Some(p) => p.0@,
        None => without_leading_slash(u.path@),
    }
}

/// The address at which the repository can be browsed: `https://{host}/{path}`.
pub open spec fn browse_url(host: Seq<char>, path: Seq<char>) -> Seq<char> {
    "https://"@ + host + "/"@ + path
}

fn without_leading_slash_of(p: &str) -> (r: &str)
    ensures
        r@ == without_leading_slash(p@),
{
    let n = p.unicode_len();
    if n > 0 && p.get_char(0) == '/' {
        proof {
            assert(p@.subrange(1, n as int) =~= p@.drop_first());
        }
        p.substring_char(1, n)
    } else {
        proof {
            assert(p@.subrange(0, n as int) =~= p@);
        }
        p.substring_char(0, n)
    }
}

impl GitInfo {
    /// Builds the snapshot from what the repository reports: the HEAD commit
    /// id, the origin URL (`None` when it is not valid UTF-8), the number of
    /// paths that differ between HEAD and the working tree (untracked files
    /// included), the working tree's top directory (`None` for a bare
    /// repository) and the directory the run starts in.
    pub fn new(
        commit: String,
        origin_url: Option<String>,
        changed_paths: usize,
        workdir: Option<String>,
        current_dir: &str,
    ) -> (r: Result<GitInfo, GitError>)
        ensures
            origin_url is None ==> r == Err::<GitInfo, GitError>(GitError::OriginNotUtf8),
            origin_url matches Some(u) ==> !parse_safe(u@) ==> r == Err::<GitInfo, GitError>(
                GitError::MalformedUrl,
            ),
            origin_url matches Some(u) ==> parse_safe(u@) ==> match git_url_parts(u@) {
                None => r == Err::<GitInfo, GitError>(GitError::MalformedUrl),
                Some(parts) => match workdir {
                    None => r == Err::<GitInfo, GitError>(GitError::Bare),
                    Some(w) => match relative_path(current_dir@, w@) {
                        None => r == Err::<GitInfo, GitError>(GitError::OutsideWorkdir),
                        Some(rel) => r matches Ok(g) && g.commit == commit && opt_view(
                            g.origin_url.host,
                        ) == parts.0 && g.origin_url.path@ == parts.1 && pair_view(g.origin_url.provider) == parts.2 && g.is_dirty == (
                        changed_paths > 0) && g.current_dir@ == rel,
                    },
                },
            },
    {
        let url = match origin_url {
            None => return Err(GitError::OriginNotUtf8),
            Some(u) => u,
        };
        if !is_parse_safe(url.as_str()) {
            return Err(GitError::MalformedUrl);
        }
        let origin_url = match parse_git_url(url.as_str()) {
            None => return Err(GitError::MalformedUrl),
            Some(o) => o,
        };
        let is_dirty = changed_paths > 0;
        let rootdir = match workdir {
            None => return Err(GitError::Bare),
            Some(w) => w,
        };
        let current_dir = match strip_dir_prefix(current_dir, rootdir.as_str()) {
            None => return Err(GitError::OutsideWorkdir),
            Some(d) => d,
        };
        Ok(GitInfo { commit, origin_url, is_dirty, current_dir })
    }

    /// The repository's name, when the provider read the path as `owner/repo`.
    pub fn repository_name(&self) -> (r: Option<String>)
        ensures
            opt_view(r) == match self.origin_url.provider {
                Some(p) => Some(p.1@),
                None => None,
            },
    {
        match &self.origin_url.provider {
            Some(p) => Some(p.1.clone()),
            None => None,
        }
    }

    /// The address at which the repository can be browsed, when the origin has a host.
    pub fn https_url(&self) -> (r: Option<String>)
        ensures
            match self.origin_url.host {
                Some(h) => r matches Some(u) && u@ == browse_url(h@, repo_path(self.origin_url)),
                None => r is None,
            },
    {
        match &self.origin_url.host {
            None => None,
            Some(h) => {
                let mut u = "https://".to_owned();
                u.append(h.as_str());
                u.append("/");
                match &self.origin_url.provider {
                    Some(p) => u.append(p.0.as_str()),
                    None => u.append(without_leading_slash_of(self.origin_url.path.as_str())),
                }
                proof {
                    reveal_strlit("https://");
                    reveal_strlit("/");
                }
                Some(u)
            },
        }
    }
}

} // verus!
