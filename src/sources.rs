//! Upstream sources: classifying a source URL, and turning what an upstream
//! listing returned into the release to update to.
use vstd::prelude::*;
use crate::text::{
    chars_of, contains, find_char_from, find_char_seq, find_seq_from, is_digit, is_digit_char, matches_at, occurs_at, push_all, rfind_char_before, rfind_char_seq, skip_until, skip_until_char, slice_chars, string_of,
};
use crate::version::{
    Release, SemverStrategy, VersionError, best_outcome, extract_version, extract_version_from_tag,
    find_best_release,
};

verus! {

/// Where a package's releases are published.
#[derive(Debug)]
pub enum UpstreamSource {
    GitHub { owner: String, repo: String },
    GitLab { owner: String, project: String },
    PyPI { pname: String },
}

/// A repository on GitHub.
#[derive(Debug)]
pub struct GithubRepo {
    pub owner: String,
    pub repo: String,
}

/// A project on GitLab.
#[derive(Debug)]
pub struct GitlabProject {
    pub owner: String,
    pub project: String,
}

/// A release as the GitHub API lists it.
#[derive(Debug)]
pub struct GithubRelease {
    pub tag_name: String,
    pub _name: Option<String>,
    pub prerelease: bool,
}

/// A tag as the GitHub API lists it.
#[derive(Debug)]
pub struct GithubTag {
    pub name: String,
}

/// A created pull request as the GitHub API reports it.
#[derive(Debug)]
pub struct GithubPullRequest {
    pub html_url: String,
    pub number: i64,
}

/// A release as the GitLab API lists it.
#[derive(Debug)]
pub struct GitlabRelease {
    pub tag_name: String,
    pub _name: Option<String>,
    pub upcoming_release: bool,
}

/// Package metadata from the package index.
#[derive(Debug)]
pub struct PypiInfo {
    pub version: String,
}

/// One uploaded file of a package-index release.
#[derive(Debug)]
pub struct PypiArtifact {
    pub yanked: bool,
}

/// The package index's answer: each version with its files.
#[derive(Debug)]
pub struct PypiResponse {
    pub info: PypiInfo,
    pub releases: Vec<(String, Vec<PypiArtifact>)>,
}

/// What an upstream listing returned.
pub enum ReleaseListing {
    /// The platform's release list.
    GithubReleases(Vec<GithubRelease>),
    GitlabReleases(Vec<GitlabRelease>),
    /// Tags, used where no release list exists: none is a pre-release.
    Tags(Vec<String>),
    /// The package index's versions.
    Pypi(PypiResponse),
}

impl GitlabProject {
    /// The project path with its slash URL-encoded, as the API wants it.
    pub fn encoded_path(&self) -> (r: String)
        ensures
            r@ == self.owner@ + "%2F"@ + self.project@,
    {
        let mut out = chars_of(self.owner.as_str());
        push_all(&mut out, &chars_of("%2F"));
        push_all(&mut out, &chars_of(self.project.as_str()));
        string_of(&out)
    }
}

/// End of a lazily matched repository name that starts at `c`: the first
/// `k > c` before `.git`, or the end `e` of its run of non-slash characters.
pub open spec fn lazy_name_end(s: Seq<char>, k: int, e: int) -> int
    decreases e - k,
{
    if k >= e {
        e
    } else if occurs_at(s, ".git"@, k) {
        k
    } else {
        lazy_name_end(s, k + 1, e)
    }
}

/// Owner and name bounds when `<host>[:/]<owner>/<name>` matches at `p`.
pub open spec fn hosted_at(s: Seq<char>, host: Seq<char>, p: int) -> Option<(int, int, int, int)> {
    let h = p + host.len();
    if !occurs_at(s, host, p) || h >= s.len() || !(s[h] == ':' || s[h] == '/') {
        None
    } else {
        let a = h + 1;
        let b = skip_until(s, '/', a);
        if b <= a || b >= s.len() {
            None
        } else {
            let c = b + 1;
            let e = skip_until(s, '/', c);
            if e <= c {
                None
            } else {
                Some((a, b, c, lazy_name_end(s, c + 1, e)))
            }
        }
    }
}

/// The first match of `<host>[:/]<owner>/<name>` at or after `p`.
pub open spec fn hosted_from(s: Seq<char>, host: Seq<char>, p: int) -> Option<(int, int, int, int)>
    decreases s.len() - p,
{
    if p < 0 || p >= s.len() {
        None
    } else {
        match hosted_at(s, host, p) {
            Some(m) => Some(m),
            None => hosted_from(s, host, p + 1),
        }
    }
}

/// Owner and name that a URL on `host` names, if any.
pub open spec fn hosted_names(s: Seq<char>, host: Seq<char>) -> Option<(Seq<char>, Seq<char>)> {
    match hosted_from(s, host, 0) {
        Some((a, b, c, d)) => Some((s.subrange(a, b), s.subrange(c, d))),
        None => None,
    }
}

fn lazy_name_end_exec(s: &[char], c: usize, e: usize) -> (r: usize)
    requires
        c < e <= s@.len(),
    ensures
        r as int == lazy_name_end(s@, c + 1, e as int),
        c < r <= e,
{
    let git = chars_of(".git");
    let mut k = c + 1;
    while k < e && !matches_at(s, &git, k)
        invariant
            c < k <= e <= s@.len(),
            git@ == ".git"@,
            lazy_name_end(s@, c + 1, e as int) == lazy_name_end(s@, k as int, e as int),
        decreases e - k,
    {
        k += 1;
    }
    k
}

fn hosted_at_exec(s: &[char], host: &[char], p: usize) -> (r: Option<(usize, usize, usize, usize)>)
    requires
        p < s@.len(),
    ensures
        r matches Some(m) ==> hosted_at(s@, host@, p as int) == Some(
            (m.0 as int, m.1 as int, m.2 as int, m.3 as int),
        ) && m.0 <= m.1 && m.2 <= m.3 <= s@.len(),
        r is None ==> hosted_at(s@, host@, p as int) is None,
{
    let n = s.len();
    if !matches_at(s, host, p) {
        return None;
    }
    assert(n == s@.len());
    let h = p + host.len();
    if h >= s.len() || !(s[h] == ':' || s[h] == '/') {
        return None;
    }
    let a = h + 1;
    let b = skip_until_char(s, '/', a);
    if b <= a || b >= s.len() {
        return None;
    }
    let c = b + 1;
    let e = skip_until_char(s, '/', c);
    if e <= c {
        return None;
    }
    let d = lazy_name_end_exec(s, c, e);
    Some((a, b, c, d))
}

fn hosted_names_exec(s: &[char], host: &[char]) -> (r: Option<(Vec<char>, Vec<char>)>)
    ensures
        r matches Some(v) ==> hosted_names(s@, host@) == Some((v.0@, v.1@)),
        r is None ==> hosted_names(s@, host@) is None,
{
    let mut p: usize = 0;
    while p < s.len()
        invariant
            hosted_from(s@, host@, 0) == hosted_from(s@, host@, p as int),
        decreases s@.len() - p,
    {
        match hosted_at_exec(s, host, p) {
            Some((a, b, c, d)) => {
                return Some((slice_chars(s, a, b), slice_chars(s, c, d)));
            },
            None => {},
        }
        p += 1;
    }
    None
}

/// Reads owner and repository from a GitHub URL (HTTPS, SSH, or with a
/// trailing path such as an archive).
pub fn parse_github_url(url: &str) -> (r: Option<GithubRepo>)
    ensures
        r matches Some(g) ==> hosted_names(url@, "github.com"@) == Some((g.owner@, g.repo@)),
        r is None ==> hosted_names(url@, "github.com"@) is None,
{
    match hosted_names_exec(&chars_of(url), &chars_of("github.com")) {
        Some((o, n)) => Some(GithubRepo { owner: string_of(&o), repo: string_of(&n) }),
        None => None,
    }
}

/// Reads owner and project from a GitLab URL.
pub fn parse_gitlab_url(url: &str) -> (r: Option<GitlabProject>)
    ensures
        r matches Some(g) ==> hosted_names(url@, "gitlab.com"@) == Some((g.owner@, g.project@)),
        r is None ==> hosted_names(url@, "gitlab.com"@) is None,
{
    match hosted_names_exec(&chars_of(url), &chars_of("gitlab.com")) {
        Some((o, n)) => Some(GitlabProject { owner: string_of(&o), project: string_of(&n) }),
        None => None,
    }
}

/// Name in a `mirror://pypi/<letter>/<name>/...` URL.
pub open spec fn pypi_mirror_name(s: Seq<char>) -> Option<Seq<char>> {
    if !occurs_at(s, "mirror://pypi/"@, 0) {
        None
    } else {
        match find_char_from(s, '/', 14) {
            Some(d) => Some(s.subrange(d + 1, skip_until(s, '/', d + 1))),
            None => None,
        }
    }
}

/// Name after `pypi.org/project/` or `pypi.python.org/project/` at `p`.
pub open spec fn pypi_project_at(s: Seq<char>, p: int) -> Option<Seq<char>> {
    let start = if occurs_at(s, "pypi.python.org/project/"@, p) {
        p + 24
    } else if occurs_at(s, "pypi.org/project/"@, p) {
        p + 17
    } else {
        -1
    };
    if start < 0 {
        None
    } else {
        let e = skip_until(s, '/', start);
        if e > start {
            Some(s.subrange(start, e))
        } else {
            None
        }
    }
}

pub open spec fn pypi_project_from(s: Seq<char>, p: int) -> Option<Seq<char>>
    decreases s.len() - p,
{
    if p < 0 || p >= s.len() {
        None
    } else {
        match pypi_project_at(s, p) {
            Some(n) => Some(n),
            None => pypi_project_from(s, p + 1),
        }
    }
}

/// Name in a hosted file URL: the file name up to its first `.`, cut at the
/// last `-` when a digit follows it.
pub open spec fn pypi_file_name(s: Seq<char>) -> Option<Seq<char>> {
    if !(contains(s, "pythonhosted.org"@) || contains(s, "pypi.python.org"@)) {
        None
    } else {
        let f = match rfind_char_before(s, '/', s.len() as int) {
            Some(i) => s.subrange(i + 1, s.len() as int),
            None => s,
        };
        let n = f.subrange(0, skip_until(f, '.', 0));
        match rfind_char_before(n, '-', n.len() as int) {
            Some(i) => if i + 1 < n.len() && is_digit(n[i + 1]) {
                Some(n.subrange(0, i))
            } else {
                None
            },
            None => None,
        }
    }
}

/// The package-index name a URL names: mirror form, project page, or file.
pub open spec fn pypi_name(s: Seq<char>) -> Option<Seq<char>> {
    match pypi_mirror_name(s) {
        Some(n) => Some(n),
        None => match pypi_project_from(s, 0) {
            Some(n) => Some(n),
            None => pypi_file_name(s),
        },
    }
}

fn pypi_project_at_exec(s: &[char], p: usize) -> (r: Option<Vec<char>>)
    requires
        p < s@.len(),
    ensures
        r matches Some(n) ==> pypi_project_at(s@, p as int) == Some(n@),
        r is None ==> pypi_project_at(s@, p as int) is None,
{
    let n = s.len();
    assert(n == s@.len());
    let long = chars_of("pypi.python.org/project/");
    let short = chars_of("pypi.org/project/");
    proof {
        reveal_strlit("pypi.python.org/project/");
        reveal_strlit("pypi.org/project/");
    }
    let start = if matches_at(s, &long, p) {
        p + 24
    } else if matches_at(s, &short, p) {
        p + 17
    } else {
        return None;
    };
    let e = skip_until_char(s, '/', start);
    if e > start {
        Some(slice_chars(s, start, e))
    } else {
        None
    }
}

fn pypi_name_exec(s: &[char]) -> (r: Option<Vec<char>>)
    ensures
        r matches Some(n) ==> pypi_name(s@) == Some(n@),
        r is None ==> pypi_name(s@) is None,
{
    let len = s.len();
    assert(len == s@.len());
    let mirror = chars_of("mirror://pypi/");
    proof {
        reveal_strlit("mirror://pypi/");
    }
    if matches_at(s, &mirror, 0) {
        match find_char_seq(s, '/', 14) {
            Some(d) => {
                let e = skip_until_char(s, '/', d + 1);
                return Some(slice_chars(s, d + 1, e));
            },
            None => {},
        }
    }
    let mut p: usize = 0;
    while p < s.len()
        invariant
            pypi_name(s@) == (match pypi_project_from(s@, 0) {
                Some(n) => Some(n),
                None => pypi_file_name(s@),
            }),
            pypi_project_from(s@, 0) == pypi_project_from(s@, p as int),
        decreases s@.len() - p,
    {
        match pypi_project_at_exec(s, p) {
            Some(n) => {
                return Some(n);
            },
            None => {},
        }
        p += 1;
    }
    let hosted = find_seq_from(s, &chars_of("pythonhosted.org"), 0).is_some() || find_seq_from(
        s,
        &chars_of("pypi.python.org"),
        0,
    ).is_some();
    if !hosted {
        return None;
    }
    let f = match rfind_char_seq(s, '/', s.len()) {
        Some(i) => slice_chars(s, i + 1, s.len()),
        None => slice_chars(s, 0, s.len()),
    };
    proof {
        assert(s@.subrange(0, s@.len() as int) =~= s@);
    }
    let dot = skip_until_char(&f, '.', 0);
    let n = slice_chars(&f, 0, dot);
    match rfind_char_seq(&n, '-', n.len()) {
        Some(i) => {
            if i + 1 < n.len() && is_digit_char(n[i + 1]) {
                Some(slice_chars(&n, 0, i))
            } else {
                None
            }
        },
        None => None,
    }
}

/// The source that a URL names: GitHub, then GitLab, then the package index.
pub open spec fn source_of(url: Seq<char>) -> Option<(int, Seq<char>, Seq<char>)> {
    match hosted_names(url, "github.com"@) {
        Some((o, n)) => Some((0, o, n)),
        None => match hosted_names(url, "gitlab.com"@) {
            Some((o, n)) => Some((1, o, n)),
            None => match pypi_name(url) {
                Some(n) => Some((2, n, Seq::empty())),
                None => None,
            },
        },
    }
}

impl UpstreamSource {
    /// The platform (0 GitHub, 1 GitLab, 2 package index) and names of this source.
    pub open spec fn parts(&self) -> (int, Seq<char>, Seq<char>) {
        match self {
            UpstreamSource::GitHub { owner, repo } => (0, owner@, repo@),
            UpstreamSource::GitLab { owner, project } => (1, owner@, project@),
            UpstreamSource::PyPI { pname } => (2, pname@, Seq::empty()),
        }
    }

    /// Classifies a source URL; `None` when no known platform matches.
    pub fn from_url(url: &str) -> (r: Option<UpstreamSource>)
        ensures
            r matches Some(src) ==> source_of(url@) == Some(src.parts()),
            r is None ==> source_of(url@) is None,
    {
        if let Some(g) = parse_github_url(url) {
            Some(UpstreamSource::GitHub { owner: g.owner, repo: g.repo })
        } else if let Some(g) = parse_gitlab_url(url) {
            Some(UpstreamSource::GitLab { owner: g.owner, project: g.project })
        } else {
            match pypi_name_exec(&chars_of(url)) {
                Some(n) => Some(UpstreamSource::PyPI { pname: string_of(&n) }),
                None => None,
            }
        }
    }

    /// The clean version of a release's tag.
    pub fn get_version(release: &Release) -> (r: String)
        ensures
            r@ == extract_version(release.tag_name@),
    {
        let v = extract_version_from_tag(release.tag_name.as_str());
        string_of(&chars_of(v))
    }

    /// A one-line description such as `GitHub repo: owner/repo`.
    pub fn description(&self) -> (r: String)
        ensures
            r@ == match self {
                UpstreamSource::GitHub { owner, repo } => "GitHub repo: "@ + owner@ + "/"@
                    + repo@,
                UpstreamSource::GitLab { owner, project } => "GitLab project: "@ + owner@ + "/"@
                    + project@,
                UpstreamSource::PyPI { pname } => "PyPI package: "@ + pname@,
            },
    {
        let mut out: Vec<char>;
        match self {
            UpstreamSource::GitHub { owner, repo } => {
                out = chars_of("GitHub repo: ");
                push_all(&mut out, &chars_of(owner.as_str()));
                push_all(&mut out, &chars_of("/"));
                push_all(&mut out, &chars_of(repo.as_str()));
            },
            UpstreamSource::GitLab { owner, project } => {
                out = chars_of("GitLab project: ");
                push_all(&mut out, &chars_of(owner.as_str()));
                push_all(&mut out, &chars_of("/"));
                push_all(&mut out, &chars_of(project.as_str()));
            },
            UpstreamSource::PyPI { pname } => {
                out = chars_of("PyPI package: ");
                push_all(&mut out, &chars_of(pname.as_str()));
            },
        }
        string_of(&out)
    }
}

/// The releases that a listing stands for: release lists keep their
/// pre-release flags, tags are never pre-releases, and a package-index version
/// counts as a pre-release when any of its files was yanked.
pub open spec fn listing_release(l: ReleaseListing, i: int) -> (Seq<char>, bool) {
    match l {
        ReleaseListing::GithubReleases(v) => (v@[i].tag_name@, v@[i].prerelease),
        ReleaseListing::GitlabReleases(v) => (v@[i].tag_name@, v@[i].upcoming_release),
        ReleaseListing::Tags(v) => (v@[i]@, false),
        ReleaseListing::Pypi(p) => (p.releases@[i].0@, exists|k: int|
            0 <= k < p.releases@[i].1@.len() && (#[trigger] p.releases@[i].1@[k]).yanked),
    }
}

pub open spec fn listing_len(l: ReleaseListing) -> int {
    match l {
        ReleaseListing::GithubReleases(v) => v@.len() as int,
        ReleaseListing::GitlabReleases(v) => v@.len() as int,
        ReleaseListing::Tags(v) => v@.len() as int,
        ReleaseListing::Pypi(p) => p.releases@.len() as int,
    }
}

fn any_yanked(files: &Vec<PypiArtifact>) -> (r: bool)
    ensures
        r == exists|k: int| 0 <= k < files@.len() && (#[trigger] files@[k]).yanked,
{
    let mut i: usize = 0;
    while i < files.len()
        invariant
            i <= files@.len(),
            forall|k: int| 0 <= k < i ==> !(#[trigger] files@[k]).yanked,
        decreases files@.len() - i,
    {
        if files[i].yanked {
            return true;
        }
        i += 1;
    }
    false
}

/// `rs` holds the releases of the listing, in its order.
pub open spec fn listing_matches(l: ReleaseListing, rs: Seq<Release>) -> bool {
    &&& rs.len() == listing_len(l)
    &&& forall|i: int|
        0 <= i < rs.len() ==> (#[trigger] rs[i]).tag_name@ == listing_release(l, i).0
            && rs[i].is_prerelease == listing_release(l, i).1
}

/// The releases of a listing, in its order.
pub fn listing_releases(listing: &ReleaseListing) -> (r: Vec<Release>)
    ensures
        listing_matches(*listing, r@),
{
    let mut out: Vec<Release> = Vec::new();
    let n: usize = match listing {
        ReleaseListing::GithubReleases(v) => v.len(),
        ReleaseListing::GitlabReleases(v) => v.len(),
        ReleaseListing::Tags(v) => v.len(),
        ReleaseListing::Pypi(p) => p.releases.len(),
    };
    let mut i: usize = 0;
    while i < n
        invariant
            n == listing_len(*listing),
            i <= n,
            out@.len() == i,
            forall|k: int|
                0 <= k < i ==> (#[trigger] out@[k]).tag_name@ == listing_release(*listing, k).0
                    && out@[k].is_prerelease == listing_release(*listing, k).1,
        decreases n - i,
    {
        let r = match listing {
            ReleaseListing::GithubReleases(v) => Release {
                tag_name: v[i].tag_name.clone(),
                is_prerelease: v[i].prerelease,
            },
            ReleaseListing::GitlabReleases(v) => Release {
                tag_name: v[i].tag_name.clone(),
                is_prerelease: v[i].upcoming_release,
            },
            ReleaseListing::Tags(v) => Release { tag_name: v[i].clone(), is_prerelease: false },
            ReleaseListing::Pypi(p) => Release {
                tag_name: p.releases[i].0.clone(),
                is_prerelease: any_yanked(&p.releases[i].1),
            },
        };
        out.push(r);
        i += 1;
    }
    out
}

impl UpstreamSource {
    /// The best compatible release in what this source's listing returned
    /// (see `find_best_release`).
    pub fn get_compatible_release(
        &self,
        listing: &ReleaseListing,
        current_version: &str,
        strategy: SemverStrategy,
    ) -> (r: Result<Release, VersionError>)
        ensures
            exists|rs: Seq<Release>| #[trigger] listing_matches(*listing, rs) && best_outcome(
                rs,
                r,
                current_version@,
                strategy,
            ),
    {
        let rs = listing_releases(listing);
        let r = find_best_release(&rs, current_version, strategy);
        assert(listing_matches(*listing, rs@));
        r
    }
}


} // verus!
