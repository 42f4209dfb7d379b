//! Version strings: cleaning, normalisation, acceptance under a strategy and
//! choice of the best upstream release.
use vstd::prelude::*;
use std::cmp::Ordering;
use crate::text::{
    chars_of, count_char, count_char_seq, find_char_from, find_char_seq, find_from, find_seq_from, is_digit, is_digit_char, lex_less, lex_less_seq, matches_at, occurs_at, push_range, slice_chars, string_of,
};

verus! {

/// A candidate upstream version: its raw tag and whether it is a pre-release.
#[derive(Debug)]
pub struct Release {
    pub tag_name: String,
    pub is_prerelease: bool,
}

/// Which newer versions an update may move to.
#[derive(Debug, Clone, Copy, PartialEq, Eq, Structural)]
pub enum SemverStrategy {
    /// Any newer non-prerelease version.
    Latest,
    /// Same as `Latest`.
    Major,
    /// Only versions with the same major number.
    Minor,
    /// Only versions with the same major and minor numbers.
    Patch,
}

/// The strategy name given was none of `latest`, `major`, `minor`, `patch`.
#[derive(Debug)]
pub struct StrategyError {
    pub input: String,
}

/// No release of the listing is acceptable.
#[derive(Debug)]
pub enum VersionError {
    NoCompatibleRelease,
}

/// `a` equals the lower-case ASCII word `lower` up to ASCII case.
pub open spec fn eq_ignore_ascii_case(a: Seq<char>, lower: Seq<char>) -> bool {
    a.len() == lower.len() && forall|i: int|
        0 <= i < a.len() ==> (a[i] == lower[i] || ('A' <= a[i] && a[i] <= 'Z' && (a[i] as u32)
            + 32 == lower[i] as u32))
}

/// The strategy that a (case-insensitive) name denotes.
pub open spec fn strategy_named(s: Seq<char>) -> Option<SemverStrategy> {
    if eq_ignore_ascii_case(s, "latest"@) {
        Some(SemverStrategy::Latest)
    } else if eq_ignore_ascii_case(s, "major"@) {
        Some(SemverStrategy::Major)
    } else if eq_ignore_ascii_case(s, "minor"@) {
        Some(SemverStrategy::Minor)
    } else if eq_ignore_ascii_case(s, "patch"@) {
        Some(SemverStrategy::Patch)
    } else {
        None
    }
}

fn eq_ignore_ascii_case_exec(a: &[char], lower: &[char]) -> (r: bool)
    ensures
        r == eq_ignore_ascii_case(a@, lower@),
{
    if a.len() != lower.len() {
        return false;
    }
    let mut i: usize = 0;
    while i < a.len()
        invariant
            a@.len() == lower@.len(),
            i <= a@.len(),
            forall|k: int|
                0 <= k < i ==> (a@[k] == lower@[k] || ('A' <= a@[k] && a@[k] <= 'Z' && (
                a@[k] as u32) + 32 == lower@[k] as u32)),
        decreases a@.len() - i,
    {
        let c = a[i];
        let ok = c == lower[i] || ('A' <= c && c <= 'Z' && (c as u32) + 32 == lower[i] as u32);
        if !ok {
            return false;
        }
        i += 1;
    }
    true
}

impl SemverStrategy {
    /// Reads a strategy name, ignoring ASCII case.
    pub fn from_str(s: &str) -> (r: Result<SemverStrategy, StrategyError>)
        ensures
            r matches Ok(st) ==> strategy_named(s@) == Some(st),
            r is Err <==> strategy_named(s@) is None,
    {
        let cs = chars_of(s);
        if eq_ignore_ascii_case_exec(&cs, &chars_of("latest")) {
            Ok(SemverStrategy::Latest)
        } else if eq_ignore_ascii_case_exec(&cs, &chars_of("major")) {
            Ok(SemverStrategy::Major)
        } else if eq_ignore_ascii_case_exec(&cs, &chars_of("minor")) {
            Ok(SemverStrategy::Minor)
        } else if eq_ignore_ascii_case_exec(&cs, &chars_of("patch")) {
            Ok(SemverStrategy::Patch)
        } else {
            Err(StrategyError { input: string_of(&cs) })
        }
    }
}

/// The first index `>= i` holding an ASCII digit.
pub open spec fn first_digit_from(s: Seq<char>, i: int) -> Option<int>
    decreases s.len() - i,
{
    if i < 0 || i >= s.len() {
        None
    } else if is_digit(s[i]) {
        Some(i)
    } else {
        first_digit_from(s, i + 1)
    }
}

/// The version inside a tag: from its first digit, cut at a `-unstable` marker.
pub open spec fn extract_version(tag: Seq<char>) -> Seq<char> {
    match first_digit_from(tag, 0) {
        None => tag,
        Some(p) => {
            let v = tag.subrange(p, tag.len() as int);
            match find_from(v, "-unstable"@, 0) {
                Some(q) => v.subrange(0, q),
                None => v,
            }
        },
    }
}

/// Bounds, in characters, of the version inside a tag.
fn version_bounds(tag: &[char]) -> (r: (usize, usize))
    ensures
        r.0 <= r.1 <= tag@.len(),
        tag@.subrange(r.0 as int, r.1 as int) == extract_version(tag@),
{
    let mut p: usize = 0;
    while p < tag.len() && !is_digit_char(tag[p])
        invariant
            p <= tag@.len(),
            first_digit_from(tag@, 0) == first_digit_from(tag@, p as int),
        decreases tag@.len() - p,
    {
        p += 1;
    }
    if p == tag.len() {
        assert(tag@.subrange(0, tag@.len() as int) =~= tag@);
        return (0, tag.len());
    }
    let rest = slice_chars(tag, p, tag.len());
    let marker = chars_of("-unstable");
    match find_seq_from(&rest, &marker, 0) {
        Some(q) => {
            assert(tag@.subrange(p as int, (p + q) as int) =~= rest@.subrange(0, q as int));
            (p, p + q)
        },
        None => (p, tag.len()),
    }
}

/// Extracts the version from a tag: everything from its first ASCII digit on,
/// truncated at `-unstable`; a tag without digits is returned whole.
pub fn extract_version_from_tag(tag: &str) -> (r: &str)
    ensures
        r@ == extract_version(tag@),
{
    let cs = chars_of(tag);
    let (a, b) = version_bounds(&cs);
    tag.substring_char(a, b)
}

/// The parts of a normalised version: base before the first `-`, and the rest.
pub open spec fn version_base(v: Seq<char>) -> Seq<char> {
    match find_char_from(v, '-', 0) {
        Some(p) => v.subrange(0, p),
        None => v,
    }
}

pub open spec fn version_suffix(v: Seq<char>) -> Seq<char> {
    match find_char_from(v, '-', 0) {
        Some(p) => v.subrange(p, v.len() as int),
        None => Seq::empty(),
    }
}

/// Pads a version to at least three dot-separated components before any `-` suffix.
pub open spec fn normalize(v: Seq<char>) -> Seq<char> {
    let base = version_base(v);
    let dots = count_char(base, '.');
    let padded = if dots == 0 {
        base + seq!['.', '0', '.', '0']
    } else if dots == 1 {
        base + seq!['.', '0']
    } else {
        base
    };
    padded + version_suffix(v)
}

fn normalize_chars(v: &[char]) -> (r: Vec<char>)
    ensures
        r@ == normalize(v@),
{
    let dash = find_char_seq(v, '-', 0);
    let split = match dash {
        Some(p) => p,
        None => v.len(),
    };
    proof {
        if dash is None {
            assert(v@.subrange(0, v@.len() as int) =~= v@);
        }
    }
    let base = slice_chars(v, 0, split);
    let dots = count_char_seq(&base, '.');
    let mut out = base;
    if dots == 0 {
        out.push('.');
        out.push('0');
        out.push('.');
        out.push('0');
    } else if dots == 1 {
        out.push('.');
        out.push('0');
    }
    let ghost padded = out@;
    push_range(&mut out, v, split, v.len());
    proof {
        if dots == 0 {
            assert(padded =~= version_base(v@) + seq!['.', '0', '.', '0']);
        } else if dots == 1 {
            assert(padded =~= version_base(v@) + seq!['.', '0']);
        }
        if dash is None {
            assert(v@.subrange(v@.len() as int, v@.len() as int) =~= version_suffix(v@));
        }
    }
    out
}

/// Pads a version string to `MAJOR.MINOR.PATCH` form, keeping any `-` suffix:
/// `1.25` becomes `1.25.0`, `2` becomes `2.0.0`, `1.0-beta` becomes `1.0.0-beta`.
pub fn normalize_version(version: &str) -> (r: String)
    ensures
        r@ == normalize(version@),
{
    let cs = chars_of(version);
    let out = normalize_chars(&cs);
    string_of(&out)
}

/// Drops every leading `v`.
pub open spec fn strip_leading_v(s: Seq<char>) -> Seq<char>
    decreases s.len(),
{
    if s.len() > 0 && s[0] == 'v' {
        strip_leading_v(s.drop_first())
    } else {
        s
    }
}

/// A version without its prefix: a leading `version-` token, or else every
/// leading `v`.
pub open spec fn clean_version(s: Seq<char>) -> Seq<char> {
    if occurs_at(s, "version-"@, 0) {
        s.subrange(8, s.len() as int)
    } else {
        strip_leading_v(s)
    }
}

/// Index from which `s` stays once the leading `v`s are gone.
fn strip_v_start(s: &[char]) -> (r: usize)
    ensures
        r <= s@.len(),
        s@.subrange(r as int, s@.len() as int) == strip_leading_v(s@),
{
    let mut i: usize = 0;
    assert(s@.subrange(0, s@.len() as int) =~= s@);
    while i < s.len() && s[i] == 'v'
        invariant
            i <= s@.len(),
            strip_leading_v(s@) == strip_leading_v(s@.subrange(i as int, s@.len() as int)),
        decreases s@.len() - i,
    {
        assert(s@.subrange(i as int, s@.len() as int).drop_first() =~= s@.subrange(
            i + 1,
            s@.len() as int,
        ));
        i += 1;
    }
    i
}

fn clean_version_chars(s: &[char]) -> (r: Vec<char>)
    ensures
        r@ == clean_version(s@),
{
    let token = chars_of("version-");
    proof {
        reveal_strlit("version-");
    }
    if matches_at(s, &token, 0) {
        slice_chars(s, 8, s.len())
    } else {
        let a = strip_v_start(s);
        slice_chars(s, a, s.len())
    }
}

/// The fields of a SemVer version: major, minor, patch, pre-release, build.
pub type SemverParts = (u64, u64, u64, Seq<char>, Seq<char>);

/// What `semver::Version::parse` yields on a text, or `None` where it fails.
pub uninterp spec fn semver_parse(s: Seq<char>) -> Option<SemverParts>;

/// How `semver` orders two versions whose numbers agree, by their labels.
pub uninterp spec fn semver_label_order(
    a_pre: Seq<char>,
    a_build: Seq<char>,
    b_pre: Seq<char>,
    b_build: Seq<char>,
) -> Ordering;

pub open spec fn major_of(p: SemverParts) -> u64 {
    p.0
}

pub open spec fn minor_of(p: SemverParts) -> u64 {
    p.1
}

pub open spec fn num_order(a: u64, b: u64) -> Ordering {
    if a < b {
        Ordering::Less
    } else {
        Ordering::Greater
    }
}

/// SemVer order: numbers first, then the labels.
pub open spec fn semver_order(a: SemverParts, b: SemverParts) -> Ordering {
    if a.0 != b.0 {
        num_order(a.0, b.0)
    } else if a.1 != b.1 {
        num_order(a.1, b.1)
    } else if a.2 != b.2 {
        num_order(a.2, b.2)
    } else if a.3 == b.3 && a.4 == b.4 {
        Ordering::Equal
    } else {
        semver_label_order(a.3, a.4, b.3, b.4)
    }
}

#[verifier::external_type_specification]
#[verifier::external_body]
pub struct ExSemverVersion(semver::Version);

/// A parsed version, with the fields that the rules read. Only
/// `parse_semver` builds one, copying the fields out of `version`.
struct ParsedVersion {
    major: u64,
    minor: u64,
    patch: u64,
    pre: String,
    build: String,
    version: semver::Version,
}

impl ParsedVersion {
    spec fn parts(&self) -> SemverParts {
        (self.major, self.minor, self.patch, self.pre@, self.build@)
    }
}

/// Relies on `semver::Version::parse`: it fails or succeeds on the text alone;
/// on success the fields are copied out of the parsed value.
#[verifier::external_body]
fn parse_semver(s: &str) -> (r: Option<ParsedVersion>)
    ensures
        r is None <==> semver_parse(s@) is None,
        r matches Some(v) ==> semver_parse(s@) == Some(
            (v.major, v.minor, v.patch, v.pre@, v.build@),
        ),
{
    match semver::Version::parse(s) {
        Ok(v) => Some(
            ParsedVersion {
                major: v.major,
                minor: v.minor,
                patch: v.patch,
                pre: v.pre.as_str().to_string(),
                build: v.build.as_str().to_string(),
                version: v,
            },
        ),
        Err(_) => None,
    }
}

/// Relies on `Ord for semver::Version`, derived over major, minor, patch,
/// pre-release and build, in that order.
#[verifier::external_body]
fn semver_cmp(a: &ParsedVersion, b: &ParsedVersion) -> (r: Ordering)
    ensures
        a.major != b.major ==> r == num_order(a.major, b.major),
        a.major == b.major && a.minor != b.minor ==> r == num_order(a.minor, b.minor),
        a.major == b.major && a.minor == b.minor && a.patch != b.patch ==> r == num_order(
            a.patch,
            b.patch,
        ),
        a.major == b.major && a.minor == b.minor && a.patch == b.patch && a.pre@ == b.pre@
            && a.build@ == b.build@ ==> r == Ordering::Equal,
        a.major == b.major && a.minor == b.minor && a.patch == b.patch && !(a.pre@ == b.pre@
            && a.build@ == b.build@) ==> r == semver_label_order(
            a.pre@,
            a.build@,
            b.pre@,
            b.build@,
        ),
{
    a.version.cmp(&b.version)
}

fn parse_chars(cs: &[char]) -> (r: Option<ParsedVersion>)
    ensures
        r is None <==> semver_parse(cs@) is None,
        r matches Some(v) ==> semver_parse(cs@) == Some(v.parts()),
{
    let s = string_of(cs);
    parse_semver(s.as_str())
}

/// Whether `new` may replace `current` under `st`: both cleaned and padded
/// versions parse as SemVer and `new` is greater (and shares the major, or the
/// major and minor, as the strategy asks); otherwise only `Latest` and `Major`
/// accept, by plain string order.
pub open spec fn version_acceptable(current: Seq<char>, new: Seq<char>, st: SemverStrategy) -> bool {
    let c = clean_version(current);
    let n = clean_version(new);
    match (semver_parse(normalize(c)), semver_parse(normalize(n))) {
        (Some(cv), Some(nv)) => semver_order(nv, cv) == Ordering::Greater && match st {
            SemverStrategy::Latest | SemverStrategy::Major => true,
            SemverStrategy::Minor => nv.0 == cv.0,
            SemverStrategy::Patch => nv.0 == cv.0 && nv.1 == cv.1,
        },
        _ => (st == SemverStrategy::Latest || st == SemverStrategy::Major) && lex_less(c, n),
    }
}

fn acceptable_chars(current: &[char], new: &[char], strategy: SemverStrategy) -> (r: bool)
    ensures
        r == version_acceptable(current@, new@, strategy),
{
    let c = clean_version_chars(current);
    let n = clean_version_chars(new);
    let cv = parse_chars(&normalize_chars(&c));
    let nv = parse_chars(&normalize_chars(&n));
    match (cv, nv) {
        (Some(cv), Some(nv)) => {
            let greater = match semver_cmp(&nv, &cv) {
                Ordering::Greater => true,
                _ => false,
            };
            if !greater {
                return false;
            }
            match strategy {
                SemverStrategy::Latest | SemverStrategy::Major => true,
                SemverStrategy::Minor => nv.major == cv.major,
                SemverStrategy::Patch => nv.major == cv.major && nv.minor == cv.minor,
            }
        },
        _ => {
            let wide = match strategy {
                SemverStrategy::Latest | SemverStrategy::Major => true,
                _ => false,
            };
            wide && lex_less_seq(&c, &n)
        },
    }
}

/// Whether `new` is an acceptable update of `current` under `strategy`.
/// The result is always `Ok`.
pub fn is_version_acceptable(current: &str, new: &str, strategy: SemverStrategy) -> (r: Result<
    bool,
    VersionError,
>)
    ensures
        r matches Ok(b) && b == version_acceptable(current@, new@, strategy),
{
    Ok(acceptable_chars(&chars_of(current), &chars_of(new), strategy))
}

/// A release that may be chosen: not a pre-release, and acceptable.
pub open spec fn release_compatible(r: Release, current: Seq<char>, st: SemverStrategy) -> bool {
    !r.is_prerelease && version_acceptable(current, extract_version(r.tag_name@), st)
}

/// The version a release is ranked by: its tag's version, cleaned.
pub open spec fn rank_version(tag: Seq<char>) -> Seq<char> {
    clean_version(extract_version(tag))
}

/// The release with tag `a` ranks above the one with tag `b`: by SemVer order
/// of the padded versions where both parse (as acceptance compares them),
/// else by string order.
pub open spec fn ranks_above(a: Seq<char>, b: Seq<char>) -> bool {
    let va = rank_version(a);
    let vb = rank_version(b);
    match (semver_parse(normalize(va)), semver_parse(normalize(vb))) {
        (Some(x), Some(y)) => semver_order(x, y) == Ordering::Greater,
        _ => lex_less(vb, va),
    }
}

/// No compatible release of `rs` ranks above `rs[i]`.
pub open spec fn unbeaten(rs: Seq<Release>, i: int, current: Seq<char>, st: SemverStrategy) -> bool {
    forall|j: int|
        0 <= j < rs.len() && #[trigger] release_compatible(rs[j], current, st) ==> !ranks_above(
            rs[j].tag_name@,
            rs[i].tag_name@,
        )
}

/// `rs[i]` is compatible and unbeaten.
pub open spec fn is_best(rs: Seq<Release>, i: int, current: Seq<char>, st: SemverStrategy) -> bool {
    release_compatible(rs[i], current, st) && unbeaten(rs, i, current, st)
}

/// `b` is `rs[i]`, a compatible release that is the first best one whenever
/// some release is best.
pub open spec fn picked(rs: Seq<Release>, i: int, b: Release, current: Seq<char>, st: SemverStrategy) -> bool {
    &&& 0 <= i < rs.len()
    &&& release_compatible(rs[i], current, st)
    &&& b.tag_name@ == rs[i].tag_name@
    &&& b.is_prerelease == rs[i].is_prerelease
    &&& (exists|j: int| 0 <= j < rs.len() && is_best(rs, j, current, st)) ==> (is_best(rs, i, current, st)
        && forall|k: int| 0 <= k < i ==> !is_best(rs, k, current, st))
}

/// `r` is what choosing among `rs` must give: `Err` exactly when no release
/// is compatible, else a picked release.
pub open spec fn best_outcome(rs: Seq<Release>, r: Result<Release, VersionError>, current: Seq<char>, st: SemverStrategy) -> bool {
    &&& (r is Err <==> forall|i: int| 0 <= i < rs.len() ==> !#[trigger] release_compatible(rs[i], current, st))
    &&& (r is Ok ==> exists|i: int| #[trigger] picked(rs, i, r->Ok_0, current, st))
}

/// What ranking needs of one release.
struct RankKey {
    version: Vec<char>,
    parsed: Option<ParsedVersion>,
}

impl RankKey {
    spec fn fits(&self, tag: Seq<char>) -> bool {
        &&& self.version@ == rank_version(tag)
        &&& (self.parsed is None <==> semver_parse(normalize(rank_version(tag))) is None)
        &&& (self.parsed matches Some(v) ==> semver_parse(normalize(rank_version(tag)))
            == Some(v.parts()))
    }
}

fn rank_key(tag: &String) -> (r: RankKey)
    ensures
        r.fits(tag@),
{
    let cs = chars_of(tag.as_str());
    let (a, b) = version_bounds(&cs);
    let version = clean_version_chars(&slice_chars(&cs, a, b));
    let parsed = parse_chars(&normalize_chars(&version));
    RankKey { version, parsed }
}

fn ranks_above_exec(a: &RankKey, b: &RankKey, Ghost(ta): Ghost<Seq<char>>, Ghost(tb): Ghost<Seq<char>>) -> (r: bool)
    requires
        a.fits(ta),
        b.fits(tb),
    ensures
        r == ranks_above(ta, tb),
{
    match (&a.parsed, &b.parsed) {
        (Some(x), Some(y)) => match semver_cmp(x, y) {
            Ordering::Greater => true,
            _ => false,
        },
        _ => lex_less_seq(&b.version, &a.version),
    }
}

fn copy_release(r: &Release) -> (c: Release)
    ensures
        c.tag_name@ == r.tag_name@,
        c.is_prerelease == r.is_prerelease,
{
    Release { tag_name: r.tag_name.clone(), is_prerelease: r.is_prerelease }
}

/// Picks the release to update to: the first compatible release that no
/// compatible release ranks above. `Err` when no release is compatible.
pub fn find_best_release(releases: &[Release], current_version: &str, strategy: SemverStrategy) -> (r: Result<Release, VersionError>)
    ensures
        best_outcome(releases@, r, current_version@, strategy),
{
    let cur = chars_of(current_version);
    let n = releases.len();
    let mut compat: Vec<bool> = Vec::new();
    let mut keys: Vec<RankKey> = Vec::new();
    let mut i: usize = 0;
    while i < n
        invariant
            n == releases@.len(),
            i <= n,
            compat@.len() == i,
            keys@.len() == i,
            cur@ == current_version@,
            forall|k: int|
                0 <= k < i ==> compat@[k] == release_compatible(
                    releases@[k],
                    current_version@,
                    strategy,
                ),
            forall|k: int| 0 <= k < i ==> keys@[k].fits(releases@[k].tag_name@),
        decreases n - i,
    {
        let tag = chars_of(releases[i].tag_name.as_str());
        let (a, b) = version_bounds(&tag);
        let version = slice_chars(&tag, a, b);
        let ok = !releases[i].is_prerelease && acceptable_chars(&cur, &version, strategy);
        compat.push(ok);
        keys.push(rank_key(&releases[i].tag_name));
        i += 1;
    }
    let mut first: Option<usize> = None;
    let mut i: usize = 0;
    while i < n
        invariant
            n == releases@.len(),
            i <= n,
            compat@.len() == n,
            keys@.len() == n,
            forall|k: int|
                0 <= k < n ==> compat@[k] == release_compatible(
                    releases@[k],
                    current_version@,
                    strategy,
                ),
            forall|k: int| 0 <= k < n ==> keys@[k].fits(releases@[k].tag_name@),
            forall|k: int| 0 <= k < i ==> !is_best(releases@, k, current_version@, strategy),
            first matches Some(f) ==> f < n && compat@[f as int],
            first is None ==> forall|k: int| 0 <= k < i ==> !compat@[k],
        decreases n - i,
    {
        if compat[i] {
            if first.is_none() {
                first = Some(i);
            }
            let mut beaten = false;
            let mut j: usize = 0;
            while j < n
                invariant
                    n == releases@.len(),
                    i < n,
                    j <= n,
                    compat@.len() == n,
                    keys@.len() == n,
                    forall|k: int|
                        0 <= k < n ==> compat@[k] == release_compatible(
                            releases@[k],
                            current_version@,
                            strategy,
                        ),
                    forall|k: int| 0 <= k < n ==> keys@[k].fits(releases@[k].tag_name@),
                    beaten ==> !unbeaten(releases@, i as int, current_version@, strategy),
                    !beaten ==> forall|k: int|
                        0 <= k < j && #[trigger] release_compatible(
                            releases@[k],
                            current_version@,
                            strategy,
                        ) ==> !ranks_above(releases@[k].tag_name@, releases@[i as int].tag_name@),
                decreases n - j,
            {
                if compat[j] && ranks_above_exec(
                    &keys[j],
                    &keys[i],
                    Ghost(releases@[j as int].tag_name@),
                    Ghost(releases@[i as int].tag_name@),
                ) {
                    beaten = true;
                }
                j += 1;
            }
            if !beaten {
                let res = copy_release(&releases[i]);
                proof {
                    assert(is_best(releases@, i as int, current_version@, strategy));
                    assert(release_compatible(releases@[i as int], current_version@, strategy));
                }
                let result: Result<Release, VersionError> = Ok(res);
                assert(result->Ok_0 == res);
                assert(picked(releases@, i as int, result->Ok_0, current_version@, strategy));
                return result;
            }
        }
        i += 1;
    }
    match first {
        Some(f) => {
            let res = copy_release(&releases[f]);
            proof {
                assert(release_compatible(releases@[f as int], current_version@, strategy));
                assert(!exists|j: int|
                    0 <= j < releases@.len() && is_best(releases@, j, current_version@, strategy));
                assert(picked(releases@, f as int, res, current_version@, strategy));
            }
            let result: Result<Release, VersionError> = Ok(res);
            assert(result->Ok_0 == res);
            assert(picked(releases@, f as int, result->Ok_0, current_version@, strategy));
            result
        },
        None => {
            assert forall|k: int| 0 <= k < releases@.len() implies !#[trigger] release_compatible(
                releases@[k],
                current_version@,
                strategy,
            ) by {
                assert(!compat@[k]);
            }
            Err(VersionError::NoCompatibleRelease)
        },
    }
}

/// What an acceptable update must keep: under `Patch` both versions parse
/// and share major and minor; under `Minor` they share the major; under any
/// strategy a parsed new version is greater, and without parsed versions only
/// `Latest` or `Major` accept, and only a newer string.
pub proof fn lemma_acceptable_respects_strategy(current: Seq<char>, new: Seq<char>, st: SemverStrategy)
    requires
        version_acceptable(current, new, st),
    ensures
        ({
            let cv = semver_parse(normalize(clean_version(current)));
            let nv = semver_parse(normalize(clean_version(new)));
            &&& st == SemverStrategy::Patch ==> (cv is Some && nv is Some && major_of(nv->0)
                == major_of(cv->0) && minor_of(nv->0) == minor_of(cv->0))
            &&& st == SemverStrategy::Minor ==> (cv is Some && nv is Some && major_of(nv->0)
                == major_of(cv->0))
            &&& (cv is Some && nv is Some) ==> semver_order(nv->0, cv->0) == Ordering::Greater
            &&& !(cv is Some && nv is Some) ==> ((st == SemverStrategy::Latest || st
                == SemverStrategy::Major) && lex_less(clean_version(current), clean_version(new)))
        }),
{
}

proof fn lemma_find_char(s: Seq<char>, c: char, i: int)
    requires
        0 <= i,
    ensures
        match find_char_from(s, c, i) {
            Some(p) => i <= p < s.len() && s[p] == c && forall|k: int| i <= k < p ==> s[k] != c,
            None => forall|k: int| i <= k < s.len() ==> s[k] != c,
        },
    decreases s.len() - i,
{
    if i < s.len() && s[i] != c {
        lemma_find_char(s, c, i + 1);
    }
}

proof fn lemma_find_char_at(s: Seq<char>, c: char, p: int)
    requires
        0 <= p < s.len(),
        s[p] == c,
        forall|k: int| 0 <= k < p ==> s[k] != c,
    ensures
        find_char_from(s, c, 0) == Some(p),
{
    lemma_find_char(s, c, 0);
}

proof fn lemma_find_char_absent(s: Seq<char>, c: char)
    requires
        forall|k: int| 0 <= k < s.len() ==> s[k] != c,
    ensures
        find_char_from(s, c, 0) is None,
{
    lemma_find_char(s, c, 0);
}

proof fn lemma_count_concat(a: Seq<char>, b: Seq<char>, c: char)
    ensures
        count_char(a + b, c) == count_char(a, c) + count_char(b, c),
    decreases b.len(),
{
    if b.len() == 0 {
        assert(a + b =~= a);
    } else {
        assert((a + b).drop_last() =~= a + b.drop_last());
        lemma_count_concat(a, b.drop_last(), c);
    }
}

/// A version whose base already has three components is left as it is.
pub proof fn lemma_normalize_keeps_full_versions(v: Seq<char>)
    requires
        count_char(version_base(v), '.') >= 2,
    ensures
        normalize(v) == v,
{
    lemma_find_char(v, '-', 0);
    match find_char_from(v, '-', 0) {
        Some(p) => {
            assert(v.subrange(0, p) + v.subrange(p, v.len() as int) =~= v);
        },
        None => {
            assert(v + Seq::<char>::empty() =~= v);
        },
    }
}

/// Normalising twice gives what normalising once gives.
pub proof fn lemma_normalize_idempotent(v: Seq<char>)
    ensures
        normalize(normalize(v)) == normalize(v),
{
    let base = version_base(v);
    let suf = version_suffix(v);
    let dots = count_char(base, '.');
    let pad: Seq<char> = if dots == 0 {
        seq!['.', '0', '.', '0']
    } else if dots == 1 {
        seq!['.', '0']
    } else {
        Seq::empty()
    };
    let nb = base + pad;
    let w = normalize(v);
    lemma_find_char(v, '-', 0);
    let s1: Seq<char> = seq!['.'];
    let s2: Seq<char> = seq!['.', '0'];
    let s3: Seq<char> = seq!['.', '0', '.'];
    let s4: Seq<char> = seq!['.', '0', '.', '0'];
    assert(s1.drop_last() =~= Seq::<char>::empty());
    assert(s2.drop_last() =~= s1);
    assert(s3.drop_last() =~= s2);
    assert(s4.drop_last() =~= s3);
    assert(count_char(Seq::<char>::empty(), '.') == 0);
    assert(s1.last() == '.' && s1.len() == 1);
    assert(count_char(s1, '.') == count_char(s1.drop_last(), '.') + 1);
    assert(count_char(s1, '.') == 1);
    assert(s2.last() == '0' && s2.len() == 2);
    assert(count_char(s2, '.') == 1);
    assert(s3.last() == '.' && s3.len() == 3);
    assert(s4.last() == '0' && s4.len() == 4);
    assert(count_char(s3, '.') == 2);
    assert(count_char(s4, '.') == 2);
    assert(count_char(Seq::<char>::empty(), '.') == 0);
    lemma_count_concat(base, pad, '.');
    if dots == 0 {
        assert(nb =~= base + seq!['.', '0', '.', '0']);
    } else if dots == 1 {
        assert(nb =~= base + seq!['.', '0']);
    } else {
        assert(nb =~= base);
    }
    assert(w == nb + suf);
    assert(count_char(nb, '.') >= 2);
    assert forall|k: int| 0 <= k < nb.len() implies nb[k] != '-' by {
        if k < base.len() {
            match find_char_from(v, '-', 0) {
                Some(p) => {
                    assert(base[k] == v[k]);
                },
                None => {},
            }
        }
    }
    match find_char_from(v, '-', 0) {
        Some(p) => {
            assert(suf[0] == '-');
            assert(w[nb.len() as int] == '-');
            assert forall|k: int| 0 <= k < nb.len() implies w[k] != '-' by {
                assert(w[k] == nb[k]);
            }
            lemma_find_char_at(w, '-', nb.len() as int);
            assert(version_base(w) =~= nb);
            assert(version_suffix(w) =~= suf);
        },
        None => {
            assert(suf =~= Seq::<char>::empty());
            assert(w =~= nb);
            lemma_find_char_absent(w, '-');
            assert(version_base(w) == w);
        },
    }
}

proof fn lemma_lex_less_asymmetric(a: Seq<char>, b: Seq<char>)
    ensures
        lex_less(a, b) ==> !lex_less(b, a),
        !lex_less(a, a),
    decreases a.len(),
{
    if a.len() > 0 && b.len() > 0 && a[0] == b[0] {
        lemma_lex_less_asymmetric(a.drop_first(), b.drop_first());
    }
    if a.len() > 0 {
        lemma_lex_less_asymmetric(a.drop_first(), a.drop_first());
    }
}

/// Both versions parse as SemVer with the same numbers, so only their labels
/// can order them.
pub open spec fn label_tie(current: Seq<char>, new: Seq<char>) -> bool {
    let cv = semver_parse(normalize(clean_version(current)));
    let nv = semver_parse(normalize(clean_version(new)));
    cv is Some && nv is Some && major_of(cv->0) == major_of(nv->0) && minor_of(cv->0) == minor_of(
        nv->0,
    ) && (cv->0).2 == (nv->0).2
}

/// An update must be strictly newer: no version is accepted over itself, and
/// when `new` is accepted over `current`, `current` is not accepted over
/// `new`, unless the two differ only in SemVer labels.
pub proof fn lemma_acceptance_is_strict(current: Seq<char>, new: Seq<char>, st: SemverStrategy)
    ensures
        !version_acceptable(current, current, st),
        version_acceptable(current, new, st) && !label_tie(current, new) ==> !version_acceptable(
            new,
            current,
            st,
        ),
{
    lemma_lex_less_asymmetric(clean_version(current), clean_version(new));
    lemma_lex_less_asymmetric(clean_version(new), clean_version(current));
}

} // verus!
