//! The build-verification protocol: a version is written with a deliberately
//! wrong content hash, the build's failure reveals the right one, and stale
//! patches are dropped until the package builds.
//!
//! The decisions live here as functions from text to text and as a state
//! machine from build outcomes to the next action; running builds and
//! touching files is left to the caller.
use vstd::prelude::*;
use crate::text::{
    chars_of, find_seq_from, matches_at, occurs_at, push_all, skip_until, skip_until_char, slice_chars, string_of,
};
use crate::rewrite::{RewriteError, attr_found_from, find_and_update_attr, nix_parses};

verus! {

/// A content hash that never matches, written to make the build report the right one.
pub const SENTINEL_HASH: &'static str = "sha256-AAAAAAAAAAAAAAAAAAAAAAAAAAAAAAAAAAAAAAAAAAA=";

/// A character of a base64 hash body.
pub open spec fn is_hash_char(c: char) -> bool {
    ('A' <= c && c <= 'Z') || ('a' <= c && c <= 'z') || ('0' <= c && c <= '9') || c == '+' || c
        == '/' || c == '='
}

/// The first index `>= i` that is not a hash character (or the length).
pub open spec fn skip_hash(s: Seq<char>, i: int) -> int
    decreases s.len() - i,
{
    if 0 <= i < s.len() && is_hash_char(s[i]) {
        skip_hash(s, i + 1)
    } else {
        i
    }
}

/// `got:`, whitespace, then `sha256-` and a hash body at `p`: the hash's bounds.
pub open spec fn got_hash_at(s: Seq<char>, p: int) -> Option<(int, int)> {
    if !occurs_at(s, "got:"@, p) {
        None
    } else {
        let a = p + 4;
        let b = crate::text::skip_ws(s, a);
        if b > a && occurs_at(s, "sha256-"@, b) && skip_hash(s, b + 7) > b + 7 {
            Some((b, skip_hash(s, b + 7)))
        } else {
            None
        }
    }
}

pub open spec fn got_hash_from(s: Seq<char>, p: int) -> Option<(int, int)>
    decreases s.len() - p,
{
    if p < 0 || p >= s.len() {
        None
    } else {
        match got_hash_at(s, p) {
            Some(m) => Some(m),
            None => got_hash_from(s, p + 1),
        }
    }
}

/// The hash that a failed build reports after `got:`.
pub open spec fn reported_hash(s: Seq<char>) -> Option<Seq<char>> {
    match got_hash_from(s, 0) {
        Some((a, b)) => Some(s.subrange(a, b)),
        None => None,
    }
}

fn is_hash_char_exec(c: char) -> (r: bool)
    ensures
        r == is_hash_char(c),
{
    ('A' <= c && c <= 'Z') || ('a' <= c && c <= 'z') || ('0' <= c && c <= '9') || c == '+' || c
        == '/' || c == '='
}

fn skip_hash_exec(s: &[char], from: usize) -> (r: usize)
    requires
        from <= s@.len(),
    ensures
        r as int == skip_hash(s@, from as int),
        from <= r <= s@.len(),
{
    let mut i = from;
    while i < s.len() && is_hash_char_exec(s[i])
        invariant
            from <= i <= s@.len(),
            skip_hash(s@, from as int) == skip_hash(s@, i as int),
        decreases s@.len() - i,
    {
        i += 1;
    }
    i
}

fn got_hash_at_exec(s: &[char], p: usize) -> (r: Option<(usize, usize)>)
    requires
        p < s@.len(),
    ensures
        r matches Some(m) ==> got_hash_at(s@, p as int) == Some((m.0 as int, m.1 as int)) && m.0
            <= m.1 <= s@.len(),
        r is None ==> got_hash_at(s@, p as int) is None,
{
    let n = s.len();
    let got = chars_of("got:");
    let sha = chars_of("sha256-");
    proof {
        reveal_strlit("got:");
        reveal_strlit("sha256-");
    }
    if !matches_at(s, &got, p) {
        return None;
    }
    let a = p + 4;
    let b = crate::text::skip_ws_from(s, a);
    if b > a && matches_at(s, &sha, b) {
        let e = skip_hash_exec(s, b + 7);
        if e > b + 7 {
            return Some((b, e));
        }
    }
    None
}

/// Reads the correct hash from a hash-mismatch failure: the
/// `sha256-<base64>` that follows the first `got:` and whitespace.
pub fn extract_hash_from_error(stderr: &str) -> (r: Option<String>)
    ensures
        r matches Some(h) ==> reported_hash(stderr@) == Some(h@),
        r is None ==> reported_hash(stderr@) is None,
{
    let s = chars_of(stderr);
    let mut p: usize = 0;
    while p < s.len()
        invariant
            got_hash_from(s@, 0) == got_hash_from(s@, p as int),
            s@ == stderr@,
        decreases s@.len() - p,
    {
        match got_hash_at_exec(&s, p) {
            Some((a, b)) => {
                return Some(string_of(&slice_chars(&s, a, b)));
            },
            None => {},
        }
        p += 1;
    }
    None
}

/// Drops one trailing carriage return.
pub open spec fn strip_cr(l: Seq<char>) -> Seq<char> {
    if l.len() > 0 && l.last() == '\r' {
        l.drop_last()
    } else {
        l
    }
}

/// The lines of `s` from index `i`, as `str::lines` splits them.
pub open spec fn lines_from(s: Seq<char>, i: int) -> Seq<Seq<char>>
    decreases s.len() + 1 - i,
{
    let e = skip_until(s, '\n', i);
    if i < 0 || i >= s.len() || e < i || e > s.len() {
        Seq::empty()
    } else {
        seq![strip_cr(s.subrange(i, e))] + lines_from(s, e + 1)
    }
}

pub open spec fn lines_of(s: Seq<char>) -> Seq<Seq<char>> {
    lines_from(s, 0)
}

pub open spec fn views(v: Seq<Vec<char>>) -> Seq<Seq<char>> {
    v.map_values(|l: Vec<char>| l@)
}

fn split_lines(s: &[char]) -> (r: Vec<Vec<char>>)
    ensures
        views(r@) == lines_of(s@),
{
    let mut out: Vec<Vec<char>> = Vec::new();
    let mut i: usize = 0;
    while i < s.len()
        invariant
            i <= s@.len(),
            views(out@) + lines_from(s@, i as int) == lines_of(s@),
        decreases s@.len() - i,
    {
        let e = skip_until_char(s, '\n', i);
        let mut line = slice_chars(s, i, e);
        if line.len() > 0 && line[line.len() - 1] == '\r' {
            line.pop();
            assert(line@ =~= s@.subrange(i as int, e as int).drop_last());
        }
        let ghost before = out@;
        out.push(line);
        proof {
            assert(views(out@) =~= views(before) + seq![strip_cr(s@.subrange(i as int, e as int))]);
            assert(views(out@) + lines_from(s@, e + 1) =~= views(before) + lines_from(s@, i as int));
        }
        if e < s.len() {
            i = e + 1;
        } else {
            i = e;
        }
    }
    assert(views(out@) =~= views(out@) + lines_from(s@, i as int));
    out
}

/// The name of the patch on an `applying patch /nix/store/<hash>-<name>` line
/// at `p`: what follows the first `-` after the store prefix.
pub open spec fn applied_patch_at(l: Seq<char>, p: int) -> Option<Seq<char>> {
    let prefix = "applying patch /nix/store/"@;
    if !occurs_at(l, prefix, p) {
        None
    } else {
        let a = p + 26;
        let d = skip_until(l, '-', a);
        if d > a && d + 1 < l.len() {
            Some(l.subrange(d + 1, l.len() as int))
        } else {
            None
        }
    }
}

pub open spec fn applied_patch_from(l: Seq<char>, p: int) -> Option<Seq<char>>
    decreases l.len() - p,
{
    if p < 0 || p >= l.len() {
        None
    } else {
        match applied_patch_at(l, p) {
            Some(n) => Some(n),
            None => applied_patch_from(l, p + 1),
        }
    }
}

/// The patch named on the nearest line before `j` (exclusive) that applies one.
pub open spec fn applied_before(ls: Seq<Seq<char>>, j: int) -> Option<Seq<char>>
    decreases j,
{
    if j <= 0 || j > ls.len() {
        None
    } else {
        match applied_patch_from(ls[j - 1], 0) {
            Some(n) => Some(n),
            None => applied_before(ls, j - 1),
        }
    }
}

/// Scanning lines from `i`: the first reversed-patch report whose earlier
/// lines name an applied patch, and that patch.
pub open spec fn reversed_from(ls: Seq<Seq<char>>, i: int) -> Option<Seq<char>>
    decreases ls.len() - i,
{
    if i < 0 || i >= ls.len() {
        None
    } else if crate::text::contains(ls[i], "Reversed (or previously applied) patch detected!"@)
        && applied_before(ls, i) is Some {
        applied_before(ls, i)
    } else {
        reversed_from(ls, i + 1)
    }
}

/// The last (at most) twenty lines.
pub open spec fn tail_lines(ls: Seq<Seq<char>>) -> Seq<Seq<char>> {
    if ls.len() > 20 {
        ls.subrange(ls.len() - 20, ls.len() as int)
    } else {
        ls
    }
}

/// The stale patch that a build log reports, looking at its last twenty lines.
pub open spec fn reversed_patch(s: Seq<char>) -> Option<Seq<char>> {
    reversed_from(tail_lines(lines_of(s)), 0)
}

fn applied_patch_exec(l: &[char]) -> (r: Option<Vec<char>>)
    ensures
        r matches Some(n) ==> applied_patch_from(l@, 0) == Some(n@),
        r is None ==> applied_patch_from(l@, 0) is None,
{
    let n = l.len();
    let prefix = chars_of("applying patch /nix/store/");
    proof {
        reveal_strlit("applying patch /nix/store/");
    }
    let mut p: usize = 0;
    while p < n
        invariant
            n == l@.len(),
            prefix@ == "applying patch /nix/store/"@,
            prefix@.len() == 26,
            applied_patch_from(l@, 0) == applied_patch_from(l@, p as int),
        decreases n - p,
    {
        if matches_at(l, &prefix, p) {
            let a = p + 26;
            let d = skip_until_char(l, '-', a);
            if d > a && d < n && d + 1 < n {
                return Some(slice_chars(l, d + 1, n));
            }
        }
        p += 1;
    }
    None
}

/// Finds the patch to drop after a failed build: among the last twenty lines
/// of the log, the first `Reversed (or previously applied) patch detected!`
/// line with an `applying patch /nix/store/<hash>-<name>` line above it gives
/// the nearest such `<name>`.
pub fn detect_reversed_patch(stderr: &str) -> (r: Option<String>)
    ensures
        r matches Some(n) ==> reversed_patch(stderr@) == Some(n@),
        r is None ==> reversed_patch(stderr@) is None,
{
    let s = chars_of(stderr);
    let all = split_lines(&s);
    let start: usize = if all.len() > 20 {
        all.len() - 20
    } else {
        0
    };
    let ghost ls = tail_lines(lines_of(s@));
    let marker = chars_of("Reversed (or previously applied) patch detected!");
    let m = all.len() - start;
    proof {
        assert(ls.len() == m);
        assert forall|k: int| start <= k < all@.len() implies ls[k - start] == (
        #[trigger] all@[k])@ by {
            assert(views(all@)[k] == all@[k]@);
        }
    }
    let mut i: usize = 0;
    while i < m
        invariant
            start + m == all@.len(),
            ls.len() == m,
            all@.len() <= usize::MAX,
            forall|k: int| start <= k < all@.len() ==> ls[k - start] == (#[trigger] all@[k])@,
            marker@ == "Reversed (or previously applied) patch detected!"@,
            reversed_from(ls, 0) == reversed_from(ls, i as int),
            ls == tail_lines(lines_of(stderr@)),
        decreases m - i,
    {
        if find_seq_from(&all[start + i], &marker, 0).is_some() {
            proof {
                assert(ls[i as int] == all@[start + i]@);
                assert(crate::text::contains(ls[i as int], marker@));
            }
            let mut j: usize = i;
            while j > 0
                invariant
                    j <= i < m,
                    start + m == all@.len(),
                    ls.len() == m,
                    all@.len() <= usize::MAX,
                    forall|k: int| start <= k < all@.len() ==> ls[k - start] == (
                    #[trigger] all@[k])@,
                    applied_before(ls, i as int) == applied_before(ls, j as int),
                    crate::text::contains(
                        ls[i as int],
                        "Reversed (or previously applied) patch detected!"@,
                    ),
                    reversed_from(ls, 0) == reversed_from(ls, i as int),
                    ls == tail_lines(lines_of(stderr@)),
                decreases j,
            {
                match applied_patch_exec(&all[start + j - 1]) {
                    Some(name) => {
                        proof {
                            assert(ls[j - 1] == all@[start + j - 1]@);
                            assert(applied_before(ls, j as int) == Some(name@));
                        }
                        return Some(string_of(&name));
                    },
                    None => {},
                }
                j -= 1;
            }
        }
        i += 1;
    }
    None
}

/// The hash attribute edit that a recipe update makes after its version edit:
/// the first of `hash`, `sha256`, `outputHash`, `src-hash` that can be
/// rewritten from `old` to `new`; the text stays as it is when none can.
pub open spec fn hash_edit(v: Seq<char>, new: Seq<char>, old: Seq<char>) -> Seq<char> {
    match crate::rewrite::attr_edit(v, "hash"@, new, Some(old)) {
        Some(t) => t,
        None => match crate::rewrite::attr_edit(v, "sha256"@, new, Some(old)) {
            Some(t) => t,
            None => match crate::rewrite::attr_edit(v, "outputHash"@, new, Some(old)) {
                Some(t) => t,
                None => match crate::rewrite::attr_edit(v, "src-hash"@, new, Some(old)) {
                    Some(t) => t,
                    None => v,
                },
            },
        },
    }
}

/// A recipe after its version moves from `ov` to `nv` and, when both hashes
/// are given, its content hash from `oh` to `nh`.
pub open spec fn recipe_update(
    content: Seq<char>,
    ov: Seq<char>,
    nv: Seq<char>,
    oh: Option<Seq<char>>,
    nh: Option<Seq<char>>,
) -> Option<Seq<char>> {
    match crate::rewrite::attr_edit(content, "version"@, nv, Some(ov)) {
        None => None,
        Some(v) => Some(
            match (oh, nh) {
                (Some(o), Some(n)) => hash_edit(v, n, o),
                _ => v,
            },
        ),
    }
}

fn try_hash_attr(v: &String, attr: &str, new_hash: &str, old_hash: &str) -> (r: Option<String>)
    ensures
        r matches Some(t) ==> crate::rewrite::attr_edit(v@, attr@, new_hash@, Some(old_hash@))
            == Some(t@),
        r is None ==> crate::rewrite::attr_edit(v@, attr@, new_hash@, Some(old_hash@)) is None,
{
    match find_and_update_attr(v.as_str(), attr, new_hash, Some(old_hash)) {
        Ok(t) => Some(t),
        Err(_) => None,
    }
}

/// Rewrites a recipe for a new version (and content hash, when both hashes
/// are given) in place of the old ones. The error is that of the version
/// edit; a hash attribute that cannot be found leaves the hash as it was.
pub fn update_recipe_text(
    content: &str,
    old_version: &str,
    new_version: &str,
    old_hash: Option<&str>,
    new_hash: Option<&str>,
) -> (r: Result<String, RewriteError>)
    ensures
        r is Ok <==> recipe_update(
            content@,
            old_version@,
            new_version@,
            crate::rewrite::opt_view(old_hash),
            crate::rewrite::opt_view(new_hash),
        ) is Some,
        r matches Ok(t) ==> recipe_update(
            content@,
            old_version@,
            new_version@,
            crate::rewrite::opt_view(old_hash),
            crate::rewrite::opt_view(new_hash),
        ) == Some(t@),
        (r matches Err(RewriteError::AttributeNotFound { .. })) <==> (nix_parses(content@)
            && !attr_found_from(content@, 0, "version"@, Some(old_version@))),
{
    let v = match find_and_update_attr(content, "version", new_version, Some(old_version)) {
        Ok(v) => v,
        Err(e) => {
            return Err(e);
        },
    };
    match (old_hash, new_hash) {
        (Some(oh), Some(nh)) => {
            if let Some(t) = try_hash_attr(&v, "hash", nh, oh) {
                return Ok(t);
            }
            if let Some(t) = try_hash_attr(&v, "sha256", nh, oh) {
                return Ok(t);
            }
            if let Some(t) = try_hash_attr(&v, "outputHash", nh, oh) {
                return Ok(t);
            }
            if let Some(t) = try_hash_attr(&v, "src-hash", nh, oh) {
                return Ok(t);
            }
            Ok(v)
        },
        _ => Ok(v),
    }
}

/// `s` from `i` on with each occurrence of `from` replaced by `to`, left to
/// right, as `str::replace` does (an empty `from` matches between all
/// characters and at both ends).
pub open spec fn replace_from(s: Seq<char>, i: int, from: Seq<char>, to: Seq<char>) -> Seq<char>
    decreases s.len() + 1 - i,
{
    if i < 0 || i > s.len() {
        Seq::empty()
    } else if from.len() == 0 {
        if i == s.len() {
            to
        } else {
            to + seq![s[i]] + replace_from(s, i + 1, from, to)
        }
    } else if i == s.len() {
        Seq::empty()
    } else if occurs_at(s, from, i) {
        to + replace_from(s, i + from.len(), from, to)
    } else {
        seq![s[i]] + replace_from(s, i + 1, from, to)
    }
}

/// How many times `pat` occurs in `s` from `i` on, without overlap, as
/// `str::matches(..).count()` counts them.
pub open spec fn count_from(s: Seq<char>, i: int, pat: Seq<char>) -> nat
    decreases s.len() + 1 - i,
{
    if i < 0 || i > s.len() {
        0
    } else if pat.len() == 0 {
        (s.len() - i + 1) as nat
    } else if i == s.len() {
        0
    } else if occurs_at(s, pat, i) {
        1 + count_from(s, i + pat.len(), pat)
    } else {
        count_from(s, i + 1, pat)
    }
}

fn replace_chars(s: &[char], from: &[char], to: &[char]) -> (r: Vec<char>)
    ensures
        r@ == replace_from(s@, 0, from@, to@),
{
    let n = s.len();
    let mut out: Vec<char> = Vec::new();
    let mut i: usize = 0;
    while i < n
        invariant
            n == s@.len(),
            i <= n,
            out@ + replace_from(s@, i as int, from@, to@) == replace_from(s@, 0, from@, to@),
        decreases n - i,
    {
        let ghost before = out@;
        if from.len() == 0 {
            push_all(&mut out, to);
            out.push(s[i]);
            proof {
                let rest = replace_from(s@, i + 1, from@, to@);
                assert(out@ + rest =~= before + (to@ + seq![s@[i as int]] + rest));
            }
            i += 1;
        } else if matches_at(s, from, i) {
            push_all(&mut out, to);
            proof {
                let rest = replace_from(s@, i + from@.len(), from@, to@);
                assert(out@ + rest =~= before + (to@ + rest));
            }
            i += from.len();
        } else {
            out.push(s[i]);
            proof {
                let rest = replace_from(s@, i + 1, from@, to@);
                assert(out@ + rest =~= before + (seq![s@[i as int]] + rest));
            }
            i += 1;
        }
    }
    if from.len() == 0 {
        let ghost before = out@;
        push_all(&mut out, to);
        assert(out@ =~= before + replace_from(s@, i as int, from@, to@));
    } else {
        assert(out@ =~= out@ + replace_from(s@, i as int, from@, to@));
    }
    out
}

fn count_chars(s: &[char], pat: &[char]) -> (r: usize)
    requires
        s@.len() < usize::MAX,
    ensures
        r as nat == count_from(s@, 0, pat@),
{
    let n = s.len();
    if pat.len() == 0 {
        return n + 1;
    }
    let mut c: usize = 0;
    let mut i: usize = 0;
    while i < n
        invariant
            n == s@.len(),
            n < usize::MAX,
            pat@.len() > 0,
            i <= n,
            c <= i,
            c + count_from(s@, i as int, pat@) == count_from(s@, 0, pat@),
        decreases n - i,
    {
        if matches_at(s, pat, i) {
            c += 1;
            i += pat.len();
        } else {
            i += 1;
        }
    }
    c
}

/// A sibling file holds the version, and the hash if one is given, exactly once.
pub open spec fn variants_file(content: Seq<char>, version: Seq<char>, hash: Option<Seq<char>>) -> bool {
    count_from(content, 0, version) == 1 && match hash {
        Some(h) => count_from(content, 0, h) == 1,
        None => true,
    }
}

/// Whether a sibling file is the one that holds a package's version data.
pub fn is_variants_file(content: &str, version: &str, hash: Option<&str>) -> (r: bool)
    requires
        content@.len() < usize::MAX,
    ensures
        r == variants_file(content@, version@, crate::rewrite::opt_view(hash)),
{
    let s = chars_of(content);
    if count_chars(&s, &chars_of(version)) != 1 {
        return false;
    }
    match hash {
        Some(h) => count_chars(&s, &chars_of(h)) == 1,
        None => true,
    }
}

/// Rewrites a sibling data file by plain substitution: the old version by the
/// new one, then, when both are given, the old hash by the new one.
pub fn update_variants_text(
    content: &str,
    old_version: &str,
    new_version: &str,
    old_hash: Option<&str>,
    new_hash: Option<&str>,
) -> (r: String)
    ensures
        ({
            let v = replace_from(content@, 0, old_version@, new_version@);
            r@ == match (old_hash, new_hash) {
                (Some(o), Some(n)) => replace_from(v, 0, o@, n@),
                _ => v,
            }
        }),
{
    let v = replace_chars(&chars_of(content), &chars_of(old_version), &chars_of(new_version));
    match (old_hash, new_hash) {
        (Some(o), Some(n)) => string_of(&replace_chars(&v, &chars_of(o), &chars_of(n))),
        _ => string_of(&v),
    }
}

} // verus!
