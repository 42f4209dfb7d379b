//! Validated, text-preserving edits of a recipe file: replacing the value of a
//! named string attribute, and emptying or pruning its `patches` list.
//!
//! Every edit works on the raw text, keeps all bytes outside the edited span,
//! and is accepted only when the file parses before and after the edit.
use vstd::prelude::*;
use crate::text::{
    chars_of, find_char_from, find_char_seq, find_from, find_seq_from, is_ws, is_ws_char, matches_at, occurs_at, push_all, push_range, skip_until, skip_until_char, skip_ws, skip_ws_from, slice_chars, string_of,
};

verus! {

/// Whether a text parses as a recipe without errors.
pub uninterp spec fn nix_parses(s: Seq<char>) -> bool;

/// Relies on `rnix::Root::parse`: whether its error list is empty depends on
/// the text alone.
#[verifier::external_body]
fn parses_as_nix(s: &str) -> (r: bool)
    ensures
        r == nix_parses(s@),
{
    rnix::Root::parse(s).errors().is_empty()
}

fn chars_parse(cs: &[char]) -> (r: bool)
    ensures
        r == nix_parses(cs@),
{
    let s = string_of(cs);
    parses_as_nix(s.as_str())
}

/// Why an edit was refused.
#[derive(Debug)]
pub enum RewriteError {
    /// The file did not parse before the edit.
    InvalidSyntax,
    /// No `name = "value";` with the expected value.
    AttributeNotFound { name: String },
    /// No empty `patches` list.
    PatchesNotFound,
    /// The patch is in no entry of the list.
    PatchNotFound { name: String },
    /// The edited file would not parse.
    BrokenResult,
}

impl RewriteError {
    /// The error as a sentence.
    pub fn to_string(&self) -> (r: String)
        ensures
            r@ == match self {
                RewriteError::InvalidSyntax => "Failed to parse Nix file"@,
                RewriteError::AttributeNotFound { name } => "Attribute '"@ + name@
                    + "' not found in Nix file"@,
                RewriteError::PatchesNotFound => "Empty patches attribute not found in Nix file"@,
                RewriteError::PatchNotFound { name } => "Patch '"@ + name@
                    + "' not found in patches array"@,
                RewriteError::BrokenResult => "Edit would create invalid Nix syntax"@,
            },
    {
        match self {
            RewriteError::InvalidSyntax => string_of(&chars_of("Failed to parse Nix file")),
            RewriteError::AttributeNotFound { name } => {
                let mut out = chars_of("Attribute '");
                push_all(&mut out, &chars_of(name.as_str()));
                push_all(&mut out, &chars_of("' not found in Nix file"));
                string_of(&out)
            },
            RewriteError::PatchesNotFound => string_of(
                &chars_of("Empty patches attribute not found in Nix file"),
            ),
            RewriteError::PatchNotFound { name } => {
                let mut out = chars_of("Patch '");
                push_all(&mut out, &chars_of(name.as_str()));
                push_all(&mut out, &chars_of("' not found in patches array"));
                string_of(&out)
            },
            RewriteError::BrokenResult => string_of(
                &chars_of("Edit would create invalid Nix syntax"),
            ),
        }
    }
}

/// `name = "<value>";` at `q`, where the value is `old` if given, else any run
/// without quotes: the bounds of the value and the end of the match.
pub open spec fn attr_at(s: Seq<char>, q: int, name: Seq<char>, old: Option<Seq<char>>) -> Option<
    (int, int, int),
> {
    if !occurs_at(s, name, q) {
        None
    } else {
        let a = skip_ws(s, q + name.len());
        if !(a < s.len() && s[a] == '=') {
            None
        } else {
            let b = skip_ws(s, a + 1);
            if !(b < s.len() && s[b] == '"') {
                None
            } else {
                let vs = b + 1;
                let ve = match old {
                    Some(o) => if occurs_at(s, o, vs) {
                        vs + o.len()
                    } else {
                        -1
                    },
                    None => skip_until(s, '"', vs),
                };
                if !(0 <= ve < s.len() && s[ve] == '"') {
                    None
                } else {
                    let c = skip_ws(s, ve + 1);
                    if c < s.len() && s[c] == ';' && q < vs && vs <= ve {
                        Some((vs, ve, c + 1))
                    } else {
                        None
                    }
                }
            }
        }
    }
}

/// The text from `i` on with every attribute match's value replaced by `new`,
/// matches taken left to right without overlap.
pub open spec fn rewrite_from(
    s: Seq<char>,
    i: int,
    name: Seq<char>,
    old: Option<Seq<char>>,
    new: Seq<char>,
) -> Seq<char>
    decreases s.len() - i,
{
    if i < 0 || i >= s.len() {
        Seq::empty()
    } else {
        match attr_at(s, i, name, old) {
            Some((vs, ve, e)) => if i < e <= s.len() && ve <= e {
                s.subrange(i, vs) + new + s.subrange(ve, e) + rewrite_from(s, e, name, old, new)
            } else {
                seq![s[i]] + rewrite_from(s, i + 1, name, old, new)
            },
            None => seq![s[i]] + rewrite_from(s, i + 1, name, old, new),
        }
    }
}

/// Some attribute match starts at or after `i`.
pub open spec fn attr_found_from(s: Seq<char>, i: int, name: Seq<char>, old: Option<Seq<char>>) -> bool
    decreases s.len() - i,
{
    if i < 0 || i >= s.len() {
        false
    } else {
        attr_at(s, i, name, old) is Some || attr_found_from(s, i + 1, name, old)
    }
}

pub open spec fn opt_view(o: Option<&str>) -> Option<Seq<char>> {
    match o {
        Some(v) => Some(v@),
        None => None,
    }
}

pub open spec fn opt_chars(o: Option<Vec<char>>) -> Option<Seq<char>> {
    match o {
        Some(v) => Some(v@),
        None => None,
    }
}

fn attr_at_exec(s: &[char], q: usize, name: &[char], old: &Option<Vec<char>>) -> (r: Option<
    (usize, usize, usize),
>)
    requires
        q < s@.len(),
    ensures
        r matches Some(m) ==> attr_at(s@, q as int, name@, opt_chars(*old)) == Some(
            (m.0 as int, m.1 as int, m.2 as int),
        ) && m.1 <= m.2 <= s@.len(),
        r is None ==> attr_at(s@, q as int, name@, opt_chars(*old)) is None,
{
    let n = s.len();
    if !matches_at(s, name, q) {
        return None;
    }
    let a = skip_ws_from(s, q + name.len());
    if !(a < n && s[a] == '=') {
        return None;
    }
    let b = skip_ws_from(s, a + 1);
    if !(b < n && s[b] == '"') {
        return None;
    }
    let vs = b + 1;
    let ve = match old {
        Some(o) => {
            if matches_at(s, o, vs) {
                vs + o.len()
            } else {
                return None;
            }
        },
        None => skip_until_char(s, '"', vs),
    };
    if !(ve < n && s[ve] == '"') {
        return None;
    }
    let c = skip_ws_from(s, ve + 1);
    if c < n && s[c] == ';' && q < vs && vs <= ve {
        Some((vs, ve, c + 1))
    } else {
        None
    }
}

/// Rewrites every match; also says whether there was one.
fn rewrite_chars(s: &[char], name: &[char], old: &Option<Vec<char>>, new: &[char]) -> (r: (
    Vec<char>,
    bool,
))
    ensures
        r.0@ == rewrite_from(s@, 0, name@, opt_chars(*old), new@),
        r.1 == attr_found_from(s@, 0, name@, opt_chars(*old)),
{
    let ghost o = opt_chars(*old);
    let mut out: Vec<char> = Vec::new();
    let mut found = false;
    let mut i: usize = 0;
    while i < s.len()
        invariant
            i <= s@.len(),
            out@ + rewrite_from(s@, i as int, name@, o, new@) == rewrite_from(
                s@,
                0,
                name@,
                o,
                new@,
            ),
            found ==> attr_found_from(s@, 0, name@, o),
            !found ==> attr_found_from(s@, 0, name@, o) == attr_found_from(
                s@,
                i as int,
                name@,
                o,
            ),
            o == opt_chars(*old),
        decreases s@.len() - i,
    {
        let ghost before = out@;
        match attr_at_exec(s, i, name, old) {
            Some((vs, ve, e)) => {
                if i < e && ve <= e {
                    push_range(&mut out, s, i, vs);
                    push_all(&mut out, new);
                    push_range(&mut out, s, ve, e);
                    proof {
                        let rest = rewrite_from(s@, e as int, name@, o, new@);
                        assert(out@ + rest =~= before + (s@.subrange(i as int, vs as int) + new@
                            + s@.subrange(ve as int, e as int) + rest));
                    }
                    i = e;
                    found = true;
                } else {
                    out.push(s[i]);
                    proof {
                        let rest = rewrite_from(s@, i + 1, name@, o, new@);
                        assert(out@ + rest =~= before + (seq![s@[i as int]] + rest));
                    }
                    i += 1;
                }
            },
            None => {
                out.push(s[i]);
                proof {
                    let rest = rewrite_from(s@, i + 1, name@, o, new@);
                    assert(out@ + rest =~= before + (seq![s@[i as int]] + rest));
                }
                i += 1;
            },
        }
    }
    assert(out@ =~= out@ + rewrite_from(s@, i as int, name@, o, new@));
    (out, found)
}

/// The text after a successful attribute rewrite, or `None` when it is refused.
pub open spec fn attr_edit(content: Seq<char>, name: Seq<char>, new: Seq<char>, old: Option<Seq<char>>) -> Option<Seq<char>> {
    let t = rewrite_from(content, 0, name, old, new);
    if nix_parses(content) && attr_found_from(content, 0, name, old) && nix_parses(t) {
        Some(t)
    } else {
        None
    }
}

/// Replaces the value of every `attr_name = "<old_value>";` (any quoted value
/// when `old_value` is `None`) with `new_value`, leaving all other text as it
/// was. Refused when the file does not parse, when nothing matches, or when
/// the result would not parse.
pub fn find_and_update_attr(
    content: &str,
    attr_name: &str,
    new_value: &str,
    old_value: Option<&str>,
) -> (r: Result<String, RewriteError>)
    ensures
        !nix_parses(content@) ==> r matches Err(RewriteError::InvalidSyntax),
        nix_parses(content@) && !attr_found_from(content@, 0, attr_name@, opt_view(old_value))
            ==> (r matches Err(RewriteError::AttributeNotFound { name }) && name@ == attr_name@),
        ({
            let t = rewrite_from(content@, 0, attr_name@, opt_view(old_value), new_value@);
            nix_parses(content@) && attr_found_from(content@, 0, attr_name@, opt_view(old_value))
                ==> if nix_parses(t) {
                r matches Ok(out) && out@ == t
            } else {
                r matches Err(RewriteError::BrokenResult)
            }
        }),
        r is Ok <==> attr_edit(content@, attr_name@, new_value@, opt_view(old_value)) is Some,
        r matches Ok(out) ==> attr_edit(content@, attr_name@, new_value@, opt_view(old_value))
            == Some(out@),
{
    if !parses_as_nix(content) {
        return Err(RewriteError::InvalidSyntax);
    }
    let s = chars_of(content);
    let name = chars_of(attr_name);
    let old: Option<Vec<char>> = match old_value {
        Some(o) => Some(chars_of(o)),
        None => None,
    };
    assert(opt_chars(old) == opt_view(old_value));
    let new = chars_of(new_value);
    let (t, found) = rewrite_chars(&s, &name, &old, &new);
    if !found {
        return Err(RewriteError::AttributeNotFound { name: string_of(&name) });
    }
    if !chars_parse(&t) {
        return Err(RewriteError::BrokenResult);
    }
    Ok(string_of(&t))
}

/// The run of whitespace before `q` reaches the start of a line.
pub open spec fn line_start_ws(s: Seq<char>, q: int) -> bool
    decreases q,
{
    if q <= 0 || q > s.len() {
        q == 0
    } else if s[q - 1] == '\n' {
        true
    } else if is_ws(s[q - 1]) {
        line_start_ws(s, q - 1)
    } else {
        false
    }
}

/// Where the run of whitespace that ends at `q` begins.
pub open spec fn ws_run_start(s: Seq<char>, q: int) -> int
    decreases q,
{
    if 0 < q <= s.len() && is_ws(s[q - 1]) {
        ws_run_start(s, q - 1)
    } else {
        q
    }
}

/// A `;` follows `i` after whitespace.
pub open spec fn semi_after(s: Seq<char>, i: int) -> bool {
    let k = skip_ws(s, i);
    0 <= k < s.len() && s[k] == ';'
}

/// Scanning a list body that holds only whitespace and `#` comments: the last
/// `]` reached that a `;` follows, or `best` if none.
pub open spec fn close_from(s: Seq<char>, j: int, in_comment: bool, best: int) -> int
    decreases s.len() - j,
{
    if j < 0 || j >= s.len() {
        best
    } else {
        let c = s[j];
        let best2 = if c == ']' && semi_after(s, j + 1) {
            j
        } else {
            best
        };
        if is_ws(c) {
            close_from(
                s,
                j + 1,
                if c == '\n' {
                    false
                } else {
                    in_comment
                },
                best2,
            )
        } else if c == '#' || in_comment {
            close_from(s, j + 1, true, best2)
        } else {
            best2
        }
    }
}

/// After `patches = [` at `q`: the index past the bracket, or -1.
pub open spec fn patches_head(s: Seq<char>, q: int) -> int {
    if !occurs_at(s, "patches"@, q) {
        -1
    } else {
        let a = skip_ws(s, q + 7);
        if !(0 <= a < s.len() && s[a] == '=') {
            -1
        } else {
            let b = skip_ws(s, a + 1);
            if 0 <= b < s.len() && s[b] == '[' {
                b + 1
            } else {
                -1
            }
        }
    }
}

/// An empty `patches` list begins a line at `q`: the index of its `]`, or -1.
pub open spec fn empty_patches_at(s: Seq<char>, q: int) -> int {
    if line_start_ws(s, q) && patches_head(s, q) >= 0 {
        close_from(s, patches_head(s, q), false, -1)
    } else {
        -1
    }
}

/// The first `q >= i` where an empty `patches` list begins.
pub open spec fn first_empty_patches(s: Seq<char>, i: int) -> Option<int>
    decreases s.len() - i,
{
    if i < 0 || i >= s.len() {
        None
    } else if empty_patches_at(s, i) >= 0 {
        Some(i)
    } else {
        first_empty_patches(s, i + 1)
    }
}

fn line_start_ws_exec(s: &[char], q: usize) -> (r: bool)
    requires
        q <= s@.len(),
    ensures
        r == line_start_ws(s@, q as int),
{
    let mut k = q;
    while k > 0
        invariant
            k <= q <= s@.len(),
            line_start_ws(s@, q as int) == line_start_ws(s@, k as int),
        decreases k,
    {
        let c = s[k - 1];
        if c == '\n' {
            return true;
        }
        if !is_ws_char(c) {
            return false;
        }
        k -= 1;
    }
    true
}

fn ws_run_start_exec(s: &[char], q: usize) -> (r: usize)
    requires
        q <= s@.len(),
    ensures
        r as int == ws_run_start(s@, q as int),
        r <= q,
{
    let mut k = q;
    while k > 0 && is_ws_char(s[k - 1])
        invariant
            k <= q <= s@.len(),
            ws_run_start(s@, q as int) == ws_run_start(s@, k as int),
        decreases k,
    {
        k -= 1;
    }
    k
}

fn semi_after_exec(s: &[char], i: usize) -> (r: bool)
    requires
        i <= s@.len(),
    ensures
        r == semi_after(s@, i as int),
{
    let k = skip_ws_from(s, i);
    k < s.len() && s[k] == ';'
}

fn close_from_exec(s: &[char], start: usize) -> (r: Option<usize>)
    requires
        start <= s@.len(),
    ensures
        r matches Some(e) ==> close_from(s@, start as int, false, -1) == e as int && e < s@.len()
            && semi_after(s@, e + 1),
        r is None ==> close_from(s@, start as int, false, -1) == -1,
{
    let mut j = start;
    let mut in_comment = false;
    let mut best: Option<usize> = None;
    while j < s.len()
        invariant
            start <= j <= s@.len(),
            close_from(s@, start as int, false, -1) == close_from(
                s@,
                j as int,
                in_comment,
                match best {
                    Some(b) => b as int,
                    None => -1,
                },
            ),
            best matches Some(b) ==> b < s@.len() && semi_after(s@, b + 1),
        decreases s@.len() - j,
    {
        let c = s[j];
        if c == ']' && semi_after_exec(s, j + 1) {
            best = Some(j);
        }
        if is_ws_char(c) {
            if c == '\n' {
                in_comment = false;
            }
        } else if c == '#' || in_comment {
            in_comment = true;
        } else {
            return best;
        }
        j += 1;
    }
    best
}

fn patches_head_exec(s: &[char], q: usize) -> (r: Option<usize>)
    requires
        q <= s@.len(),
    ensures
        r matches Some(h) ==> patches_head(s@, q as int) == h as int && h <= s@.len(),
        r is None ==> patches_head(s@, q as int) == -1,
{
    let n = s.len();
    let word = chars_of("patches");
    proof {
        reveal_strlit("patches");
    }
    if !matches_at(s, &word, q) {
        return None;
    }
    let a = skip_ws_from(s, q + 7);
    if !(a < n && s[a] == '=') {
        return None;
    }
    let b = skip_ws_from(s, a + 1);
    if b < n && s[b] == '[' {
        Some(b + 1)
    } else {
        None
    }
}

fn empty_patches_at_exec(s: &[char], q: usize) -> (r: Option<usize>)
    requires
        q <= s@.len(),
    ensures
        r matches Some(e) ==> empty_patches_at(s@, q as int) == e as int && e < s@.len()
            && semi_after(s@, e + 1),
        r is None ==> empty_patches_at(s@, q as int) == -1,
{
    if !line_start_ws_exec(s, q) {
        return None;
    }
    match patches_head_exec(s, q) {
        Some(h) => close_from_exec(s, h),
        None => None,
    }
}

fn first_empty_patches_exec(s: &[char]) -> (r: Option<(usize, usize)>)
    ensures
        r matches Some(m) ==> first_empty_patches(s@, 0) == Some(m.0 as int) && empty_patches_at(
            s@,
            m.0 as int,
        ) == m.1 as int && m.0 < s@.len() && m.1 < s@.len() && semi_after(s@, m.1 + 1),
        r is None ==> first_empty_patches(s@, 0) is None,
{
    let mut q: usize = 0;
    while q < s.len()
        invariant
            first_empty_patches(s@, 0) == first_empty_patches(s@, q as int),
        decreases s@.len() - q,
    {
        match empty_patches_at_exec(s, q) {
            Some(e) => {
                return Some((q, e));
            },
            None => {},
        }
        q += 1;
    }
    None
}

/// Whether the file holds a `patches` list with nothing but whitespace and
/// comments in it.
pub fn is_patches_array_empty(content: &str) -> (r: bool)
    ensures
        r == first_empty_patches(content@, 0) is Some,
{
    first_empty_patches_exec(&chars_of(content)).is_some()
}

/// The text once the empty `patches` attribute is cut out: from the newline
/// that ends the line before it (or the file start) through its `;`.
pub open spec fn without_empty_patches(s: Seq<char>) -> Option<Seq<char>> {
    match first_empty_patches(s, 0) {
        Some(q) => {
            let p0 = ws_run_start(s, q);
            let p = if p0 == 0 {
                0
            } else {
                match find_char_from(s, '\n', p0) {
                    Some(k) => k,
                    None => q,
                }
            };
            let end = skip_ws(s, empty_patches_at(s, q) + 1) + 1;
            Some(s.subrange(0, p) + s.subrange(end, s.len() as int))
        },
        None => None,
    }
}

/// Removes an empty `patches` attribute with the line break before it,
/// keeping the lines around it as they were.
pub fn remove_patches_attribute(content: &str) -> (r: Result<String, RewriteError>)
    ensures
        !nix_parses(content@) ==> r matches Err(RewriteError::InvalidSyntax),
        nix_parses(content@) && without_empty_patches(content@) is None ==> r matches Err(
            RewriteError::PatchesNotFound,
        ),
        ({
            let t = without_empty_patches(content@)->0;
            nix_parses(content@) && without_empty_patches(content@) is Some ==> if nix_parses(t) {
                r matches Ok(out) && out@ == t
            } else {
                r matches Err(RewriteError::BrokenResult)
            }
        }),
{
    if !parses_as_nix(content) {
        return Err(RewriteError::InvalidSyntax);
    }
    let s = chars_of(content);
    let (q, e) = match first_empty_patches_exec(&s) {
        Some(m) => m,
        None => {
            return Err(RewriteError::PatchesNotFound);
        },
    };
    let p0 = ws_run_start_exec(&s, q);
    let p = if p0 == 0 {
        0
    } else {
        match find_char_seq(&s, '\n', p0) {
            Some(k) => k,
            None => q,
        }
    };
    let k = skip_ws_from(&s, e + 1);
    let end = k + 1;
    let mut t = slice_chars(&s, 0, p);
    push_range(&mut t, &s, end, s.len());
    if !chars_parse(&t) {
        return Err(RewriteError::BrokenResult);
    }
    Ok(string_of(&t))
}

/// Whitespace within a line.
pub open spec fn is_inline_ws(c: char) -> bool {
    is_ws(c) && c != '\n'
}

/// Where the indentation before `q` begins: back over whitespace within the line.
pub open spec fn indent_start(s: Seq<char>, q: int) -> int
    decreases q,
{
    if 0 < q <= s.len() && is_inline_ws(s[q - 1]) {
        indent_start(s, q - 1)
    } else {
        q
    }
}

/// `p` is where a line begins.
pub open spec fn at_line_start(s: Seq<char>, p: int) -> bool {
    p == 0 || (0 < p <= s.len() && s[p - 1] == '\n')
}

/// The first index `>= i` that is not whitespace within the line, nor a
/// comma when `commas` (or the length).
pub open spec fn skip_inline(s: Seq<char>, i: int, commas: bool) -> int
    decreases s.len() - i,
{
    if 0 <= i < s.len() && (is_inline_ws(s[i]) || (commas && s[i] == ',')) {
        skip_inline(s, i + 1, commas)
    } else {
        i
    }
}

/// Where a line ends when only whitespace follows `i` on it: past its line
/// break, or the end of the text; -1 when something else follows.
pub open spec fn line_end_after(s: Seq<char>, i: int, commas: bool) -> int {
    let w = skip_inline(s, i, commas);
    if w == s.len() {
        w
    } else if 0 <= w < s.len() && s[w] == '\n' {
        w + 1
    } else {
        -1
    }
}

/// A line holding only `./<name>` (an optional comma after it) has its entry
/// at `q`: where that line ends; -1 if no such line.
pub open spec fn path_entry_at(s: Seq<char>, q: int, name: Seq<char>) -> int {
    if !(at_line_start(s, indent_start(s, q)) && occurs_at(s, "./"@, q) && occurs_at(
        s,
        name,
        q + 2,
    )) {
        -1
    } else {
        let a = q + 2 + name.len();
        let b = if a < s.len() && s[a] == ',' {
            a + 1
        } else {
            a
        };
        line_end_after(s, b, false)
    }
}

/// Lines holding only a `(fetchpatch { ... })` call whose braces mention
/// `name` start at `q`: where the last of them ends; -1 if no such lines.
pub open spec fn fetch_entry_at(s: Seq<char>, q: int, name: Seq<char>) -> int {
    if !(at_line_start(s, indent_start(s, q)) && occurs_at(s, "(fetchpatch"@, q)) {
        -1
    } else {
        let a = q + 11;
        let b = skip_ws(s, a);
        if !(a < b && b < s.len() && s[b] == '{') {
            -1
        } else {
            let c = skip_until(s, '}', b + 1);
            if !(c + 1 < s.len() && s[c + 1] == ')' && find_from(s.subrange(b + 1, c), name, 0) is Some) {
                -1
            } else {
                line_end_after(s, c + 2, true)
            }
        }
    }
}

/// The first `q >= i` where the entry form `form` (0 path, 1 fetch call)
/// matches, with the end of its removal.
pub open spec fn first_entry(s: Seq<char>, i: int, name: Seq<char>, form: int) -> Option<(int, int)>
    decreases s.len() - i,
{
    if i < 0 || i >= s.len() {
        None
    } else {
        let e = if form == 0 {
            path_entry_at(s, i, name)
        } else {
            fetch_entry_at(s, i, name)
        };
        if e >= 0 {
            Some((i, e))
        } else {
            first_entry(s, i + 1, name, form)
        }
    }
}

/// The text with the lines of the first entry for `name` removed, from the
/// start of its first line through the end of its last one: a plain path
/// entry if there is one, else a fetch call. All other lines stay as they are.
pub open spec fn without_patch(s: Seq<char>, name: Seq<char>) -> Option<Seq<char>> {
    let m = match first_entry(s, 0, name, 0) {
        Some(m) => Some(m),
        None => first_entry(s, 0, name, 1),
    };
    match m {
        Some((q, e)) => Some(s.subrange(0, indent_start(s, q)) + s.subrange(e, s.len() as int)),
        None => None,
    }
}

fn is_inline_ws_char(c: char) -> (r: bool)
    ensures
        r == is_inline_ws(c),
{
    is_ws_char(c) && c != '\n'
}

fn indent_start_exec(s: &[char], q: usize) -> (r: usize)
    requires
        q <= s@.len(),
    ensures
        r as int == indent_start(s@, q as int),
        r <= q,
{
    let mut k = q;
    while k > 0 && is_inline_ws_char(s[k - 1])
        invariant
            k <= q <= s@.len(),
            indent_start(s@, q as int) == indent_start(s@, k as int),
        decreases k,
    {
        k -= 1;
    }
    k
}

fn at_line_start_exec(s: &[char], p: usize) -> (r: bool)
    requires
        p <= s@.len(),
    ensures
        r == at_line_start(s@, p as int),
{
    p == 0 || s[p - 1] == '\n'
}

fn line_end_after_exec(s: &[char], i: usize, commas: bool) -> (r: Option<usize>)
    requires
        i <= s@.len(),
    ensures
        r matches Some(e) ==> line_end_after(s@, i as int, commas) == e as int && e <= s@.len(),
        r is None ==> line_end_after(s@, i as int, commas) == -1,
{
    let mut w = i;
    while w < s.len() && (is_inline_ws_char(s[w]) || (commas && s[w] == ','))
        invariant
            i <= w <= s@.len(),
            skip_inline(s@, i as int, commas) == skip_inline(s@, w as int, commas),
        decreases s@.len() - w,
    {
        w += 1;
    }
    if w == s.len() {
        Some(w)
    } else if s[w] == '\n' {
        Some(w + 1)
    } else {
        None
    }
}

fn path_entry_at_exec(s: &[char], q: usize, name: &[char]) -> (r: Option<usize>)
    requires
        q < s@.len(),
    ensures
        r matches Some(e) ==> path_entry_at(s@, q as int, name@) == e as int && e <= s@.len(),
        r is None ==> path_entry_at(s@, q as int, name@) == -1,
{
    let n = s.len();
    let dot_slash = chars_of("./");
    proof {
        reveal_strlit("./");
    }
    let p = indent_start_exec(s, q);
    if !(at_line_start_exec(s, p) && matches_at(s, &dot_slash, q) && matches_at(s, name, q + 2)) {
        return None;
    }
    let a = q + 2 + name.len();
    let b = if a < n && s[a] == ',' {
        a + 1
    } else {
        a
    };
    line_end_after_exec(s, b, false)
}

fn fetch_entry_at_exec(s: &[char], q: usize, name: &[char]) -> (r: Option<usize>)
    requires
        q < s@.len(),
    ensures
        r matches Some(e) ==> fetch_entry_at(s@, q as int, name@) == e as int && e <= s@.len(),
        r is None ==> fetch_entry_at(s@, q as int, name@) == -1,
{
    let n = s.len();
    let call = chars_of("(fetchpatch");
    proof {
        reveal_strlit("(fetchpatch");
    }
    let p = indent_start_exec(s, q);
    if !(at_line_start_exec(s, p) && matches_at(s, &call, q)) {
        return None;
    }
    let a = q + 11;
    let b = skip_ws_from(s, a);
    if !(a < b && b < n && s[b] == '{') {
        return None;
    }
    let c = skip_until_char(s, '}', b + 1);
    assert(n == s@.len());
    if !(c < n && c + 1 < n && s[c + 1] == ')') {
        return None;
    }
    let body = slice_chars(s, b + 1, c);
    if find_seq_from(&body, name, 0).is_none() {
        return None;
    }
    line_end_after_exec(s, c + 2, true)
}

fn first_entry_exec(s: &[char], name: &[char], form: usize) -> (r: Option<(usize, usize)>)
    requires
        form <= 1,
    ensures
        r matches Some(m) ==> first_entry(s@, 0, name@, form as int) == Some(
            (m.0 as int, m.1 as int),
        ) && m.0 < s@.len() && m.1 <= s@.len(),
        r is None ==> first_entry(s@, 0, name@, form as int) is None,
{
    let mut q: usize = 0;
    while q < s.len()
        invariant
            form <= 1,
            first_entry(s@, 0, name@, form as int) == first_entry(s@, q as int, name@, form as int),
        decreases s@.len() - q,
    {
        let e = if form == 0 {
            path_entry_at_exec(s, q, name)
        } else {
            fetch_entry_at_exec(s, q, name)
        };
        match e {
            Some(e) => {
                return Some((q, e));
            },
            None => {},
        }
        q += 1;
    }
    None
}

/// Removes the entry for `patch_name` from the `patches` list: a line holding
/// only `./<name>`, or else the lines of a `(fetchpatch { ... })` call whose
/// braces mention the name. Only the entry's own lines go; blank lines and
/// the indentation of other lines stay.
pub fn remove_patch_from_array(content: &str, patch_name: &str) -> (r: Result<String, RewriteError>)
    ensures
        !nix_parses(content@) ==> r matches Err(RewriteError::InvalidSyntax),
        nix_parses(content@) && without_patch(content@, patch_name@) is None ==> (r matches Err(
            RewriteError::PatchNotFound { name },
        ) && name@ == patch_name@),
        ({
            let t = without_patch(content@, patch_name@)->0;
            nix_parses(content@) && without_patch(content@, patch_name@) is Some ==> if nix_parses(
                t,
            ) {
                r matches Ok(out) && out@ == t
            } else {
                r matches Err(RewriteError::BrokenResult)
            }
        }),
{
    if !parses_as_nix(content) {
        return Err(RewriteError::InvalidSyntax);
    }
    let s = chars_of(content);
    let name = chars_of(patch_name);
    let m = match first_entry_exec(&s, &name, 0) {
        Some(m) => Some(m),
        None => first_entry_exec(&s, &name, 1),
    };
    let (q, e) = match m {
        Some(m) => m,
        None => {
            return Err(RewriteError::PatchNotFound { name: string_of(&name) });
        },
    };
    let p = indent_start_exec(&s, q);
    let mut t = slice_chars(&s, 0, p);
    push_range(&mut t, &s, e, s.len());
    if !chars_parse(&t) {
        return Err(RewriteError::BrokenResult);
    }
    Ok(string_of(&t))
}

/// An accepted attribute rewrite always yields text that parses; one whose
/// `old` value is not the attribute's value anywhere in a parsing file is
/// refused as not found, so the caller's text stays exactly as it was.
pub proof fn lemma_rewrite_parses_or_not_found(
    content: Seq<char>,
    name: Seq<char>,
    new: Seq<char>,
    old: Option<Seq<char>>,
)
    ensures
        attr_edit(content, name, new, old) matches Some(t) ==> nix_parses(t),
        nix_parses(content) && !attr_found_from(content, 0, name, old) ==> attr_edit(
            content,
            name,
            new,
            old,
        ) is None,
{
}

proof fn lemma_rewrite_same_value_from(s: Seq<char>, i: int, name: Seq<char>, v: Seq<char>)
    requires
        0 <= i <= s.len(),
    ensures
        rewrite_from(s, i, name, Some(v), v) == s.subrange(i, s.len() as int),
    decreases s.len() - i,
{
    if i < s.len() {
        match attr_at(s, i, name, Some(v)) {
            Some((vs, ve, e)) => {
                if i < e <= s.len() && ve <= e {
                    lemma_rewrite_same_value_from(s, e, name, v);
                    assert(s.subrange(vs, ve) == v);
                    assert(s.subrange(i, vs) + v + s.subrange(ve, e) + s.subrange(e, s.len() as int)
                        =~= s.subrange(i, s.len() as int));
                } else {
                    lemma_rewrite_same_value_from(s, i + 1, name, v);
                    assert(seq![s[i]] + s.subrange(i + 1, s.len() as int) =~= s.subrange(
                        i,
                        s.len() as int,
                    ));
                }
            },
            None => {
                lemma_rewrite_same_value_from(s, i + 1, name, v);
                assert(seq![s[i]] + s.subrange(i + 1, s.len() as int) =~= s.subrange(
                    i,
                    s.len() as int,
                ));
            },
        }
    } else {
        assert(s.subrange(i, s.len() as int) =~= Seq::<char>::empty());
    }
}

/// Only the matched values change: rewriting an attribute from a value to
/// the same value gives back the text byte for byte.
pub proof fn lemma_rewrite_same_value_is_identity(content: Seq<char>, name: Seq<char>, v: Seq<char>)
    ensures
        rewrite_from(content, 0, name, Some(v), v) == content,
{
    lemma_rewrite_same_value_from(content, 0, name, v);
    assert(content.subrange(0, content.len() as int) =~= content);
}

proof fn lemma_indent_start_le(s: Seq<char>, q: int)
    requires
        0 <= q,
    ensures
        0 <= indent_start(s, q) <= q,
    decreases q,
{
    if 0 < q <= s.len() && is_inline_ws(s[q - 1]) {
        lemma_indent_start_le(s, q - 1);
    }
}

proof fn lemma_skip_inline_ge(s: Seq<char>, i: int, commas: bool)
    ensures
        skip_inline(s, i, commas) >= i,
    decreases s.len() - i,
{
    if 0 <= i < s.len() && (is_inline_ws(s[i]) || (commas && s[i] == ',')) {
        lemma_skip_inline_ge(s, i + 1, commas);
    }
}

proof fn lemma_skip_until_ge(s: Seq<char>, c: char, i: int)
    ensures
        skip_until(s, c, i) >= i,
    decreases s.len() - i,
{
    if 0 <= i < s.len() && s[i] != c {
        lemma_skip_until_ge(s, c, i + 1);
    }
}

proof fn lemma_skip_ws_ge(s: Seq<char>, i: int)
    ensures
        skip_ws(s, i) >= i,
    decreases s.len() - i,
{
    if 0 <= i < s.len() && is_ws(s[i]) {
        lemma_skip_ws_ge(s, i + 1);
    }
}

proof fn lemma_first_entry_after(s: Seq<char>, i: int, name: Seq<char>, form: int)
    requires
        0 <= i,
    ensures
        first_entry(s, i, name, form) matches Some((q, e)) ==> i <= q < e <= s.len(),
    decreases s.len() - i,
{
    if 0 <= i < s.len() {
        let e = if form == 0 {
            path_entry_at(s, i, name)
        } else {
            fetch_entry_at(s, i, name)
        };
        if e >= 0 {
            if form == 0 {
                let a = i + 2 + name.len();
                let b = if a < s.len() && s[a] == ',' {
                    a + 1
                } else {
                    a
                };
                lemma_skip_inline_ge(s, b, false);
            } else {
                let b = skip_ws(s, i + 11);
                let c = skip_until(s, '}', b + 1);
                lemma_skip_ws_ge(s, i + 11);
                lemma_skip_until_ge(s, '}', b + 1);
                lemma_skip_inline_ge(s, c + 2, true);
            }
        } else {
            lemma_first_entry_after(s, i + 1, name, form);
        }
    }
}

/// Dropping a patch entry always makes the file shorter, so a build loop that
/// drops one stale patch per failed build ends.
pub proof fn lemma_patch_removal_shrinks(content: Seq<char>, name: Seq<char>)
    ensures
        without_patch(content, name) matches Some(t) ==> t.len() < content.len(),
{
    lemma_first_entry_after(content, 0, name, 0);
    lemma_first_entry_after(content, 0, name, 1);
    let m = match first_entry(content, 0, name, 0) {
        Some(m) => Some(m),
        None => first_entry(content, 0, name, 1),
    };
    if let Some((q, e)) = m {
        lemma_indent_start_le(content, q);
    }
}

} // verus!
