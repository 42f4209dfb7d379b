//! Discovered packages, their metadata, and the per-package decisions of a
//! check: which upstream to ask and whether an update is due.
use vstd::prelude::*;
use crate::text::{chars_of, occurs_at, matches_at, push_all, rfind_char_before, rfind_char_seq, string_of};
use crate::sources::{UpstreamSource, source_of};

verus! {

/// One buildable unit found by evaluation.
#[derive(Debug, Clone)]
pub struct NixEvalDrv {
    /// Dotted attribute path, e.g. `python.pkgs.setuptools`.
    pub attr: String,
    pub attr_path: Vec<String>,
    /// Store path of the build plan.
    pub drv_path: String,
    pub input_drvs: Option<Vec<(String, Vec<String>)>>,
    pub name: String,
    pub outputs: Vec<(String, String)>,
    pub system: String,
}

/// An attribute that failed to evaluate.
#[derive(Debug, Clone)]
pub struct NixEvalError {
    pub attr: String,
    pub attr_path: Vec<String>,
    pub error: String,
}

/// One item of the evaluation stream.
#[derive(Debug, Clone)]
pub enum NixEvalItem {
    Error(NixEvalError),
    Drv(NixEvalDrv),
}

/// Where pull requests go.
#[derive(Debug, Clone)]
pub struct PrConfig {
    pub owner: String,
    pub repo: String,
    pub base_branch: String,
}

/// What a check reads of a package.
#[derive(Debug)]
pub struct PackageMetadata {
    pub version: String,
    pub src_url: Option<String>,
    pub output_hash: Option<String>,
    pub cargo_hash: Option<String>,
    pub vendor_hash: Option<String>,
    pub pname: Option<String>,
}

/// An entry point as an import path: `./` is put before a path that starts
/// with neither `./` nor `/`.
pub open spec fn entry_point_path(p: Seq<char>) -> Seq<char> {
    if occurs_at(p, "./"@, 0) || (p.len() > 0 && p[0] == '/') {
        p
    } else {
        "./"@ + p
    }
}

/// Makes an entry point usable in an `import` expression.
pub fn normalize_entry_point(entry_point: &str) -> (r: String)
    ensures
        r@ == entry_point_path(entry_point@),
{
    let cs = chars_of(entry_point);
    let prefix = chars_of("./");
    if matches_at(&cs, &prefix, 0) || (cs.len() > 0 && cs[0] == '/') {
        string_of(&cs)
    } else {
        let mut out = prefix;
        push_all(&mut out, &cs);
        string_of(&out)
    }
}

/// A query path: unchanged when it starts with `/` or `.`, else after `./`.
pub open spec fn query_path(p: Seq<char>) -> Seq<char> {
    if p.len() > 0 && (p[0] == '/' || p[0] == '.') {
        p
    } else {
        "./"@ + p
    }
}

/// Where metadata queries for one package are evaluated.
#[derive(Debug)]
pub struct PackageQuery {
    eval_entry_point: String,
    attr_path: String,
}

impl PackageQuery {
    pub closed spec fn entry_view(&self) -> Seq<char> {
        self.eval_entry_point@
    }

    pub closed spec fn attr_view(&self) -> Seq<char> {
        self.attr_path@
    }

    pub fn new(eval_entry_point: &str, attr_path: &str) -> (r: PackageQuery)
        ensures
            r.entry_view() == query_path(eval_entry_point@),
            r.attr_view() == attr_path@,
    {
        let cs = chars_of(eval_entry_point);
        let path = if cs.len() > 0 && (cs[0] == '/' || cs[0] == '.') {
            string_of(&cs)
        } else {
            let mut out = chars_of("./");
            push_all(&mut out, &cs);
            string_of(&out)
        };
        PackageQuery { eval_entry_point: path, attr_path: string_of(&chars_of(attr_path)) }
    }

    pub fn eval_entry_point(&self) -> (r: &String)
        ensures
            r@ == self.entry_view(),
    {
        &self.eval_entry_point
    }

    pub fn attr_path(&self) -> (r: &String)
        ensures
            r@ == self.attr_view(),
    {
        &self.attr_path
    }
}

/// The last path segment: what follows the last `/`, or the whole path.
pub open spec fn last_segment(p: Seq<char>) -> Seq<char> {
    match rfind_char_before(p, '/', p.len() as int) {
        Some(i) => p.subrange(i + 1, p.len() as int),
        None => p,
    }
}

/// The build plan's file name from its store path.
pub fn extract_drv_name(drv_path: &str) -> (r: &str)
    ensures
        r@ == last_segment(drv_path@),
{
    let cs = chars_of(drv_path);
    match rfind_char_seq(&cs, '/', cs.len()) {
        Some(i) => drv_path.substring_char(i + 1, cs.len()),
        None => drv_path,
    }
}

/// Why a package was not checked.
#[derive(Debug, Clone, Copy, PartialEq, Eq, Structural)]
pub enum SkipReason {
    UnsupportedSource,
    NoSourceInfo,
}

/// The upstream to ask for a package: its source URL's platform; without a
/// URL, the package index under its short name.
pub fn upstream_for(metadata: &PackageMetadata) -> (r: Result<UpstreamSource, SkipReason>)
    ensures
        match metadata.src_url {
            Some(u) => match source_of(u@) {
                Some(p) => r matches Ok(src) && src.parts() == p,
                None => r == Err::<UpstreamSource, SkipReason>(SkipReason::UnsupportedSource),
            },
            None => match metadata.pname {
                Some(n) => r matches Ok(src) && src.parts() == (2int, n@, Seq::<char>::empty()),
                None => r == Err::<UpstreamSource, SkipReason>(SkipReason::NoSourceInfo),
            },
        },
{
    match &metadata.src_url {
        Some(u) => match UpstreamSource::from_url(u.as_str()) {
            Some(src) => Ok(src),
            None => Err(SkipReason::UnsupportedSource),
        },
        None => match &metadata.pname {
            Some(n) => Ok(UpstreamSource::PyPI { pname: n.clone() }),
            None => Err(SkipReason::NoSourceInfo),
        },
    }
}

/// What a check does once the latest version is known.
#[derive(Debug, Clone, Copy, PartialEq, Eq, Structural)]
pub enum CheckDecision {
    /// Current is latest: backoff grows.
    NoUpdateNeeded,
    /// The latest version was proposed already and waits for merge: treated
    /// as no update.
    AlreadyProposed,
    /// An update is due, but this run only reports it.
    DryRun,
    /// Attempt the update.
    Update,
}

/// Decides a check from the current and latest versions and the version
/// proposed before, if any.
pub fn decide_check(current: &str, latest: &str, proposed: Option<&str>, dry_run: bool) -> (r:
    CheckDecision)
    ensures
        current@ == latest@ ==> r == CheckDecision::NoUpdateNeeded,
        current@ != latest@ && (proposed matches Some(p) && p@ == latest@) ==> r
            == CheckDecision::AlreadyProposed,
        current@ != latest@ && !(proposed matches Some(p) && p@ == latest@) ==> r == if dry_run {
            CheckDecision::DryRun
        } else {
            CheckDecision::Update
        },
{
    let l = string_of(&chars_of(latest));
    if string_of(&chars_of(current)) == l {
        return CheckDecision::NoUpdateNeeded;
    }
    if let Some(p) = proposed {
        if string_of(&chars_of(p)) == l {
            return CheckDecision::AlreadyProposed;
        }
    }
    if dry_run {
        CheckDecision::DryRun
    } else {
        CheckDecision::Update
    }
}

/// Why a `meta.position` value names no file.
#[derive(Debug, Clone, Copy, PartialEq, Eq, Structural)]
pub enum PositionError {
    Empty,
    NoLineNumber,
}

/// The file of a `file:line` position: everything before the last `:`.
pub fn position_file(position: &str) -> (r: Result<String, PositionError>)
    ensures
        position@.len() == 0 ==> r == Err::<String, PositionError>(PositionError::Empty),
        position@.len() > 0 ==> match rfind_char_before(position@, ':', position@.len() as int) {
            Some(i) => r matches Ok(f) && f@ == position@.subrange(0, i),
            None => r == Err::<String, PositionError>(PositionError::NoLineNumber),
        },
{
    let cs = chars_of(position);
    if cs.len() == 0 {
        return Err(PositionError::Empty);
    }
    match rfind_char_seq(&cs, ':', cs.len()) {
        Some(i) => Ok(string_of(&crate::text::slice_chars(&cs, 0, i))),
        None => Err(PositionError::NoLineNumber),
    }
}

/// Whether a log query names a build plan (a store path, a `.drv` name or a
/// hash-name) rather than an attribute path.
pub fn is_drv_identifier(identifier: &str) -> (r: bool)
    ensures
        r == (occurs_at(identifier@, "/nix/store/"@, 0) || crate::text::contains(identifier@, ".drv"@)
            || identifier@.contains('-')),
{
    let cs = chars_of(identifier);
    if matches_at(&cs, &chars_of("/nix/store/"), 0) {
        return true;
    }
    if crate::text::find_seq_from(&cs, &chars_of(".drv"), 0).is_some() {
        return true;
    }
    let dash = crate::text::find_char_seq(&cs, '-', 0);
    proof {
        crate::text::lemma_find_char_contains(cs@, '-');
    }
    dash.is_some()
}

} // verus!
