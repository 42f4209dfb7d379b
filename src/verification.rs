//! The build-verification state machine. Each build outcome moves it one step
//! and names the next thing to do; the caller performs that action (edit the
//! recipe, build, drop a patch) and reports what happened.
use vstd::prelude::*;
use crate::text::{chars_of, push_all, string_of};
use crate::pipeline::{
    SENTINEL_HASH, detect_reversed_patch, extract_hash_from_error, recipe_update, replace_from,
    reported_hash, reversed_patch, update_recipe_text, update_variants_text,
};
use crate::rewrite::{RewriteError, attr_edit, find_and_update_attr};

verus! {

/// Which hash attribute an edit touches.
#[derive(Debug, Clone, Copy, PartialEq, Eq, Structural)]
pub enum HashAttr {
    /// The source's content hash.
    Source,
    /// The Rust vendor hash (`cargoHash`).
    Cargo,
    /// The Go vendor hash (`vendorHash`).
    Vendor,
}

/// What a build builds.
#[derive(Debug, Clone, Copy, PartialEq, Eq, Structural)]
pub enum BuildTarget {
    /// Only the source fetch.
    Source,
    /// The whole package.
    Package,
}

/// Where the protocol stands: which build it waits for, or that it ended.
#[derive(Debug, Clone, Copy, PartialEq, Eq, Structural)]
pub enum Phase {
    /// The source build with the sentinel hash, which must fail.
    SourceProbe,
    /// The source build with the reported hash, which must pass.
    SourceCheck,
    /// The package build with the sentinel `cargoHash`, which must fail.
    CargoProbe,
    /// The package build with the sentinel `vendorHash`, which must fail.
    VendorProbe,
    /// The package build, retried after each stale patch is dropped.
    PackageBuild,
    Done,
    Failed,
}

/// Set `attr` from `old` to `new`.
#[derive(Debug)]
pub struct HashEdit {
    pub attr: HashAttr,
    pub old: String,
    pub new: String,
}

/// What the caller does next.
#[derive(Debug)]
pub enum Action {
    /// Apply the edits in order, then build.
    EditAndBuild { edits: Vec<HashEdit>, target: BuildTarget },
    Build { target: BuildTarget },
    /// Drop the patch from the list, then build the package.
    RemovePatchAndBuild { patch: String },
    /// The package builds: drop an emptied patch list (failure to do so does
    /// not matter) and finish.
    TidyPatchesAndFinish,
    /// Give up with this message.
    Abort { message: String },
}

/// What the caller reports.
#[derive(Debug)]
pub enum BuildEvent {
    Built { success: bool, output: String },
    /// A stale patch could not be dropped from the list.
    PatchRemovalFailed { reason: String },
}

/// The protocol's state, with the vendor hashes still to be discovered.
#[derive(Debug)]
pub struct Verification {
    pub phase: Phase,
    pub cargo_hash: Option<String>,
    pub vendor_hash: Option<String>,
    /// The output of the last failed package build.
    pub last_output: String,
}

/// An edit as plain values.
pub open spec fn edit_view(e: HashEdit) -> (HashAttr, Seq<char>, Seq<char>) {
    (e.attr, e.old@, e.new@)
}

pub open spec fn edits_view(v: Seq<HashEdit>) -> Seq<(HashAttr, Seq<char>, Seq<char>)> {
    v.map_values(|e: HashEdit| edit_view(e))
}

pub open spec fn is_abort(a: Action, msg: Seq<char>) -> bool {
    a matches Action::Abort { message } && message@ == msg
}

pub open spec fn is_edit_and_build(
    a: Action,
    edits: Seq<(HashAttr, Seq<char>, Seq<char>)>,
    target: BuildTarget,
) -> bool {
    a matches Action::EditAndBuild { edits: e, target: t } && edits_view(e@) == edits && t
        == target
}

pub open spec fn sentinel() -> Seq<char> {
    SENTINEL_HASH@
}

/// The step after the source hash is confirmed: the first vendor hash to
/// probe, else the package build.
pub open spec fn after_source(cargo: Option<Seq<char>>, vendor: Option<Seq<char>>, next: Phase, a: Action) -> bool {
    match (cargo, vendor) {
        (Some(c), _) => next == Phase::CargoProbe && is_edit_and_build(
            a,
            seq![(HashAttr::Cargo, c, sentinel())],
            BuildTarget::Package,
        ),
        (None, Some(v)) => next == Phase::VendorProbe && is_edit_and_build(
            a,
            seq![(HashAttr::Vendor, v, sentinel())],
            BuildTarget::Package,
        ),
        (None, None) => next == Phase::PackageBuild && (a matches Action::Build {
            target: BuildTarget::Package,
        }),
    }
}

pub open spec fn opt_string(o: Option<String>) -> Option<Seq<char>> {
    match o {
        Some(s) => Some(s@),
        None => None,
    }
}

/// The step that `ev` causes from `old`: the new phase and the action.
pub open spec fn step_spec(old: Verification, ev: BuildEvent, next: Phase, a: Action) -> bool {
    let cargo = opt_string(old.cargo_hash);
    let vendor = opt_string(old.vendor_hash);
    match (old.phase, ev) {
        (Phase::SourceProbe, BuildEvent::Built { success: true, .. }) => next == Phase::Failed
            && is_abort(a, "Expected hash mismatch error but build succeeded"@),
        (Phase::SourceProbe, BuildEvent::Built { success: false, output }) => match reported_hash(
            output@,
        ) {
            None => next == Phase::Failed && is_abort(
                a,
                "Could not extract correct hash from build error:\n"@ + output@,
            ),
            Some(h) => next == Phase::SourceCheck && is_edit_and_build(
                a,
                seq![(HashAttr::Source, sentinel(), h)],
                BuildTarget::Source,
            ),
        },
        (Phase::SourceCheck, BuildEvent::Built { success: true, .. }) => after_source(
            cargo,
            vendor,
            next,
            a,
        ),
        (Phase::SourceCheck, BuildEvent::Built { success: false, output }) => next == Phase::Failed
            && is_abort(a, "Source build failed after hash update:\n"@ + output@),
        (Phase::CargoProbe, BuildEvent::Built { success: true, .. }) => next == Phase::Failed
            && is_abort(a, "Expected cargoHash mismatch error but build succeeded"@),
        (Phase::CargoProbe, BuildEvent::Built { success: false, output }) => match reported_hash(
            output@,
        ) {
            None => next == Phase::Failed && is_abort(
                a,
                "Could not extract correct cargoHash from build error:\n"@ + output@,
            ),
            Some(h) => match vendor {
                Some(v) => next == Phase::VendorProbe && is_edit_and_build(
                    a,
                    seq![(HashAttr::Cargo, sentinel(), h), (HashAttr::Vendor, v, sentinel())],
                    BuildTarget::Package,
                ),
                None => next == Phase::PackageBuild && is_edit_and_build(
                    a,
                    seq![(HashAttr::Cargo, sentinel(), h)],
                    BuildTarget::Package,
                ),
            },
        },
        (Phase::VendorProbe, BuildEvent::Built { success: true, .. }) => next == Phase::Failed
            && is_abort(a, "Expected vendorHash mismatch error but build succeeded"@),
        (Phase::VendorProbe, BuildEvent::Built { success: false, output }) => match reported_hash(
            output@,
        ) {
            None => next == Phase::Failed && is_abort(
                a,
                "Could not extract correct vendorHash from build error:\n"@ + output@,
            ),
            Some(h) => next == Phase::PackageBuild && is_edit_and_build(
                a,
                seq![(HashAttr::Vendor, sentinel(), h)],
                BuildTarget::Package,
            ),
        },
        (Phase::PackageBuild, BuildEvent::Built { success: true, .. }) => next == Phase::Done
            && (a matches Action::TidyPatchesAndFinish),
        (Phase::PackageBuild, BuildEvent::Built { success: false, output }) => match reversed_patch(
            output@,
        ) {
            Some(p) => next == Phase::PackageBuild && (a matches Action::RemovePatchAndBuild {
                patch,
            } && patch@ == p),
            None => next == Phase::Failed && is_abort(
                a,
                "Package build failed after update. You may need to manually fix build issues."@,
            ),
        },
        (Phase::PackageBuild, BuildEvent::PatchRemovalFailed { reason }) => next == Phase::Failed
            && is_abort(
            a,
            "Package build failed after update. Detected reversed patch but couldn't remove it: "@
                + reason@ + "\n"@ + old.last_output@,
        ),
        _ => next == Phase::Failed && is_abort(a, "Unexpected event for this verification step"@),
    }
}

/// The output kept after a step: that of a failed package build that asks
/// for a patch to be dropped, so that a failed removal can report it;
/// otherwise what was kept before.
pub open spec fn kept_output(old: Verification, ev: BuildEvent) -> Seq<char> {
    match (old.phase, ev) {
        (Phase::PackageBuild, BuildEvent::Built { success: false, output }) => if reversed_patch(
            output@,
        ) is Some {
            output@
        } else {
            old.last_output@
        },
        _ => old.last_output@,
    }
}

fn abort_with(prefix: &str, detail: &String) -> (a: Action)
    ensures
        is_abort(a, prefix@ + detail@),
{
    let mut m = chars_of(prefix);
    push_all(&mut m, &chars_of(detail.as_str()));
    Action::Abort { message: string_of(&m) }
}

fn abort_plain(message: &str) -> (a: Action)
    ensures
        is_abort(a, message@),
{
    Action::Abort { message: string_of(&chars_of(message)) }
}

fn sentinel_string() -> (r: String)
    ensures
        r@ == sentinel(),
{
    string_of(&chars_of(SENTINEL_HASH))
}

fn one_edit(attr: HashAttr, old: String, new: String, target: BuildTarget) -> (a: Action)
    ensures
        is_edit_and_build(a, seq![(attr, old@, new@)], target),
{
    let mut edits: Vec<HashEdit> = Vec::new();
    edits.push(HashEdit { attr, old, new });
    assert(edits_view(edits@) =~= seq![(attr, old@, new@)]);
    Action::EditAndBuild { edits, target }
}

fn copy_opt(o: &Option<String>) -> (r: Option<String>)
    ensures
        opt_string(r) == opt_string(*o),
{
    match o {
        Some(s) => Some(s.clone()),
        None => None,
    }
}

impl Verification {
    /// Starts the protocol once the new version and the sentinel hash are in
    /// the recipe: the source is built first.
    pub fn new(cargo_hash: Option<String>, vendor_hash: Option<String>) -> (r: (
        Verification,
        Action,
    ))
        ensures
            r.0.phase == Phase::SourceProbe,
            opt_string(r.0.cargo_hash) == opt_string(cargo_hash),
            opt_string(r.0.vendor_hash) == opt_string(vendor_hash),
            r.1 matches Action::Build { target: BuildTarget::Source },
    {
        (
            Verification { phase: Phase::SourceProbe, cargo_hash, vendor_hash, last_output: String::new() },
            Action::Build { target: BuildTarget::Source },
        )
    }

    /// Takes one build outcome and returns what to do next.
    pub fn step(&mut self, event: BuildEvent) -> (a: Action)
        ensures
            step_spec(*old(self), event, final(self).phase, a),
            final(self).last_output@ == kept_output(*old(self), event),
            opt_string(final(self).cargo_hash) == opt_string(old(self).cargo_hash),
            opt_string(final(self).vendor_hash) == opt_string(old(self).vendor_hash),
    {
        let ghost event_copy = event;
        match (self.phase, event) {
            (Phase::SourceProbe, BuildEvent::Built { success: true, .. }) => {
                self.phase = Phase::Failed;
                abort_plain("Expected hash mismatch error but build succeeded")
            },
            (Phase::SourceProbe, BuildEvent::Built { success: false, output }) => {
                match extract_hash_from_error(output.as_str()) {
                    None => {
                        self.phase = Phase::Failed;
                        abort_with("Could not extract correct hash from build error:\n", &output)
                    },
                    Some(h) => {
                        self.phase = Phase::SourceCheck;
                        one_edit(HashAttr::Source, sentinel_string(), h, BuildTarget::Source)
                    },
                }
            },
            (Phase::SourceCheck, BuildEvent::Built { success: true, .. }) => {
                match (&self.cargo_hash, &self.vendor_hash) {
                    (Some(c), _) => {
                        let c = c.clone();
                        self.phase = Phase::CargoProbe;
                        one_edit(HashAttr::Cargo, c, sentinel_string(), BuildTarget::Package)
                    },
                    (None, Some(v)) => {
                        let v = v.clone();
                        self.phase = Phase::VendorProbe;
                        one_edit(HashAttr::Vendor, v, sentinel_string(), BuildTarget::Package)
                    },
                    (None, None) => {
                        self.phase = Phase::PackageBuild;
                        Action::Build { target: BuildTarget::Package }
                    },
                }
            },
            (Phase::SourceCheck, BuildEvent::Built { success: false, output }) => {
                self.phase = Phase::Failed;
                abort_with("Source build failed after hash update:\n", &output)
            },
            (Phase::CargoProbe, BuildEvent::Built { success: true, .. }) => {
                self.phase = Phase::Failed;
                abort_plain("Expected cargoHash mismatch error but build succeeded")
            },
            (Phase::CargoProbe, BuildEvent::Built { success: false, output }) => {
                match extract_hash_from_error(output.as_str()) {
                    None => {
                        self.phase = Phase::Failed;
                        abort_with(
                            "Could not extract correct cargoHash from build error:\n",
                            &output,
                        )
                    },
                    Some(h) => {
                        match &self.vendor_hash {
                            Some(v) => {
                                let v = v.clone();
                                self.phase = Phase::VendorProbe;
                                let mut edits: Vec<HashEdit> = Vec::new();
                                edits.push(
                                    HashEdit { attr: HashAttr::Cargo, old: sentinel_string(), new: h },
                                );
                                edits.push(
                                    HashEdit { attr: HashAttr::Vendor, old: v, new: sentinel_string() },
                                );
                                assert(edits_view(edits@) =~= seq![
                                    edit_view(edits@[0]),
                                    edit_view(edits@[1]),
                                ]);
                                Action::EditAndBuild { edits, target: BuildTarget::Package }
                            },
                            None => {
                                self.phase = Phase::PackageBuild;
                                one_edit(HashAttr::Cargo, sentinel_string(), h, BuildTarget::Package)
                            },
                        }
                    },
                }
            },
            (Phase::VendorProbe, BuildEvent::Built { success: true, .. }) => {
                self.phase = Phase::Failed;
                abort_plain("Expected vendorHash mismatch error but build succeeded")
            },
            (Phase::VendorProbe, BuildEvent::Built { success: false, output }) => {
                match extract_hash_from_error(output.as_str()) {
                    None => {
                        self.phase = Phase::Failed;
                        abort_with(
                            "Could not extract correct vendorHash from build error:\n",
                            &output,
                        )
                    },
                    Some(h) => {
                        self.phase = Phase::PackageBuild;
                        one_edit(HashAttr::Vendor, sentinel_string(), h, BuildTarget::Package)
                    },
                }
            },
            (Phase::PackageBuild, BuildEvent::Built { success: true, .. }) => {
                self.phase = Phase::Done;
                Action::TidyPatchesAndFinish
            },
            (Phase::PackageBuild, BuildEvent::Built { success: false, output }) => {
                match detect_reversed_patch(output.as_str()) {
                    Some(p) => {
                        self.last_output = output;
                        Action::RemovePatchAndBuild { patch: p }
                    },
                    None => {
                        self.phase = Phase::Failed;
                        abort_plain(
                            "Package build failed after update. You may need to manually fix build issues.",
                        )
                    },
                }
            },
            (Phase::PackageBuild, BuildEvent::PatchRemovalFailed { reason }) => {
                let mut m = chars_of(
                    "Package build failed after update. Detected reversed patch but couldn't remove it: ",
                );
                push_all(&mut m, &chars_of(reason.as_str()));
                push_all(&mut m, &chars_of("\n"));
                push_all(&mut m, &chars_of(self.last_output.as_str()));
                self.phase = Phase::Failed;
                Action::Abort { message: string_of(&m) }
            },
            _ => {
                self.phase = Phase::Failed;
                abort_plain("Unexpected event for this verification step")
            },
        }
    }
}

/// The text after a hash edit. The content hash follows the version edit's
/// rules (in a recipe) or plain substitution (in a sibling data file); the
/// vendor hashes are the `cargoHash` and `vendorHash` attributes.
pub open spec fn hash_edit_result(
    content: Seq<char>,
    in_sibling: bool,
    version: Seq<char>,
    attr: HashAttr,
    old: Seq<char>,
    new: Seq<char>,
) -> Option<Seq<char>> {
    match attr {
        HashAttr::Source => if in_sibling {
            Some(replace_from(replace_from(content, 0, version, version), 0, old, new))
        } else {
            recipe_update(content, version, version, Some(old), Some(new))
        },
        HashAttr::Cargo => attr_edit(content, "cargoHash"@, new, Some(old)),
        HashAttr::Vendor => attr_edit(content, "vendorHash"@, new, Some(old)),
    }
}

/// Applies one hash edit to the text of the file that holds the package's
/// version (`in_sibling` when that is a sibling data file).
pub fn apply_hash_edit(
    content: &str,
    in_sibling: bool,
    version: &str,
    edit: &HashEdit,
) -> (r: Result<String, RewriteError>)
    ensures
        r is Ok <==> hash_edit_result(
            content@,
            in_sibling,
            version@,
            edit.attr,
            edit.old@,
            edit.new@,
        ) is Some,
        r matches Ok(t) ==> hash_edit_result(
            content@,
            in_sibling,
            version@,
            edit.attr,
            edit.old@,
            edit.new@,
        ) == Some(t@),
{
    match edit.attr {
        HashAttr::Source => {
            if in_sibling {
                Ok(
                    update_variants_text(
                        content,
                        version,
                        version,
                        Some(edit.old.as_str()),
                        Some(edit.new.as_str()),
                    ),
                )
            } else {
                update_recipe_text(
                    content,
                    version,
                    version,
                    Some(edit.old.as_str()),
                    Some(edit.new.as_str()),
                )
            }
        },
        HashAttr::Cargo => find_and_update_attr(
            content,
            "cargoHash",
            edit.new.as_str(),
            Some(edit.old.as_str()),
        ),
        HashAttr::Vendor => find_and_update_attr(
            content,
            "vendorHash",
            edit.new.as_str(),
            Some(edit.old.as_str()),
        ),
    }
}

} // verus!
