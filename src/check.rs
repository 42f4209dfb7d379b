//! The scheduling side of one package check: what is recorded, and how the
//! task ends, once the upstream answer and the update attempt are known.
use vstd::prelude::*;
use crate::orchestrator::TaskOutcome;
use crate::package::{CheckDecision, decide_check};
use crate::scheduler::{Database, MAX_TIME, backoff_days, opt_str};

verus! {

/// What a check does after asking upstream.
#[derive(Debug)]
pub enum CheckStep {
    /// The check is over.
    Finished(TaskOutcome),
    /// Attempt the update to this version.
    AttemptUpdate { latest: String },
}

/// Records what the upstream answer means for the package. `latest` is the
/// clean version of the best release, or `None` when the fetch failed or no
/// release was acceptable: that counts as no update (recorded with latest
/// version `unknown`). A version already proposed and still latest counts as
/// no update too.
pub fn after_upstream(
    db: &mut Database,
    attr_path: &str,
    current: &str,
    latest: Option<&str>,
    dry_run: bool,
    now: i64,
) -> (r: CheckStep)
    requires
        old(db).wf(),
        0 <= now <= MAX_TIME,
    ensures
        final(db).wf(),
        forall|a: Seq<char>| a != attr_path@ ==> final(db).record_of(a) == old(db).record_of(a),
        forall|d: Seq<char>| final(db).log_of(d) == old(db).log_of(d),
        ({
            let proposed = match old(db).record_of(attr_path@) {
                Some(rec) => opt_str(rec.proposed_version),
                None => None,
            };
            let backed_off = final(db).record_of(attr_path@) matches Some(rec) && rec.last_attempted
                == Some(now) && rec.next_attempt == Some(
                (now + backoff_days(old(db).record_of(attr_path@), now as int) * 86400) as i64,
            ) && opt_str(rec.current_version) == Some(current@) && opt_str(rec.proposed_version)
                == proposed && opt_str(rec.latest_upstream_version) == Some(
                match latest {
                    Some(l) => l@,
                    None => "unknown"@,
                },
            );
            match latest {
                None => backed_off && (r matches CheckStep::Finished(TaskOutcome::Skipped)) && opt_str(
                    final(db).record_of(attr_path@)->0.latest_upstream_version,
                ) == Some("unknown"@),
                Some(l) => if current@ == l@ {
                    backed_off && (r matches CheckStep::Finished(TaskOutcome::NoUpdateNeeded))
                } else if proposed == Some(l@) {
                    backed_off && (r matches CheckStep::Finished(TaskOutcome::Skipped))
                } else if dry_run {
                    final(db).record_of(attr_path@) == old(db).record_of(attr_path@) && (r matches CheckStep::Finished(
                        TaskOutcome::DryRun,
                    ))
                } else {
                    final(db).record_of(attr_path@) == old(db).record_of(attr_path@) && (r matches CheckStep::AttemptUpdate { latest: v } && v@ == l@)
                },
            }
        }),
{
    match latest {
        None => {
            db.record_no_update(attr_path, current, "unknown", now);
            CheckStep::Finished(TaskOutcome::Skipped)
        },
        Some(l) => {
            let proposed: Option<String> = match db.get_update_record(attr_path) {
                Some(rec) => match &rec.proposed_version {
                    Some(p) => Some(p.clone()),
                    None => None,
                },
                None => None,
            };
            let p = match &proposed {
                Some(p) => Some(p.as_str()),
                None => None,
            };
            match decide_check(current, l, p, dry_run) {
                CheckDecision::NoUpdateNeeded => {
                    db.record_no_update(attr_path, current, l, now);
                    CheckStep::Finished(TaskOutcome::NoUpdateNeeded)
                },
                CheckDecision::AlreadyProposed => {
                    db.record_no_update(attr_path, current, l, now);
                    CheckStep::Finished(TaskOutcome::Skipped)
                },
                CheckDecision::DryRun => CheckStep::Finished(TaskOutcome::DryRun),
                CheckDecision::Update => CheckStep::AttemptUpdate {
                    latest: crate::text::string_of(&crate::text::chars_of(l)),
                },
            }
        },
    }
}

/// Records how an update attempt ended: a success resets the backoff and
/// clears the proposal; a failure goes to the failure log under the build
/// plan, with the captured error text, and the task counts as skipped.
pub fn after_attempt(
    db: &mut Database,
    drv_path: &str,
    attr_path: &str,
    current: &str,
    latest: &str,
    result: Result<&str, &str>,
    now: i64,
) -> (r: TaskOutcome)
    requires
        old(db).wf(),
        0 <= now <= MAX_TIME,
    ensures
        final(db).wf(),
        match result {
            Ok(new_version) => r == TaskOutcome::Updated && (final(db).record_of(attr_path@) matches Some(
                rec,
            ) && rec.last_attempted == Some(now) && rec.next_attempt == Some(
                (now + 2 * 86400) as i64,
            ) && opt_str(rec.current_version) == Some(new_version@) && opt_str(
                rec.latest_upstream_version,
            ) == Some(new_version@) && rec.proposed_version is None) && forall|d: Seq<char>|
                final(db).log_of(d) == old(db).log_of(d),
            Err(message) => r == TaskOutcome::Skipped && (final(db).log_of(drv_path@) matches Some(
                log,
            ) && log.timestamp == now && log.error_log@ == message@ && opt_str(log.old_version)
                == Some(current@) && opt_str(log.new_version) == Some(latest@))
                && forall|a: Seq<char>| final(db).record_of(a) == old(db).record_of(a),
        },
{
    match result {
        Ok(new_version) => {
            db.record_successful_update(attr_path, current, new_version, now);
            TaskOutcome::Updated
        },
        Err(message) => {
            db.record_failed_update(drv_path, attr_path, message, Some(current), Some(latest), now);
            TaskOutcome::Skipped
        },
    }
}

} // verus!
