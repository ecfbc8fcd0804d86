//! Decisions of the command-line entry points: creating a challenge folder,
//! confirming a sync, starting the TUI.
use vstd::prelude::*;
use vstd::string::*;

use crate::config::Config;
use crate::dispatch::challenge_directory;
use crate::models::{ctf_directory, Challenge};
use crate::sync::{folder_key, is_orphaned, key_present, lemma_sanitize_idempotent, sanitize_challenge_name, sanitized};
use crate::templates::get_template_path;
use crate::text::{join_path, joined_path, lowercase, to_lowercase, trim, trimmed};

verus! {

/// What creating a challenge amounts to: the directory to create, the
/// template directory to copy from (when a CTF directory is configured), and
/// the challenge to record.
#[derive(Debug)]
pub struct ChallengePlan {
    pub challenge_path: String,
    pub template_path: Option<String>,
    pub challenge: Challenge,
}

/// The message given when no CTF is active.
pub open spec fn no_active_ctf_hint() -> Seq<char> {
    "No active CTF. Run 'ctf' to select one"@
}

/// What `ctf <category> <name>` comes to under `config`: the challenge goes
/// to `<active CTF dir>/<category>/<name>` (both sanitized), templates come
/// from `<CTF dir>/templates/<category>` (category as given), and the
/// challenge is recorded unsolved in the active CTF. Without an active CTF
/// (id or directory) it is an error.
pub open spec fn plan_outcome(
    config: Config,
    category: Seq<char>,
    challenge_name: Seq<char>,
    r: Result<ChallengePlan, String>,
) -> bool {
    &&& config.active_ctf_id is None ==> (r matches Err(e) && e@ == no_active_ctf_hint())
    &&& config.active_ctf_id is Some && config.active_ctf_path is None ==> (r matches Err(e) && e@
        == no_active_ctf_hint() + ": "@ + crate::config::no_active_ctf_message())
    &&& config.active_ctf_id is Some && config.active_ctf_path is Some ==> (r matches Ok(plan) && {
        &&& plan.challenge_path@ == joined_path(
            joined_path(config.active_ctf_path->0@, sanitized(category)),
            sanitized(challenge_name),
        )
        &&& match config.default_ctf_directory {
            Some(base) => plan.template_path matches Some(t) && t@ == joined_path(
                joined_path(base@, "templates"@),
                category,
            ),
            None => plan.template_path is None,
        }
        &&& plan.challenge.id is None
        &&& plan.challenge.ctf_id == config.active_ctf_id->0
        &&& plan.challenge.name@ == challenge_name
        &&& plan.challenge.category matches Some(c) && c@ == category
        &&& plan.challenge.points is None
        &&& plan.challenge.flag is None
        &&& !plan.challenge.solved
        &&& plan.challenge.notes is None
        &&& plan.challenge.created_at@.len() == 0
    })
}

/// Plans `ctf <category> <name>` (see `plan_outcome`).
pub fn plan_challenge(config: &Config, category: &str, challenge_name: &str) -> (r: Result<
    ChallengePlan,
    String,
>)
    ensures
        plan_outcome(*config, category@, challenge_name@, r),
{
    let ctf_id = match config.active_ctf_id {
        Some(id) => id,
        None => {
            return Err(String::from_str("No active CTF. Run 'ctf' to select one"));
        },
    };
    let ctf_path = match config.get_active_ctf_path() {
        Ok(p) => p,
        Err(e) => {
            let mut m = String::from_str("No active CTF. Run 'ctf' to select one");
            m.append(": ");
            m.append(e.as_str());
            return Err(m);
        },
    };
    let safe_category = sanitize_challenge_name(category);
    let safe_name = sanitize_challenge_name(challenge_name);
    let category_path = join_path(ctf_path.as_str(), safe_category.as_str());
    let challenge_path = join_path(category_path.as_str(), safe_name.as_str());
    let template_path = match &config.default_ctf_directory {
        Some(base) => Some(get_template_path(base.as_str(), category)),
        None => None,
    };
    let challenge = Challenge {
        id: None,
        ctf_id,
        name: String::from_str(challenge_name),
        category: Some(String::from_str(category)),
        points: None,
        flag: None,
        solved: false,
        notes: None,
        created_at: String::new(),
    };
    Ok(ChallengePlan { challenge_path, template_path, challenge })
}

/// Whether an answer to "Proceed with sync? [y/N]" agrees: "y" or "yes",
/// ignoring surrounding whitespace and case.
pub fn confirms_sync(answer: &str) -> (r: bool)
    ensures
        r == (lowercase(trimmed(answer@)) == "y"@ || lowercase(trimmed(answer@)) == "yes"@),
{
    let trimmed_answer = trim(answer);
    let lower = to_lowercase(trimmed_answer.as_str());
    let s = lower.as_str();
    crate::text::str_equal(s, "y") || crate::text::str_equal(s, "yes")
}

/// Whether the TUI starts with the onboarding dialog: no CTF directory is
/// configured yet.
pub fn needs_onboarding(config: &Config) -> (r: bool)
    ensures
        r == config.default_ctf_directory is None,
{
    config.default_ctf_directory.is_none()
}

/// Twelve hours, in nanoseconds.
pub open spec fn refresh_interval_ns() -> int {
    43_200_000_000_000
}

/// The instant an RFC 3339 time stamp denotes, in nanoseconds since
/// 1970-01-01T00:00:00Z, as chrono's `DateTime::parse_from_rfc3339` reads
/// it; `None` when it does not parse.
pub uninterp spec fn rfc3339_instant_ns(s: Seq<char>) -> Option<int>;

/// chrono's `DateTime::parse_from_rfc3339`, its result given as Unix seconds
/// and the nanoseconds past them (`timestamp`, `timestamp_subsec_nanos`). The
/// RFC 3339 grammar is not restated: the instant is named
/// `rfc3339_instant_ns`.
#[verifier::external_body]
fn parse_rfc3339(s: &str) -> (r: Option<(i64, u32)>)
    ensures
        r matches Some((secs, nanos)) ==> rfc3339_instant_ns(s@) == Some(
            secs * 1_000_000_000 + nanos,
        ),
        r is None ==> rfc3339_instant_ns(s@) is None,
{
    chrono::DateTime::parse_from_rfc3339(s).ok().map(|d| (d.timestamp(), d.timestamp_subsec_nanos()))
}

/// Whether CTFtime data is due for a refresh at `now_ns` (nanoseconds since
/// 1970-01-01 UTC), given the stored time of the last fetch: it was never
/// fetched, or the stored time does not read as RFC 3339, or more than
/// twelve hours have passed since.
pub fn ctftime_refresh_due_at(last_fetch: Option<&str>, now_ns: i128) -> (r: bool)
    ensures
        last_fetch is None ==> r,
        last_fetch matches Some(t) ==> r == match rfc3339_instant_ns(t@) {
            None => true,
            Some(l) => now_ns - l > refresh_interval_ns(),
        },
{
    match last_fetch {
        None => true,
        Some(t) => match parse_rfc3339(t) {
            None => true,
            Some((secs, nanos)) => {
                let last: i128 = secs as i128 * 1_000_000_000 + nanos as i128;
                now_ns > last + 43_200_000_000_000
            },
        },
    }
}

/// Once a CTF is made active in a directory, `ctf <category> <name>`
/// succeeds: the challenge folder goes under that directory, and the
/// challenge is recorded for that CTF.
pub proof fn lemma_active_ctf_receives_new_challenges(
    before: Config,
    ctf_id: i64,
    path: String,
    category: Seq<char>,
    challenge_name: Seq<char>,
    r: Result<ChallengePlan, String>,
)
    requires
        plan_outcome(before.with_active_ctf(ctf_id, path), category, challenge_name, r),
    ensures
        r matches Ok(plan) && plan.challenge_path@ == joined_path(
            joined_path(path@, sanitized(category)),
            sanitized(challenge_name),
        ) && plan.challenge.ctf_id == ctf_id,
{
}

/// The folder that `ctf <category> <name>` creates for a CTF made active
/// from the CTF list is the one the challenge list opens for that
/// challenge.
pub proof fn lemma_created_folder_is_opened_from_the_list(
    before: Config,
    ctf_id: i64,
    ctf_name: Seq<char>,
    path: String,
    category: Seq<char>,
    challenge_name: Seq<char>,
    r: Result<ChallengePlan, String>,
)
    requires
        path@ == ctf_directory(before.default_ctf_directory, ctf_name),
        plan_outcome(before.with_active_ctf(ctf_id, path), category, challenge_name, r),
    ensures
        r matches Ok(plan) && plan.challenge_path@ == challenge_directory(
            ctf_directory(before.with_active_ctf(ctf_id, path).default_ctf_directory, ctf_name),
            category,
            challenge_name,
        ),
{
}

/// A challenge created by `ctf <category> <name>` keeps its database entry
/// through a sync while its folder is there: the key the scan records for
/// the folder the plan created (`<sanitized category>/<sanitized name>`)
/// is the key the sync looks for.
pub proof fn lemma_created_challenge_survives_sync(
    config: Config,
    category: Seq<char>,
    challenge_name: Seq<char>,
    plan: ChallengePlan,
    existing: Seq<(String, String)>,
)
    requires
        plan_outcome(config, category, challenge_name, Ok(plan)),
        config.active_ctf_id is Some && config.active_ctf_path is Some,
        key_present(existing, folder_key(sanitized(category), sanitized(challenge_name))),
    ensures
        !is_orphaned(existing, plan.challenge),
{
    lemma_sanitize_idempotent(category);
    lemma_sanitize_idempotent(challenge_name);
}

} // verus!
