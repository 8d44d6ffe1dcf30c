//! The scheduled jobs that initialisation registers with abeat, as the argument
//! lists handed to the `abeat` command.
use vstd::prelude::*;

use crate::registry::key_views;

verus! {

/// The id of the periodic check-in job.
pub const HEARTBEAT_JOB_ID: &'static str = "yuiclaw-heartbeat";

/// The id of the job that restarts the daemon when it is unhealthy.
pub const WATCHDOG_JOB_ID: &'static str = "yuiclaw-daemon-watchdog";

/// The check-in job's shell command: publish a prompt to the bridge when acomm
/// and the bridge socket are there, else report that nothing was to be done.
pub const HEARTBEAT_EXEC: &'static str = "if command -v acomm >/dev/null 2>&1 && test -S /tmp/acomm.sock; then   acomm --publish 'Proactive heartbeat: review recent amem activities and provide a brief status update.' --channel heartbeat 2>/dev/null; else   echo HEARTBEAT_OK; fi";

/// The watchdog's shell command: restart the daemon when its status cannot be
/// read, the bridge is down, or a configured channel is not connected.
pub const WATCHDOG_EXEC: &'static str = "STATUS=$(yuiclaw daemon status --json 2>/dev/null); if [ $? -ne 0 ]; then yuiclaw daemon restart; exit 0; fi; BRIDGE_RUNNING=$(echo \"$STATUS\" | jq -r '.bridge_running'); if [ \"$BRIDGE_RUNNING\" != \"true\" ]; then yuiclaw daemon restart; exit 0; fi; DISCONNECTED_CHANNELS=$(echo \"$STATUS\" | jq -r '.channels[] | select(.connected == false) | .label'); if [ -n \"$DISCONNECTED_CHANNELS\" ]; then yuiclaw daemon restart; exit 0; fi; echo WATCHDOG_OK;";

/// The arguments of `abeat` that register a shell job run every `every`.
pub open spec fn job_add_args(
    id: Seq<char>,
    description: Seq<char>,
    every: Seq<char>,
    workspace: Seq<char>,
    exec: Seq<char>,
    no_op_token: Seq<char>,
) -> Seq<Seq<char>> {
    seq![
        "set"@,
        "jobs"@,
        "add"@,
        "--id"@,
        id,
        "--description"@,
        description,
        "--kind"@,
        "heartbeat_check"@,
        "--every"@,
        every,
        "--agent"@,
        "shell"@,
        "--workspace"@,
        workspace,
        "--exec"@,
        exec,
        "--no-op-token"@,
        no_op_token,
    ]
}

/// Builds the arguments of `job_add_args`.
fn job_add_command(
    id: &str,
    description: &str,
    every: &str,
    workspace: &str,
    exec: &str,
    no_op_token: &str,
) -> (r: Vec<String>)
    ensures
        key_views(r@) == job_add_args(id@, description@, every@, workspace@, exec@, no_op_token@),
{
    let r = vec![
        "set".to_owned(),
        "jobs".to_owned(),
        "add".to_owned(),
        "--id".to_owned(),
        id.to_owned(),
        "--description".to_owned(),
        description.to_owned(),
        "--kind".to_owned(),
        "heartbeat_check".to_owned(),
        "--every".to_owned(),
        every.to_owned(),
        "--agent".to_owned(),
        "shell".to_owned(),
        "--workspace".to_owned(),
        workspace.to_owned(),
        "--exec".to_owned(),
        exec.to_owned(),
        "--no-op-token".to_owned(),
        no_op_token.to_owned(),
    ];
    assert(key_views(r@) =~= job_add_args(
        id@,
        description@,
        every@,
        workspace@,
        exec@,
        no_op_token@,
    ));
    r
}

/// The arguments of `abeat` that ask whether the job `id` exists.
pub fn job_lookup_args(id: &str) -> (r: Vec<String>)
    ensures
        key_views(r@) == seq!["get"@, "job"@, id@],
{
    let r = vec!["get".to_owned(), "job".to_owned(), id.to_owned()];
    assert(key_views(r@) =~= seq!["get"@, "job"@, id@]);
    r
}

/// The arguments that register the check-in job, every 30 minutes, working in
/// `home`.
pub fn heartbeat_job_args(home: &str) -> (r: Vec<String>)
    ensures
        key_views(r@) == job_add_args(
            HEARTBEAT_JOB_ID@,
            "YuiClaw 30分ごとのプロアクティブチェック"@,
            "30m"@,
            home@,
            HEARTBEAT_EXEC@,
            "HEARTBEAT_OK"@,
        ),
{
    job_add_command(
        HEARTBEAT_JOB_ID,
        "YuiClaw 30分ごとのプロアクティブチェック",
        "30m",
        home,
        HEARTBEAT_EXEC,
        "HEARTBEAT_OK",
    )
}

/// The arguments that register the watchdog job, every 5 minutes, working in
/// `home`.
pub fn watchdog_job_args(home: &str) -> (r: Vec<String>)
    ensures
        key_views(r@) == job_add_args(
            WATCHDOG_JOB_ID@,
            "YuiClaw デーモンの死活監視 (5分ごと)"@,
            "5m"@,
            home@,
            WATCHDOG_EXEC@,
            "WATCHDOG_OK"@,
        ),
{
    job_add_command(
        WATCHDOG_JOB_ID,
        "YuiClaw デーモンの死活監視 (5分ごと)",
        "5m",
        home,
        WATCHDOG_EXEC,
        "WATCHDOG_OK",
    )
}

} // verus!
