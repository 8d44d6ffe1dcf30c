use yuiclaw::jobs::{heartbeat_job_args, job_lookup_args, watchdog_job_args, HEARTBEAT_EXEC, WATCHDOG_EXEC};
use yuiclaw::stack::{memory_root_label, tui_command};

#[test]
fn heartbeat_command_is_the_joined_script() {
    let exec_cmd = [
        "if command -v acomm >/dev/null 2>&1 && test -S /tmp/acomm.sock; then",
        "  acomm --publish 'Proactive heartbeat: review recent amem activities and provide a brief status update.' --channel heartbeat 2>/dev/null;",
        "else",
        "  echo HEARTBEAT_OK;",
        "fi",
    ]
    .join(" ");
    assert_eq!(HEARTBEAT_EXEC, exec_cmd);
}

#[test]
fn watchdog_command_is_the_joined_script() {
    let exec_cmd = [
        "STATUS=$(yuiclaw daemon status --json 2>/dev/null);",
        "if [ $? -ne 0 ]; then yuiclaw daemon restart; exit 0; fi;",
        "BRIDGE_RUNNING=$(echo \"$STATUS\" | jq -r '.bridge_running');",
        "if [ \"$BRIDGE_RUNNING\" != \"true\" ]; then yuiclaw daemon restart; exit 0; fi;",
        "DISCONNECTED_CHANNELS=$(echo \"$STATUS\" | jq -r '.channels[] | select(.connected == false) | .label');",
        "if [ -n \"$DISCONNECTED_CHANNELS\" ]; then yuiclaw daemon restart; exit 0; fi;",
        "echo WATCHDOG_OK;",
    ]
    .join(" ");
    assert_eq!(WATCHDOG_EXEC, exec_cmd);
}

#[test]
fn heartbeat_job_registers_every_thirty_minutes_in_home() {
    let args = heartbeat_job_args("/home/u");
    assert_eq!(
        args,
        vec![
            "set", "jobs", "add", "--id", "yuiclaw-heartbeat", "--description",
            "YuiClaw 30分ごとのプロアクティブチェック", "--kind", "heartbeat_check", "--every", "30m",
            "--agent", "shell", "--workspace", "/home/u", "--exec", HEARTBEAT_EXEC,
            "--no-op-token", "HEARTBEAT_OK",
        ]
    );
}

#[test]
fn watchdog_job_registers_every_five_minutes() {
    let args = watchdog_job_args("/tmp");
    assert_eq!(args[4], "yuiclaw-daemon-watchdog");
    assert_eq!(args[10], "5m");
    assert_eq!(args[14], "/tmp");
    assert_eq!(args[16], WATCHDOG_EXEC);
    assert_eq!(args[18], "WATCHDOG_OK");
    assert_eq!(args.len(), 19);
}

#[test]
fn job_lookup_names_the_job() {
    assert_eq!(job_lookup_args("yuiclaw-heartbeat"), vec!["get", "job", "yuiclaw-heartbeat"]);
}

#[test]
fn tui_prefers_the_typescript_one() {
    assert_eq!(tui_command(true), "acomm-tui");
    assert_eq!(tui_command(false), "acomm");
}

#[test]
fn memory_label_uses_a_nonempty_amem_root() {
    assert_eq!(memory_root_label(Some("/data/amem")), "/data/amem (AMEM_ROOT)");
    assert_eq!(memory_root_label(Some("")), "~/.amem (default)");
    assert_eq!(memory_root_label(None), "~/.amem (default)");
}
