use docker_executor::duration_to_millis;
use docker_executor::shell_service::{
    apply_env_settings, assemble_response, background_started_response, is_background,
    merge_output, timeout_message, u64_to_string, MyShellExecutor,
};

#[test]
fn test_is_background_basic() {
    assert!(is_background("echo hello &"));
}

#[test]
fn test_is_background_trailing_spaces() {
    assert!(is_background("echo hello    &  "));
}

#[test]
fn test_is_background_escaped_ampersand() {
    assert!(!is_background("echo hello \\&"));
}

#[test]
fn test_is_not_background() {
    assert!(!is_background("echo hello"));
}

#[test]
fn background_invocation_runs_whole_command_detached() {
    let exec = MyShellExecutor;
    let inv = exec.build_invocation("sleep 2 &", true);
    assert!(inv.background);
    assert_eq!(inv.program, "/bin/bash");
    assert_eq!(
        inv.args,
        vec!["--login".to_string(), "-c".to_string(), "sleep 2 &".to_string()]
    );
    assert!(inv.stdin_body.is_none());
}

#[test]
fn background_spawn_response_is_fixed() {
    let resp = background_started_response();
    assert_eq!(resp.exit_code, 0);
    assert_eq!(resp.stdout, "Background command started");
    assert_eq!(resp.stderr, "");
}

#[test]
fn shebang_invocation_goes_through_bash_login() {
    let exec = MyShellExecutor;
    let inv = exec.build_invocation("#!/usr/bin/env python3\nprint('py-ok')", true);
    assert!(!inv.background);
    assert_eq!(inv.program, "/bin/bash");
    assert_eq!(
        inv.args,
        vec![
            "--login".to_string(),
            "-c".to_string(),
            "exec \"$@\"".to_string(),
            "bash".to_string(),
            "/usr/bin/env".to_string(),
            "python3".to_string(),
        ]
    );
    assert_eq!(inv.stdin_body.as_deref(), Some("print('py-ok')"));
}

#[test]
fn shebang_invocation_without_bash_uses_sh_login() {
    let exec = MyShellExecutor;
    let inv = exec.build_invocation("#!/bin/sh -eu\necho direct-sh", false);
    assert!(!inv.background);
    assert_eq!(inv.program, "sh");
    assert_eq!(
        inv.args,
        vec![
            "-l".to_string(),
            "-c".to_string(),
            "exec \"$@\"".to_string(),
            "sh".to_string(),
            "/bin/sh".to_string(),
            "-eu".to_string(),
        ]
    );
    assert_eq!(inv.stdin_body.as_deref(), Some("echo direct-sh"));
}

#[test]
fn shebang_body_keeps_every_following_line() {
    let exec = MyShellExecutor;
    let inv = exec.build_invocation("#!/bin/bash\nline1\nline2\nline3", true);
    assert_eq!(inv.stdin_body.as_deref(), Some("line1\nline2\nline3"));
}

#[test]
fn shebang_markers_are_stripped_repeatedly() {
    let exec = MyShellExecutor;
    let inv = exec.build_invocation("#!#!/bin/sh\necho twice", false);
    assert_eq!(inv.args[4], "/bin/sh");
    assert_eq!(inv.stdin_body.as_deref(), Some("echo twice"));
}

#[test]
fn plain_invocation_runs_under_dash_c() {
    let exec = MyShellExecutor;
    let inv = exec.build_invocation("echo hello", true);
    assert!(!inv.background);
    assert_eq!(
        inv.args,
        vec!["--login".to_string(), "-c".to_string(), "echo hello".to_string()]
    );
    assert!(inv.stdin_body.is_none());

    let inv_sh = exec.build_invocation("echo hello", false);
    assert_eq!(inv_sh.program, "sh");
    assert_eq!(inv_sh.args, vec!["-c".to_string(), "echo hello".to_string()]);
}

fn pairs(v: &[(&str, &str)]) -> Vec<(String, String)> {
    v.iter().map(|(k, val)| (k.to_string(), val.to_string())).collect()
}

#[test]
fn env_clearing_drops_inherited_variables() {
    let inherited = pairs(&[("HOME", "/root"), ("PATH", "/bin"), ("HOSTNAME", "box")]);
    let out = apply_env_settings(&inherited, true, &Vec::new(), &pairs(&[("KEEP", "me")]));
    assert_eq!(out, pairs(&[("KEEP", "me")]));
}

#[test]
fn env_removal_is_selective() {
    let inherited = pairs(&[("HOME", "/root"), ("PATH", "/bin")]);
    let out = apply_env_settings(
        &inherited,
        false,
        &vec!["HOSTNAME".to_string()],
        &Vec::new(),
    );
    assert_eq!(out, pairs(&[("HOME", "/root"), ("PATH", "/bin")]));

    let out2 = apply_env_settings(&inherited, false, &vec!["HOME".to_string()], &Vec::new());
    assert_eq!(out2, pairs(&[("PATH", "/bin")]));
}

#[test]
fn env_addition_joins_untouched_inherited_variables() {
    let inherited = pairs(&[("HOME", "/root")]);
    let out = apply_env_settings(
        &inherited,
        false,
        &Vec::new(),
        &pairs(&[("TEST_ENV", "test_value"), ("ANOTHER_ENV", "another_value")]),
    );
    assert_eq!(
        out,
        pairs(&[
            ("HOME", "/root"),
            ("TEST_ENV", "test_value"),
            ("ANOTHER_ENV", "another_value"),
        ])
    );
}

#[test]
fn env_set_wins_over_removal() {
    let inherited = pairs(&[("HOME", "/root")]);
    let out = apply_env_settings(
        &inherited,
        false,
        &vec!["HOME".to_string()],
        &pairs(&[("HOME", "/elsewhere")]),
    );
    assert_eq!(out, pairs(&[("HOME", "/elsewhere")]));
}

#[test]
fn merge_output_joins_non_empty_streams() {
    assert_eq!(merge_output("a", "b"), "a\nb");
    assert_eq!(merge_output("a", ""), "a");
    assert_eq!(merge_output("", "b"), "b");
    assert_eq!(merge_output("", ""), "");
}

#[test]
fn response_assembly_joins_lines_and_defaults_exit_code() {
    let resp = assemble_response(
        Some(7),
        &vec!["a".to_string(), "b".to_string()],
        &vec!["e".to_string()],
    );
    assert_eq!(resp.exit_code, 7);
    assert_eq!(resp.stdout, "a\nb");
    assert_eq!(resp.stderr, "e");

    let killed = assemble_response(None, &Vec::new(), &Vec::new());
    assert_eq!(killed.exit_code, -1);
    assert_eq!(killed.stdout, "");
}

#[test]
fn decimal_rendering_is_exact() {
    assert_eq!(u64_to_string(0), "0");
    assert_eq!(u64_to_string(7), "7");
    assert_eq!(u64_to_string(1000), "1000");
    assert_eq!(u64_to_string(u64::MAX), "18446744073709551615");
}

#[test]
fn timeout_message_names_limit_and_partial_output() {
    assert_eq!(timeout_message(1000, ""), "Command timed out after 1000ms");
    assert_eq!(
        timeout_message(500, "partial"),
        "Command timed out after 500ms: partial"
    );
}

#[test]
fn duration_conversion_saturates() {
    assert_eq!(duration_to_millis(1, 0), 1000);
    assert_eq!(duration_to_millis(0, 1_500_000), 1);
    assert_eq!(duration_to_millis(0, 999_999), 0);
    assert_eq!(duration_to_millis(u64::MAX, 999_999_999), u64::MAX);
}
