use docker_executor::running_docker_executor::{
    interpret_shell_response, interpret_transport_failure, merge_stream_output, mkdir_command,
    parent_dir, quote_target, read_file_command, removal_command, removal_targets,
    should_retry_write, str_le, write_file_command, Command, CommandError, CommandOpts,
    RunningDockerExecutor, TransportStatus,
};

fn executor(workdir: &str) -> RunningDockerExecutor {
    RunningDockerExecutor {
        container_id: "cafebabe".to_string(),
        container_port: "50051".to_string(),
        container_ip: "127.0.0.1".to_string(),
        dropped: false,
        retain_on_drop: false,
        env_clear: false,
        remove_env: Vec::new(),
        env: Vec::new(),
        default_timeout_ms: None,
        workdir: workdir.to_string(),
    }
}

fn shell(command: &str, current_dir: Option<&str>, timeout_ms: Option<u64>) -> Command {
    Command::Shell {
        command: command.to_string(),
        opts: CommandOpts {
            current_dir: current_dir.map(str::to_string),
            timeout_ms,
        },
    }
}

#[test]
fn workdir_resolution_prefers_absolute_override() {
    let exec = executor("/app");
    assert_eq!(exec.resolve_workdir(&shell("ls", Some("/abs"), None)), "/abs");
    assert_eq!(exec.resolve_workdir(&shell("ls", Some("sub/dir"), None)), "/app/sub/dir");
    assert_eq!(exec.resolve_workdir(&shell("ls", None, None)), "/app");
}

#[test]
fn per_command_timeout_overrides_default() {
    let mut exec = executor("/app");
    exec.default_timeout_ms = Some(500);
    assert_eq!(exec.resolve_timeout(&shell("sleep 1", None, Some(2000))), Some(2000));
    assert_eq!(exec.resolve_timeout(&shell("sleep 1", None, None)), Some(500));
    exec.default_timeout_ms = None;
    assert_eq!(exec.resolve_timeout(&shell("sleep 1", None, None)), None);
}

#[test]
fn teardown_runs_once_and_retain_skips_it() {
    let mut exec = executor("/app");
    assert!(exec.begin_drop_teardown());
    assert!(exec.dropped);
    assert!(!exec.begin_drop_teardown());

    let mut retained = executor("/app");
    retained.retain_on_drop = true;
    assert!(!retained.begin_drop_teardown());
    assert!(!retained.dropped);
    assert!(!retained.begin_drop_teardown());
}

#[test]
fn read_and_mkdir_commands_are_plain() {
    assert_eq!(read_file_command("/app/x.txt"), "cat /app/x.txt");
    assert_eq!(mkdir_command("doesnot/exist"), "mkdir -p doesnot/exist");
}

#[test]
fn write_command_uses_quoted_heredoc_and_trims_content() {
    assert_eq!(
        write_file_command("/app/f.txt", "hello \"world\" \n"),
        "cat << 'EOFKWAAK' > /app/f.txt\nhello \"world\"\nEOFKWAAK"
    );
}

#[test]
fn write_retry_fires_only_on_missing_directory_phrasings() {
    assert!(should_retry_write("sh: No Such File or Directory"));
    assert!(should_retry_write("cat: doesnot/exist: directory nonexistent"));
    assert!(should_retry_write("NONEXISTENT DIRECTORY"));
    assert!(!should_retry_write("permission denied"));
    assert!(!should_retry_write(""));
}

#[test]
fn shell_response_is_trimmed_and_merged() {
    match interpret_shell_response(0, "  hello \n", "  ") {
        Ok(out) => assert_eq!(out.output, "hello"),
        Err(_) => panic!("exit code zero must succeed"),
    }
    match interpret_shell_response(2, "out", "err") {
        Err(CommandError::NonZeroExit(out)) => assert_eq!(out.output, "out\nerr"),
        _ => panic!("non-zero exit must fail with the merged output"),
    }
}

#[test]
fn deadline_exceeded_becomes_timed_out_under_a_limit() {
    match interpret_transport_failure(
        TransportStatus::DeadlineExceeded("late".to_string()),
        Some(1000),
    ) {
        CommandError::TimedOut { timeout_ms, output } => {
            assert_eq!(timeout_ms, 1000);
            assert_eq!(output.output, "late");
        }
        _ => panic!("deadline with a limit must time out"),
    }
    assert!(matches!(
        interpret_transport_failure(TransportStatus::DeadlineExceeded("late".to_string()), None),
        CommandError::ExecutorError(_)
    ));
    assert!(matches!(
        interpret_transport_failure(TransportStatus::Other("boom".to_string()), Some(1)),
        CommandError::ExecutorError(_)
    ));
}

#[test]
fn merge_stream_output_matches_the_four_cases() {
    assert_eq!(merge_stream_output("a", "b"), "a\nb");
    assert_eq!(merge_stream_output("a", ""), "a");
    assert_eq!(merge_stream_output("", "b"), "b");
    assert_eq!(merge_stream_output("", ""), "");
}

#[test]
fn lexicographic_order_is_by_code_point() {
    assert!(str_le("", "a"));
    assert!(str_le("a", "ab"));
    assert!(!str_le("ab", "a"));
    assert!(str_le(".tmp", "/app"));
    assert!(str_le("same", "same"));
}

#[test]
fn removal_targets_cover_bare_workdir_and_default_paths() {
    assert_eq!(
        removal_targets("/work", ".tmpX"),
        vec![".tmpX".to_string(), "/app/.tmpX".to_string(), "/work/.tmpX".to_string()]
    );
    assert_eq!(
        removal_targets("/app", ".tmpX"),
        vec![".tmpX".to_string(), "/app/.tmpX".to_string()]
    );
    assert_eq!(
        removal_targets("relative", ".tmpX"),
        vec![".tmpX".to_string(), "/app/.tmpX".to_string()]
    );
}

#[test]
fn removal_command_quotes_each_target() {
    let targets = vec![".tmpX".to_string(), "/app/.tmpX".to_string()];
    assert_eq!(removal_command(&targets), "rm -f -- \".tmpX\" \"/app/.tmpX\"");
}

#[test]
fn parent_directories_follow_the_path_model() {
    assert_eq!(parent_dir("doesnot/exist/test_file.txt"), Some("doesnot/exist".to_string()));
    assert_eq!(parent_dir("/app/file"), Some("/app".to_string()));
    assert_eq!(parent_dir("/app"), Some("/".to_string()));
    assert_eq!(parent_dir("file"), Some("".to_string()));
    assert_eq!(parent_dir("a/b/"), Some("a".to_string()));
    assert_eq!(parent_dir("/"), None);
    assert_eq!(parent_dir(""), None);
}

#[test]
fn quoting_escapes_quotes_and_backslashes() {
    assert_eq!(quote_target("plain"), "\"plain\"");
    assert_eq!(quote_target("a\"b"), "\"a\\\"b\"");
    assert_eq!(quote_target("a\\b"), "\"a\\\\b\"");
}
