use rush::{
    launch_steps, plan_command, CommandError, JobStatus, JobTable, LaunchError, LaunchStep,
    RedirectOp, StreamDirection, SyntaxError,
};

#[test]
fn plans_program_arguments_and_redirections() {
    let cmd = plan_command("sort -r < in.txt > out.txt &").unwrap();
    assert_eq!(cmd.program, "sort");
    assert_eq!(cmd.args, vec!["-r".to_string()]);
    assert_eq!(cmd.redirection.stdin_source, Some("in.txt".to_string()));
    assert_eq!(cmd.redirection.stdout_target, Some("out.txt".to_string()));
    assert!(!cmd.redirection.append);
    assert!(cmd.background);
}

#[test]
fn trailing_output_operator_is_rejected() {
    assert_eq!(
        plan_command("echo hi >").err(),
        Some(CommandError::Syntax(SyntaxError::DanglingOperator(RedirectOp::Output)))
    );
    assert_eq!(
        plan_command("echo hi >> &").err(),
        Some(CommandError::Syntax(SyntaxError::DanglingOperator(RedirectOp::Append)))
    );
}

#[test]
fn both_output_operators_are_rejected() {
    assert_eq!(
        plan_command("echo a >> x > y").err(),
        Some(CommandError::Syntax(SyntaxError::ConflictingOutput))
    );
}

#[test]
fn line_of_only_marker_or_redirections_is_empty() {
    assert_eq!(plan_command("&").err(), Some(CommandError::EmptyCommand));
    assert_eq!(plan_command("< in > out").err(), Some(CommandError::EmptyCommand));
    assert_eq!(plan_command("").err(), Some(CommandError::EmptyCommand));
}

#[test]
fn echo_truncates_then_appends() {
    let cmd = plan_command("echo hello > out.txt").unwrap();
    let steps = launch_steps(&cmd);
    assert_eq!(steps.len(), 2);
    assert!(matches!(&steps[0], LaunchStep::OpenOutput { path, append: false } if path == "out.txt"));
    assert!(matches!(&steps[1], LaunchStep::Spawn { program, args }
        if program == "echo" && args == &vec!["hello".to_string()]));

    let cmd = plan_command("echo world >> out.txt").unwrap();
    let steps = launch_steps(&cmd);
    assert!(matches!(&steps[0], LaunchStep::OpenOutput { path, append: true } if path == "out.txt"));
}

#[test]
fn input_is_opened_before_output() {
    let cmd = plan_command("tr a b > o < i").unwrap();
    let steps = launch_steps(&cmd);
    assert_eq!(steps.len(), 3);
    assert!(matches!(&steps[0], LaunchStep::OpenInput { path } if path == "i"));
    assert!(matches!(&steps[1], LaunchStep::OpenOutput { path, append: false } if path == "o"));
    assert!(matches!(&steps[2], LaunchStep::Spawn { .. }));
}

#[test]
fn open_failure_differs_from_spawn_failure() {
    let cmd = plan_command("cat < missing_file.txt").unwrap();
    let steps = launch_steps(&cmd);
    match steps[0].failure() {
        LaunchError::RedirectionOpen { filename, direction } => {
            assert_eq!(filename, "missing_file.txt");
            assert_eq!(direction, StreamDirection::Stdin);
        }
        LaunchError::Spawn { .. } => panic!("an open failure was reported as a spawn failure"),
    }

    let cmd = plan_command("definitely_not_a_real_program arg1").unwrap();
    let steps = launch_steps(&cmd);
    assert_eq!(steps.len(), 1);
    match steps[0].failure() {
        LaunchError::Spawn { program } => assert_eq!(program, "definitely_not_a_real_program"),
        LaunchError::RedirectionOpen { .. } => panic!("a spawn failure was reported as an open failure"),
    }
}

#[test]
fn output_open_failure_names_stdout() {
    let cmd = plan_command("ls >> /no/such/dir/log").unwrap();
    let steps = launch_steps(&cmd);
    match steps[0].failure() {
        LaunchError::RedirectionOpen { filename, direction } => {
            assert_eq!(filename, "/no/such/dir/log");
            assert_eq!(direction, StreamDirection::Stdout);
        }
        LaunchError::Spawn { .. } => panic!("expected an open failure"),
    }
}

#[test]
fn background_sleep_is_planned_in_background() {
    let cmd = plan_command("sleep 1 &").unwrap();
    assert_eq!(cmd.program, "sleep");
    assert_eq!(cmd.args, vec!["1".to_string()]);
    assert!(cmd.background);
}

#[test]
fn reaping_drops_terminated_jobs_in_order() {
    let mut table: JobTable<u32> = JobTable::new();
    assert!(table.is_empty());
    table.add(10);
    table.add(11);
    table.add(12);
    table.add(13);
    table.reap(&[
        JobStatus::Exited { success: true },
        JobStatus::Running,
        JobStatus::Exited { success: false },
        JobStatus::Running,
    ]);
    assert_eq!(table.len(), 2);
    assert_eq!(*table.job_mut(0), 11);
    assert_eq!(*table.job_mut(1), 13);
}

#[test]
fn finished_background_job_leaves_the_table() {
    let mut table: JobTable<&str> = JobTable::new();
    table.add("sleep 1");
    table.reap(&[JobStatus::Running]);
    assert_eq!(table.len(), 1);
    table.reap(&[JobStatus::Exited { success: true }]);
    assert!(table.is_empty());
}

#[test]
fn reaping_empty_table_is_a_no_op() {
    let mut table: JobTable<u8> = JobTable::new();
    table.reap(&[]);
    assert_eq!(table.len(), 0);
}
