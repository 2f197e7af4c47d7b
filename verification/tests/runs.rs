use contained::action::{judge, Action, Complaint, Ending, Outcome};
use contained::child::ChildConfig;
use contained::parent::{container_namespaces, exit_status, Namespace, Reply, STACK_SIZE};
use contained::run::{Finish, Pending, Run};

fn config() -> ChildConfig {
    ChildConfig {
        uid: 1000,
        fd: 4,
        hostname: "00001-star".to_string(),
        argv: vec!["/bin/echo".to_string(), "hello".to_string()],
        mount_dir: "./rootfs".to_string(),
    }
}

/// Answers as a system does on which everything works.
fn obliging(action: &Action) -> Outcome {
    match action {
        Action::MakeTempDir { template, .. } => {
            Outcome::Path(format!("{}abcdef", template.strip_suffix("XXXXXX").unwrap()))
        }
        Action::ReceiveInt { .. } => Outcome::Int(0),
        Action::Wait { .. } => Outcome::Ended(Ending::Exited(0)),
        _ => Outcome::Done,
    }
}

/// Runs to the end; gives the actions that were performed and the end.
fn drive(mut run: Run, mut answer: impl FnMut(usize, &Action) -> Outcome) -> (Vec<String>, String) {
    let mut performed = Vec::new();
    loop {
        let outcome = match run.pending() {
            Pending::Perform(action) => {
                performed.push(format!("{:?}", action));
                answer(performed.len() - 1, action)
            }
            Pending::Finished(finish) => return (performed, format!("{:?}", finish)),
        };
        assert!(performed.len() <= 300);
        run = run.resume(outcome);
    }
}

fn position(actions: &[String], what: &str) -> usize {
    actions.iter().position(|a| a.starts_with(what)).unwrap_or_else(|| panic!("no {}", what))
}

#[test]
fn child_sets_itself_up_and_becomes_the_command() {
    let (actions, end) = drive(Run::child(config()), |_, action| obliging(action));
    assert_eq!(actions.len(), 100);
    assert_eq!(end, "Exit(0)");
    assert_eq!(actions[98], "Close { fd: 4 }");
    assert_eq!(actions[0], "SetHostname(\"00001-star\")");
    let order = [
        "SetHostname", "PivotRoot", "DetachMount", "UnshareUser", "SendInt", "ReceiveInt",
        "SetGroups", "SetGroupIds", "SetUserIds", "DropCapability", "NewFilter", "LoadFilter",
        "Close", "Execute",
    ];
    for pair in order.windows(2) {
        assert!(position(&actions, pair[0]) < position(&actions, pair[1]));
    }
    assert_eq!(
        actions[99],
        "Execute { program: \"/bin/echo\", argv: [\"/bin/echo\", \"hello\"], environment: [] }"
    );
    assert!(actions.contains(&"DetachMount(\"/oldroot.abcdef\")".to_string()));
    assert!(actions.contains(&"SendInt { fd: 4, value: 1 }".to_string()));
    assert!(actions.contains(&format!(
        "{:?}",
        Action::PivotRoot {
            new_root: "/tmp/tmp.abcdef".to_string(),
            put_old: "/tmp/tmp.abcdef/oldroot.abcdef".to_string(),
        }
    )));
}

#[test]
fn any_failure_that_counts_keeps_the_command_from_running() {
    let (actions, _) = drive(Run::child(config()), |_, action| obliging(action));
    for at in 0..actions.len() - 1 {
        let (failed, end) = drive(Run::child(config()), |i, action| {
            if i == at { Outcome::Failed("cause".to_string()) } else { obliging(action) }
        });
        let harmless = actions[at].starts_with("Print") || actions[at].starts_with("UnshareUser")
            || actions[at].starts_with("Close");
        let executed = failed.iter().any(|a| a.starts_with("Execute"));
        assert_eq!(executed, harmless, "{}", actions[at]);
        if !harmless {
            assert_eq!(end, "Exit(-1)");
            assert_eq!(failed.len(), at + 3);
            assert!(failed[at + 1].starts_with("Print(\"child setup failed: "));
            assert_eq!(failed[at + 2], "Close { fd: 4 }");
        }
    }
}

#[test]
fn setup_failures_are_reported() {
    let report = |kind: &str| {
        let (actions, _) = drive(Run::child(config()), |_, action| {
            if format!("{:?}", action).starts_with(kind) {
                Outcome::Failed("EPERM".to_string())
            } else {
                obliging(action)
            }
        });
        actions[actions.len() - 2].clone()
    };
    let line = |text: &str| format!("{:?}", Action::Print(format!("child setup failed: {}\n", text)));
    assert_eq!(report("SetHostname"), line("EPERM"));
    assert_eq!(report("Mount { source: None"), line("failed! EPERM"));
    assert_eq!(report("Mount { source: Some"), line("bind mount failed!"));
    assert_eq!(report("MakeTempDir"), line("mkdtemp failed: EPERM"));
    assert_eq!(report("PivotRoot"), line("failed!"));
    assert_eq!(report("ChangeDir"), line("chdir failed! EPERM"));
    assert_eq!(report("DetachMount"), line("umount failed! EPERM"));
    assert_eq!(report("RemoveDir"), line("rmdir failed! EPERM"));
    assert_eq!(report("SendInt"), line("EPERM"));
    assert_eq!(report("SetUserIds"), line("EPERM"));
    assert_eq!(report("DropCapability { set: Bounding"), line("prctl failed: EPERM"));
    assert_eq!(report("DropCapability { set: Inheritable"), line("failed: EPERM"));
    assert_eq!(report("LoadFilter"), line("EPERM"));
}

#[test]
fn child_without_a_user_namespace_goes_on() {
    let (actions, end) = drive(Run::child(config()), |_, action| match action {
        Action::UnshareUser => Outcome::Failed("EINVAL".to_string()),
        _ => obliging(action),
    });
    assert_eq!(end, "Exit(0)");
    assert!(actions.contains(&"SendInt { fd: 4, value: 0 }".to_string()));
    assert!(actions.contains(&"Print(\"unsupported? continuing.\\n\")".to_string()));
}

#[test]
fn child_of_a_parent_that_failed() {
    let (actions, end) = drive(Run::child(config()), |_, action| match action {
        Action::ReceiveInt { .. } => Outcome::Int(1),
        _ => obliging(action),
    });
    assert_eq!(end, "Exit(-1)");
    assert_eq!(
        actions[actions.len() - 2],
        "Print(\"child setup failed: parent failed to set up uid_map\\n\")"
    );
}

#[test]
fn child_with_a_strange_temporary_directory() {
    let (actions, end) = drive(Run::child(config()), |_, action| match action {
        Action::MakeTempDir { .. } => Outcome::Path("/".to_string()),
        _ => obliging(action),
    });
    assert_eq!(end, "Exit(-1)");
    assert_eq!(
        actions[actions.len() - 2],
        "Print(\"child setup failed: bad inner mount dir\\n\")"
    );
    assert!(!actions.iter().any(|a| a.starts_with("DetachMount")));
}

#[test]
fn command_that_cannot_be_executed() {
    let (actions, end) = drive(Run::child(config()), |_, action| match action {
        Action::Execute { .. } => Outcome::Failed("ENOENT: No such file or directory".to_string()),
        _ => obliging(action),
    });
    assert_eq!(end, "Exit(-1)");
    assert_eq!(
        actions[actions.len() - 1],
        "Print(\"execve failed! ENOENT: No such file or directory.\\n\")"
    );
}

#[test]
fn parent_maps_and_waits() {
    let (actions, end) = drive(Run::parent(42, 3, 4), |_, action| match action {
        Action::ReceiveInt { .. } => Outcome::Int(1),
        Action::Wait { .. } => Outcome::Ended(Ending::Exited(7)),
        _ => obliging(action),
    });
    assert_eq!(end, "Exit(7)");
    assert_eq!(actions.len(), 11);
    assert_eq!(actions[0], "Close { fd: 4 }");
    assert_eq!(actions[1], "ReceiveInt { fd: 3 }");
    assert_eq!(actions[8], "SendInt { fd: 3, value: 0 }");
    assert_eq!(actions[9], "Wait { pid: 42 }");
    assert_eq!(actions[10], "Close { fd: 3 }");
}

#[test]
fn parent_of_a_child_without_a_namespace() {
    let (actions, end) = drive(Run::parent(42, 3, 4), |_, action| obliging(action));
    assert_eq!(end, "Exit(0)");
    assert_eq!(actions.len(), 5);
}

#[test]
fn parent_kills_a_child_that_it_cannot_map() {
    let (actions, end) = drive(Run::parent(42, 3, 4), |_, action| match action {
        Action::ReceiveInt { .. } => Outcome::Int(1),
        Action::OpenForWriting(_) => Outcome::Failed("EACCES".to_string()),
        Action::Kill { .. } => Outcome::Failed("ESRCH".to_string()),
        Action::Wait { .. } => Outcome::Ended(Ending::Otherwise),
        _ => obliging(action),
    });
    assert_eq!(end, "Exit(1)");
    assert_eq!(
        actions[4..],
        [
            "Print(\"uid map handling failed: open failed: EACCES\\n\")",
            "Kill { pid: 42 }",
            "Wait { pid: 42 }",
            "Close { fd: 3 }",
        ]
    );
}

#[test]
fn parent_that_cannot_wait() {
    let (actions, end) = drive(Run::parent(42, 3, 4), |_, action| match action {
        Action::Wait { .. } => Outcome::Failed("ECHILD".to_string()),
        _ => obliging(action),
    });
    assert_eq!(end, "Exit(1)");
    assert_eq!(actions[actions.len() - 2], "Print(\"waitpid failed: ECHILD\\n\")");
}

#[test]
fn exit_statuses() {
    let exited = |code: i32| Reply::Ended(Ending::Exited(code));
    assert_eq!(exit_status(false, &exited(0)), 0);
    assert_eq!(exit_status(false, &exited(6)), 6);
    assert_eq!(exit_status(true, &exited(6)), 7);
    assert_eq!(exit_status(true, &exited(255)), 255);
    assert_eq!(exit_status(false, &Reply::Ended(Ending::Otherwise)), 0);
    assert_eq!(exit_status(true, &Reply::Ended(Ending::Otherwise)), 1);
    assert_eq!(exit_status(false, &Reply::Failed("e".to_string())), 1);
    assert_eq!(exit_status(true, &Reply::Failed("e".to_string())), 1);
}

#[test]
fn resources_run_to_completion() {
    let (actions, end) = drive(Run::setting_resources("h".to_string()), |_, a| obliging(a));
    assert_eq!((actions.len(), end.as_str()), (23, "Complete"));
    let (actions, end) = drive(Run::freeing_resources("h".to_string()), |_, a| obliging(a));
    assert_eq!((actions.len(), end.as_str()), (12, "Complete"));
}

#[test]
fn resources_stop_at_the_first_error() {
    let (actions, end) = drive(Run::setting_resources("h".to_string()), |i, a| {
        if i == 8 { Outcome::Failed("EROFS".to_string()) } else { obliging(a) }
    });
    assert_eq!((actions.len(), end.as_str()), (9, "Error(\"EROFS\")"));
    let (actions, end) = drive(Run::freeing_resources("h".to_string()), |i, a| {
        if i == 2 { Outcome::Failed("EBUSY".to_string()) } else { obliging(a) }
    });
    assert_eq!((actions.len(), end.as_str()), (3, "Error(\"EBUSY\")"));
}

#[test]
fn limit_on_open_files_may_fail() {
    let (_, end) = drive(Run::setting_resources("h".to_string()), |i, a| {
        if i == 22 { Outcome::Failed("EPERM".to_string()) } else { obliging(a) }
    });
    assert_eq!(end, "Complete");
}

#[test]
fn judgements() {
    let failed = Outcome::Failed("cause".to_string());
    assert_eq!(judge(&Complaint::Ignored, &failed), Ok(()));
    assert_eq!(judge(&Complaint::Text("text"), &failed), Err("text".to_string()));
    assert_eq!(judge(&Complaint::Cause("text: "), &failed), Err("text: cause".to_string()));
    assert_eq!(judge(&Complaint::Text("text"), &Outcome::Done), Ok(()));
    assert_eq!(judge(&Complaint::Cause("text"), &Outcome::Int(1)), Ok(()));
}

#[test]
fn finishing_is_visible_at_once() {
    let mut run = Run::freeing_resources("h".to_string());
    for _ in 0..12 {
        assert!(matches!(run.pending(), Pending::Perform(_)));
        run = run.resume(Outcome::Done);
    }
    assert!(matches!(run.pending(), Pending::Finished(Finish::Complete)));
}

#[test]
fn namespaces_of_the_container() {
    assert_eq!(
        container_namespaces(),
        [
            Namespace::Mount,
            Namespace::Cgroup,
            Namespace::Pid,
            Namespace::Ipc,
            Namespace::Network,
            Namespace::Uts,
        ]
    );
    assert_eq!(STACK_SIZE, 1_048_576);
}
