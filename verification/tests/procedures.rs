use contained::action::{Action, Complaint, MountFlag, Outcome, Step, TempDir};
use contained::capabilities::{capabilities, CapSet, Capability};
use contained::handshake::{int_written, read_int, write_int};
use contained::mounts::mounts;
use contained::resources::{controls, free_resources, set_resources};
use contained::syscalls::{rules, syscalls};
use contained::userns::{handle_child_uid_map, userns};

fn action(step: &Step) -> &Action {
    match step {
        Step::Do { action, .. } => action,
        Step::Abort(text) => panic!("{}", text),
    }
}

fn printed(steps: &[Step]) -> String {
    let mut all = String::new();
    for step in steps {
        if let Step::Do { action: Action::Print(text), .. } = step {
            all.push_str(text);
        }
    }
    all
}

/// The message that a failure of the step gives.
fn complaint(step: &Step, cause: &str) -> Option<String> {
    match step {
        Step::Do { complaint: Complaint::Ignored, .. } => None,
        Step::Do { complaint: Complaint::Text(text), .. } => Some(text.to_string()),
        Step::Do { complaint: Complaint::Cause(text), .. } => Some(format!("{}{}", text, cause)),
        Step::Abort(text) => Some(text.to_string()),
    }
}

#[test]
fn capabilities_are_dropped_from_both_sets() {
    let steps = capabilities();
    assert_eq!(steps.len(), 44);
    assert_eq!(printed(&steps), "=> dropping capabilities...bounding...inheritable...done.\n");
    let mut bounding = Vec::new();
    let mut inheritable = Vec::new();
    for step in &steps {
        if let Action::DropCapability { set, capability } = action(step) {
            match set {
                CapSet::Bounding => {
                    assert!(inheritable.is_empty());
                    assert_eq!(complaint(step, "e"), Some("prctl failed: e".to_string()));
                    bounding.push(*capability);
                }
                CapSet::Inheritable => {
                    assert_eq!(complaint(step, "e"), Some("failed: e".to_string()));
                    inheritable.push(*capability);
                }
            }
        }
    }
    assert_eq!(bounding.len(), 20);
    assert_eq!(bounding, inheritable);
    assert_eq!(bounding[0], Capability::AuditControl);
    assert_eq!(bounding[12], Capability::SysAdmin);
    assert_eq!(bounding[19], Capability::WakeAlarm);
}

#[test]
fn mount_dance() {
    let steps = mounts("./rootfs", "/tmp/tmp.abcdef", "/tmp/tmp.abcdef/oldroot.ghijkl");
    assert_eq!(steps.len(), 16);
    assert_eq!(
        printed(&steps),
        "=> remounting everything with MS_PRIVATE...remounted.\n\
         => making a temp directory and a bind mount there...done.\n\
         => pivoting root...done.\n\
         => unmounting /oldroot.ghijkl...done.\n"
    );
    assert!(matches!(
        action(&steps[1]),
        Action::Mount { source: None, target, flags }
            if target == "/" && *flags == [MountFlag::Recursive, MountFlag::Private]
    ));
    assert!(matches!(
        action(&steps[4]),
        Action::MakeTempDir { purpose: TempDir::NewRoot, template } if template == "/tmp/tmp.XXXXXX"
    ));
    assert!(matches!(
        action(&steps[5]),
        Action::Mount { source: Some(source), target, flags }
            if source == "./rootfs" && target == "/tmp/tmp.abcdef"
                && *flags == [MountFlag::Bind, MountFlag::Private]
    ));
    assert!(matches!(
        action(&steps[6]),
        Action::MakeTempDir { purpose: TempDir::OldRoot, template }
            if template == "/tmp/tmp.abcdef/oldroot.XXXXXX"
    ));
    assert!(matches!(
        action(&steps[9]),
        Action::PivotRoot { new_root, put_old }
            if new_root == "/tmp/tmp.abcdef" && put_old == "/tmp/tmp.abcdef/oldroot.ghijkl"
    ));
    assert!(matches!(action(&steps[12]), Action::ChangeDir(path) if path == "/"));
    assert!(matches!(action(&steps[13]), Action::DetachMount(path) if path == "/oldroot.ghijkl"));
    assert!(matches!(action(&steps[14]), Action::RemoveDir(path) if path == "/oldroot.ghijkl"));
}

#[test]
fn mount_dance_complaints() {
    let steps = mounts("r", "/n", "/n/o");
    let complaints: Vec<String> = steps.iter().filter_map(|step| complaint(step, "why")).collect();
    assert_eq!(
        complaints,
        [
            "failed! why",
            "mkdtemp failed: why",
            "bind mount failed!",
            "mkdtemp failed: why",
            "failed!",
            "chdir failed! why",
            "umount failed! why",
            "rmdir failed! why",
        ]
    );
}

#[test]
fn mount_dance_without_a_name_for_the_old_root() {
    let steps = mounts("r", "/n", "/n/..");
    assert_eq!(steps.len(), 12);
    assert!(matches!(steps[11], Step::Abort("bad inner mount dir")));
}

#[test]
fn filter_rules_in_order() {
    let rules = rules();
    let listed: Vec<(&str, Option<(u32, u64, u64)>)> = rules
        .iter()
        .map(|rule| (rule.syscall, rule.condition.map(|c| (c.argument, c.mask, c.datum))))
        .collect();
    let bits = |argument: u32, bits: u64| Some((argument, bits, bits));
    assert_eq!(
        listed,
        [
            ("chmod", bits(1, 0o4000)),
            ("chmod", bits(1, 0o2000)),
            ("fchmod", bits(1, 0o4000)),
            ("fchmod", bits(1, 0o2000)),
            ("fchmodat", bits(2, 0o4000)),
            ("fchmodat", bits(2, 0o2000)),
            ("fchmodat2", bits(2, 0o4000)),
            ("fchmodat2", bits(2, 0o2000)),
            ("unshare", bits(0, 0x1000_0000)),
            ("clone", bits(0, 0x1000_0000)),
            ("clone3", None),
            ("ioctl", Some((1, 0xffff_ffff, 0x5412))),
            ("keyctl", None),
            ("add_key", None),
            ("request_key", None),
            ("ptrace", None),
            ("mbind", None),
            ("migrate_pages", None),
            ("move_pages", None),
            ("set_mempolicy", None),
            ("userfaultfd", None),
            ("perf_event_open", None),
        ]
    );
    for rule in &rules {
        assert_eq!(rule.errno, if rule.syscall == "clone3" { 38 } else { 1 }, "{}", rule.syscall);
    }
}

#[test]
fn filter_values_are_those_of_the_system() {
    let rules = rules();
    assert_eq!(rules[0].errno, libc::EPERM);
    assert_eq!(rules[10].errno, libc::ENOSYS);
    assert_eq!(rules[10].syscall, "clone3");
    assert_eq!(rules[0].condition.unwrap().mask, libc::S_ISUID as u64);
    assert_eq!(rules[1].condition.unwrap().mask, libc::S_ISGID as u64);
    assert_eq!(rules[8].condition.unwrap().mask, libc::CLONE_NEWUSER as u64);
    assert_eq!(rules[11].condition.unwrap().datum, libc::TIOCSTI as u64);
}

#[test]
fn filter_is_built_and_loaded() {
    let steps = syscalls();
    assert_eq!(steps.len(), 27);
    assert_eq!(printed(&steps), "=> filtering syscalls...done.\n");
    assert!(matches!(action(&steps[1]), Action::NewFilter));
    for i in 2..24 {
        assert!(matches!(action(&steps[i]), Action::AddRule(_)));
        assert_eq!(complaint(&steps[i], "e"), Some("e".to_string()));
    }
    assert!(matches!(action(&steps[24]), Action::ControlNoNewPrivileges(false)));
    assert!(matches!(action(&steps[25]), Action::LoadFilter));
}

/// What the filter makes of a call, by its rules.
fn denied(syscall: &str, arguments: [u64; 6]) -> bool {
    rules().iter().any(|rule| {
        rule.syscall == syscall
            && rule.condition.map_or(true, |c| arguments[c.argument as usize] & c.mask == c.datum)
    })
}

#[test]
fn filter_denies_what_it_should() {
    assert!(denied("chmod", [0, 0o4755, 0, 0, 0, 0]));
    assert!(denied("fchmod", [0, 0o2755, 0, 0, 0, 0]));
    assert!(denied("fchmodat", [0, 0, 0o6755, 0, 0, 0]));
    assert!(denied("fchmodat2", [0, 0, 0o4755, 0x100, 0, 0]));
    assert!(denied("fchmodat2", [0, 0, 0o2755, 0, 0, 0]));
    assert!(!denied("fchmodat2", [0, 0, 0o755, 0o6000, 0, 0]));
    assert!(!denied("chmod", [0, 0o1777, 0, 0, 0, 0]));
    assert!(!denied("fchmodat", [0, 0o4755, 0o755, 0, 0, 0]));
    assert!(denied("unshare", [0x1002_0000, 0, 0, 0, 0, 0]));
    assert!(!denied("unshare", [0x0002_0000, 0, 0, 0, 0, 0]));
    assert!(denied("clone", [0x1000_0011, 0, 0, 0, 0, 0]));
    assert!(denied("clone3", [0; 6]));
    assert!(denied("clone3", [0x7fff_0000_0000, 88, 0, 0, 0, 0]));
    assert!(!denied("clone", [0x11, 0, 0, 0, 0, 0]));
    assert!(denied("ptrace", [0; 6]));
    assert!(!denied("read", [0; 6]));
}

#[test]
fn only_injected_input_is_denied() {
    assert!(denied("ioctl", [0, libc::TIOCSTI as u64, 0, 0, 0, 0]));
    // The kernel does not look at the upper half of the request.
    assert!(denied("ioctl", [0, 0xdead_beef_0000_5412, 0, 0, 0, 0]));
    // Requests that have every bit of TIOCSTI are allowed all the same.
    assert_eq!(libc::TIOCGWINSZ, 0x5413);
    for request in [libc::TIOCGWINSZ, libc::FIONREAD, 0x5452, libc::TCGETS, 0xffff_ffff, 0] {
        assert!(!denied("ioctl", [0, request as u64, 0, 0, 0, 0]), "{:x}", request);
    }
}

#[test]
fn user_namespace_of_the_child() {
    let steps = userns(1000, 4, true, 0);
    assert_eq!(steps.len(), 10);
    assert_eq!(
        printed(&steps),
        "=> trying a user namespace...done.\n=> switching to uid 1000 / gid 1000...done.\n"
    );
    assert!(matches!(action(&steps[1]), Action::UnshareUser));
    assert_eq!(complaint(&steps[1], "e"), None);
    assert!(matches!(action(&steps[2]), Action::SendInt { fd: 4, value: 1 }));
    assert!(matches!(action(&steps[3]), Action::ReceiveInt { fd: 4 }));
    assert!(matches!(action(&steps[6]), Action::SetGroups(groups) if *groups == [1000]));
    assert!(matches!(
        action(&steps[7]),
        Action::SetGroupIds { rgid: 1000, egid: 1000, sgid: 1000 }
    ));
    assert!(matches!(
        action(&steps[8]),
        Action::SetUserIds { ruid: 1000, euid: 1000, suid: 1000 }
    ));
}

#[test]
fn without_a_user_namespace() {
    let steps = userns(0, 4, false, 0);
    assert!(matches!(action(&steps[2]), Action::SendInt { fd: 4, value: 0 }));
    assert_eq!(
        printed(&steps),
        "=> trying a user namespace...unsupported? continuing.\n\
         => switching to uid 0 / gid 0...done.\n"
    );
}

#[test]
fn parent_that_failed() {
    let steps = userns(0, 4, true, 7);
    assert_eq!(steps.len(), 5);
    assert!(matches!(steps[4], Step::Abort("parent failed to set up uid_map")));
}

#[test]
fn identifier_maps() {
    let steps = handle_child_uid_map(42, 3, 1);
    assert_eq!(steps.len(), 8);
    assert_eq!(printed(&steps), "writing /proc/42/uid_map...writing /proc/42/gid_map...");
    assert!(matches!(action(&steps[0]), Action::ReceiveInt { fd: 3 }));
    assert!(matches!(action(&steps[2]), Action::OpenForWriting(path) if path == "/proc/42/uid_map"));
    assert!(matches!(action(&steps[3]), Action::Write(line) if line == "0 10000 2000\n"));
    assert!(matches!(action(&steps[5]), Action::OpenForWriting(path) if path == "/proc/42/gid_map"));
    assert!(matches!(action(&steps[6]), Action::Write(line) if line == "0 10000 2000\n"));
    assert!(matches!(action(&steps[7]), Action::SendInt { fd: 3, value: 0 }));
    assert_eq!(complaint(&steps[2], "e"), Some("open failed: e".to_string()));
    assert_eq!(complaint(&steps[3], "e"), Some("write failed: e".to_string()));
}

#[test]
fn no_maps_without_a_namespace() {
    let steps = handle_child_uid_map(42, 3, 0);
    assert_eq!(steps.len(), 2);
    assert!(matches!(action(&steps[1]), Action::SendInt { fd: 3, value: 0 }));
}

#[test]
fn integers_on_the_socket() {
    assert_eq!(write_int(1), [1, 0, 0, 0]);
    assert_eq!(write_int(0x01020304), [4, 3, 2, 1]);
    assert_eq!(write_int(-2), [0xfe, 0xff, 0xff, 0xff]);
    for value in [0, 1, -1, 77, 0x01020304, i32::MIN, i32::MAX] {
        assert_eq!(write_int(value), value.to_ne_bytes());
        assert!(matches!(read_int(4, &write_int(value), "e"), Outcome::Int(v) if v == value));
    }
}

#[test]
fn short_transfers_fail() {
    assert!(matches!(int_written(4, "e"), Outcome::Done));
    for count in [-1, 0, 3, 5] {
        assert!(matches!(
            int_written(count, "Broken pipe"),
            Outcome::Failed(text) if text == "couldn't write: Broken pipe"
        ));
        assert!(matches!(
            read_int(count, &[1, 0, 0, 0], "Success"),
            Outcome::Failed(text) if text == "couldn't read: Success"
        ));
    }
}

#[test]
fn control_groups_and_settings() {
    let listed: Vec<(&str, Vec<(&str, &str)>)> = controls()
        .iter()
        .map(|c| (c.control, c.settings.iter().map(|s| (s.name, s.value)).collect()))
        .collect();
    assert_eq!(
        listed,
        [
            (
                "memory",
                vec![
                    ("memory.limit_in_bytes", "1073741824"),
                    ("memory.kmem.limit_in_bytes", "1073741824"),
                    ("tasks", "0"),
                ]
            ),
            ("cpu", vec![("cpu.shares", "256"), ("tasks", "0")]),
            ("pids", vec![("pids.max", "64"), ("tasks", "0")]),
            ("blkio", vec![("blkio.weight", "64"), ("tasks", "0")]),
        ]
    );
}

#[test]
fn resources_are_set() {
    let steps = set_resources("host");
    assert_eq!(steps.len(), 23);
    assert!(matches!(action(&steps[0]), Action::CreateDirs(dir) if dir == "/sys/fs/cgroup/memory/host"));
    assert!(matches!(
        action(&steps[1]),
        Action::OpenForWriting(path) if path == "/sys/fs/cgroup/memory/host/memory.limit_in_bytes"
    ));
    assert!(matches!(action(&steps[2]), Action::Write(text) if text == "1073741824"));
    assert!(matches!(action(&steps[7]), Action::CreateDirs(dir) if dir == "/sys/fs/cgroup/cpu/host"));
    assert!(matches!(action(&steps[20]), Action::OpenForWriting(path)
        if path == "/sys/fs/cgroup/blkio/host/tasks"));
    assert!(matches!(action(&steps[21]), Action::Write(text) if text == "0"));
    assert!(matches!(action(&steps[22]), Action::LimitOpenFiles { soft: 64, hard: 64 }));
    assert_eq!(complaint(&steps[22], "e"), None);
    assert_eq!(complaint(&steps[0], "e"), Some("e".to_string()));
}

#[test]
fn freed_directories_are_those_that_were_made() {
    let made: Vec<String> = set_resources("host")
        .iter()
        .filter_map(|step| match action(step) {
            Action::CreateDirs(dir) => Some(dir.clone()),
            _ => None,
        })
        .collect();
    let steps = free_resources("host");
    let removed: Vec<String> = steps
        .iter()
        .filter_map(|step| match action(step) {
            Action::RemoveDir(dir) => Some(dir.clone()),
            _ => None,
        })
        .collect();
    assert_eq!(made, removed);
    assert_eq!(made.len(), 4);
    assert_eq!(steps.len(), 12);
    assert!(matches!(action(&steps[0]), Action::OpenForWriting(path)
        if path == "/sys/fs/cgroup/memory/tasks"));
    assert!(matches!(action(&steps[1]), Action::Write(text) if text == "0"));
}
