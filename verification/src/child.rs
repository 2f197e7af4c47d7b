//! The container's side: setting itself up, and becoming the command.

use vstd::prelude::*;
use vstd::string::*;
use crate::action::{
    Action, ActionView, Step, StepView, either_way, or_cause, print, print_step, step_either_way,
    step_or_cause, step_views, texts,
};
use crate::capabilities::{capabilities, capabilities_steps};
use crate::mounts::{mounts, mounts_steps};
use crate::syscalls::{syscalls, syscalls_steps};
use crate::userns::{userns, userns_steps};

verus! {

/// Everything that the child needs to set itself up.
#[derive(Debug)]
pub struct ChildConfig {
    pub uid: u32,
    /// The child's end of the socket pair.
    pub fd: i32,
    pub hostname: String,
    /// The command and its arguments. The first word is the program.
    pub argv: Vec<String>,
    pub mount_dir: String,
}

/// A [`ChildConfig`] over mathematical texts.
pub struct ChildConfigView {
    pub uid: u32,
    pub fd: i32,
    pub hostname: Seq<char>,
    pub argv: Seq<Seq<char>>,
    pub mount_dir: Seq<char>,
}

impl View for ChildConfig {
    type V = ChildConfigView;

    open spec fn view(&self) -> ChildConfigView {
        ChildConfigView {
            uid: self.uid,
            fd: self.fd,
            hostname: self.hostname@,
            argv: texts(self.argv@),
            mount_dir: self.mount_dir@,
        }
    }
}

/// The setup, where the mount dance made the directories `new_root` and `old_root`, asking for a
/// user namespace came to `unshared`, and the parent answered `received`.
pub open spec fn setup_steps(
    config: ChildConfigView,
    new_root: Seq<char>,
    old_root: Seq<char>,
    unshared: bool,
    received: i32,
) -> Seq<StepView> {
    seq![step_or_cause(ActionView::SetHostname(config.hostname), ""@)] + mounts_steps(
        config.mount_dir,
        new_root,
        old_root,
    ) + userns_steps(config.uid, config.fd, unshared, received) + capabilities_steps()
        + syscalls_steps()
}

/// After the setup: the socket is closed, and the process becomes the command, with an empty
/// environment.
pub open spec fn launch_steps(config: ChildConfigView) -> Seq<StepView> {
    seq![
        step_either_way(ActionView::Close { fd: config.fd }),
        step_or_cause(
            ActionView::Execute {
                program: config.argv[0],
                argv: config.argv,
                environment: Seq::empty(),
            },
            ""@,
        ),
    ]
}

/// After a setup that failed with `message`.
pub open spec fn setup_failed_steps(fd: i32, message: Seq<char>) -> Seq<StepView> {
    seq![
        print_step("child setup failed: "@ + message + "\n"@),
        step_either_way(ActionView::Close { fd }),
    ]
}

/// After the process could not become the command.
pub open spec fn launch_failed_steps(cause: Seq<char>) -> Seq<StepView> {
    seq![print_step("execve failed! "@ + cause + ".\n"@)]
}

/// The steps of the setup. An answer that has not come yet may be anything: the steps up to the
/// one that brings it do not depend on it.
pub fn setup(
    config: &ChildConfig,
    new_root: &str,
    old_root: &str,
    unshared: bool,
    received: i32,
) -> (steps: Vec<Step>)
    ensures
        step_views(steps@) == setup_steps(config@, new_root@, old_root@, unshared, received),
{
    let mut steps: Vec<Step> = Vec::new();
    steps.push(or_cause(Action::SetHostname(config.hostname.clone()), ""));
    let mut mounting = mounts(config.mount_dir.as_str(), new_root, old_root);
    let mut switching = userns(config.uid, config.fd, unshared, received);
    let mut dropping = capabilities();
    let mut filtering = syscalls();
    let ghost parts = (steps@, mounting@, switching@, dropping@, filtering@);
    steps.append(&mut mounting);
    steps.append(&mut switching);
    steps.append(&mut dropping);
    steps.append(&mut filtering);
    proof {
        assert(step_views(parts.0) =~= seq![
            step_or_cause(ActionView::SetHostname(config@.hostname), ""@),
        ]);
        assert(steps@ == parts.0 + parts.1 + parts.2 + parts.3 + parts.4);
        assert(step_views(steps@) =~= step_views(parts.0) + step_views(parts.1) + step_views(
            parts.2,
        ) + step_views(parts.3) + step_views(parts.4));
    }
    steps
}

/// The steps that turn the process into the command.
pub fn launch(config: &ChildConfig) -> (steps: Vec<Step>)
    requires
        config@.argv.len() > 0,
    ensures
        step_views(steps@) == launch_steps(config@),
{
    let mut steps: Vec<Step> = Vec::new();
    steps.push(either_way(Action::Close { fd: config.fd }));
    let argv: Vec<String> = config.argv.clone();
    let environment: Vec<String> = Vec::new();
    proof {
        assert(texts(argv@) =~= config@.argv);
        assert(texts(environment@) =~= Seq::empty());
        assert(config@.argv[0] == config.argv@[0]@);
    }
    steps.push(
        or_cause(
            Action::Execute { program: config.argv[0].clone(), argv, environment },
            "",
        ),
    );
    assert(step_views(steps@) =~= launch_steps(config@));
    steps
}

/// The steps after a setup that failed.
pub fn setup_failed(fd: i32, message: &str) -> (steps: Vec<Step>)
    ensures
        step_views(steps@) == setup_failed_steps(fd, message@),
{
    let mut steps: Vec<Step> = Vec::new();
    let line: String = "child setup failed: ".to_string().concat(message).concat("\n");
    steps.push(print(line.as_str()));
    steps.push(either_way(Action::Close { fd }));
    assert(step_views(steps@) =~= setup_failed_steps(fd, message@));
    steps
}

/// The steps after the process could not become the command.
pub fn launch_failed(cause: &str) -> (steps: Vec<Step>)
    ensures
        step_views(steps@) == launch_failed_steps(cause@),
{
    let mut steps: Vec<Step> = Vec::new();
    let line: String = "execve failed! ".to_string().concat(cause).concat(".\n");
    steps.push(print(line.as_str()));
    assert(step_views(steps@) =~= launch_failed_steps(cause@));
    steps
}

/// The parts of the setup come one behind the other: the host name, the mounts, the user namespace,
/// the capabilities, the filter.
pub proof fn law_setup_has_five_parts(
    config: ChildConfigView,
    new_root: Seq<char>,
    old_root: Seq<char>,
    unshared: bool,
    received: i32,
)
    ensures
        ({
            let steps = setup_steps(config, new_root, old_root, unshared, received);
            let mounting = mounts_steps(config.mount_dir, new_root, old_root);
            let switching = userns_steps(config.uid, config.fd, unshared, received);
            let m = 1 + mounting.len() as int;
            let u = m + switching.len() as int;
            let c = u + capabilities_steps().len() as int;
            &&& steps[0] == step_or_cause(ActionView::SetHostname(config.hostname), ""@)
            &&& steps.subrange(1, m) == mounting
            &&& steps.subrange(m, u) == switching
            &&& steps.subrange(u, c) == capabilities_steps()
            &&& steps.skip(c) == syscalls_steps()
        }),
{
    let steps = setup_steps(config, new_root, old_root, unshared, received);
    let mounting = mounts_steps(config.mount_dir, new_root, old_root);
    let switching = userns_steps(config.uid, config.fd, unshared, received);
    let m = 1 + mounting.len() as int;
    let u = m + switching.len() as int;
    let c = u + capabilities_steps().len() as int;
    assert(steps.subrange(1, m) =~= mounting);
    assert(steps.subrange(m, u) =~= switching);
    assert(steps.subrange(u, c) =~= capabilities_steps());
    assert(steps.skip(c) =~= syscalls_steps());
}

/// After the setup the socket is closed and the command takes over; after a failure there is a line
/// that names it.
pub proof fn law_after_the_setup(config: ChildConfigView, fd: i32, text: Seq<char>)
    ensures
        launch_steps(config).len() == 2,
        launch_steps(config)[0] == step_either_way(ActionView::Close { fd: config.fd }),
        launch_steps(config)[1] == step_or_cause(
            ActionView::Execute {
                program: config.argv[0],
                argv: config.argv,
                environment: Seq::empty(),
            },
            ""@,
        ),
        setup_failed_steps(fd, text).len() == 2,
        setup_failed_steps(fd, text)[0] == print_step("child setup failed: "@ + text + "\n"@),
        setup_failed_steps(fd, text)[1] == step_either_way(ActionView::Close { fd }),
        launch_failed_steps(text).len() == 1,
        launch_failed_steps(text)[0] == print_step("execve failed! "@ + text + ".\n"@),
{
}

/// The view of a configuration holds everything that the configuration holds.
pub proof fn law_config_is_seen_whole(config: ChildConfig)
    ensures
        config@.uid == config.uid,
        config@.fd == config.fd,
        config@.hostname == config.hostname@,
        config@.mount_dir == config.mount_dir@,
        config@.argv.len() == config.argv@.len(),
        forall|i: int|
            0 <= i < config.argv@.len() ==> config@.argv[i] == (#[trigger] config.argv@[i])@,
{
}

} // verus!
