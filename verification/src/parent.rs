//! The runtime's side: starting the container, mapping its identifiers, and waiting for its end.

use vstd::prelude::*;
use vstd::string::*;
use crate::action::{
    Action, ActionView, Ending, Step, StepView, either_way, print, print_step, step_either_way,
    step_views,
};
use crate::userns::{handle_child_uid_map, uid_map_steps};

verus! {

/// The size of the stack that the child starts on.
pub const STACK_SIZE: usize = 1024 * 1024;

/// A namespace that the child starts in.
#[derive(Clone, Copy, Debug, PartialEq, Eq, Structural)]
pub enum Namespace {
    Mount,
    Cgroup,
    Pid,
    Ipc,
    Network,
    Uts,
}

/// The namespaces that the child starts in.
pub open spec fn namespaces() -> Seq<Namespace> {
    seq![
        Namespace::Mount,
        Namespace::Cgroup,
        Namespace::Pid,
        Namespace::Ipc,
        Namespace::Network,
        Namespace::Uts,
    ]
}

/// The namespaces that the child starts in. The user namespace is not among them: the child asks
/// for it itself.
pub fn container_namespaces() -> (all: Vec<Namespace>)
    ensures
        all@ == namespaces(),
{
    let all = vec![
        Namespace::Mount,
        Namespace::Cgroup,
        Namespace::Pid,
        Namespace::Ipc,
        Namespace::Network,
        Namespace::Uts,
    ];
    assert(all@ =~= namespaces());
    all
}

/// Once the child has started: its end of the socket pair is closed here, and its identifiers are
/// mapped.
pub open spec fn map_ids_steps(pid: i32, fd: i32, child_fd: i32, received: i32) -> Seq<StepView> {
    seq![step_either_way(ActionView::Close { fd: child_fd })] + uid_map_steps(pid, fd, received)
}

/// What waiting for the child came to.
#[derive(Debug)]
pub enum Reply {
    Ended(Ending),
    /// It could not be waited for, for this cause.
    Failed(String),
}

/// A [`Reply`] over mathematical texts.
pub enum ReplyView {
    Ended(Ending),
    Failed(Seq<char>),
}

impl View for Reply {
    type V = ReplyView;

    open spec fn view(&self) -> ReplyView {
        match *self {
            Reply::Ended(ending) => ReplyView::Ended(ending),
            Reply::Failed(cause) => ReplyView::Failed(cause@),
        }
    }
}

/// What is done about a mapping that failed with a message: the child is killed.
pub open spec fn map_failure_steps(pid: i32, message: Seq<char>) -> Seq<StepView> {
    seq![
        print_step("uid map handling failed: "@ + message + "\n"@),
        step_either_way(ActionView::Kill { pid }),
    ]
}

/// What is done about a wait that failed.
pub open spec fn wait_failure_steps(waited: ReplyView) -> Seq<StepView> {
    match waited {
        ReplyView::Ended(_) => Seq::empty(),
        ReplyView::Failed(cause) => seq![print_step("waitpid failed: "@ + cause + "\n"@)],
    }
}

/// The end: the child is waited for, whatever the mapping came to, and the socket is closed.
pub open spec fn reap_steps(
    pid: i32,
    fd: i32,
    map_failure: Option<Seq<char>>,
    waited: ReplyView,
) -> Seq<StepView> {
    (match map_failure {
        Some(message) => map_failure_steps(pid, message),
        None => Seq::empty(),
    }) + seq![step_either_way(ActionView::Wait { pid })] + wait_failure_steps(waited) + seq![
        step_either_way(ActionView::Close { fd }),
    ]
}

/// The exit status of the runtime: that of the child, with the lowest bit set where the mapping
/// failed; 1 where the child could not be waited for; and what the mapping alone makes of it
/// where the child did not exit by itself.
pub open spec fn exit_status_of(map_failed: bool, waited: ReplyView) -> i32 {
    match waited {
        ReplyView::Ended(Ending::Exited(code)) => if map_failed && code % 2 == 0 {
            (code + 1) as i32
        } else {
            code
        },
        ReplyView::Ended(Ending::Otherwise) => if map_failed {
            1
        } else {
            0
        },
        ReplyView::Failed(_) => 1,
    }
}

/// The steps once the child has started. An announcement that has not come yet may be anything.
pub fn map_ids(pid: i32, fd: i32, child_fd: i32, received: i32) -> (steps: Vec<Step>)
    ensures
        step_views(steps@) == map_ids_steps(pid, fd, child_fd, received),
{
    let mut steps: Vec<Step> = Vec::new();
    steps.push(either_way(Action::Close { fd: child_fd }));
    let mut mapping = handle_child_uid_map(pid, fd, received);
    let ghost parts = (steps@, mapping@);
    steps.append(&mut mapping);
    proof {
        assert(step_views(parts.0) =~= seq![step_either_way(ActionView::Close { fd: child_fd })]);
        assert(step_views(steps@) =~= step_views(parts.0) + step_views(parts.1));
    }
    steps
}

/// The steps of the end. A reply that has not come yet may be anything.
pub fn reap(pid: i32, fd: i32, map_failure: &Option<String>, waited: &Reply) -> (steps: Vec<Step>)
    ensures
        step_views(steps@) == reap_steps(
            pid,
            fd,
            crate::action::optional_text(*map_failure),
            waited@,
        ),
{
    let mut steps: Vec<Step> = Vec::new();
    if let Some(message) = map_failure {
        let line: String = "uid map handling failed: ".to_string().concat(message.as_str()).concat(
            "\n",
        );
        steps.push(print(line.as_str()));
        steps.push(either_way(Action::Kill { pid }));
        assert(step_views(steps@) =~= map_failure_steps(pid, message@));
    }
    let ghost before = step_views(steps@);
    steps.push(either_way(Action::Wait { pid }));
    if let Reply::Failed(cause) = waited {
        let line: String = "waitpid failed: ".to_string().concat(cause.as_str()).concat("\n");
        steps.push(print(line.as_str()));
    }
    steps.push(either_way(Action::Close { fd }));
    assert(step_views(steps@) =~= before + seq![step_either_way(ActionView::Wait { pid })]
        + wait_failure_steps(waited@) + seq![step_either_way(ActionView::Close { fd })]);
    assert(map_failure is None ==> before =~= Seq::empty());
    steps
}

/// The exit status of the runtime.
pub fn exit_status(map_failed: bool, waited: &Reply) -> (status: i32)
    ensures
        status == exit_status_of(map_failed, waited@),
{
    let status: i32 = if map_failed {
        1
    } else {
        0
    };
    match waited {
        Reply::Ended(Ending::Exited(code)) => {
            let code: i32 = *code;
            assert(0i32 | code == code) by (bit_vector);
            assert(code % 2 == 0 ==> 1i32 | code == code + 1) by (bit_vector);
            assert(code % 2 != 0 ==> 1i32 | code == code) by (bit_vector);
            status | code
        },
        Reply::Ended(Ending::Otherwise) => status,
        Reply::Failed(_) => 1,
    }
}

/// The runtime reports success only if the mapping worked, the child could be waited for, and
/// nothing is known against the child; and where the mapping worked and the child exited, it
/// reports the child's own code.
pub proof fn law_exit_status(map_failed: bool, waited: ReplyView, code: i32)
    ensures
        exit_status_of(map_failed, waited) == 0 <==> !map_failed && (waited == ReplyView::Ended(
            Ending::Exited(0),
        ) || waited == ReplyView::Ended(Ending::Otherwise)),
        exit_status_of(false, ReplyView::Ended(Ending::Exited(code))) == code,
        exit_status_of(true, waited) % 2 == 1,
{
}

/// The parent's steps once the child has started, and those of the end.
pub proof fn law_parent_steps(
    pid: i32,
    fd: i32,
    child_fd: i32,
    received: i32,
    message: Seq<char>,
    cause: Seq<char>,
    ending: Ending,
)
    ensures
        map_ids_steps(pid, fd, child_fd, received)[0] == step_either_way(
            ActionView::Close { fd: child_fd },
        ),
        map_ids_steps(pid, fd, child_fd, received).skip(1) == uid_map_steps(pid, fd, received),
        reap_steps(pid, fd, None, ReplyView::Ended(ending)) == seq![
            step_either_way(ActionView::Wait { pid }),
            step_either_way(ActionView::Close { fd }),
        ],
        reap_steps(pid, fd, None, ReplyView::Failed(cause)) == seq![
            step_either_way(ActionView::Wait { pid }),
            print_step("waitpid failed: "@ + cause + "\n"@),
            step_either_way(ActionView::Close { fd }),
        ],
        reap_steps(pid, fd, Some(message), ReplyView::Ended(ending)) == seq![
            print_step("uid map handling failed: "@ + message + "\n"@),
            step_either_way(ActionView::Kill { pid }),
            step_either_way(ActionView::Wait { pid }),
            step_either_way(ActionView::Close { fd }),
        ],
        reap_steps(pid, fd, Some(message), ReplyView::Failed(cause)) == seq![
            print_step("uid map handling failed: "@ + message + "\n"@),
            step_either_way(ActionView::Kill { pid }),
            step_either_way(ActionView::Wait { pid }),
            print_step("waitpid failed: "@ + cause + "\n"@),
            step_either_way(ActionView::Close { fd }),
        ],
{
    assert(map_ids_steps(pid, fd, child_fd, received).skip(1) =~= uid_map_steps(pid, fd, received));
}

/// The exit status in every case. The failed mapping shows in the lowest bit, on top of the code of
/// the child.
pub proof fn law_exit_status_of_each_end(code: i32, cause: Seq<char>)
    ensures
        exit_status_of(false, ReplyView::Ended(Ending::Exited(code))) == code,
        exit_status_of(true, ReplyView::Ended(Ending::Exited(code))) == code | 1,
        exit_status_of(false, ReplyView::Ended(Ending::Otherwise)) == 0,
        exit_status_of(true, ReplyView::Ended(Ending::Otherwise)) == 1,
        exit_status_of(false, ReplyView::Failed(cause)) == 1,
        exit_status_of(true, ReplyView::Failed(cause)) == 1,
{
    assert(code % 2 == 0 ==> code | 1i32 == code + 1) by (bit_vector);
    assert(code % 2 != 0 ==> code | 1i32 == code) by (bit_vector);
}

/// The view of a reply holds everything that the reply holds.
pub proof fn law_reply_is_seen_whole(reply: Reply)
    ensures
        match reply {
            Reply::Ended(ending) => reply@ == ReplyView::Ended(ending),
            Reply::Failed(cause) => reply@ == ReplyView::Failed(cause@),
        },
{
}

} // verus!
