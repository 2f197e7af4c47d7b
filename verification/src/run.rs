//! Running the procedures: which action comes next, and what an answer leads to.
//!
//! A [`Run`] asks for one action at a time. It never performs anything itself: the surrounding
//! program looks at [`Run::pending`], performs the action, and hands the outcome to
//! [`Run::resume`], until the run is finished.

use vstd::prelude::*;
use vstd::string::*;
use crate::action::{
    Action, ActionView, Ending, Outcome, OutcomeView, Step, StepView, TempDir, answers, judge,
    optional_text, step_views, verdict,
};
use crate::child::{
    ChildConfig, ChildConfigView, launch, launch_failed, launch_failed_steps, launch_steps, setup,
    setup_failed, setup_failed_steps, setup_steps,
};
use crate::parent::{
    Reply, ReplyView, exit_status, exit_status_of, map_ids, map_ids_steps, reap, reap_steps,
};
use crate::resources::{
    free_resources, free_resources_steps, set_resources, set_resources_steps,
};

verus! {

/// A procedure to be run.
#[derive(Debug)]
enum Task {
    Setup(ChildConfig),
    Launch(ChildConfig),
    SetupFailed { fd: i32, message: String },
    LaunchFailed { cause: String },
    MapIds { pid: i32, fd: i32, child_fd: i32 },
    Reap { pid: i32, fd: i32, map_failure: Option<String> },
    SetResources { hostname: String },
    FreeResources { hostname: String },
}

/// A procedure to be run, over mathematical texts.
pub enum TaskView {
    /// The child sets itself up.
    Setup(ChildConfigView),
    /// The child becomes the command.
    Launch(ChildConfigView),
    /// The child's setup failed with a message.
    SetupFailed { fd: i32, message: Seq<char> },
    /// The child could not become the command.
    LaunchFailed { cause: Seq<char> },
    /// The parent maps the child's identifiers.
    MapIds { pid: i32, fd: i32, child_fd: i32 },
    /// The parent waits for the child.
    Reap { pid: i32, fd: i32, map_failure: Option<Seq<char>> },
    /// Resource limits are put in place.
    SetResources { hostname: Seq<char> },
    /// Resource limits are taken away.
    FreeResources { hostname: Seq<char> },
}

impl Task {
    spec fn view(&self) -> TaskView {
        match *self {
            Task::Setup(config) => TaskView::Setup(config@),
            Task::Launch(config) => TaskView::Launch(config@),
            Task::SetupFailed { fd, message } => TaskView::SetupFailed { fd, message: message@ },
            Task::LaunchFailed { cause } => TaskView::LaunchFailed { cause: cause@ },
            Task::MapIds { pid, fd, child_fd } => TaskView::MapIds { pid, fd, child_fd },
            Task::Reap { pid, fd, map_failure } => TaskView::Reap {
                pid,
                fd,
                map_failure: optional_text(map_failure),
            },
            Task::SetResources { hostname } => TaskView::SetResources { hostname: hostname@ },
            Task::FreeResources { hostname } => TaskView::FreeResources { hostname: hostname@ },
        }
    }
}

/// The answers so far that later steps depend on.
#[derive(Debug)]
struct Replies {
    new_root: String,
    old_root: String,
    unshared: bool,
    received: i32,
    waited: Reply,
}

/// The answers so far that later steps depend on, over mathematical texts.
pub struct RepliesView {
    pub new_root: Seq<char>,
    pub old_root: Seq<char>,
    /// Whether the child has a user namespace.
    pub unshared: bool,
    /// The integer read last.
    pub received: i32,
    pub waited: ReplyView,
}

impl Replies {
    spec fn view(&self) -> RepliesView {
        RepliesView {
            new_root: self.new_root@,
            old_root: self.old_root@,
            unshared: self.unshared,
            received: self.received,
            waited: self.waited@,
        }
    }
}

/// Before any answer.
pub open spec fn no_replies() -> RepliesView {
    RepliesView {
        new_root: Seq::empty(),
        old_root: Seq::empty(),
        unshared: false,
        received: 0,
        waited: ReplyView::Ended(Ending::Otherwise),
    }
}

/// The steps of a procedure, given the answers so far.
pub open spec fn task_steps(task: TaskView, replies: RepliesView) -> Seq<StepView> {
    match task {
        TaskView::Setup(config) => setup_steps(
            config,
            replies.new_root,
            replies.old_root,
            replies.unshared,
            replies.received,
        ),
        TaskView::Launch(config) => launch_steps(config),
        TaskView::SetupFailed { fd, message } => setup_failed_steps(fd, message),
        TaskView::LaunchFailed { cause } => launch_failed_steps(cause),
        TaskView::MapIds { pid, fd, child_fd } => map_ids_steps(pid, fd, child_fd, replies.received),
        TaskView::Reap { pid, fd, map_failure } => reap_steps(pid, fd, map_failure, replies.waited),
        TaskView::SetResources { hostname } => set_resources_steps(hostname),
        TaskView::FreeResources { hostname } => free_resources_steps(hostname),
    }
}

/// The answers so far, with the answer to one more action.
pub open spec fn record(
    replies: RepliesView,
    action: ActionView,
    outcome: OutcomeView,
) -> RepliesView {
    match (action, outcome) {
        (
            ActionView::MakeTempDir { purpose: TempDir::NewRoot, .. },
            OutcomeView::Path(path),
        ) => RepliesView { new_root: path, ..replies },
        (
            ActionView::MakeTempDir { purpose: TempDir::OldRoot, .. },
            OutcomeView::Path(path),
        ) => RepliesView { old_root: path, ..replies },
        (ActionView::UnshareUser, _) => RepliesView { unshared: outcome is Done, ..replies },
        (ActionView::ReceiveInt { .. }, OutcomeView::Int(value)) => RepliesView {
            received: value,
            ..replies
        },
        (ActionView::Wait { .. }, OutcomeView::Ended(ending)) => RepliesView {
            waited: ReplyView::Ended(ending),
            ..replies
        },
        (ActionView::Wait { .. }, OutcomeView::Failed(cause)) => RepliesView {
            waited: ReplyView::Failed(cause),
            ..replies
        },
        _ => replies,
    }
}

/// How a run can end.
#[derive(Debug)]
pub enum Finish {
    /// The process is to exit with this status.
    Exit(i32),
    /// The procedure is complete.
    Complete,
    /// The procedure failed with this text.
    Error(String),
}

/// A [`Finish`] over mathematical texts.
pub enum FinishView {
    Exit(i32),
    Complete,
    Error(Seq<char>),
}

impl View for Finish {
    type V = FinishView;

    open spec fn view(&self) -> FinishView {
        match *self {
            Finish::Exit(status) => FinishView::Exit(status),
            Finish::Complete => FinishView::Complete,
            Finish::Error(text) => FinishView::Error(text@),
        }
    }
}

/// Where a run is: at a step of a procedure, or at its end.
pub enum RunView {
    Running { task: TaskView, replies: RepliesView, at: int },
    Finished(FinishView),
}

/// The beginning of a procedure.
pub open spec fn beginning(task: TaskView) -> RunView {
    RunView::Running { task, replies: no_replies(), at: 0 }
}

/// What comes after a procedure.
pub open spec fn aftermath(
    task: TaskView,
    replies: RepliesView,
    result: Result<(), Seq<char>>,
) -> RunView {
    match task {
        TaskView::Setup(config) => match result {
            Ok(()) => beginning(TaskView::Launch(config)),
            Err(message) => beginning(TaskView::SetupFailed { fd: config.fd, message }),
        },
        TaskView::Launch(_) => match result {
            Ok(()) => RunView::Finished(FinishView::Exit(0)),
            Err(cause) => beginning(TaskView::LaunchFailed { cause }),
        },
        TaskView::SetupFailed { .. } => RunView::Finished(FinishView::Exit((-1) as i32)),
        TaskView::LaunchFailed { .. } => RunView::Finished(FinishView::Exit((-1) as i32)),
        TaskView::MapIds { pid, fd, .. } => match result {
            Ok(()) => beginning(TaskView::Reap { pid, fd, map_failure: None }),
            Err(message) => beginning(TaskView::Reap { pid, fd, map_failure: Some(message) }),
        },
        TaskView::Reap { map_failure, .. } => RunView::Finished(
            FinishView::Exit(exit_status_of(map_failure is Some, replies.waited)),
        ),
        TaskView::SetResources { .. } | TaskView::FreeResources { .. } => RunView::Finished(
            match result {
                Ok(()) => FinishView::Complete,
                Err(text) => FinishView::Error(text),
            },
        ),
    }
}

/// Where a run is once the steps before `at` are done: at the step `at`, where that is something
/// to do; past the procedure, where there are no more steps, or the step says that it fails.
pub open spec fn arrival(task: TaskView, replies: RepliesView, at: int) -> RunView {
    let steps = task_steps(task, replies);
    if at >= steps.len() {
        aftermath(task, replies, Ok(()))
    } else {
        match steps[at] {
            StepView::Do { .. } => RunView::Running { task, replies, at },
            StepView::Abort(text) => aftermath(task, replies, Err(text)),
        }
    }
}

/// Where an answer leads.
pub open spec fn advance(run: RunView, outcome: OutcomeView) -> RunView {
    match run {
        RunView::Finished(_) => run,
        RunView::Running { task, replies, at } => match task_steps(task, replies)[at] {
            StepView::Do { action, complaint } => match verdict(complaint, outcome) {
                Ok(()) => arrival(task, record(replies, action, outcome), at + 1),
                Err(text) => aftermath(task, replies, Err(text)),
            },
            StepView::Abort(text) => aftermath(task, replies, Err(text)),
        },
    }
}

/// The action that a run asks for.
pub open spec fn pending_action(run: RunView) -> Option<ActionView> {
    match run {
        RunView::Finished(_) => None,
        RunView::Running { task, replies, at } => match task_steps(task, replies)[at] {
            StepView::Do { action, .. } => Some(action),
            StepView::Abort(_) => None,
        },
    }
}

/// What a procedure needs: there is a command to become.
pub open spec fn can_run(task: TaskView) -> bool {
    match task {
        TaskView::Setup(config) => config.argv.len() > 0,
        TaskView::Launch(config) => config.argv.len() > 0,
        _ => true,
    }
}

enum State {
    Running { task: Task, replies: Replies, steps: Vec<Step>, at: usize },
    Finished(Finish),
}

/// A procedure in progress.
pub struct Run {
    state: State,
}

/// What a run wants.
pub enum Pending<'a> {
    /// This action is to be performed.
    Perform(&'a Action),
    /// Nothing: the run is at its end.
    Finished(&'a Finish),
}

fn plan(task: &Task, replies: &Replies) -> (steps: Vec<Step>)
    requires
        can_run(task@),
    ensures
        step_views(steps@) == task_steps(task@, replies@),
{
    match task {
        Task::Setup(config) => setup(
            config,
            replies.new_root.as_str(),
            replies.old_root.as_str(),
            replies.unshared,
            replies.received,
        ),
        Task::Launch(config) => launch(config),
        Task::SetupFailed { fd, message } => setup_failed(*fd, message.as_str()),
        Task::LaunchFailed { cause } => launch_failed(cause.as_str()),
        Task::MapIds { pid, fd, child_fd } => map_ids(*pid, *fd, *child_fd, replies.received),
        Task::Reap { pid, fd, map_failure } => reap(*pid, *fd, map_failure, &replies.waited),
        Task::SetResources { hostname } => set_resources(hostname.as_str()),
        Task::FreeResources { hostname } => free_resources(hostname.as_str()),
    }
}

/// Every procedure begins with something to do.
pub proof fn law_procedures_begin_with_an_action(task: TaskView, replies: RepliesView)
    ensures
        task_steps(task, replies).len() > 0,
        task_steps(task, replies)[0] is Do,
{
    match task {
        TaskView::SetResources { hostname } => {
            lemma_set_resources_first_step(hostname);
        },
        TaskView::FreeResources { hostname } => {
            lemma_free_resources_first_step(hostname);
        },
        _ => {},
    }
}

proof fn lemma_set_resources_first_step(hostname: Seq<char>)
    ensures
        set_resources_steps(hostname).len() > 0,
        set_resources_steps(hostname)[0] is Do,
{
    let groups = crate::resources::control_groups();
    reveal_with_fuel(crate::resources::groups_made_steps, 5);
    let one = groups.drop_last().drop_last().drop_last();
    assert(one.drop_last() =~= Seq::empty());
    assert(crate::resources::groups_made_steps(one, hostname)[0] is Do);
}

proof fn lemma_free_resources_first_step(hostname: Seq<char>)
    ensures
        free_resources_steps(hostname).len() > 0,
        free_resources_steps(hostname)[0] is Do,
{
    let groups = crate::resources::control_groups();
    reveal_with_fuel(crate::resources::groups_removed_steps, 5);
    let one = groups.drop_last().drop_last().drop_last();
    assert(one.drop_last() =~= Seq::empty());
    assert(crate::resources::groups_removed_steps(one, hostname)[0] is Do);
}

fn note_answer(replies: Replies, action: &Action, outcome: Outcome) -> (noted: (Replies, bool))
    ensures
        noted.0@ == record(replies@, action@, outcome@),
        !noted.1 ==> noted.0@ == replies@,
{
    match (action, outcome) {
        (Action::MakeTempDir { purpose: TempDir::NewRoot, .. }, Outcome::Path(path)) => (
            Replies { new_root: path, ..replies },
            true,
        ),
        (Action::MakeTempDir { purpose: TempDir::OldRoot, .. }, Outcome::Path(path)) => (
            Replies { old_root: path, ..replies },
            true,
        ),
        (Action::UnshareUser, Outcome::Done) => (Replies { unshared: true, ..replies }, true),
        (Action::UnshareUser, _) => (Replies { unshared: false, ..replies }, true),
        (Action::ReceiveInt { .. }, Outcome::Int(value)) => (
            Replies { received: value, ..replies },
            true,
        ),
        (Action::Wait { .. }, Outcome::Ended(ending)) => (
            Replies { waited: Reply::Ended(ending), ..replies },
            true,
        ),
        (Action::Wait { .. }, Outcome::Failed(cause)) => (
            Replies { waited: Reply::Failed(cause), ..replies },
            true,
        ),
        _ => (replies, false),
    }
}

impl View for Run {
    type V = RunView;

    closed spec fn view(&self) -> RunView {
        match self.state {
            State::Running { task, replies, at, .. } => RunView::Running {
                task: task@,
                replies: replies@,
                at: at as int,
            },
            State::Finished(finish) => RunView::Finished(finish@),
        }
    }
}

impl Run {
    /// The steps at hand are those of the procedure, and there is something to do.
    #[verifier::type_invariant]
    spec fn is_valid(&self) -> bool {
        match self.state {
            State::Running { task, replies, steps, at } => {
                &&& can_run(task@)
                &&& step_views(steps@) == task_steps(task@, replies@)
                &&& at < steps@.len()
                &&& steps@[at as int] is Do
            },
            State::Finished(_) => true,
        }
    }

    fn begin(task: Task) -> (run: Run)
        requires
            can_run(task@),
        ensures
            run@ == beginning(task@),
    {
        let replies = Replies {
            new_root: String::new(),
            old_root: String::new(),
            unshared: false,
            received: 0,
            waited: Reply::Ended(Ending::Otherwise),
        };
        let steps = plan(&task, &replies);
        proof {
            law_procedures_begin_with_an_action(task@, replies@);
            assert(step_views(steps@)[0] == steps@[0]@);
        }
        Run { state: State::Running { task, replies, steps, at: 0 } }
    }

    fn finish(finish: Finish) -> (run: Run)
        ensures
            run@ == RunView::Finished(finish@),
    {
        Run { state: State::Finished(finish) }
    }

    fn go_on(task: Task, replies: &Replies, result: Result<(), String>) -> (run: Run)
        requires
            can_run(task@),
        ensures
            run@ == aftermath(
                task@,
                replies@,
                match result {
                    Ok(()) => Ok(()),
                    Err(text) => Err(text@),
                },
            ),
    {
        match task {
            Task::Setup(config) => match result {
                Ok(()) => Run::begin(Task::Launch(config)),
                Err(message) => Run::begin(Task::SetupFailed { fd: config.fd, message }),
            },
            Task::Launch(_) => match result {
                Ok(()) => Run::finish(Finish::Exit(0)),
                Err(cause) => Run::begin(Task::LaunchFailed { cause }),
            },
            Task::SetupFailed { .. } => Run::finish(Finish::Exit(-1)),
            Task::LaunchFailed { .. } => Run::finish(Finish::Exit(-1)),
            Task::MapIds { pid, fd, .. } => match result {
                Ok(()) => Run::begin(Task::Reap { pid, fd, map_failure: None }),
                Err(message) => Run::begin(Task::Reap { pid, fd, map_failure: Some(message) }),
            },
            Task::Reap { map_failure, .. } => Run::finish(
                Finish::Exit(exit_status(map_failure.is_some(), &replies.waited)),
            ),
            Task::SetResources { .. } | Task::FreeResources { .. } => match result {
                Ok(()) => Run::finish(Finish::Complete),
                Err(text) => Run::finish(Finish::Error(text)),
            },
        }
    }

    /// The child: it sets itself up and becomes the command.
    pub fn child(config: ChildConfig) -> (run: Run)
        requires
            config@.argv.len() > 0,
        ensures
            run@ == beginning(TaskView::Setup(config@)),
    {
        Run::begin(Task::Setup(config))
    }

    /// The parent of the child `pid`, once the child has started: it maps the child's identifiers
    /// over its end `fd` of the socket pair, of which `child_fd` is the other end, and waits for
    /// the child.
    pub fn parent(pid: i32, fd: i32, child_fd: i32) -> (run: Run)
        ensures
            run@ == beginning(TaskView::MapIds { pid, fd, child_fd }),
    {
        Run::begin(Task::MapIds { pid, fd, child_fd })
    }

    /// Putting the resource limits of `hostname` in place.
    pub fn setting_resources(hostname: String) -> (run: Run)
        ensures
            run@ == beginning(TaskView::SetResources { hostname: hostname@ }),
    {
        Run::begin(Task::SetResources { hostname })
    }

    /// Taking the control groups of `hostname` away.
    pub fn freeing_resources(hostname: String) -> (run: Run)
        ensures
            run@ == beginning(TaskView::FreeResources { hostname: hostname@ }),
    {
        Run::begin(Task::FreeResources { hostname })
    }

    /// What the run wants.
    pub fn pending(&self) -> (pending: Pending<'_>)
        ensures
            match pending {
                Pending::Perform(action) => pending_action(self@) == Some(action@),
                Pending::Finished(finish) => self@ == RunView::Finished(finish@),
            },
    {
        proof {
            use_type_invariant(self);
        }
        match &self.state {
            State::Running { task, replies, steps, at } => {
                assert(step_views(steps@)[*at as int] == steps@[*at as int]@);
                match &steps[*at] {
                    Step::Do { action, .. } => Pending::Perform(action),
                    Step::Abort(_) => vstd::pervasive::unreached(),
                }
            },
            State::Finished(finish) => Pending::Finished(finish),
        }
    }

    /// The run, once the pending action has come to `outcome`.
    pub fn resume(self, outcome: Outcome) -> (run: Run)
        requires
            pending_action(self@) matches Some(action) && answers(action, outcome@),
        ensures
            run@ == advance(self@, outcome@),
    {
        proof {
            use_type_invariant(&self);
        }
        match self.state {
            State::Finished(finish) => Run::finish(finish),
            State::Running { task, replies, steps, at } => {
                assert(step_views(steps@)[at as int] == steps@[at as int]@);
                let (result, replies, changed) = match &steps[at] {
                    Step::Do { action, complaint } => {
                        let result = judge(complaint, &outcome);
                        if result.is_err() {
                            (result, replies, false)
                        } else {
                            let (replies, changed) = note_answer(replies, action, outcome);
                            (result, replies, changed)
                        }
                    },
                    Step::Abort(_) => vstd::pervasive::unreached(),
                };
                if result.is_err() {
                    return Run::go_on(task, &replies, result);
                }
                let steps: Vec<Step> = if changed {
                    plan(&task, &replies)
                } else {
                    steps
                };
                let at: usize = at + 1;
                if at >= steps.len() {
                    return Run::go_on(task, &replies, Ok(()));
                }
                assert(step_views(steps@)[at as int] == steps@[at as int]@);
                if let Step::Abort(text) = &steps[at] {
                    let text: String = (*text).to_string();
                    return Run::go_on(task, &replies, Err(text));
                }
                Run { state: State::Running { task, replies, steps, at } }
            },
        }
    }
}

/// The view of an end holds everything that the end holds.
pub proof fn law_finish_is_seen_whole(finish: Finish)
    ensures
        match finish {
            Finish::Exit(status) => finish@ == FinishView::Exit(status),
            Finish::Complete => finish@ == FinishView::Complete,
            Finish::Error(text) => finish@ == FinishView::Error(text@),
        },
{
}

} // verus!
