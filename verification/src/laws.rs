//! What holds of whole runs.

use vstd::prelude::*;
use crate::action::{
    ActionView, ComplaintView, MountFlag, OutcomeView, StepView, answers, step_either_way, verdict,
};
use crate::capabilities::{
    CapSet, Capability, capabilities_steps, drop_step, law_each_capability_is_dropped_once,
};
use crate::child::ChildConfigView;
use crate::mounts::mounts_steps;
use crate::parent::{ReplyView, exit_status_of, reap_steps};
use crate::path::file_name;
use crate::resources::{
    ControlView, SettingView, control_groups, free_resources_steps, group_dir, groups_made_steps,
    groups_removed_steps, set_resources_steps, settings_steps,
};
use crate::run::{
    FinishView, RepliesView, RunView, TaskView, advance, beginning,
    law_procedures_begin_with_an_action, no_replies, pending_action, record, task_steps,
};
use crate::syscalls::{filter_rules, syscalls_steps};
use crate::userns::userns_steps;

verus! {

/// Where a run that begins with `task` is after `outcomes`.
pub open spec fn state_after(task: TaskView, outcomes: Seq<OutcomeView>) -> RunView
    decreases outcomes.len(),
{
    if outcomes.len() == 0 {
        beginning(task)
    } else {
        advance(state_after(task, outcomes.drop_last()), outcomes.last())
    }
}

/// Whether each of `outcomes` answers the action that was pending.
pub open spec fn answered(task: TaskView, outcomes: Seq<OutcomeView>) -> bool
    decreases outcomes.len(),
{
    outcomes.len() > 0 ==> {
        &&& answered(task, outcomes.drop_last())
        &&& pending_action(state_after(task, outcomes.drop_last())) matches Some(action)
        &&& answers(action, outcomes.last())
    }
}

/// The actions that `outcomes` answer.
pub open spec fn performed(task: TaskView, outcomes: Seq<OutcomeView>) -> Seq<ActionView>
    decreases outcomes.len(),
{
    if outcomes.len() == 0 {
        Seq::empty()
    } else {
        performed(task, outcomes.drop_last()).push(
            pending_action(state_after(task, outcomes.drop_last()))->0,
        )
    }
}

/// Whether `step` was done by performing `action`, with an outcome that let the procedure go on.
pub open spec fn step_done(step: StepView, action: ActionView, outcome: OutcomeView) -> bool {
    step matches StepView::Do { action: a, complaint } && a == action && verdict(complaint, outcome)
        is Ok
}

/// Which part of the setup the step `i` belongs to.
spec fn setup_part(config: ChildConfigView, r: RepliesView, i: int) -> bool {
    let steps = task_steps(TaskView::Setup(config), r);
    let mounting = mounts_steps(config.mount_dir, r.new_root, r.old_root);
    let switching = userns_steps(config.uid, config.fd, r.unshared, r.received);
    let m = 1 + mounting.len();
    let u = m + switching.len();
    let c = u + capabilities_steps().len();
    &&& steps.len() == c + syscalls_steps().len()
    &&& 1 <= i < m ==> steps[i] == mounting[i - 1]
    &&& m <= i < u ==> steps[i] == switching[i - m]
    &&& u <= i < c ==> steps[i] == capabilities_steps()[i - u]
    &&& c <= i < steps.len() ==> steps[i] == syscalls_steps()[i - c]
}

proof fn lemma_setup_parts(config: ChildConfigView, replies: RepliesView, i: int)
    ensures
        setup_part(config, replies, i),
{
}

/// Whether the answer to an action has a bearing on later steps.
spec fn bears_on_later_steps(action: ActionView) -> bool {
    action is MakeTempDir || action is UnshareUser || action is ReceiveInt || action is Wait
}

proof fn lemma_confinement_awaits_nothing(i: int)
    ensures
        0 <= i < capabilities_steps().len() ==> (capabilities_steps()[i] matches StepView::Do {
            action,
            ..
        } ==> !bears_on_later_steps(action)),
        0 <= i < syscalls_steps().len() ==> (syscalls_steps()[i] matches StepView::Do {
            action,
            ..
        } ==> !bears_on_later_steps(action)),
{
}

#[verifier::rlimit(40)]
proof fn lemma_setup_stands(config: ChildConfigView, replies: RepliesView, at: int, o: OutcomeView)
    requires
        0 <= at < task_steps(TaskView::Setup(config), replies).len(),
        task_steps(TaskView::Setup(config), replies)[at] is Do,
    ensures
        ({
            let task = TaskView::Setup(config);
            let before = task_steps(task, replies);
            let after = task_steps(task, record(replies, before[at]->action, o));
            at < after.len() && forall|i: int| 0 <= i <= at ==> #[trigger] after[i] == before[i]
        }),
{
    let task = TaskView::Setup(config);
    let before = task_steps(task, replies);
    let action = before[at]->action;
    let later = record(replies, action, o);
    let after = task_steps(task, later);
    let mounting = mounts_steps(config.mount_dir, replies.new_root, replies.old_root);
    let switching = userns_steps(config.uid, config.fd, replies.unshared, replies.received);
    let m = 1 + mounting.len() as int;
    let u = m + switching.len() as int;
    let c = u + capabilities_steps().len() as int;
    lemma_setup_parts(config, replies, at);
    if !bears_on_later_steps(action) {
        assert(later == replies);
    } else {
        assert(1 <= at < u) by {
            if u <= at < c {
                lemma_confinement_awaits_nothing(at - u);
            } else if c <= at {
                lemma_confinement_awaits_nothing(at - c);
            }
        }
        assert forall|i: int| 0 <= i <= at implies at < after.len() && #[trigger] after[i]
            == before[i] by {
            lemma_setup_parts(config, replies, i);
            lemma_setup_parts(config, later, i);
            if at < m {
                assert(action is MakeTempDir);
                assert(at == 5 || at == 7);
            } else {
                assert(action is UnshareUser || action is ReceiveInt);
                assert(at == m + 1 || at == m + 3);
            }
        }
        assert(after[0] == before[0]);
    }
}

/// What has been done stands: an answer has no bearing on the step that it answers or on those
/// before it. So the steps that a run has behind it are the first steps of its procedure, now and
/// ever after.
pub proof fn law_what_is_done_stands(
    task: TaskView,
    replies: RepliesView,
    at: int,
    outcome: OutcomeView,
)
    requires
        0 <= at < task_steps(task, replies).len(),
        task_steps(task, replies)[at] is Do,
    ensures
        ({
            let before = task_steps(task, replies);
            let after = task_steps(task, record(replies, before[at]->action, outcome));
            at < after.len() && forall|i: int| 0 <= i <= at ==> #[trigger] after[i] == before[i]
        }),
{
    match task {
        TaskView::Setup(config) => {
            lemma_setup_stands(config, replies, at, outcome);
        },
        _ => {},
    }
}

/// Where a run is on its way through a procedure: it has just done the steps before the pending
/// one, in order, and each let the procedure go on.
pub proof fn law_progress(first: TaskView, outcomes: Seq<OutcomeView>)
    requires
        answered(first, outcomes),
    ensures
        performed(first, outcomes).len() == outcomes.len(),
        state_after(first, outcomes) matches RunView::Running { task, replies, at } ==> {
            let steps = task_steps(task, replies);
            let n = outcomes.len() - at;
            &&& 0 <= at <= outcomes.len()
            &&& at < steps.len()
            &&& steps[at] is Do
            &&& forall|i: int|
                0 <= i < at ==> step_done(
                    #[trigger] steps[i],
                    performed(first, outcomes)[n + i],
                    outcomes[n + i],
                )
        },
    decreases outcomes.len(),
{
    if outcomes.len() == 0 {
        law_procedures_begin_with_an_action(first, no_replies());
    } else {
        let earlier = outcomes.drop_last();
        let last = outcomes.last();
        law_progress(first, earlier);
        let done = performed(first, outcomes);
        assert(forall|i: int| 0 <= i < earlier.len() ==> done[i] == performed(first, earlier)[i]);
        if let RunView::Running { task, replies, at } = state_after(first, earlier) {
            let steps = task_steps(task, replies);
            let action = steps[at]->action;
            law_what_is_done_stands(task, replies, at, last);
            if let RunView::Running { task: t, replies: r, at: k } = state_after(first, outcomes) {
                law_procedures_begin_with_an_action(t, r);
                if k != 0 {
                    assert(k == at + 1 && t == task && r == record(replies, action, last));
                    let n = outcomes.len() - k;
                    let now = task_steps(t, r);
                    assert forall|i: int| 0 <= i < k implies step_done(
                        #[trigger] now[i],
                        done[n + i],
                        outcomes[n + i],
                    ) by {
                        assert(now[i] == steps[i]);
                        if i < at {
                            assert(step_done(
                                steps[i],
                                performed(first, earlier)[n + i],
                                earlier[n + i],
                            ));
                        }
                    }
                }
            }
        }
    }
}

/// Whether all of `steps` were done, in order, by the first actions performed.
pub open spec fn all_done(
    steps: Seq<StepView>,
    actions: Seq<ActionView>,
    outcomes: Seq<OutcomeView>,
) -> bool {
    &&& steps.len() <= actions.len()
    &&& actions.len() == outcomes.len()
    &&& forall|i: int|
        0 <= i < steps.len() ==> step_done(#[trigger] steps[i], actions[i], outcomes[i])
}

/// The answers that later steps depend on, out of all the answers to `actions`.
pub open spec fn noted(actions: Seq<ActionView>, outcomes: Seq<OutcomeView>) -> RepliesView
    decreases outcomes.len(),
{
    if outcomes.len() == 0 {
        no_replies()
    } else {
        record(
            noted(actions.drop_last(), outcomes.drop_last()),
            actions.last(),
            outcomes.last(),
        )
    }
}

/// Whether a procedure was gone through to its end before anything else, and `replies` are the
/// answers that came meanwhile.
pub open spec fn gone_through(
    task: TaskView,
    replies: RepliesView,
    outcomes: Seq<OutcomeView>,
) -> bool {
    let steps = task_steps(task, replies);
    let actions = performed(task, outcomes);
    let n = steps.len() as int;
    &&& all_done(steps, actions, outcomes)
    &&& replies == noted(actions.take(n), outcomes.take(n))
}

/// As long as a run is in its first procedure, it goes by the answers that came.
proof fn lemma_replies_are_noted(first: TaskView, outcomes: Seq<OutcomeView>)
    requires
        answered(first, outcomes),
    ensures
        state_after(first, outcomes) matches RunView::Running { task, replies, at } ==> at
            == outcomes.len() ==> task == first && replies == noted(
            performed(first, outcomes),
            outcomes,
        ),
    decreases outcomes.len(),
{
    if outcomes.len() > 0 {
        let earlier = outcomes.drop_last();
        lemma_replies_are_noted(first, earlier);
        law_progress(first, earlier);
        assert(performed(first, outcomes).drop_last() =~= performed(first, earlier));
    }
}

proof fn lemma_all_done_later(task: TaskView, replies: RepliesView, outcomes: Seq<OutcomeView>)
    requires
        outcomes.len() > 0,
        answered(task, outcomes),
        gone_through(task, replies, outcomes.drop_last()),
    ensures
        gone_through(task, replies, outcomes),
{
    let earlier = outcomes.drop_last();
    law_progress(task, outcomes);
    let steps = task_steps(task, replies);
    assert forall|i: int| 0 <= i < steps.len() implies step_done(
        #[trigger] steps[i],
        performed(task, outcomes)[i],
        outcomes[i],
    ) by {
        assert(performed(task, outcomes)[i] == performed(task, earlier)[i]);
    }
    let n = steps.len() as int;
    assert(performed(task, outcomes).take(n) =~= performed(task, earlier).take(n));
    assert(outcomes.take(n) =~= earlier.take(n));
}

/// A procedure that is gone through now was gone through a moment ago, unless it took every action
/// so far.
proof fn lemma_gone_through_earlier(
    task: TaskView,
    replies: RepliesView,
    outcomes: Seq<OutcomeView>,
)
    requires
        outcomes.len() > 0,
        answered(task, outcomes),
        gone_through(task, replies, outcomes),
        task_steps(task, replies).len() < outcomes.len(),
    ensures
        gone_through(task, replies, outcomes.drop_last()),
{
    let earlier = outcomes.drop_last();
    law_progress(task, earlier);
    let steps = task_steps(task, replies);
    assert forall|i: int| 0 <= i < steps.len() implies step_done(
        #[trigger] steps[i],
        performed(task, earlier)[i],
        earlier[i],
    ) by {
        assert(performed(task, outcomes)[i] == performed(task, earlier)[i]);
    }
    let n = steps.len() as int;
    assert(performed(task, outcomes).take(n) =~= performed(task, earlier).take(n));
    assert(outcomes.take(n) =~= earlier.take(n));
}

/// Where a step is the last one and lets the procedure go on, the procedure is gone through.
#[verifier::rlimit(40)]
proof fn lemma_last_step(task: TaskView, outcomes: Seq<OutcomeView>)
    requires
        outcomes.len() > 0,
        answered(task, outcomes),
        ({
            let earlier = outcomes.drop_last();
            &&& state_after(task, earlier) matches RunView::Running { task: t, replies, at }
            &&& t == task
            &&& at == earlier.len()
            &&& task_steps(task, replies)[at] matches StepView::Do { action, complaint }
            &&& verdict(complaint, outcomes.last()) is Ok
            &&& at + 1 >= task_steps(task, record(replies, action, outcomes.last())).len()
        }),
    ensures
        ({
            let earlier = outcomes.drop_last();
            let replies = state_after(task, earlier)->replies;
            let at = state_after(task, earlier)->at;
            gone_through(
                task,
                record(replies, task_steps(task, replies)[at]->action, outcomes.last()),
                outcomes,
            )
        }),
{
    let earlier = outcomes.drop_last();
    let last = outcomes.last();
    law_progress(task, earlier);
    law_progress(task, outcomes);
    let replies = state_after(task, earlier)->replies;
    let at = state_after(task, earlier)->at;
    let steps = task_steps(task, replies);
    let later = record(replies, steps[at]->action, last);
    law_what_is_done_stands(task, replies, at, last);
    lemma_replies_are_noted(task, earlier);
    let now = task_steps(task, later);
    assert(performed(task, outcomes).drop_last() =~= performed(task, earlier));
    assert(performed(task, outcomes).take(now.len() as int) =~= performed(task, outcomes));
    assert(outcomes.take(now.len() as int) =~= outcomes);
    assert forall|i: int| 0 <= i < now.len() implies step_done(
        #[trigger] now[i],
        performed(task, outcomes)[i],
        outcomes[i],
    ) by {
        assert(now[i] == steps[i]);
        if i < at {
            assert(step_done(steps[i], performed(task, earlier)[i], earlier[i]));
            assert(performed(task, outcomes)[i] == performed(task, earlier)[i]);
        }
    }
}

/// Whether the setup was gone through to its end.
pub open spec fn setup_done(config: ChildConfigView, outcomes: Seq<OutcomeView>) -> bool {
    exists|replies: RepliesView|
        #[trigger] gone_through(TaskView::Setup(config), replies, outcomes)
}

/// Becoming the command that was asked for, with an empty environment.
pub open spec fn execution(config: ChildConfigView) -> ActionView {
    ActionView::Execute { program: config.argv[0], argv: config.argv, environment: Seq::empty() }
}

/// Whether the child has tried to become the command.
pub open spec fn executed(config: ChildConfigView, outcomes: Seq<OutcomeView>) -> bool {
    performed(TaskView::Setup(config), outcomes).contains(execution(config))
}

/// Whether a step of the setup was done and failed, or cannot be done.
spec fn setup_stuck_at(config: ChildConfigView, outcomes: Seq<OutcomeView>, i: int) -> bool {
    let first = TaskView::Setup(config);
    let actions = performed(first, outcomes);
    let steps = task_steps(first, noted(actions, outcomes));
    &&& 0 <= i < steps.len()
    &&& steps[i] is Abort || (i < outcomes.len() && !step_done(steps[i], actions[i], outcomes[i]))
}

/// Whether the setup cannot come to its end any more.
spec fn setup_stuck(config: ChildConfigView, outcomes: Seq<OutcomeView>) -> bool {
    exists|i: int| #[trigger] setup_stuck_at(config, outcomes, i)
}

/// A setup that was not gone through a moment ago is not gone through now where it is stuck or has
/// steps left.
proof fn lemma_setup_not_done(config: ChildConfigView, outcomes: Seq<OutcomeView>)
    requires
        outcomes.len() > 0,
        answered(TaskView::Setup(config), outcomes),
        !setup_done(config, outcomes.drop_last()),
        ({
            let first = TaskView::Setup(config);
            let replies = noted(performed(first, outcomes), outcomes);
            setup_stuck(config, outcomes) || outcomes.len() < task_steps(first, replies).len()
        }),
    ensures
        !setup_done(config, outcomes),
{
    let first = TaskView::Setup(config);
    if setup_done(config, outcomes) {
        let r = choose|replies: RepliesView| #[trigger] gone_through(first, replies, outcomes);
        let n = task_steps(first, r).len() as int;
        if n < outcomes.len() {
            lemma_gone_through_earlier(first, r, outcomes);
            assert(gone_through(first, r, outcomes.drop_last()));
        } else {
            let actions = performed(first, outcomes);
            assert(actions.take(n) =~= actions);
            assert(outcomes.take(n) =~= outcomes);
            if setup_stuck(config, outcomes) {
                let i = choose|i: int| #[trigger] setup_stuck_at(config, outcomes, i);
                assert(step_done(task_steps(first, r)[i], actions[i], outcomes[i]));
            }
        }
    }
}

/// What the child can be doing, and what it has done by then.
spec fn child_phase(config: ChildConfigView, outcomes: Seq<OutcomeView>, run: RunView) -> bool {
    match run {
        RunView::Running { task, replies, at } => match task {
            TaskView::Setup(c) => {
                &&& c == config
                &&& at == outcomes.len()
                &&& !setup_done(config, outcomes)
                &&& !executed(config, outcomes)
            },
            TaskView::SetupFailed { fd, .. } => {
                &&& fd == config.fd
                &&& setup_stuck(config, outcomes)
                &&& !setup_done(config, outcomes)
                &&& !executed(config, outcomes)
            },
            TaskView::Launch(c) => {
                &&& c == config
                &&& setup_done(config, outcomes)
                &&& !executed(config, outcomes)
            },
            TaskView::LaunchFailed { .. } => {
                &&& setup_done(config, outcomes)
                &&& executed(config, outcomes)
            },
            _ => false,
        },
        RunView::Finished(FinishView::Exit(status)) => {
            &&& status == -1 || (status == 0 && setup_done(config, outcomes))
            &&& setup_done(config, outcomes) <==> executed(config, outcomes)
        },
        RunView::Finished(_) => false,
    }
}

proof fn lemma_child_phases(config: ChildConfigView, outcomes: Seq<OutcomeView>)
    requires
        answered(TaskView::Setup(config), outcomes),
    ensures
        child_phase(config, outcomes, state_after(TaskView::Setup(config), outcomes)),
    decreases outcomes.len(),
{
    let first = TaskView::Setup(config);
    if outcomes.len() == 0 {
        law_procedures_begin_with_an_action(first, no_replies());
        assert forall|r: RepliesView| !(#[trigger] gone_through(first, r, outcomes)) by {
            law_procedures_begin_with_an_action(first, r);
        }
    } else {
        let earlier = outcomes.drop_last();
        lemma_child_phases(config, earlier);
        law_progress(first, earlier);
        match state_after(first, earlier)->task {
            TaskView::Setup(_) => {
                lemma_child_in_setup(config, outcomes);
            },
            TaskView::SetupFailed { .. } => {
                lemma_child_in_failed_setup(config, outcomes);
            },
            _ => {
                lemma_child_in_launch(config, outcomes);
            },
        }
    }
}

/// What one more action adds to what was performed.
proof fn lemma_one_more(config: ChildConfigView, outcomes: Seq<OutcomeView>, action: ActionView)
    requires
        outcomes.len() > 0,
        answered(TaskView::Setup(config), outcomes),
        pending_action(state_after(TaskView::Setup(config), outcomes.drop_last())) == Some(action),
    ensures
        performed(TaskView::Setup(config), outcomes).drop_last() == performed(
            TaskView::Setup(config),
            outcomes.drop_last(),
        ),
        performed(TaskView::Setup(config), outcomes).last() == action,
        executed(config, outcomes) <==> executed(config, outcomes.drop_last()) || action
            == execution(config),
{
    let first = TaskView::Setup(config);
    let now = performed(first, outcomes);
    let before = performed(first, outcomes.drop_last());
    assert(now.drop_last() =~= before);
    if executed(config, outcomes.drop_last()) {
        let i = before.index_of(execution(config));
        assert(now[i] == execution(config));
    }
    if executed(config, outcomes) {
        let i = now.index_of(execution(config));
        assert(i == now.len() - 1 || before[i] == execution(config));
    }
    if action == execution(config) {
        assert(now[now.len() - 1] == action);
    }
}

#[verifier::rlimit(40)]
proof fn lemma_child_in_setup(config: ChildConfigView, outcomes: Seq<OutcomeView>)
    requires
        outcomes.len() > 0,
        answered(TaskView::Setup(config), outcomes),
        state_after(TaskView::Setup(config), outcomes.drop_last()) is Running,
        state_after(TaskView::Setup(config), outcomes.drop_last())->task is Setup,
        child_phase(
            config,
            outcomes.drop_last(),
            state_after(TaskView::Setup(config), outcomes.drop_last()),
        ),
    ensures
        child_phase(config, outcomes, state_after(TaskView::Setup(config), outcomes)),
{
    let first = TaskView::Setup(config);
    let earlier = outcomes.drop_last();
    let last = outcomes.last();
    let replies = state_after(first, earlier)->replies;
    let at = state_after(first, earlier)->at;
    law_progress(first, earlier);
    law_progress(first, outcomes);
    lemma_replies_are_noted(first, earlier);
    law_what_is_done_stands(first, replies, at, last);
    let steps = task_steps(first, replies);
    let action = steps[at]->action;
    let later = record(replies, action, last);
    let now = task_steps(first, later);
    lemma_setup_executes_nothing(config, replies, at);
    lemma_one_more(config, outcomes, action);
    assert(noted(performed(first, outcomes), outcomes) == later);
    if verdict(steps[at]->complaint, last) is Ok {
        if at + 1 >= now.len() {
            lemma_last_step(first, outcomes);
            assert(gone_through(first, later, outcomes));
        } else {
            lemma_setup_not_done(config, outcomes);
            if now[at + 1] is Abort {
                assert(setup_stuck_at(config, outcomes, at + 1));
            }
        }
    } else {
        assert(setup_stuck_at(config, outcomes, at));
        lemma_setup_not_done(config, outcomes);
    }
}

proof fn lemma_child_in_failed_setup(config: ChildConfigView, outcomes: Seq<OutcomeView>)
    requires
        outcomes.len() > 0,
        answered(TaskView::Setup(config), outcomes),
        state_after(TaskView::Setup(config), outcomes.drop_last()) is Running,
        state_after(TaskView::Setup(config), outcomes.drop_last())->task is SetupFailed,
        child_phase(
            config,
            outcomes.drop_last(),
            state_after(TaskView::Setup(config), outcomes.drop_last()),
        ),
    ensures
        child_phase(config, outcomes, state_after(TaskView::Setup(config), outcomes)),
{
    let first = TaskView::Setup(config);
    let earlier = outcomes.drop_last();
    law_progress(first, earlier);
    law_progress(first, outcomes);
    let action = pending_action(state_after(first, earlier))->0;
    assert(action is Print || action is Close);
    lemma_one_more(config, outcomes, action);
    let i = choose|i: int| #[trigger] setup_stuck_at(config, earlier, i);
    assert(noted(performed(first, outcomes), outcomes) == noted(
        performed(first, earlier),
        earlier,
    ));
    if i < earlier.len() {
        assert(performed(first, outcomes)[i] == performed(first, earlier)[i]);
    }
    assert(setup_stuck_at(config, outcomes, i));
    lemma_setup_not_done(config, outcomes);
}

proof fn lemma_child_in_launch(config: ChildConfigView, outcomes: Seq<OutcomeView>)
    requires
        outcomes.len() > 0,
        answered(TaskView::Setup(config), outcomes),
        state_after(TaskView::Setup(config), outcomes.drop_last()) is Running,
        state_after(TaskView::Setup(config), outcomes.drop_last())->task is Launch || state_after(
            TaskView::Setup(config),
            outcomes.drop_last(),
        )->task is LaunchFailed,
        child_phase(
            config,
            outcomes.drop_last(),
            state_after(TaskView::Setup(config), outcomes.drop_last()),
        ),
    ensures
        child_phase(config, outcomes, state_after(TaskView::Setup(config), outcomes)),
{
    let first = TaskView::Setup(config);
    let earlier = outcomes.drop_last();
    law_progress(first, earlier);
    let r = choose|r: RepliesView| #[trigger] gone_through(first, r, earlier);
    lemma_all_done_later(first, r, outcomes);
    assert(gone_through(first, r, outcomes));
    lemma_one_more(config, outcomes, pending_action(state_after(first, earlier))->0);
}

/// The command runs if and only if the setup succeeds: when the child is at its end, it has tried
/// to become the command where the whole setup was gone through, step by step and in order,
/// without a failure that counts; and it has not where the setup was not. At no time before has it
/// tried without that.
pub proof fn law_command_runs_iff_the_setup_succeeds(
    config: ChildConfigView,
    outcomes: Seq<OutcomeView>,
)
    requires
        answered(TaskView::Setup(config), outcomes),
    ensures
        executed(config, outcomes) ==> setup_done(config, outcomes),
        state_after(TaskView::Setup(config), outcomes) is Finished ==> (setup_done(config, outcomes)
            <==> executed(config, outcomes)),
{
    lemma_child_phases(config, outcomes);
}

/// The process becomes the command only after the whole setup was gone through, step by step and
/// in order, without a failure that counts.
pub proof fn law_command_runs_after_the_setup(
    config: ChildConfigView,
    outcomes: Seq<OutcomeView>,
)
    requires
        answered(TaskView::Setup(config), outcomes),
        pending_action(state_after(TaskView::Setup(config), outcomes)) is Some,
        pending_action(state_after(TaskView::Setup(config), outcomes))->0 is Execute,
    ensures
        setup_done(config, outcomes),
{
    let first = TaskView::Setup(config);
    lemma_child_phases(config, outcomes);
    law_progress(first, outcomes);
    if let RunView::Running { task, replies, at } = state_after(first, outcomes) {
        match task {
            TaskView::Setup(_) => {
                lemma_setup_executes_nothing(config, replies, at);
            },
            _ => {},
        }
    }
}

proof fn lemma_setup_executes_nothing(config: ChildConfigView, replies: RepliesView, at: int)
    requires
        0 <= at < task_steps(TaskView::Setup(config), replies).len(),
    ensures
        task_steps(TaskView::Setup(config), replies)[at] matches StepView::Do { action, .. }
            ==> action !is Execute,
{
    lemma_setup_parts(config, replies, at);
}

/// Whether `action` was performed and did not fail.
pub open spec fn succeeded(
    actions: Seq<ActionView>,
    outcomes: Seq<OutcomeView>,
    action: ActionView,
) -> bool {
    exists|i: int|
        0 <= i < actions.len() && i < outcomes.len() && #[trigger] actions[i] == action
            && outcomes[i] !is Failed
}

/// A step whose failure counts, in a procedure that was gone through, did not fail.
proof fn lemma_counting_step_succeeded(
    steps: Seq<StepView>,
    actions: Seq<ActionView>,
    outcomes: Seq<OutcomeView>,
    i: int,
)
    requires
        all_done(steps, actions, outcomes),
        0 <= i < steps.len(),
    ensures
        steps[i] is Do,
        steps[i]->complaint !is Ignored ==> succeeded(actions, outcomes, steps[i]->action),
{
    assert(step_done(steps[i], actions[i], outcomes[i]));
    assert(actions[i] == steps[i]->action);
}

/// The command runs confined: by the time that the process becomes the command, its host name is
/// set, mount events do not travel, the directory asked for is its root and the root of the host is
/// detached, it has taken on its user and group, it has dropped every dangerous capability from
/// both sets, and its system call filter is loaded with every rule. Each of these was done without
/// failing.
#[verifier::rlimit(40)]
pub proof fn law_command_runs_confined(
    config: ChildConfigView,
    outcomes: Seq<OutcomeView>,
    set: CapSet,
    capability: Capability,
    rule: int,
)
    requires
        answered(TaskView::Setup(config), outcomes),
        pending_action(state_after(TaskView::Setup(config), outcomes)) is Some,
        pending_action(state_after(TaskView::Setup(config), outcomes))->0 is Execute,
        0 <= rule < filter_rules().len(),
    ensures
        ({
            let actions = performed(TaskView::Setup(config), outcomes);
            let uid = config.uid;
            &&& succeeded(actions, outcomes, ActionView::SetHostname(config.hostname))
            &&& succeeded(
                actions,
                outcomes,
                ActionView::Mount {
                    source: None,
                    target: "/"@,
                    flags: seq![MountFlag::Recursive, MountFlag::Private],
                },
            )
            &&& succeeded(actions, outcomes, ActionView::DropCapability { set, capability })
            &&& succeeded(actions, outcomes, ActionView::AddRule(filter_rules()[rule]))
            &&& succeeded(actions, outcomes, ActionView::LoadFilter)
            &&& succeeded(actions, outcomes, ActionView::SetGroups(seq![uid]))
            &&& succeeded(
                actions,
                outcomes,
                ActionView::SetGroupIds { rgid: uid, egid: uid, sgid: uid },
            )
            &&& succeeded(
                actions,
                outcomes,
                ActionView::SetUserIds { ruid: uid, euid: uid, suid: uid },
            )
            &&& exists|new_root: Seq<char>, old_root: Seq<char>|
                #[trigger] root_replaced(config, actions, outcomes, new_root, old_root)
        }),
{
    let first = TaskView::Setup(config);
    law_command_runs_after_the_setup(config, outcomes);
    let r = choose|replies: RepliesView| #[trigger] gone_through(first, replies, outcomes);
    let steps = task_steps(first, r);
    let actions = performed(first, outcomes);
    let mounting = mounts_steps(config.mount_dir, r.new_root, r.old_root);
    let switching = userns_steps(config.uid, config.fd, r.unshared, r.received);
    let m = 1 + mounting.len() as int;
    let u = m + switching.len() as int;
    let c = u + capabilities_steps().len() as int;
    assert forall|i: int| 0 <= i < steps.len() implies (#[trigger] steps[i]) is Do && (
    steps[i]->complaint !is Ignored ==> succeeded(actions, outcomes, steps[i]->action)) by {
        lemma_counting_step_succeeded(steps, actions, outcomes, i);
    }
    assert forall|i: int| 0 <= i < steps.len() implies setup_part(config, r, i) by {
        lemma_setup_parts(config, r, i);
    }
    assert(r.received == 0) by {
        assert(setup_part(config, r, m + 4));
        assert(steps[m + 4] is Do);
    }
    assert(file_name(r.old_root) is Some) by {
        assert(setup_part(config, r, 12));
        assert(steps[12] is Do);
    }
    assert(steps[0]->action == ActionView::SetHostname(config.hostname));
    assert(setup_part(config, r, 2) && setup_part(config, r, 6) && setup_part(config, r, 10)
        && setup_part(config, r, 14));
    assert(steps[2] == mounting[1] && steps[6] == mounting[5] && steps[10] == mounting[9]
        && steps[14] == mounting[13]);
    assert(root_replaced(config, actions, outcomes, r.new_root, r.old_root));
    assert(setup_part(config, r, m + 6) && setup_part(config, r, m + 7) && setup_part(
        config,
        r,
        m + 8,
    ));
    assert(steps[m + 6] == switching[6] && steps[m + 7] == switching[7] && steps[m + 8]
        == switching[8]);
    law_each_capability_is_dropped_once(set, capability);
    let k = choose|k: int|
        0 <= k < capabilities_steps().len() && #[trigger] capabilities_steps()[k] == drop_step(
            set,
            capability,
        );
    assert(setup_part(config, r, u + k));
    assert(steps[u + k] == drop_step(set, capability));
    assert(setup_part(config, r, c + 2 + rule));
    assert(steps[c + 2 + rule] == syscalls_steps()[2 + rule]);
    let load = c + 2 + filter_rules().len() + 1;
    assert(setup_part(config, r, load));
    assert(steps[load] == syscalls_steps()[load - c]);
}

/// Whether the directory asked for was bound at `new_root` and made the root, with the root of the
/// host put at `old_root`, and the root of the host was then detached by the name that it had there.
pub open spec fn root_replaced(
    config: ChildConfigView,
    actions: Seq<ActionView>,
    outcomes: Seq<OutcomeView>,
    new_root: Seq<char>,
    old_root: Seq<char>,
) -> bool {
    &&& succeeded(
        actions,
        outcomes,
        ActionView::Mount {
            source: Some(config.mount_dir),
            target: new_root,
            flags: seq![MountFlag::Bind, MountFlag::Private],
        },
    )
    &&& succeeded(actions, outcomes, ActionView::PivotRoot { new_root, put_old: old_root })
    &&& file_name(old_root) matches Some(name)
    &&& succeeded(actions, outcomes, ActionView::DetachMount("/"@ + name))
}

/// The process becomes nothing but the command that was asked for, with its own arguments and an
/// empty environment, and closes its socket right before.
pub proof fn law_command_is_the_one_asked_for(
    config: ChildConfigView,
    outcomes: Seq<OutcomeView>,
)
    requires
        answered(TaskView::Setup(config), outcomes),
        pending_action(state_after(TaskView::Setup(config), outcomes)) is Some,
        pending_action(state_after(TaskView::Setup(config), outcomes))->0 is Execute,
    ensures
        pending_action(state_after(TaskView::Setup(config), outcomes))->0 == execution(config),
        performed(TaskView::Setup(config), outcomes).len() > 0,
        performed(TaskView::Setup(config), outcomes).last() == (ActionView::Close {
            fd: config.fd,
        }),
{
    let first = TaskView::Setup(config);
    lemma_child_phases(config, outcomes);
    law_progress(first, outcomes);
    if let RunView::Running { task, replies, at } = state_after(first, outcomes) {
        if task is Setup {
            lemma_setup_executes_nothing(config, replies, at);
        }
        let steps = task_steps(task, replies);
        assert(at == 1);
        assert(step_done(
            steps[0],
            performed(first, outcomes)[outcomes.len() - 1],
            outcomes[outcomes.len() - 1],
        ));
    }
}

/// How the child can end without having become the command: with -1. Where it reports 0, the
/// setup was gone through.
pub proof fn law_child_status(config: ChildConfigView, outcomes: Seq<OutcomeView>)
    requires
        answered(TaskView::Setup(config), outcomes),
        state_after(TaskView::Setup(config), outcomes) is Finished,
    ensures
        ({
            let first = TaskView::Setup(config);
            state_after(first, outcomes) == RunView::Finished(FinishView::Exit((-1) as i32)) || (
            state_after(first, outcomes) == RunView::Finished(FinishView::Exit(0)) && setup_done(
                config,
                outcomes,
            ))
        }),
{
    lemma_child_phases(config, outcomes);
}

/// Whether the last actions performed were those of `steps`, in order, and each let the procedure
/// go on.
pub open spec fn ended_with(
    steps: Seq<StepView>,
    actions: Seq<ActionView>,
    outcomes: Seq<OutcomeView>,
) -> bool {
    let n = outcomes.len() - steps.len();
    &&& n >= 0
    &&& actions.len() == outcomes.len()
    &&& forall|i: int|
        0 <= i < steps.len() ==> step_done(#[trigger] steps[i], actions[n + i], outcomes[n + i])
}

/// Whether the parent of `pid` has come to its end with `status`: last of all it waited for the
/// child and closed its socket, after killing the child where the mapping had failed.
pub open spec fn parent_ended(
    first: TaskView,
    outcomes: Seq<OutcomeView>,
    pid: i32,
    fd: i32,
    map_failure: Option<Seq<char>>,
    waited: ReplyView,
    status: i32,
) -> bool {
    &&& ended_with(reap_steps(pid, fd, map_failure, waited), performed(first, outcomes), outcomes)
    &&& status == exit_status_of(map_failure is Some, waited)
}

/// Whether the parent of `pid` has come to its end with `status`, one way or another.
pub open spec fn parent_is_done(
    first: TaskView,
    outcomes: Seq<OutcomeView>,
    pid: i32,
    fd: i32,
    status: i32,
) -> bool {
    exists|map_failure: Option<Seq<char>>, waited: ReplyView|
        #[trigger] parent_ended(first, outcomes, pid, fd, map_failure, waited, status)
}

proof fn lemma_reap_always_goes_on(
    pid: i32,
    fd: i32,
    map_failure: Option<Seq<char>>,
    waited: ReplyView,
    i: int,
)
    requires
        0 <= i < reap_steps(pid, fd, map_failure, waited).len(),
    ensures
        reap_steps(pid, fd, map_failure, waited)[i] is Do,
        reap_steps(pid, fd, map_failure, waited)[i]->complaint is Ignored,
{
}

/// What the parent of `pid` can be doing: mapping identifiers; ending, with a mapping that was gone
/// through or one that failed; or nothing more, having come to its end.
spec fn parent_phase(
    pid: i32,
    fd: i32,
    child_fd: i32,
    outcomes: Seq<OutcomeView>,
    run: RunView,
) -> bool {
    let first = TaskView::MapIds { pid, fd, child_fd };
    match run {
        RunView::Running { task, replies, at } => match task {
            TaskView::MapIds { .. } => task == first && at == outcomes.len(),
            TaskView::Reap { pid: p, fd: f, map_failure } => {
                &&& p == pid
                &&& f == fd
                &&& map_failure is None ==> exists|r: RepliesView|
                    #[trigger] gone_through(first, r, outcomes)
            },
            _ => false,
        },
        RunView::Finished(finish) => finish is Exit && parent_is_done(
            first,
            outcomes,
            pid,
            fd,
            finish->Exit_0,
        ),
    }
}

proof fn lemma_parent_phases(
    pid: i32,
    fd: i32,
    child_fd: i32,
    outcomes: Seq<OutcomeView>,
)
    requires
        answered(TaskView::MapIds { pid, fd, child_fd }, outcomes),
    ensures
        parent_phase(
            pid,
            fd,
            child_fd,
            outcomes,
            state_after(TaskView::MapIds { pid, fd, child_fd }, outcomes),
        ),
    decreases outcomes.len(),
{
    let first = TaskView::MapIds { pid, fd, child_fd };
    if outcomes.len() > 0 {
        let earlier = outcomes.drop_last();
        lemma_parent_phases(pid, fd, child_fd, earlier);
        if state_after(first, earlier)->task is MapIds {
            lemma_parent_in_mapping(pid, fd, child_fd, outcomes);
        } else {
            lemma_parent_in_reaping(pid, fd, child_fd, outcomes);
        }
    }
}

proof fn lemma_parent_in_mapping(
    pid: i32,
    fd: i32,
    child_fd: i32,
    outcomes: Seq<OutcomeView>,
)
    requires
        outcomes.len() > 0,
        answered(TaskView::MapIds { pid, fd, child_fd }, outcomes),
        ({
            let run = state_after(TaskView::MapIds { pid, fd, child_fd }, outcomes.drop_last());
            &&& run is Running
            &&& run->task is MapIds
            &&& parent_phase(pid, fd, child_fd, outcomes.drop_last(), run)
        }),
    ensures
        parent_phase(
            pid,
            fd,
            child_fd,
            outcomes,
            state_after(TaskView::MapIds { pid, fd, child_fd }, outcomes),
        ),
{
    let first = TaskView::MapIds { pid, fd, child_fd };
    let earlier = outcomes.drop_last();
    let last = outcomes.last();
    let replies = state_after(first, earlier)->replies;
    let at = state_after(first, earlier)->at;
    law_progress(first, earlier);
    law_what_is_done_stands(first, replies, at, last);
    let steps = task_steps(first, replies);
    let later = record(replies, steps[at]->action, last);
    if verdict(steps[at]->complaint, last) is Ok && at + 1 >= task_steps(first, later).len() {
        lemma_last_step(first, outcomes);
        assert(gone_through(first, later, outcomes));
    }
}

#[verifier::rlimit(40)]
proof fn lemma_parent_in_reaping(
    pid: i32,
    fd: i32,
    child_fd: i32,
    outcomes: Seq<OutcomeView>,
)
    requires
        outcomes.len() > 0,
        answered(TaskView::MapIds { pid, fd, child_fd }, outcomes),
        ({
            let run = state_after(TaskView::MapIds { pid, fd, child_fd }, outcomes.drop_last());
            &&& run is Running
            &&& run->task is Reap
            &&& parent_phase(pid, fd, child_fd, outcomes.drop_last(), run)
        }),
    ensures
        parent_phase(
            pid,
            fd,
            child_fd,
            outcomes,
            state_after(TaskView::MapIds { pid, fd, child_fd }, outcomes),
        ),
{
    let first = TaskView::MapIds { pid, fd, child_fd };
    let earlier = outcomes.drop_last();
    let last = outcomes.last();
    let task = state_after(first, earlier)->task;
    let replies = state_after(first, earlier)->replies;
    let at = state_after(first, earlier)->at;
    let map_failure = task->map_failure;
    law_progress(first, earlier);
    law_progress(first, outcomes);
    law_what_is_done_stands(task, replies, at, last);
    let steps = task_steps(task, replies);
    let later = record(replies, steps[at]->action, last);
    let now = task_steps(task, later);
    lemma_reap_always_goes_on(pid, fd, map_failure, replies.waited, at);
    if map_failure is None {
        let r = choose|r: RepliesView| #[trigger] gone_through(first, r, earlier);
        lemma_all_done_later(first, r, outcomes);
    }
    if at + 1 < now.len() {
        lemma_reap_always_goes_on(pid, fd, map_failure, later.waited, at + 1);
    } else {
        let n = outcomes.len() - now.len();
        assert forall|i: int| 0 <= i < now.len() implies step_done(
            #[trigger] now[i],
            performed(first, outcomes)[n + i],
            outcomes[n + i],
        ) by {
            assert(now[i] == steps[i]);
            if i < at {
                assert(step_done(steps[i], performed(first, earlier)[n + i], earlier[n + i]));
            }
        }
        let status = exit_status_of(map_failure is Some, later.waited);
        assert(parent_ended(first, outcomes, pid, fd, map_failure, later.waited, status));
        assert(parent_is_done(first, outcomes, pid, fd, status));
        assert(state_after(first, outcomes) == RunView::Finished(FinishView::Exit(status)));
    }
}

/// The parent always waits for the child before it ends, whatever else went wrong, and its exit
/// status is that of `exit_status_of`.
pub proof fn law_parent_waits_for_the_child(
    pid: i32,
    fd: i32,
    child_fd: i32,
    outcomes: Seq<OutcomeView>,
)
    requires
        answered(TaskView::MapIds { pid, fd, child_fd }, outcomes),
        state_after(TaskView::MapIds { pid, fd, child_fd }, outcomes) is Finished,
    ensures
        performed(TaskView::MapIds { pid, fd, child_fd }, outcomes).contains(
            ActionView::Wait { pid },
        ),
        ({
            let first = TaskView::MapIds { pid, fd, child_fd };
            let finish = state_after(first, outcomes)->Finished_0;
            finish is Exit && parent_is_done(first, outcomes, pid, fd, finish->Exit_0)
        }),
{
    let first = TaskView::MapIds { pid, fd, child_fd };
    lemma_parent_phases(pid, fd, child_fd, outcomes);
    let status = state_after(first, outcomes)->Finished_0->Exit_0;
    let (map_failure, waited) = choose|map_failure: Option<Seq<char>>, waited: ReplyView|
        #[trigger] parent_ended(first, outcomes, pid, fd, map_failure, waited, status);
    law_killed_only_after_a_failed_mapping(pid, fd, map_failure, waited);
    let steps = reap_steps(pid, fd, map_failure, waited);
    let i = steps.index_of(step_either_way(ActionView::Wait { pid }));
    let n = outcomes.len() - steps.len();
    assert(step_done(steps[i], performed(first, outcomes)[n + i], outcomes[n + i]));
    assert(performed(first, outcomes)[n + i] == ActionView::Wait { pid });
}

/// Waiting is among the last things that the parent does, and killing is, where and only where the
/// mapping failed.
pub proof fn law_killed_only_after_a_failed_mapping(
    pid: i32,
    fd: i32,
    map_failure: Option<Seq<char>>,
    waited: ReplyView,
)
    ensures
        reap_steps(pid, fd, map_failure, waited).contains(
            step_either_way(ActionView::Wait { pid }),
        ),
        reap_steps(pid, fd, map_failure, waited).contains(
            step_either_way(ActionView::Kill { pid }),
        ) <==> map_failure is Some,
{
    let steps = reap_steps(pid, fd, map_failure, waited);
    if map_failure is Some {
        assert(steps[1] == step_either_way(ActionView::Kill { pid }));
        assert(steps[2] == step_either_way(ActionView::Wait { pid }));
    } else {
        assert(steps[0] == step_either_way(ActionView::Wait { pid }));
    }
}

/// Whether a step fails with the cause alone, or goes on either way.
spec fn fails_plainly(step: StepView) -> bool {
    step matches StepView::Do { complaint, .. } && (complaint == ComplaintView::Cause(""@)
        || complaint is Ignored)
}

proof fn lemma_settings_fail_plainly(dir: Seq<char>, settings: Seq<SettingView>)
    ensures
        forall|i: int|
            0 <= i < settings_steps(dir, settings).len() ==> fails_plainly(
                #[trigger] settings_steps(dir, settings)[i],
            ),
        settings_steps(dir, settings).len() == 2 * settings.len(),
    decreases settings.len(),
{
    if settings.len() > 0 {
        lemma_settings_fail_plainly(dir, settings.drop_last());
    }
}

proof fn lemma_groups_fail_plainly(controls: Seq<ControlView>, hostname: Seq<char>, most: nat)
    requires
        forall|i: int| 0 <= i < controls.len() ==> (#[trigger] controls[i]).settings.len() <= most,
    ensures
        forall|i: int|
            0 <= i < groups_made_steps(controls, hostname).len() ==> fails_plainly(
                #[trigger] groups_made_steps(controls, hostname)[i],
            ),
        groups_made_steps(controls, hostname).len() <= controls.len() * (1 + 2 * most),
        forall|i: int|
            0 <= i < groups_removed_steps(controls, hostname).len() ==> fails_plainly(
                #[trigger] groups_removed_steps(controls, hostname)[i],
            ),
        groups_removed_steps(controls, hostname).len() == 3 * controls.len(),
    decreases controls.len(),
{
    if controls.len() > 0 {
        let others = controls.drop_last();
        assert forall|i: int| 0 <= i < others.len() implies (
        #[trigger] others[i]).settings.len() <= most by {
            assert(others[i] == controls[i]);
        }
        lemma_groups_fail_plainly(others, hostname, most);
        let last = controls.last();
        assert(last == controls[controls.len() - 1]);
        lemma_settings_fail_plainly(group_dir(last.control, hostname), last.settings);
        assert(controls.len() * (1 + 2 * most) == others.len() * (1 + 2 * most) + (1 + 2 * most))
            by (nonlinear_arith)
            requires
                controls.len() == others.len() + 1,
        ;
    }
}

proof fn lemma_resources_fail_plainly(hostname: Seq<char>)
    ensures
        forall|i: int|
            0 <= i < set_resources_steps(hostname).len() ==> fails_plainly(
                #[trigger] set_resources_steps(hostname)[i],
            ),
        set_resources_steps(hostname).len() <= 29,
        forall|i: int|
            0 <= i < free_resources_steps(hostname).len() ==> fails_plainly(
                #[trigger] free_resources_steps(hostname)[i],
            ),
        free_resources_steps(hostname).len() == 12,
{
    let groups = control_groups();
    assert(groups.len() == 4);
    lemma_groups_fail_plainly(groups, hostname, 3);
    assert(groups.len() * (1 + 2 * 3nat) == 28) by (nonlinear_arith)
        requires
            groups.len() == 4,
    ;
}

/// Setting or freeing the resources is complete only where every step was gone through, and the
/// error that it fails with is the cause of the failure of the last action performed.
pub proof fn law_resources_end(task: TaskView, outcomes: Seq<OutcomeView>)
    requires
        task is SetResources || task is FreeResources,
        answered(task, outcomes),
    ensures
        match state_after(task, outcomes) {
            RunView::Running { task: t, at, .. } => t == task && at == outcomes.len(),
            RunView::Finished(FinishView::Complete) => exists|r: RepliesView|
                #[trigger] gone_through(task, r, outcomes),
            RunView::Finished(FinishView::Error(text)) => outcomes.len() > 0 && outcomes.last()
                == OutcomeView::Failed(text),
            RunView::Finished(FinishView::Exit(_)) => false,
        },
    decreases outcomes.len(),
{
    if outcomes.len() > 0 {
        let earlier = outcomes.drop_last();
        let last = outcomes.last();
        law_resources_end(task, earlier);
        law_progress(task, earlier);
        if let RunView::Running { replies, at, .. } = state_after(task, earlier) {
            let steps = task_steps(task, replies);
            let action = steps[at]->action;
            let later = record(replies, action, last);
            assert(task_steps(task, later) == steps);
            match task {
                TaskView::SetResources { hostname } => {
                    lemma_resources_fail_plainly(hostname);
                },
                TaskView::FreeResources { hostname } => {
                    lemma_resources_fail_plainly(hostname);
                },
                _ => {},
            }
            assert(fails_plainly(steps[at]));
            assert(at + 1 < steps.len() ==> fails_plainly(steps[at + 1]));
            if verdict(steps[at]->complaint, last) is Ok {
                if at + 1 >= steps.len() {
                    lemma_last_step(task, outcomes);
                    assert(gone_through(task, later, outcomes));
                }
            } else {
                reveal_strlit("");
                assert(""@ + last->Failed_0 =~= last->Failed_0);
            }
        }
    }
}

/// How many procedures can still come after `task`.
spec fn procedures_left(task: TaskView) -> nat {
    match task {
        TaskView::Setup(_) => 2,
        TaskView::Launch(_) | TaskView::MapIds { .. } => 1,
        _ => 0,
    }
}

/// A bound on the actions that a run can still ask for.
spec fn actions_left(run: RunView) -> int {
    match run {
        RunView::Running { task, at, .. } => procedures_left(task) * 100 + 100 - at,
        RunView::Finished(_) => 0,
    }
}

proof fn lemma_procedures_are_short(task: TaskView, replies: RepliesView)
    ensures
        task_steps(task, replies).len() <= 100,
{
    match task {
        TaskView::SetResources { hostname } => {
            lemma_resources_fail_plainly(hostname);
        },
        TaskView::FreeResources { hostname } => {
            lemma_resources_fail_plainly(hostname);
        },
        TaskView::Setup(config) => {
            lemma_setup_parts(config, replies, 0);
        },
        _ => {},
    }
}

proof fn lemma_actions_run_out(first: TaskView, outcomes: Seq<OutcomeView>)
    requires
        answered(first, outcomes),
    ensures
        outcomes.len() + actions_left(state_after(first, outcomes)) <= actions_left(
            beginning(first),
        ),
        actions_left(state_after(first, outcomes)) >= 0,
    decreases outcomes.len(),
{
    if outcomes.len() > 0 {
        let earlier = outcomes.drop_last();
        lemma_actions_run_out(first, earlier);
        law_progress(first, earlier);
        if let RunView::Running { task, replies, at } = state_after(first, earlier) {
            lemma_procedures_are_short(task, replies);
        }
    }
    law_progress(first, outcomes);
    if let RunView::Running { task, replies, at } = state_after(first, outcomes) {
        lemma_procedures_are_short(task, replies);
    }
}

/// Every run comes to its end: it asks for no more than 300 actions.
pub proof fn law_runs_end(first: TaskView, outcomes: Seq<OutcomeView>)
    requires
        answered(first, outcomes),
    ensures
        outcomes.len() <= 300,
        outcomes.len() == 300 ==> state_after(first, outcomes) is Finished,
{
    lemma_actions_run_out(first, outcomes);
    law_progress(first, outcomes);
    if let RunView::Running { task, replies, at } = state_after(first, outcomes) {
        lemma_procedures_are_short(task, replies);
    }
}

} // verus!
