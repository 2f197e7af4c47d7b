//! What each run does, action by action, given what came of the actions before.

use vstd::prelude::*;
use crate::action::{
    ActionView, ComplaintView, Ending, MountFlag, OutcomeView, StepView, TempDir, answers, verdict,
};
use crate::capabilities::{
    CapSet, capabilities_steps, dropped, law_order_of_the_drops,
};
use crate::child::{
    ChildConfigView, law_after_the_setup, law_setup_has_five_parts, setup_steps,
};
use crate::laws::{answered, law_progress, performed, state_after};
use crate::mounts::{law_mount_dance, mounts_steps};
use crate::parent::{
    ReplyView, exit_status_of, law_exit_status_of_each_end, law_parent_steps, map_ids_steps,
    reap_steps,
};
use crate::path::file_name;
use crate::resources::{
    free_resources_steps, law_resources_that_are_freed, law_resources_that_are_set,
    set_resources_steps,
};
use crate::run::{
    FinishView, RepliesView, RunView, TaskView, beginning, no_replies, pending_action,
    record, task_steps,
};
use crate::syscalls::{filter_rules, law_filter_is_built};
use crate::text::decimal;
use crate::userns::{
    law_child_takes_on_its_user, law_parent_maps_the_child, uid_map_steps, userns_steps,
};

verus! {

/// The actions whose failure is of no consequence for the procedure that they belong to.
pub open spec fn may_fail(action: ActionView) -> bool {
    match action {
        ActionView::Print(_) => true,
        ActionView::UnshareUser => true,
        ActionView::Close { .. } => true,
        ActionView::Kill { .. } => true,
        ActionView::Wait { .. } => true,
        ActionView::LimitOpenFiles { .. } => true,
        _ => false,
    }
}

/// Whether the action `i` of a run failed, and its failure counts.
pub open spec fn harmed_at(task: TaskView, outcomes: Seq<OutcomeView>, i: int) -> bool {
    outcomes[i] is Failed && !may_fail(performed(task, outcomes)[i])
}

/// Whether `outcomes` are the answers that a run got, and no failure among them counts.
pub open spec fn unharmed(task: TaskView, outcomes: Seq<OutcomeView>) -> bool {
    &&& answered(task, outcomes)
    &&& forall|i: int| 0 <= i < outcomes.len() ==> !#[trigger] harmed_at(task, outcomes, i)
}

/// What was done stays done: a run that goes on has the same beginning.
proof fn lemma_beginning_of_a_run(task: TaskView, outcomes: Seq<OutcomeView>, n: int)
    requires
        answered(task, outcomes),
        0 <= n <= outcomes.len(),
    ensures
        answered(task, outcomes.take(n)),
        performed(task, outcomes.take(n)) == performed(task, outcomes).take(n),
        performed(task, outcomes).len() == outcomes.len(),
        n < outcomes.len() ==> {
            &&& pending_action(state_after(task, outcomes.take(n))) == Some(
                performed(task, outcomes)[n],
            )
            &&& answers(performed(task, outcomes)[n], outcomes[n])
        },
    decreases outcomes.len(),
{
    law_progress(task, outcomes);
    if n == outcomes.len() {
        assert(outcomes.take(n) =~= outcomes);
        assert(performed(task, outcomes).take(n) =~= performed(task, outcomes));
    } else {
        let earlier = outcomes.drop_last();
        lemma_beginning_of_a_run(task, earlier, n);
        assert(earlier.take(n) =~= outcomes.take(n));
        assert(performed(task, outcomes).take(n) =~= performed(task, earlier).take(n));
        if n == earlier.len() {
            assert(outcomes.take(n) =~= earlier);
        }
    }
}

proof fn lemma_unharmed_beginning(task: TaskView, outcomes: Seq<OutcomeView>, n: int)
    requires
        unharmed(task, outcomes),
        0 <= n <= outcomes.len(),
    ensures
        unharmed(task, outcomes.take(n)),
{
    lemma_beginning_of_a_run(task, outcomes, n);
    assert forall|i: int| 0 <= i < n implies !#[trigger] harmed_at(task, outcomes.take(n), i) by {
        assert(!harmed_at(task, outcomes, i));
    }
}

/// Where some failure counts, there is a first one.
proof fn lemma_first_harm(task: TaskView, outcomes: Seq<OutcomeView>) -> (n: int)
    requires
        answered(task, outcomes),
        !unharmed(task, outcomes),
    ensures
        0 <= n < outcomes.len(),
        unharmed(task, outcomes.take(n)),
        harmed_at(task, outcomes, n),
    decreases outcomes.len(),
{
    let last = outcomes.len() - 1;
    let earlier = outcomes.drop_last();
    assert(earlier =~= outcomes.take(last));
    lemma_beginning_of_a_run(task, outcomes, last);
    if unharmed(task, earlier) {
        assert(harmed_at(task, outcomes, last)) by {
            let i = choose|i: int| 0 <= i < outcomes.len() && harmed_at(task, outcomes, i);
            if i < last {
                assert(harmed_at(task, earlier, i));
            }
        }
        last
    } else {
        let n = lemma_first_harm(task, earlier);
        assert(earlier.take(n) =~= outcomes.take(n));
        n
    }
}

/// The answers that the setup goes by, after `outcomes`.
spec fn setup_replies(outcomes: Seq<OutcomeView>) -> RepliesView {
    RepliesView {
        new_root: if outcomes.len() > 5 {
            outcomes[5]->Path_0
        } else {
            Seq::empty()
        },
        old_root: if outcomes.len() > 7 {
            outcomes[7]->Path_0
        } else {
            Seq::empty()
        },
        unshared: outcomes.len() > 18 && outcomes[18] is Done,
        received: if outcomes.len() > 20 {
            outcomes[20]->Int_0
        } else {
            0
        },
        waited: ReplyView::Ended(Ending::Otherwise),
    }
}

/// Whether the step is one that prints.
spec fn prints(step: StepView, text: Seq<char>) -> bool {
    step == (StepView::Do { action: ActionView::Print(text), complaint: ComplaintView::Ignored })
}

/// Whether the step does `action`, and its failure gives `text` and the cause.
spec fn does(step: StepView, action: ActionView, text: Seq<char>) -> bool {
    step == (StepView::Do { action, complaint: ComplaintView::Cause(text) })
}

/// Whether the step does `action`, and its failure gives `text`.
spec fn does_or(step: StepView, action: ActionView, text: Seq<char>) -> bool {
    step == (StepView::Do { action, complaint: ComplaintView::Text(text) })
}

/// The first part of the setup, up to the pivot.
spec fn is_pivot_step(config: ChildConfigView, r: RepliesView, i: int, step: StepView) -> bool {
    &&& i == 0 ==> does(step, ActionView::SetHostname(config.hostname), ""@)
    &&& i == 1 ==> prints(step, "=> remounting everything with MS_PRIVATE..."@)
    &&& i == 2 ==> does(
        step,
        ActionView::Mount {
            source: None,
            target: "/"@,
            flags: seq![MountFlag::Recursive, MountFlag::Private],
        },
        "failed! "@,
    )
    &&& i == 3 ==> prints(step, "remounted.\n"@)
    &&& i == 4 ==> prints(step, "=> making a temp directory and a bind mount there..."@)
    &&& i == 5 ==> does(
        step,
        ActionView::MakeTempDir { purpose: TempDir::NewRoot, template: "/tmp/tmp.XXXXXX"@ },
        "mkdtemp failed: "@,
    )
    &&& i == 6 ==> does_or(
        step,
        ActionView::Mount {
            source: Some(config.mount_dir),
            target: r.new_root,
            flags: seq![MountFlag::Bind, MountFlag::Private],
        },
        "bind mount failed!"@,
    )
    &&& i == 7 ==> does(
        step,
        ActionView::MakeTempDir {
            purpose: TempDir::OldRoot,
            template: r.new_root + "/oldroot.XXXXXX"@,
        },
        "mkdtemp failed: "@,
    )
    &&& i == 8 ==> prints(step, "done.\n"@)
    &&& i == 9 ==> prints(step, "=> pivoting root..."@)
    &&& i == 10 ==> does_or(
        step,
        ActionView::PivotRoot { new_root: r.new_root, put_old: r.old_root },
        "failed!"@,
    )
    &&& i == 11 ==> prints(step, "done.\n"@)
}

/// The second part of the setup, up to the answer of the parent.
spec fn is_request_step(config: ChildConfigView, r: RepliesView, i: int, step: StepView) -> bool {
    let place = "/"@ + file_name(r.old_root)->0;
    &&& i == 12 ==> prints(step, "=> unmounting "@ + place + "..."@)
    &&& i == 13 ==> does(step, ActionView::ChangeDir("/"@), "chdir failed! "@)
    &&& i == 14 ==> does(step, ActionView::DetachMount(place), "umount failed! "@)
    &&& i == 15 ==> does(step, ActionView::RemoveDir(place), "rmdir failed! "@)
    &&& i == 16 ==> prints(step, "done.\n"@)
    &&& i == 17 ==> prints(step, "=> trying a user namespace..."@)
    &&& i == 18 ==> step == (StepView::Do {
        action: ActionView::UnshareUser,
        complaint: ComplaintView::Ignored,
    })
    &&& i == 19 ==> does(
        step,
        ActionView::SendInt {
            fd: config.fd,
            value: if r.unshared {
                1
            } else {
                0
            },
        },
        ""@,
    )
    &&& i == 20 ==> does(step, ActionView::ReceiveInt { fd: config.fd }, ""@)
}

/// The third part of the setup, to its end.
spec fn is_confining_step(config: ChildConfigView, r: RepliesView, i: int, step: StepView) -> bool {
    let uid = config.uid;
    let id = decimal(uid as nat);
    &&& i == 21 && r.unshared ==> prints(step, "done.\n"@)
    &&& i == 21 && !r.unshared ==> prints(step, "unsupported? continuing.\n"@)
    &&& i == 22 ==> prints(step, "=> switching to uid "@ + id + " / gid "@ + id + "..."@)
    &&& i == 23 ==> does(step, ActionView::SetGroups(seq![uid]), ""@)
    &&& i == 24 ==> does(step, ActionView::SetGroupIds { rgid: uid, egid: uid, sgid: uid }, ""@)
    &&& i == 25 ==> does(step, ActionView::SetUserIds { ruid: uid, euid: uid, suid: uid }, ""@)
    &&& i == 26 ==> prints(step, "done.\n"@)
    &&& i == 27 ==> prints(step, "=> dropping capabilities..."@)
    &&& i == 28 ==> prints(step, "bounding..."@)
    &&& 29 <= i < 49 ==> does(
        step,
        ActionView::DropCapability { set: CapSet::Bounding, capability: dropped()[i - 29] },
        "prctl failed: "@,
    )
    &&& i == 49 ==> prints(step, "inheritable..."@)
    &&& 50 <= i < 70 ==> does(
        step,
        ActionView::DropCapability { set: CapSet::Inheritable, capability: dropped()[i - 50] },
        "failed: "@,
    )
    &&& i == 70 ==> prints(step, "done.\n"@)
    &&& i == 71 ==> prints(step, "=> filtering syscalls..."@)
    &&& i == 72 ==> does(step, ActionView::NewFilter, ""@)
    &&& 73 <= i < 95 ==> does(step, ActionView::AddRule(filter_rules()[i - 73]), ""@)
    &&& i == 95 ==> does(step, ActionView::ControlNoNewPrivileges(false), ""@)
    &&& i == 96 ==> does(step, ActionView::LoadFilter, ""@)
    &&& i == 97 ==> prints(step, "done.\n"@)
}

spec fn is_setup_step(config: ChildConfigView, r: RepliesView, i: int, step: StepView) -> bool {
    &&& step is Do
    &&& step->complaint is Ignored <==> may_fail(step->action)
    &&& is_pivot_step(config, r, i, step)
    &&& is_request_step(config, r, i, step)
    &&& is_confining_step(config, r, i, step)
}

proof fn lemma_setup_step(config: ChildConfigView, r: RepliesView, i: int)
    requires
        0 <= i < 98,
        i >= 12 ==> file_name(r.old_root) is Some,
        i >= 21 ==> r.received == 0,
    ensures
        i < task_steps(TaskView::Setup(config), r).len(),
        is_setup_step(config, r, i, task_steps(TaskView::Setup(config), r)[i]),
{
    let steps = setup_steps(config, r.new_root, r.old_root, r.unshared, r.received);
    let mounting = mounts_steps(config.mount_dir, r.new_root, r.old_root);
    let switching = userns_steps(config.uid, config.fd, r.unshared, r.received);
    law_setup_has_five_parts(config, r.new_root, r.old_root, r.unshared, r.received);
    law_mount_dance(config.mount_dir, r.new_root, r.old_root);
    law_child_takes_on_its_user(config.uid, config.fd, r.unshared, r.received);
    law_order_of_the_drops(CapSet::Bounding);
    law_filter_is_built(0);
    let m = 1 + mounting.len() as int;
    let u = m + switching.len() as int;
    let c = u + capabilities_steps().len() as int;
    if 1 <= i < 12 || 12 <= i < 17 {
        assert(steps[i] == steps.subrange(1, m)[i - 1]);
    } else if 17 <= i < 27 {
        assert(steps[i] == steps.subrange(m, u)[i - m]);
    } else if 27 <= i < 71 {
        assert(steps[i] == steps.subrange(u, c)[i - u]);
    } else if 71 <= i {
        assert(steps[i] == steps.skip(c)[i - c]);
        if 73 <= i < 95 {
            law_filter_is_built(i - 73);
        }
    }
}

/// Where the whole setup is known, it has 98 steps.
proof fn lemma_setup_length(config: ChildConfigView, r: RepliesView)
    requires
        file_name(r.old_root) is Some,
        r.received == 0,
    ensures
        task_steps(TaskView::Setup(config), r).len() == 98,
{
    law_setup_has_five_parts(config, r.new_root, r.old_root, r.unshared, r.received);
    law_mount_dance(config.mount_dir, r.new_root, r.old_root);
    law_child_takes_on_its_user(config.uid, config.fd, r.unshared, r.received);
    law_order_of_the_drops(CapSet::Bounding);
    law_filter_is_built(0);
}

/// Whether the directory for the old root has a name, once it is made, and the parent lets the child
/// go on, once it has answered.
pub open spec fn nothing_amiss(outcomes: Seq<OutcomeView>) -> bool {
    &&& outcomes.len() >= 12 ==> file_name(outcomes[7]->Path_0) is Some
    &&& outcomes.len() >= 21 ==> outcomes[20] == OutcomeView::Int(0)
}

/// Where a child is that nothing has harmed.
spec fn child_at(config: ChildConfigView, outcomes: Seq<OutcomeView>) -> RunView {
    let n = outcomes.len() as int;
    if n < 98 {
        RunView::Running { task: TaskView::Setup(config), replies: setup_replies(outcomes), at: n }
    } else if n < 100 {
        RunView::Running { task: TaskView::Launch(config), replies: no_replies(), at: n - 98 }
    } else {
        RunView::Finished(FinishView::Exit(0))
    }
}

#[verifier::rlimit(40)]
proof fn lemma_unharmed_child(config: ChildConfigView, outcomes: Seq<OutcomeView>)
    requires
        unharmed(TaskView::Setup(config), outcomes),
        nothing_amiss(outcomes),
    ensures
        outcomes.len() <= 100,
        state_after(TaskView::Setup(config), outcomes) == child_at(config, outcomes),
    decreases outcomes.len(),
{
    let first = TaskView::Setup(config);
    if outcomes.len() > 0 {
        let earlier = outcomes.drop_last();
        let last = outcomes.last();
        let n = earlier.len() as int;
        assert(earlier =~= outcomes.take(n));
        lemma_unharmed_beginning(first, outcomes, n);
        lemma_beginning_of_a_run(first, outcomes, n);
        assert(!harmed_at(first, outcomes, n));
        lemma_unharmed_child(config, earlier);
        let action = performed(first, outcomes)[n];
        law_after_the_setup(config, config.fd, ""@);
        if n < 98 {
            let r = setup_replies(earlier);
            lemma_setup_step(config, r, n);
            let later = record(r, action, last);
            assert(later == setup_replies(outcomes));
            if n < 97 {
                lemma_setup_step(config, later, n + 1);
            } else {
                lemma_setup_length(config, later);
            }
        }
    }
}

/// What the child does, action by action, as long as no failure counts. The directory asked for is
/// bound at the path that the first request for a directory came to; the second such path is asked for
/// inside the first; the pivot is to the first and puts the old root at the second; and what is
/// detached and removed is the last component of the second. The parent hears 1 where the child has a
/// user namespace, and 0 where it has none. The child takes on its user, drops every capability from
/// both sets, loads every rule, closes its socket, and becomes the command.
pub proof fn law_what_the_child_does(config: ChildConfigView, outcomes: Seq<OutcomeView>, i: int)
    requires
        unharmed(TaskView::Setup(config), outcomes),
        nothing_amiss(outcomes),
        0 <= i < outcomes.len(),
    ensures
        ({
            let action = performed(TaskView::Setup(config), outcomes)[i];
            let new_root = outcomes[5]->Path_0;
            let old_root = outcomes[7]->Path_0;
            let place = "/"@ + file_name(old_root)->0;
            let uid = config.uid;
            let id = decimal(uid as nat);
            &&& i < 100
            &&& i == 0 ==> action == ActionView::SetHostname(config.hostname)
            &&& i == 1 ==> action == ActionView::Print(
                "=> remounting everything with MS_PRIVATE..."@,
            )
            &&& i == 2 ==> action == (ActionView::Mount {
                source: None,
                target: "/"@,
                flags: seq![MountFlag::Recursive, MountFlag::Private],
            })
            &&& i == 3 ==> action == ActionView::Print("remounted.\n"@)
            &&& i == 4 ==> action == ActionView::Print(
                "=> making a temp directory and a bind mount there..."@,
            )
            &&& i == 5 ==> action == (ActionView::MakeTempDir {
                purpose: TempDir::NewRoot,
                template: "/tmp/tmp.XXXXXX"@,
            })
            &&& i > 5 ==> outcomes[5] is Path
            &&& i == 6 ==> action == (ActionView::Mount {
                source: Some(config.mount_dir),
                target: new_root,
                flags: seq![MountFlag::Bind, MountFlag::Private],
            })
            &&& i == 7 ==> action == (ActionView::MakeTempDir {
                purpose: TempDir::OldRoot,
                template: new_root + "/oldroot.XXXXXX"@,
            })
            &&& i > 7 ==> outcomes[7] is Path
            &&& i == 8 ==> action == ActionView::Print("done.\n"@)
            &&& i == 9 ==> action == ActionView::Print("=> pivoting root..."@)
            &&& i == 10 ==> action == (ActionView::PivotRoot { new_root, put_old: old_root })
            &&& i == 11 ==> action == ActionView::Print("done.\n"@)
            &&& i == 12 ==> action == ActionView::Print("=> unmounting "@ + place + "..."@)
            &&& i == 13 ==> action == ActionView::ChangeDir("/"@)
            &&& i == 14 ==> action == ActionView::DetachMount(place)
            &&& i == 15 ==> action == ActionView::RemoveDir(place)
            &&& i == 16 ==> action == ActionView::Print("done.\n"@)
            &&& i == 17 ==> action == ActionView::Print("=> trying a user namespace..."@)
            &&& i == 18 ==> action == ActionView::UnshareUser
            &&& i == 19 && outcomes[18] is Done ==> action == (ActionView::SendInt {
                fd: config.fd,
                value: 1,
            })
            &&& i == 19 && outcomes[18] is Failed ==> action == (ActionView::SendInt {
                fd: config.fd,
                value: 0,
            })
            &&& i == 20 ==> action == (ActionView::ReceiveInt { fd: config.fd })
            &&& i == 21 && outcomes[18] is Done ==> action == ActionView::Print("done.\n"@)
            &&& i == 21 && outcomes[18] is Failed ==> action == ActionView::Print(
                "unsupported? continuing.\n"@,
            )
            &&& i > 18 ==> outcomes[18] is Done || outcomes[18] is Failed
            &&& i == 22 ==> action == ActionView::Print(
                "=> switching to uid "@ + id + " / gid "@ + id + "..."@,
            )
            &&& i == 23 ==> action == ActionView::SetGroups(seq![uid])
            &&& i == 24 ==> action == (ActionView::SetGroupIds { rgid: uid, egid: uid, sgid: uid })
            &&& i == 25 ==> action == (ActionView::SetUserIds { ruid: uid, euid: uid, suid: uid })
            &&& i == 26 ==> action == ActionView::Print("done.\n"@)
            &&& i == 27 ==> action == ActionView::Print("=> dropping capabilities..."@)
            &&& i == 28 ==> action == ActionView::Print("bounding..."@)
            &&& 29 <= i < 49 ==> action == (ActionView::DropCapability {
                set: CapSet::Bounding,
                capability: dropped()[i - 29],
            })
            &&& i == 49 ==> action == ActionView::Print("inheritable..."@)
            &&& 50 <= i < 70 ==> action == (ActionView::DropCapability {
                set: CapSet::Inheritable,
                capability: dropped()[i - 50],
            })
            &&& i == 70 ==> action == ActionView::Print("done.\n"@)
            &&& i == 71 ==> action == ActionView::Print("=> filtering syscalls..."@)
            &&& i == 72 ==> action == ActionView::NewFilter
            &&& 73 <= i < 95 ==> action == ActionView::AddRule(filter_rules()[i - 73])
            &&& i == 95 ==> action == ActionView::ControlNoNewPrivileges(false)
            &&& i == 96 ==> action == ActionView::LoadFilter
            &&& i == 97 ==> action == ActionView::Print("done.\n"@)
            &&& i == 98 ==> action == (ActionView::Close { fd: config.fd })
            &&& i == 99 ==> action == (ActionView::Execute {
                program: config.argv[0],
                argv: config.argv,
                environment: Seq::empty(),
            })
        }),
{
    let first = TaskView::Setup(config);
    let before = outcomes.take(i);
    lemma_beginning_of_a_run(first, outcomes, i);
    lemma_unharmed_beginning(first, outcomes, i);
    lemma_unharmed_child(config, before);
    lemma_unharmed_child(config, outcomes);
    law_after_the_setup(config, config.fd, ""@);
    if i < 98 {
        lemma_setup_step(config, setup_replies(before), i);
    }
    if i > 5 {
        lemma_beginning_of_a_run(first, outcomes, 5);
        lemma_setup_step(config, setup_replies(outcomes.take(5)), 5);
        lemma_unharmed_beginning(first, outcomes, 5);
        lemma_unharmed_child(config, outcomes.take(5));
        assert(!harmed_at(first, outcomes, 5));
    }
    if i > 7 {
        lemma_beginning_of_a_run(first, outcomes, 7);
        lemma_setup_step(config, setup_replies(outcomes.take(7)), 7);
        lemma_unharmed_beginning(first, outcomes, 7);
        lemma_unharmed_child(config, outcomes.take(7));
        assert(!harmed_at(first, outcomes, 7));
    }
    if i > 18 {
        lemma_beginning_of_a_run(first, outcomes, 18);
        lemma_setup_step(config, setup_replies(outcomes.take(18)), 18);
        lemma_unharmed_beginning(first, outcomes, 18);
        lemma_unharmed_child(config, outcomes.take(18));
    }
}

/// When the child is at its end without having been harmed: right behind the command, with 0.
pub proof fn law_unharmed_child_ends(config: ChildConfigView, outcomes: Seq<OutcomeView>)
    requires
        unharmed(TaskView::Setup(config), outcomes),
        nothing_amiss(outcomes),
    ensures
        outcomes.len() < 100 ==> state_after(TaskView::Setup(config), outcomes) is Running,
        outcomes.len() == 100 ==> state_after(TaskView::Setup(config), outcomes)
            == RunView::Finished(FinishView::Exit(0)),
        outcomes.len() <= 100,
{
    lemma_unharmed_child(config, outcomes);
}

/// The two actions after a setup that failed, and the end.
proof fn lemma_after_a_failed_setup(
    config: ChildConfigView,
    before: Seq<OutcomeView>,
    message: Seq<char>,
    o1: OutcomeView,
    o2: OutcomeView,
)
    requires
        state_after(TaskView::Setup(config), before) == beginning(
            TaskView::SetupFailed { fd: config.fd, message },
        ),
        answered(TaskView::Setup(config), before.push(o1).push(o2)),
    ensures
        ({
            let first = TaskView::Setup(config);
            let outcomes = before.push(o1).push(o2);
            let n = before.len() as int;
            &&& performed(first, outcomes)[n] == ActionView::Print(
                "child setup failed: "@ + message + "\n"@,
            )
            &&& performed(first, outcomes)[n + 1] == (ActionView::Close { fd: config.fd })
            &&& performed(first, outcomes).len() == n + 2
            &&& state_after(first, outcomes) == RunView::Finished(FinishView::Exit((-1) as i32))
        }),
{
    let first = TaskView::Setup(config);
    let one = before.push(o1);
    let two = one.push(o2);
    law_after_the_setup(config, config.fd, message);
    assert(one.drop_last() =~= before);
    assert(two.drop_last() =~= one);
    lemma_beginning_of_a_run(first, two, before.len() as int);
    lemma_beginning_of_a_run(first, two, before.len() as int + 1);
    assert(two.take(before.len() as int) =~= before);
    assert(two.take(before.len() as int + 1) =~= one);
}

/// What becomes of a setup in which an action fails: a line that says which, by its own message and
/// cause; the socket is closed; and the child ends with -1.
pub proof fn law_failed_setup(
    config: ChildConfigView,
    before: Seq<OutcomeView>,
    cause: Seq<char>,
    o1: OutcomeView,
    o2: OutcomeView,
)
    requires
        ({
            let first = TaskView::Setup(config);
            let failed = OutcomeView::Failed(cause);
            &&& unharmed(first, before)
            &&& nothing_amiss(before)
            &&& before.len() < 98
            &&& answered(first, before.push(failed).push(o1).push(o2))
            &&& harmed_at(first, before.push(failed), before.len() as int)
        }),
    ensures
        ({
            let first = TaskView::Setup(config);
            let outcomes = before.push(OutcomeView::Failed(cause)).push(o1).push(o2);
            let n = before.len() as int;
            let message = if n == 2 {
                "failed! "@ + cause
            } else if n == 5 || n == 7 {
                "mkdtemp failed: "@ + cause
            } else if n == 6 {
                "bind mount failed!"@
            } else if n == 10 {
                "failed!"@
            } else if n == 13 {
                "chdir failed! "@ + cause
            } else if n == 14 {
                "umount failed! "@ + cause
            } else if n == 15 {
                "rmdir failed! "@ + cause
            } else if 29 <= n < 49 {
                "prctl failed: "@ + cause
            } else if 50 <= n < 70 {
                "failed: "@ + cause
            } else {
                cause
            };
            &&& performed(first, outcomes)[n + 1] == ActionView::Print(
                "child setup failed: "@ + message + "\n"@,
            )
            &&& performed(first, outcomes)[n + 2] == (ActionView::Close { fd: config.fd })
            &&& performed(first, outcomes).len() == n + 3
            &&& state_after(first, outcomes) == RunView::Finished(FinishView::Exit((-1) as i32))
        }),
{
    let first = TaskView::Setup(config);
    let n = before.len() as int;
    let failed = before.push(OutcomeView::Failed(cause));
    let outcomes = failed.push(o1).push(o2);
    assert(outcomes.take(n) =~= before);
    assert(outcomes.take(n + 1) =~= failed);
    assert(failed.drop_last() =~= before);
    lemma_beginning_of_a_run(first, outcomes, n);
    lemma_beginning_of_a_run(first, outcomes, n + 1);
    lemma_unharmed_child(config, before);
    lemma_setup_step(config, setup_replies(before), n);
    reveal_strlit("");
    assert(""@ + cause =~= cause);
    let step = task_steps(first, setup_replies(before))[n];
    let message = verdict(step->complaint, OutcomeView::Failed(cause))->Err_0;
    assert(state_after(first, failed) == beginning(
        TaskView::SetupFailed { fd: config.fd, message },
    ));
    lemma_after_a_failed_setup(config, failed, message, o1, o2);
}

/// What becomes of a setup in which the directory for the old root has no name, or the parent does not
/// let the child go on.
pub proof fn law_setup_amiss(
    config: ChildConfigView,
    outcomes: Seq<OutcomeView>,
    o1: OutcomeView,
    o2: OutcomeView,
)
    requires
        unharmed(TaskView::Setup(config), outcomes),
        answered(TaskView::Setup(config), outcomes.push(o1).push(o2)),
        outcomes.len() > 0,
        nothing_amiss(outcomes.drop_last()),
        !nothing_amiss(outcomes),
    ensures
        ({
            let first = TaskView::Setup(config);
            let all = outcomes.push(o1).push(o2);
            let n = outcomes.len() as int;
            &&& n == 12 || n == 21
            &&& n == 12 ==> performed(first, all)[n] == ActionView::Print(
                "child setup failed: "@ + "bad inner mount dir"@ + "\n"@,
            )
            &&& n == 21 ==> performed(first, all)[n] == ActionView::Print(
                "child setup failed: "@ + "parent failed to set up uid_map"@ + "\n"@,
            )
            &&& performed(first, all)[n + 1] == (ActionView::Close { fd: config.fd })
            &&& state_after(first, all) == RunView::Finished(FinishView::Exit((-1) as i32))
        }),
{
    let first = TaskView::Setup(config);
    let n = outcomes.len() as int;
    let earlier = outcomes.drop_last();
    assert(earlier =~= outcomes.take(n - 1));
    assert(n == 12 || n == 21);
    lemma_unharmed_beginning(first, outcomes, n - 1);
    lemma_beginning_of_a_run(first, outcomes, n - 1);
    lemma_unharmed_child(config, earlier);
    assert(!harmed_at(first, outcomes, n - 1));
    let r = setup_replies(earlier);
    lemma_setup_step(config, r, n - 1);
    let later = record(r, performed(first, outcomes)[n - 1], outcomes.last());
    assert(later == setup_replies(outcomes));
    law_setup_has_five_parts(
        config,
        later.new_root,
        later.old_root,
        later.unshared,
        later.received,
    );
    law_mount_dance(config.mount_dir, later.new_root, later.old_root);
    law_child_takes_on_its_user(config.uid, config.fd, later.unshared, later.received);
    let steps = task_steps(first, later);
    let mounting = mounts_steps(config.mount_dir, later.new_root, later.old_root);
    let switching = userns_steps(config.uid, config.fd, later.unshared, later.received);
    let m = 1 + mounting.len() as int;
    let u = m + switching.len() as int;
    if n == 12 {
        assert(steps[12] == steps.subrange(1, m)[11]);
        lemma_after_a_failed_setup(config, outcomes, "bad inner mount dir"@, o1, o2);
    } else {
        assert(steps[21] == steps.subrange(m, u)[4]);
        lemma_after_a_failed_setup(config, outcomes, "parent failed to set up uid_map"@, o1, o2);
    }
}

/// What becomes of a child that cannot become the command.
pub proof fn law_failed_launch(
    config: ChildConfigView,
    before: Seq<OutcomeView>,
    cause: Seq<char>,
    o: OutcomeView,
)
    requires
        unharmed(TaskView::Setup(config), before),
        nothing_amiss(before),
        before.len() == 99,
        answered(TaskView::Setup(config), before.push(OutcomeView::Failed(cause)).push(o)),
    ensures
        ({
            let first = TaskView::Setup(config);
            let outcomes = before.push(OutcomeView::Failed(cause)).push(o);
            &&& performed(first, outcomes)[100] == ActionView::Print(
                "execve failed! "@ + cause + ".\n"@,
            )
            &&& state_after(first, outcomes) == RunView::Finished(FinishView::Exit((-1) as i32))
        }),
{
    let first = TaskView::Setup(config);
    let failed = before.push(OutcomeView::Failed(cause));
    let outcomes = failed.push(o);
    assert(outcomes.take(99) =~= before);
    assert(outcomes.take(100) =~= failed);
    assert(failed.drop_last() =~= before);
    assert(outcomes.drop_last() =~= failed);
    lemma_beginning_of_a_run(first, outcomes, 99);
    lemma_beginning_of_a_run(first, outcomes, 100);
    lemma_unharmed_child(config, before);
    reveal_strlit("");
    assert(""@ + cause =~= cause);
    law_after_the_setup(config, config.fd, cause);
}

/// How many actions the mapping takes, where the child announces `outcomes[1]`.
spec fn mapping_length(outcomes: Seq<OutcomeView>) -> int {
    if outcomes[1] == OutcomeView::Int(0) {
        3
    } else {
        9
    }
}

/// The text of a process identifier.
spec fn process_text(pid: i32) -> Seq<char> {
    if pid >= 0 {
        decimal(pid as nat)
    } else {
        seq!['-'] + decimal((-pid) as nat)
    }
}

spec fn is_mapping_step(
    pid: i32,
    fd: i32,
    child_fd: i32,
    received: i32,
    i: int,
    step: StepView,
) -> bool {
    let users = "/proc/"@ + process_text(pid) + "/uid_map"@;
    let groups = "/proc/"@ + process_text(pid) + "/gid_map"@;
    &&& step is Do
    &&& step->complaint is Ignored <==> may_fail(step->action)
    &&& i == 0 ==> step->action == (ActionView::Close { fd: child_fd })
    &&& i == 1 ==> does(step, ActionView::ReceiveInt { fd }, ""@)
    &&& i == 2 && received == 0 ==> does(step, ActionView::SendInt { fd, value: 0 }, ""@)
    &&& received != 0 ==> {
        &&& i == 2 ==> prints(step, "writing "@ + users + "..."@)
        &&& i == 3 ==> does(step, ActionView::OpenForWriting(users), "open failed: "@)
        &&& i == 4 ==> does(step, ActionView::Write("0 10000 2000\n"@), "write failed: "@)
        &&& i == 5 ==> prints(step, "writing "@ + groups + "..."@)
        &&& i == 6 ==> does(step, ActionView::OpenForWriting(groups), "open failed: "@)
        &&& i == 7 ==> does(step, ActionView::Write("0 10000 2000\n"@), "write failed: "@)
        &&& i == 8 ==> does(step, ActionView::SendInt { fd, value: 0 }, ""@)
    }
}

proof fn lemma_mapping_step(pid: i32, fd: i32, child_fd: i32, r: RepliesView, i: int)
    requires
        0 <= i,
        i < 3 || r.received != 0,
        i < 9,
    ensures
        ({
            let steps = task_steps(TaskView::MapIds { pid, fd, child_fd }, r);
            &&& i < steps.len()
            &&& steps.len() == if r.received == 0 {
                3int
            } else {
                9int
            }
            &&& is_mapping_step(pid, fd, child_fd, r.received, i, steps[i])
        }),
{
    let steps = map_ids_steps(pid, fd, child_fd, r.received);
    law_parent_steps(
        pid,
        fd,
        child_fd,
        r.received,
        Seq::empty(),
        Seq::empty(),
        Ending::Otherwise,
    );
    law_parent_maps_the_child(pid, fd, r.received);
    assert(steps.len() == 1 + uid_map_steps(pid, fd, r.received).len());
    if i > 0 {
        assert(steps[i] == steps.skip(1)[i - 1]);
    }
}

/// The answers that the mapping goes by, after `outcomes`.
spec fn mapping_replies(outcomes: Seq<OutcomeView>) -> RepliesView {
    RepliesView {
        received: if outcomes.len() > 1 {
            outcomes[1]->Int_0
        } else {
            0
        },
        ..no_replies()
    }
}

proof fn lemma_unharmed_mapping(
    pid: i32,
    fd: i32,
    child_fd: i32,
    outcomes: Seq<OutcomeView>,
)
    requires
        unharmed(TaskView::MapIds { pid, fd, child_fd }, outcomes),
        outcomes.len() <= 1 || outcomes.len() <= mapping_length(outcomes),
    ensures
        ({
            let first = TaskView::MapIds { pid, fd, child_fd };
            let n = outcomes.len() as int;
            &&& n > 1 ==> outcomes[1] is Int
            &&& state_after(first, outcomes) == if n > 1 && n == mapping_length(outcomes) {
                beginning(TaskView::Reap { pid, fd, map_failure: None })
            } else {
                RunView::Running { task: first, replies: mapping_replies(outcomes), at: n }
            }
        }),
    decreases outcomes.len(),
{
    let first = TaskView::MapIds { pid, fd, child_fd };
    if outcomes.len() > 0 {
        let earlier = outcomes.drop_last();
        let last = outcomes.last();
        let n = earlier.len() as int;
        assert(earlier =~= outcomes.take(n));
        lemma_unharmed_beginning(first, outcomes, n);
        lemma_beginning_of_a_run(first, outcomes, n);
        assert(!harmed_at(first, outcomes, n));
        lemma_unharmed_mapping(pid, fd, child_fd, earlier);
        let r = mapping_replies(earlier);
        lemma_mapping_step(pid, fd, child_fd, r, n);
        let later = record(r, performed(first, outcomes)[n], last);
        assert(later == mapping_replies(outcomes));
        if n + 1 < 3 || (later.received != 0 && n + 1 < 9) {
            lemma_mapping_step(pid, fd, child_fd, later, n + 1);
        } else {
            lemma_mapping_step(pid, fd, child_fd, later, 0);
        }
    }
}

/// What waiting for the child came to.
spec fn waited(outcome: OutcomeView) -> ReplyView {
    match outcome {
        OutcomeView::Ended(ending) => ReplyView::Ended(ending),
        OutcomeView::Failed(cause) => ReplyView::Failed(cause),
        _ => ReplyView::Ended(Ending::Otherwise),
    }
}

/// The end of the parent, from where the mapping is behind it: what it does, and where it is.
spec fn reaping(
    pid: i32,
    fd: i32,
    failure: Option<Seq<char>>,
    first: TaskView,
    outcomes: Seq<OutcomeView>,
    b: int,
) -> bool {
    let actions = performed(first, outcomes);
    let n = outcomes.len() as int;
    let w = if failure is Some {
        b + 2
    } else {
        b
    };
    let end = if outcomes[w] is Failed {
        w + 3
    } else {
        w + 2
    };
    let task = TaskView::Reap { pid, fd, map_failure: failure };
    &&& n > w ==> n <= end
    &&& failure matches Some(message) ==> {
        &&& n > b ==> actions[b] == ActionView::Print(
            "uid map handling failed: "@ + message + "\n"@,
        )
        &&& n > b + 1 ==> actions[b + 1] == (ActionView::Kill { pid })
    }
    &&& n > w ==> actions[w] == (ActionView::Wait { pid })
    &&& n > w ==> outcomes[w] is Ended || outcomes[w] is Failed
    &&& n > w + 1 ==> (outcomes[w] matches OutcomeView::Failed(cause) ==> actions[w + 1]
        == ActionView::Print("waitpid failed: "@ + cause + "\n"@))
    &&& n > w && n == end ==> actions[end - 1] == (ActionView::Close { fd })
    &&& state_after(first, outcomes) == if n <= w {
        RunView::Running { task, replies: no_replies(), at: n - b }
    } else if n < end {
        RunView::Running {
            task,
            replies: RepliesView { waited: waited(outcomes[w]), ..no_replies() },
            at: n - b,
        }
    } else {
        RunView::Finished(
            FinishView::Exit(exit_status_of(failure is Some, waited(outcomes[w]))),
        )
    }
}

#[verifier::rlimit(40)]
proof fn lemma_reaping(
    pid: i32,
    fd: i32,
    failure: Option<Seq<char>>,
    first: TaskView,
    outcomes: Seq<OutcomeView>,
    b: int,
)
    requires
        answered(first, outcomes),
        0 <= b <= outcomes.len(),
        state_after(first, outcomes.take(b)) == beginning(
            TaskView::Reap { pid, fd, map_failure: failure },
        ),
    ensures
        reaping(pid, fd, failure, first, outcomes, b),
    decreases outcomes.len(),
{
    let n = outcomes.len() as int;
    if n == b {
        assert(outcomes.take(b) =~= outcomes);
    } else {
        let earlier = outcomes.drop_last();
        let last = outcomes.last();
        assert(earlier =~= outcomes.take(n - 1));
        assert(earlier.take(b) =~= outcomes.take(b));
        lemma_beginning_of_a_run(first, outcomes, n - 1);
        lemma_reaping(pid, fd, failure, first, earlier, b);
        let actions = performed(first, outcomes);
        assert(forall|i: int| 0 <= i < n - 1 ==> performed(first, earlier)[i] == actions[i]);
        let message = match failure {
            Some(text) => text,
            None => Seq::empty(),
        };
        let none = ReplyView::Ended(Ending::Otherwise);
        law_parent_steps(pid, fd, 0, 0, message, Seq::empty(), Ending::Otherwise);
        let w = if failure is Some {
            b + 2
        } else {
            b
        };
        assert(reap_steps(pid, fd, failure, none).len() == w - b + 2);
        if n > w {
            if let ReplyView::Failed(cause) = waited(outcomes[w]) {
                law_parent_steps(pid, fd, 0, 0, message, cause, Ending::Otherwise);
            }
            if let ReplyView::Ended(ending) = waited(outcomes[w]) {
                law_parent_steps(pid, fd, 0, 0, message, Seq::empty(), ending);
            }
        }
    }
}

/// What the parent does, action by action, as long as no failure counts: it closes the child's end of
/// the socket pair, hears whether the child has a user namespace, writes the two maps of that very
/// child where it has one, and lets the child go on.
pub proof fn law_what_the_parent_does(
    pid: i32,
    fd: i32,
    child_fd: i32,
    outcomes: Seq<OutcomeView>,
    i: int,
)
    requires
        unharmed(TaskView::MapIds { pid, fd, child_fd }, outcomes),
        0 <= i < outcomes.len(),
    ensures
        ({
            let action = performed(TaskView::MapIds { pid, fd, child_fd }, outcomes)[i];
            let process = if pid >= 0 {
                decimal(pid as nat)
            } else {
                seq!['-'] + decimal((-pid) as nat)
            };
            let users = "/proc/"@ + process + "/uid_map"@;
            let groups = "/proc/"@ + process + "/gid_map"@;
            &&& i == 0 ==> action == (ActionView::Close { fd: child_fd })
            &&& i == 1 ==> action == (ActionView::ReceiveInt { fd })
            &&& i > 1 ==> outcomes[1] is Int
            &&& i > 1 && outcomes[1] == OutcomeView::Int(0) ==> {
                &&& i == 2 ==> action == (ActionView::SendInt { fd, value: 0 })
                &&& i == 3 ==> action == (ActionView::Wait { pid })
            }
            &&& i > 1 && outcomes[1] != OutcomeView::Int(0) ==> {
                &&& i == 2 ==> action == ActionView::Print("writing "@ + users + "..."@)
                &&& i == 3 ==> action == ActionView::OpenForWriting(users)
                &&& i == 4 ==> action == ActionView::Write("0 10000 2000\n"@)
                &&& i == 5 ==> action == ActionView::Print("writing "@ + groups + "..."@)
                &&& i == 6 ==> action == ActionView::OpenForWriting(groups)
                &&& i == 7 ==> action == ActionView::Write("0 10000 2000\n"@)
                &&& i == 8 ==> action == (ActionView::SendInt { fd, value: 0 })
                &&& i == 9 ==> action == (ActionView::Wait { pid })
            }
        }),
{
    let first = TaskView::MapIds { pid, fd, child_fd };
    lemma_beginning_of_a_run(first, outcomes, i);
    lemma_unharmed_beginning(first, outcomes, i);
    if i > 1 {
        lemma_unharmed_beginning(first, outcomes, 2);
        lemma_unharmed_mapping(pid, fd, child_fd, outcomes.take(2));
    }
    if i <= 1 || i < mapping_length(outcomes) {
        lemma_unharmed_mapping(pid, fd, child_fd, outcomes.take(i));
        lemma_mapping_step(pid, fd, child_fd, mapping_replies(outcomes.take(i)), i);
    } else {
        let b = mapping_length(outcomes);
        lemma_unharmed_beginning(first, outcomes, b);
        lemma_unharmed_mapping(pid, fd, child_fd, outcomes.take(b));
        lemma_reaping(pid, fd, None, first, outcomes, b);
    }
}

/// Where the parent goes from mapping identifiers to waiting for the child, and why.
proof fn lemma_parent_turns(
    pid: i32,
    fd: i32,
    child_fd: i32,
    outcomes: Seq<OutcomeView>,
) -> (turn: (int, Option<Seq<char>>))
    requires
        answered(TaskView::MapIds { pid, fd, child_fd }, outcomes),
        state_after(TaskView::MapIds { pid, fd, child_fd }, outcomes) is Finished,
    ensures
        ({
            let first = TaskView::MapIds { pid, fd, child_fd };
            let (b, failure) = turn;
            &&& 0 < b <= outcomes.len()
            &&& reaping(pid, fd, failure, first, outcomes, b)
            &&& forall|i: int|
                0 <= i < b ==> (#[trigger] performed(first, outcomes)[i]) !is Wait && performed(
                    first,
                    outcomes,
                )[i] !is Kill
            &&& failure is None ==> forall|i: int|
                0 <= i < b ==> !#[trigger] harmed_at(first, outcomes, i)
            &&& failure is Some ==> harmed_at(first, outcomes, b - 1)
        }),
{
    let first = TaskView::MapIds { pid, fd, child_fd };
    let actions = performed(first, outcomes);
    if unharmed(first, outcomes) {
        if outcomes.len() <= 1 {
            lemma_unharmed_mapping(pid, fd, child_fd, outcomes);
        } else {
            lemma_unharmed_beginning(first, outcomes, 2);
            lemma_unharmed_mapping(pid, fd, child_fd, outcomes.take(2));
        }
        let b = mapping_length(outcomes);
        if outcomes.len() < b {
            lemma_unharmed_mapping(pid, fd, child_fd, outcomes);
        }
        lemma_unharmed_beginning(first, outcomes, b);
        lemma_unharmed_mapping(pid, fd, child_fd, outcomes.take(b));
        lemma_reaping(pid, fd, None, first, outcomes, b);
        assert forall|i: int| 0 <= i < b implies (#[trigger] actions[i]) !is Wait && actions[i]
            !is Kill by {
            law_what_the_parent_does(pid, fd, child_fd, outcomes, i);
        }
        (b, None)
    } else {
        let n = lemma_first_harm(first, outcomes);
        let before = outcomes.take(n);
        lemma_beginning_of_a_run(first, outcomes, n);
        lemma_beginning_of_a_run(first, outcomes, n + 1);
        if n > 1 {
            lemma_unharmed_beginning(first, before, 2);
            assert(before.take(2) =~= outcomes.take(2));
            lemma_unharmed_mapping(pid, fd, child_fd, outcomes.take(2));
        }
        if n > 1 && n >= mapping_length(outcomes) {
            let b = mapping_length(outcomes);
            lemma_unharmed_beginning(first, before, b);
            assert(before.take(b) =~= outcomes.take(b));
            lemma_unharmed_mapping(pid, fd, child_fd, outcomes.take(b));
            lemma_reaping(pid, fd, None, first, outcomes, b);
            assert(false);
        }
        lemma_unharmed_mapping(pid, fd, child_fd, before);
        lemma_mapping_step(pid, fd, child_fd, mapping_replies(before), n);
        let failed = outcomes.take(n + 1);
        assert(failed.drop_last() =~= before);
        let step = task_steps(first, mapping_replies(before))[n];
        let message = verdict(step->complaint, outcomes[n])->Err_0;
        assert(state_after(first, failed) == beginning(
            TaskView::Reap { pid, fd, map_failure: Some(message) },
        ));
        lemma_reaping(pid, fd, Some(message), first, outcomes, n + 1);
        assert forall|i: int| 0 <= i < n + 1 implies (#[trigger] actions[i]) !is Wait && actions[i]
            !is Kill by {
            if i < n {
                law_what_the_parent_does(pid, fd, child_fd, before, i);
                assert(performed(first, before)[i] == actions[i]);
                if n > 1 {
                    assert(before[1] == outcomes[1]);
                }
            }
        }
        (n + 1, Some(message))
    }
}

/// The exit status of the parent, by what waiting for the child came to, where it is waited for: the
/// child's own code, where no failure counted; with the lowest bit set besides, where the mapping
/// failed. There is exactly one wait, and the child was killed exactly where the mapping failed.
pub proof fn law_parent_reports_the_child(
    pid: i32,
    fd: i32,
    child_fd: i32,
    outcomes: Seq<OutcomeView>,
    w: int,
)
    requires
        answered(TaskView::MapIds { pid, fd, child_fd }, outcomes),
        state_after(TaskView::MapIds { pid, fd, child_fd }, outcomes) is Finished,
        0 <= w < outcomes.len(),
        performed(TaskView::MapIds { pid, fd, child_fd }, outcomes)[w] is Wait,
    ensures
        ({
            let first = TaskView::MapIds { pid, fd, child_fd };
            let actions = performed(first, outcomes);
            let harmed = !unharmed(first, outcomes);
            let status = state_after(first, outcomes)->Finished_0->Exit_0;
            &&& state_after(first, outcomes)->Finished_0 is Exit
            &&& actions[w] == (ActionView::Wait { pid })
            &&& forall|i: int| 0 <= i < outcomes.len() && #[trigger] actions[i] is Wait ==> i == w
            &&& harmed <==> exists|i: int| 0 <= i < w && #[trigger] actions[i] is Kill
            &&& harmed ==> w >= 2 && actions[w - 1] == (ActionView::Kill { pid })
            &&& actions.last() == (ActionView::Close { fd })
            &&& match outcomes[w] {
                OutcomeView::Ended(Ending::Exited(code)) => status == if harmed {
                    code | 1
                } else {
                    code
                },
                OutcomeView::Ended(Ending::Otherwise) => status == if harmed {
                    1i32
                } else {
                    0i32
                },
                OutcomeView::Failed(cause) => status == 1 && w + 2 < outcomes.len() && actions[w
                    + 1] == ActionView::Print("waitpid failed: "@ + cause + "\n"@),
                _ => false,
            }
        }),
{
    let first = TaskView::MapIds { pid, fd, child_fd };
    let actions = performed(first, outcomes);
    lemma_beginning_of_a_run(first, outcomes, w);
    let (b, failure) = lemma_parent_turns(pid, fd, child_fd, outcomes);
    let wait = if failure is Some {
        b + 2
    } else {
        b
    };
    assert(w == wait);
    if let OutcomeView::Ended(Ending::Exited(code)) = outcomes[w] {
        law_exit_status_of_each_end(code, Seq::empty());
    }
    if let OutcomeView::Failed(cause) = outcomes[w] {
        law_exit_status_of_each_end(0, cause);
    }
    law_exit_status_of_each_end(0, Seq::empty());
    if failure is Some {
        assert(harmed_at(first, outcomes, b - 1));
        assert(actions[w - 1] is Kill);
    } else {
        assert forall|i: int| 0 <= i < outcomes.len() implies !#[trigger] harmed_at(
            first,
            outcomes,
            i,
        ) by {
            if i >= b {
                assert(may_fail(actions[i]));
            }
        }
    }
}

/// What becomes of a mapping in which an action fails: a line that says which, by its own message and
/// cause; the child is killed, and waited for.
pub proof fn law_failed_mapping(
    pid: i32,
    fd: i32,
    child_fd: i32,
    before: Seq<OutcomeView>,
    cause: Seq<char>,
    after: Seq<OutcomeView>,
)
    requires
        ({
            let first = TaskView::MapIds { pid, fd, child_fd };
            let failed = before.push(OutcomeView::Failed(cause));
            &&& unharmed(first, before)
            &&& after.len() >= 3
            &&& answered(first, failed + after)
            &&& harmed_at(first, failed, before.len() as int)
        }),
    ensures
        ({
            let first = TaskView::MapIds { pid, fd, child_fd };
            let outcomes = before.push(OutcomeView::Failed(cause)) + after;
            let actions = performed(first, outcomes);
            let n = before.len() as int;
            let message = if actions[n] is OpenForWriting {
                "open failed: "@ + cause
            } else if actions[n] is Write {
                "write failed: "@ + cause
            } else {
                cause
            };
            &&& actions[n + 1] == ActionView::Print(
                "uid map handling failed: "@ + message + "\n"@,
            )
            &&& actions[n + 2] == (ActionView::Kill { pid })
            &&& actions[n + 3] == (ActionView::Wait { pid })
        }),
{
    let first = TaskView::MapIds { pid, fd, child_fd };
    let n = before.len() as int;
    let failed = before.push(OutcomeView::Failed(cause));
    let outcomes = failed + after;
    assert(outcomes.take(n) =~= before);
    assert(outcomes.take(n + 1) =~= failed);
    assert(failed.drop_last() =~= before);
    lemma_beginning_of_a_run(first, outcomes, n);
    lemma_beginning_of_a_run(first, outcomes, n + 1);
    if n > 1 {
        lemma_unharmed_beginning(first, before, 2);
        lemma_unharmed_mapping(pid, fd, child_fd, before.take(2));
    }
    if n > 1 && n >= mapping_length(before) {
        let b = mapping_length(before);
        lemma_unharmed_beginning(first, before, b);
        assert(before.take(b) =~= outcomes.take(b));
        lemma_unharmed_mapping(pid, fd, child_fd, before.take(b));
        lemma_reaping(pid, fd, None, first, outcomes, b);
        assert(false);
    }
    lemma_unharmed_mapping(pid, fd, child_fd, before);
    lemma_mapping_step(pid, fd, child_fd, mapping_replies(before), n);
    reveal_strlit("");
    assert(""@ + cause =~= cause);
    let step = task_steps(first, mapping_replies(before))[n];
    let message = verdict(step->complaint, OutcomeView::Failed(cause))->Err_0;
    assert(state_after(first, failed) == beginning(
        TaskView::Reap { pid, fd, map_failure: Some(message) },
    ));
    lemma_reaping(pid, fd, Some(message), first, outcomes, n + 1);
}

/// The steps of setting or freeing the resources.
spec fn resource_steps(task: TaskView) -> Seq<StepView> {
    match task {
        TaskView::SetResources { hostname } => set_resources_steps(hostname),
        TaskView::FreeResources { hostname } => free_resources_steps(hostname),
        _ => Seq::empty(),
    }
}

proof fn lemma_resource_steps(task: TaskView, i: int)
    requires
        task is SetResources || task is FreeResources,
        0 <= i < resource_steps(task).len(),
    ensures
        resource_steps(task)[i] matches StepView::Do { action, complaint } && (complaint is Ignored
            <==> may_fail(action)) && (complaint is Ignored || complaint == ComplaintView::Cause(
            ""@,
        )) && record(no_replies(), action, OutcomeView::Done) == no_replies() && action
            !is MakeTempDir && action !is ReceiveInt && action !is Wait && action !is UnshareUser,
{
    match task {
        TaskView::SetResources { hostname } => {
            law_resources_that_are_set(hostname);
        },
        TaskView::FreeResources { hostname } => {
            law_resources_that_are_freed(hostname);
        },
        _ => {},
    }
}

/// Setting or freeing the resources, action by action, as long as no failure counts: the steps of the
/// procedure, from the first to the last, and then it is complete.
pub proof fn law_resources_run(task: TaskView, outcomes: Seq<OutcomeView>)
    requires
        task is SetResources || task is FreeResources,
        unharmed(task, outcomes),
    ensures
        ({
            let steps = match task {
                TaskView::SetResources { hostname } => set_resources_steps(hostname),
                TaskView::FreeResources { hostname } => free_resources_steps(hostname),
                _ => Seq::empty(),
            };
            &&& outcomes.len() <= steps.len()
            &&& forall|i: int|
                0 <= i < outcomes.len() ==> #[trigger] performed(task, outcomes)[i]
                    == steps[i]->action
            &&& state_after(task, outcomes) == if outcomes.len() == steps.len() {
                RunView::Finished(FinishView::Complete)
            } else {
                RunView::Running { task, replies: no_replies(), at: outcomes.len() as int }
            }
        }),
    decreases outcomes.len(),
{
    let steps = resource_steps(task);
    crate::run::law_procedures_begin_with_an_action(task, no_replies());
    if outcomes.len() > 0 {
        let earlier = outcomes.drop_last();
        let n = earlier.len() as int;
        assert(earlier =~= outcomes.take(n));
        lemma_unharmed_beginning(task, outcomes, n);
        lemma_beginning_of_a_run(task, outcomes, n);
        assert(!harmed_at(task, outcomes, n));
        law_resources_run(task, earlier);
        lemma_resource_steps(task, n);
        if n + 1 < steps.len() {
            lemma_resource_steps(task, n + 1);
        }
        assert forall|i: int| 0 <= i < outcomes.len() implies #[trigger] performed(
            task,
            outcomes,
        )[i] == steps[i]->action by {
            if i < n {
                assert(performed(task, earlier)[i] == performed(task, outcomes)[i]);
            }
        }
    }
}

/// Setting or freeing the resources ends with the first failure that counts, and its error is the
/// cause of that failure.
pub proof fn law_resources_fail(task: TaskView, before: Seq<OutcomeView>, cause: Seq<char>)
    requires
        task is SetResources || task is FreeResources,
        unharmed(task, before),
        answered(task, before.push(OutcomeView::Failed(cause))),
        harmed_at(task, before.push(OutcomeView::Failed(cause)), before.len() as int),
    ensures
        state_after(task, before.push(OutcomeView::Failed(cause))) == RunView::Finished(
            FinishView::Error(cause),
        ),
{
    let outcomes = before.push(OutcomeView::Failed(cause));
    let n = before.len() as int;
    assert(outcomes.take(n) =~= before);
    assert(outcomes.drop_last() =~= before);
    lemma_beginning_of_a_run(task, outcomes, n);
    law_resources_run(task, before);
    lemma_resource_steps(task, n);
    reveal_strlit("");
    assert(""@ + cause =~= cause);
}

} // verus!
