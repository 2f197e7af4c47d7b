//! The user namespace: the child asks for one, the parent maps its identifiers, and the child
//! takes on its user.

use vstd::prelude::*;
use vstd::string::*;
use crate::action::{
    Action, ActionView, Step, StepView, either_way, or_cause, print, print_step, step_either_way,
    step_or_cause, step_views,
};
use crate::text::{decimal, decimal_text, signed_decimal, signed_text};

verus! {

/// The identifier outside that the identifier 0 of the container stands for.
pub const USERNS_OFFSET: i32 = 10000;

/// How many identifiers are mapped.
pub const USERNS_COUNT: i32 = 2000;

/// What the child tells the parent: 1 where it has a user namespace, else 0.
pub open spec fn announcement(unshared: bool) -> i32 {
    if unshared {
        1
    } else {
        0
    }
}

/// Asking for a user namespace and waiting for the parent.
pub open spec fn userns_request_steps(fd: i32, unshared: bool) -> Seq<StepView> {
    seq![
        print_step("=> trying a user namespace..."@),
        step_either_way(ActionView::UnshareUser),
        step_or_cause(ActionView::SendInt { fd, value: announcement(unshared) }, ""@),
        step_or_cause(ActionView::ReceiveInt { fd }, ""@),
    ]
}

/// Taking on the user and group `uid`.
pub open spec fn userns_switch_steps(uid: u32, unshared: bool) -> Seq<StepView> {
    seq![
        print_step(
            if unshared {
                "done.\n"@
            } else {
                "unsupported? continuing.\n"@
            },
        ),
        print_step(
            "=> switching to uid "@ + decimal(uid as nat) + " / gid "@ + decimal(uid as nat)
                + "..."@,
        ),
        step_or_cause(ActionView::SetGroups(seq![uid]), ""@),
        step_or_cause(ActionView::SetGroupIds { rgid: uid, egid: uid, sgid: uid }, ""@),
        step_or_cause(ActionView::SetUserIds { ruid: uid, euid: uid, suid: uid }, ""@),
        print_step("done.\n"@),
    ]
}

/// The child's whole part, where asking for the namespace came to `unshared` and the parent
/// answered `received`.
pub open spec fn userns_steps(uid: u32, fd: i32, unshared: bool, received: i32) -> Seq<StepView> {
    userns_request_steps(fd, unshared) + if received == 0 {
        userns_switch_steps(uid, unshared)
    } else {
        seq![StepView::Abort("parent failed to set up uid_map"@)]
    }
}

/// The steps of the child's part. An answer that has not come yet may be anything: the steps up
/// to the one that brings it do not depend on it.
pub fn userns(uid: u32, fd: i32, unshared: bool, received: i32) -> (steps: Vec<Step>)
    ensures
        step_views(steps@) == userns_steps(uid, fd, unshared, received),
{
    let mut steps: Vec<Step> = Vec::new();
    steps.push(print("=> trying a user namespace..."));
    steps.push(either_way(Action::UnshareUser));
    let value: i32 = if unshared {
        1
    } else {
        0
    };
    steps.push(or_cause(Action::SendInt { fd, value }, ""));
    steps.push(or_cause(Action::ReceiveInt { fd }, ""));
    assert(step_views(steps@) =~= userns_request_steps(fd, unshared));
    if received != 0 {
        steps.push(Step::Abort("parent failed to set up uid_map"));
        assert(step_views(steps@) =~= userns_steps(uid, fd, unshared, received));
        return steps;
    }
    if unshared {
        steps.push(print("done.\n"));
    } else {
        steps.push(print("unsupported? continuing.\n"));
    }
    let id: String = decimal_text(uid as u64);
    let switching: String = "=> switching to uid ".to_string().concat(id.as_str()).concat(
        " / gid ",
    ).concat(id.as_str()).concat("...");
    steps.push(print(switching.as_str()));
    let groups = vec![uid];
    assert(groups@ =~= seq![uid]);
    steps.push(or_cause(Action::SetGroups(groups), ""));
    steps.push(or_cause(Action::SetGroupIds { rgid: uid, egid: uid, sgid: uid }, ""));
    steps.push(or_cause(Action::SetUserIds { ruid: uid, euid: uid, suid: uid }, ""));
    steps.push(print("done.\n"));
    assert(step_views(steps@) =~= userns_steps(uid, fd, unshared, received));
    steps
}

/// The line of an identifier map: `USERNS_COUNT` identifiers, from 0 inside and from
/// `USERNS_OFFSET` outside.
pub open spec fn map_line() -> Seq<char> {
    "0 "@ + signed_decimal(USERNS_OFFSET as int) + " "@ + signed_decimal(USERNS_COUNT as int)
        + "\n"@
}

/// The file of the process `pid` that holds one of its identifier maps.
pub open spec fn map_path(pid: i32, file: Seq<char>) -> Seq<char> {
    "/proc/"@ + signed_decimal(pid as int) + "/"@ + file
}

/// Writing one identifier map. The whole map goes in one write.
pub open spec fn map_steps(pid: i32, file: Seq<char>) -> Seq<StepView> {
    seq![
        print_step("writing "@ + map_path(pid, file) + "..."@),
        step_or_cause(ActionView::OpenForWriting(map_path(pid, file)), "open failed: "@),
        step_or_cause(ActionView::Write(map_line()), "write failed: "@),
    ]
}

/// The parent's whole part, where the child `pid` announced `received`: it writes the maps where
/// there is a namespace to write them for, and tells the child to go on.
pub open spec fn uid_map_steps(pid: i32, fd: i32, received: i32) -> Seq<StepView> {
    seq![step_or_cause(ActionView::ReceiveInt { fd }, ""@)] + (if received != 0 {
        map_steps(pid, "uid_map"@) + map_steps(pid, "gid_map"@)
    } else {
        Seq::empty()
    }) + seq![step_or_cause(ActionView::SendInt { fd, value: 0 }, ""@)]
}

fn push_map(steps: &mut Vec<Step>, pid: i32, file: &str)
    ensures
        step_views(final(steps)@) == step_views(old(steps)@) + map_steps(pid, file@),
{
    let path: String = "/proc/".to_string().concat(signed_text(pid).as_str()).concat("/").concat(
        file,
    );
    steps.push(print("writing ".to_string().concat(path.as_str()).concat("...").as_str()));
    steps.push(or_cause(Action::OpenForWriting(path), "open failed: "));
    let line: String = "0 ".to_string().concat(signed_text(USERNS_OFFSET).as_str()).concat(
        " ",
    ).concat(signed_text(USERNS_COUNT).as_str()).concat("\n");
    steps.push(or_cause(Action::Write(line), "write failed: "));
    assert(step_views(steps@) =~= step_views(old(steps)@) + map_steps(pid, file@));
}

/// The steps of the parent's part. An announcement that has not come yet may be anything: the
/// step that brings it does not depend on it.
pub fn handle_child_uid_map(pid: i32, fd: i32, received: i32) -> (steps: Vec<Step>)
    ensures
        step_views(steps@) == uid_map_steps(pid, fd, received),
{
    let mut steps: Vec<Step> = Vec::new();
    steps.push(or_cause(Action::ReceiveInt { fd }, ""));
    assert(step_views(steps@) =~= seq![step_or_cause(ActionView::ReceiveInt { fd }, ""@)]);
    if received != 0 {
        push_map(&mut steps, pid, "uid_map");
        push_map(&mut steps, pid, "gid_map");
    }
    let ghost before = steps@;
    steps.push(or_cause(Action::SendInt { fd, value: 0 }, ""));
    assert(step_views(steps@) =~= step_views(before).push(
        step_or_cause(ActionView::SendInt { fd, value: 0 }, ""@),
    ));
    assert(step_views(steps@) =~= uid_map_steps(pid, fd, received));
    steps
}

/// A map is delivered in a single write: right behind the step that opens one of the two map files
/// stands the step that writes the whole line, and nothing else is written.
pub proof fn law_maps_are_written_at_once(pid: i32, fd: i32, received: i32, i: int)
    requires
        0 <= i < uid_map_steps(pid, fd, received).len(),
    ensures
        ({
            let steps = uid_map_steps(pid, fd, received);
            &&& steps[i] matches StepView::Do { action, .. }
            &&& action matches ActionView::OpenForWriting(path) ==> {
                &&& path == map_path(pid, "uid_map"@) || path == map_path(pid, "gid_map"@)
                &&& i + 1 < steps.len()
                &&& steps[i + 1] == step_or_cause(
                    ActionView::Write(map_line()),
                    "write failed: "@,
                )
            }
            &&& action is Write ==> {
                &&& 0 < i
                &&& steps[i - 1] is Do
                &&& steps[i - 1]->action is OpenForWriting
            }
        }),
{
}

/// Parent and child agree: hearing what the child announces, the parent writes the two maps where
/// the child has a user namespace, and nothing where it has none.
pub proof fn law_maps_are_written_for_a_namespace(
    uid: u32,
    pid: i32,
    fd: i32,
    unshared: bool,
    received: i32,
)
    ensures
        userns_steps(uid, fd, unshared, received)[2] == step_or_cause(
            ActionView::SendInt { fd, value: announcement(unshared) },
            ""@,
        ),
        uid_map_steps(pid, fd, announcement(unshared)).contains(
            step_or_cause(ActionView::Write(map_line()), "write failed: "@),
        ) <==> unshared,
{
    let steps = uid_map_steps(pid, fd, announcement(unshared));
    if unshared {
        assert(steps[3] == step_or_cause(ActionView::Write(map_line()), "write failed: "@));
    } else {
        assert(steps.len() == 2);
    }
}

/// Parent and child agree: the last thing that the parent does is to send what lets the child go
/// on, and on nothing else does the child go on.
pub proof fn law_child_goes_on_when_the_parent_is_done(
    uid: u32,
    pid: i32,
    fd: i32,
    unshared: bool,
    received: i32,
)
    ensures
        uid_map_steps(pid, fd, received).last() == step_or_cause(
            ActionView::SendInt { fd, value: 0 },
            ""@,
        ),
        userns_steps(uid, fd, unshared, 0) == userns_request_steps(fd, unshared)
            + userns_switch_steps(uid, unshared),
        received != 0 ==> userns_steps(uid, fd, unshared, received).last() == StepView::Abort(
            "parent failed to set up uid_map"@,
        ) && userns_steps(uid, fd, unshared, received).len() == 5,
{
}

/// The child's part, step by step: it asks for a namespace, says whether it got one, waits for the
/// parent, and takes on its group and user, the group first.
pub proof fn law_child_takes_on_its_user(uid: u32, fd: i32, unshared: bool, received: i32)
    ensures
        ({
            let steps = userns_steps(uid, fd, unshared, received);
            let id = decimal(uid as nat);
            &&& steps.len() >= 5
            &&& steps[0] == print_step("=> trying a user namespace..."@)
            &&& steps[1] == step_either_way(ActionView::UnshareUser)
            &&& steps[2] == step_or_cause(
                ActionView::SendInt {
                    fd,
                    value: if unshared {
                        1
                    } else {
                        0
                    },
                },
                ""@,
            )
            &&& steps[3] == step_or_cause(ActionView::ReceiveInt { fd }, ""@)
            &&& received != 0 ==> steps.len() == 5 && steps[4] == StepView::Abort(
                "parent failed to set up uid_map"@,
            )
            &&& received == 0 ==> {
                &&& steps.len() == 10
                &&& unshared ==> steps[4] == print_step("done.\n"@)
                &&& !unshared ==> steps[4] == print_step("unsupported? continuing.\n"@)
                &&& steps[5] == print_step(
                    "=> switching to uid "@ + id + " / gid "@ + id + "..."@,
                )
                &&& steps[6] == step_or_cause(ActionView::SetGroups(seq![uid]), ""@)
                &&& steps[7] == step_or_cause(
                    ActionView::SetGroupIds { rgid: uid, egid: uid, sgid: uid },
                    ""@,
                )
                &&& steps[8] == step_or_cause(
                    ActionView::SetUserIds { ruid: uid, euid: uid, suid: uid },
                    ""@,
                )
                &&& steps[9] == print_step("done.\n"@)
            }
        }),
{
}

/// The parent's part, step by step. The files are those of the child, by its process identifier in
/// decimal notation, and each gets the one line that maps 2000 identifiers from 10000 on.
pub proof fn law_parent_maps_the_child(pid: i32, fd: i32, received: i32)
    ensures
        ({
            let steps = uid_map_steps(pid, fd, received);
            let process = if pid >= 0 {
                decimal(pid as nat)
            } else {
                seq!['-'] + decimal((-pid) as nat)
            };
            let users = "/proc/"@ + process + "/uid_map"@;
            let groups = "/proc/"@ + process + "/gid_map"@;
            &&& steps.len() == if received == 0 {
                2int
            } else {
                8int
            }
            &&& steps[0] == step_or_cause(ActionView::ReceiveInt { fd }, ""@)
            &&& steps.last() == step_or_cause(ActionView::SendInt { fd, value: 0 }, ""@)
            &&& received != 0 ==> {
                &&& steps[1] == print_step("writing "@ + users + "..."@)
                &&& steps[2] == step_or_cause(ActionView::OpenForWriting(users), "open failed: "@)
                &&& steps[3] == step_or_cause(
                    ActionView::Write("0 10000 2000\n"@),
                    "write failed: "@,
                )
                &&& steps[4] == print_step("writing "@ + groups + "..."@)
                &&& steps[5] == step_or_cause(ActionView::OpenForWriting(groups), "open failed: "@)
                &&& steps[6] == step_or_cause(
                    ActionView::Write("0 10000 2000\n"@),
                    "write failed: "@,
                )
            }
        }),
{
    reveal_strlit("0 ");
    reveal_strlit(" ");
    reveal_strlit("\n");
    reveal_strlit("0 10000 2000\n");
    reveal_strlit("/");
    reveal_strlit("uid_map");
    reveal_strlit("gid_map");
    reveal_strlit("/uid_map");
    reveal_strlit("/gid_map");
    assert(map_line() =~= "0 10000 2000\n"@) by {
        reveal_with_fuel(crate::text::numeral, 6);
    }
    let process = signed_decimal(pid as int);
    assert(map_path(pid, "uid_map"@) =~= "/proc/"@ + process + "/uid_map"@);
    assert(map_path(pid, "gid_map"@) =~= "/proc/"@ + process + "/gid_map"@);
}

/// The maps of different children are in different files.
pub proof fn law_different_children_different_maps(p1: i32, p2: i32, fd: i32, received: i32, i: int)
    requires
        0 <= i < uid_map_steps(p1, fd, received).len(),
        uid_map_steps(p1, fd, received)[i] is Do,
        uid_map_steps(p1, fd, received)[i]->action is OpenForWriting,
        uid_map_steps(p1, fd, received)[i] == uid_map_steps(p2, fd, received)[i],
    ensures
        p1 == p2,
{
    law_parent_maps_the_child(p1, fd, received);
    law_parent_maps_the_child(p2, fd, received);
    let (a, b) = (signed_decimal(p1 as int), signed_decimal(p2 as int));
    let file = if i == 2 {
        "uid_map"@
    } else {
        "gid_map"@
    };
    let (x, y) = (map_path(p1, file), map_path(p2, file));
    assert(x == y);
    let n = "/proc/"@.len() as int;
    assert(a =~= x.subrange(n, n + a.len()));
    assert(b =~= y.subrange(n, n + b.len()));
    assert(x.len() == n + a.len() + "/"@.len() + file.len());
    assert(y.len() == n + b.len() + "/"@.len() + file.len());
    crate::text::law_signed_notation_is_unambiguous(p1 as int, p2 as int);
}

} // verus!
