//! The capabilities that a container must not have.

use vstd::prelude::*;
use crate::action::{
    ActionView, Step, StepView, print, print_step, step_or_cause, step_views, or_cause, Action,
};

verus! {

/// The capabilities that are dropped.
#[derive(Clone, Copy, Debug, PartialEq, Eq, Structural)]
pub enum Capability {
    AuditControl,
    AuditRead,
    AuditWrite,
    BlockSuspend,
    DacReadSearch,
    Fsetid,
    IpcLock,
    MacAdmin,
    MacOverride,
    Mknod,
    Setfcap,
    Syslog,
    SysAdmin,
    SysBoot,
    SysModule,
    SysNice,
    SysRawio,
    SysResource,
    SysTime,
    WakeAlarm,
}

/// The capability sets that they are dropped from.
#[derive(Clone, Copy, Debug, PartialEq, Eq, Structural)]
pub enum CapSet {
    Bounding,
    Inheritable,
}

/// The dropped capabilities, in the order in which they go.
pub open spec fn dropped() -> Seq<Capability> {
    seq![
        Capability::AuditControl,
        Capability::AuditRead,
        Capability::AuditWrite,
        Capability::BlockSuspend,
        Capability::DacReadSearch,
        Capability::Fsetid,
        Capability::IpcLock,
        Capability::MacAdmin,
        Capability::MacOverride,
        Capability::Mknod,
        Capability::Setfcap,
        Capability::Syslog,
        Capability::SysAdmin,
        Capability::SysBoot,
        Capability::SysModule,
        Capability::SysNice,
        Capability::SysRawio,
        Capability::SysResource,
        Capability::SysTime,
        Capability::WakeAlarm,
    ]
}

pub open spec fn drop_step(set: CapSet, capability: Capability) -> StepView {
    step_or_cause(
        ActionView::DropCapability { set, capability },
        match set {
            CapSet::Bounding => "prctl failed: "@,
            CapSet::Inheritable => "failed: "@,
        },
    )
}

/// The steps that drop every one of `dropped()` from `set`.
pub open spec fn drop_steps(set: CapSet) -> Seq<StepView> {
    Seq::new(dropped().len(), |i: int| drop_step(set, dropped()[i]))
}

/// The whole procedure: first the bounding set, then the inheritable set.
pub open spec fn capabilities_steps() -> Seq<StepView> {
    seq![print_step("=> dropping capabilities..."@), print_step("bounding..."@)] + drop_steps(
        CapSet::Bounding,
    ) + seq![print_step("inheritable..."@)] + drop_steps(CapSet::Inheritable) + seq![
        print_step("done.\n"@),
    ]
}

fn push_drops(steps: &mut Vec<Step>, capabilities: &[Capability], set: CapSet)
    requires
        capabilities@ == dropped(),
    ensures
        step_views(final(steps)@) == step_views(old(steps)@) + drop_steps(set),
{
    let mut i: usize = 0;
    while i < capabilities.len()
        invariant
            i <= capabilities@.len(),
            capabilities@ == dropped(),
            step_views(steps@) == step_views(old(steps)@) + drop_steps(set).take(i as int),
        decreases capabilities.len() - i,
    {
        let capability = capabilities[i];
        let action = Action::DropCapability { set, capability };
        let step = match set {
            CapSet::Bounding => or_cause(action, "prctl failed: "),
            CapSet::Inheritable => or_cause(action, "failed: "),
        };
        let ghost before = steps@;
        steps.push(step);
        i = i + 1;
        proof {
            assert(step_views(steps@) =~= step_views(before).push(step@));
            assert(drop_steps(set).take(i as int) =~= drop_steps(set).take(i - 1).push(
                drop_steps(set)[i - 1],
            ));
        }
    }
    assert(drop_steps(set).take(i as int) =~= drop_steps(set));
}

/// The steps that drop the dangerous capabilities from the bounding and the inheritable set.
pub fn capabilities() -> (steps: Vec<Step>)
    ensures
        step_views(steps@) == capabilities_steps(),
{
    let capabilities = [
        Capability::AuditControl,
        Capability::AuditRead,
        Capability::AuditWrite,
        Capability::BlockSuspend,
        Capability::DacReadSearch,
        Capability::Fsetid,
        Capability::IpcLock,
        Capability::MacAdmin,
        Capability::MacOverride,
        Capability::Mknod,
        Capability::Setfcap,
        Capability::Syslog,
        Capability::SysAdmin,
        Capability::SysBoot,
        Capability::SysModule,
        Capability::SysNice,
        Capability::SysRawio,
        Capability::SysResource,
        Capability::SysTime,
        Capability::WakeAlarm,
    ];
    assert(capabilities@ =~= dropped());
    let mut steps: Vec<Step> = Vec::new();
    steps.push(print("=> dropping capabilities..."));
    steps.push(print("bounding..."));
    assert(step_views(steps@) =~= capabilities_steps().take(2));
    push_drops(&mut steps, &capabilities, CapSet::Bounding);
    let ghost before = steps@;
    steps.push(print("inheritable..."));
    assert(step_views(steps@) =~= step_views(before).push(print_step("inheritable..."@)));
    push_drops(&mut steps, &capabilities, CapSet::Inheritable);
    let ghost before = steps@;
    steps.push(print("done.\n"));
    assert(step_views(steps@) =~= step_views(before).push(print_step("done.\n"@)));
    assert(step_views(steps@) =~= capabilities_steps());
    steps
}

/// Every capability is in the list.
proof fn lemma_dropped_holds_all(capability: Capability)
    ensures
        dropped().contains(capability),
{
    let all = dropped();
    assert(all[0] is AuditControl && all[1] is AuditRead && all[2] is AuditWrite);
    assert(all[3] is BlockSuspend && all[4] is DacReadSearch && all[5] is Fsetid);
    assert(all[6] is IpcLock && all[7] is MacAdmin && all[8] is MacOverride && all[9] is Mknod);
    assert(all[10] is Setfcap && all[11] is Syslog && all[12] is SysAdmin && all[13] is SysBoot);
    assert(all[14] is SysModule && all[15] is SysNice && all[16] is SysRawio);
    assert(all[17] is SysResource && all[18] is SysTime && all[19] is WakeAlarm);
}

/// Every capability of the list goes from each of the two sets in exactly one step.
pub proof fn law_each_capability_is_dropped_once(set: CapSet, capability: Capability)
    ensures
        exists|i: int|
            0 <= i < capabilities_steps().len() && #[trigger] capabilities_steps()[i] == drop_step(
                set,
                capability,
            ),
        forall|i: int, j: int|
            0 <= i < capabilities_steps().len() && 0 <= j < capabilities_steps().len()
                && #[trigger] capabilities_steps()[i] == drop_step(set, capability)
                && #[trigger] capabilities_steps()[j] == drop_step(set, capability) ==> i == j,
{
    lemma_dropped_holds_all(capability);
    let k = dropped().index_of(capability);
    let at = match set {
        CapSet::Bounding => 2 + k,
        CapSet::Inheritable => 23 + k,
    };
    assert(capabilities_steps()[at] == drop_step(set, capability));
}

/// The order of the drops, from each of the two sets, and what a failure says.
pub proof fn law_order_of_the_drops(set: CapSet)
    ensures
        ({
            let steps = capabilities_steps();
            let (first, text) = match set {
                CapSet::Bounding => (2int, "prctl failed: "@),
                CapSet::Inheritable => (23int, "failed: "@),
            };
            let drops = |capability: Capability|
                step_or_cause(ActionView::DropCapability { set, capability }, text);
            &&& steps.len() == 44
            &&& steps[0] == print_step("=> dropping capabilities..."@)
            &&& steps[1] == print_step("bounding..."@)
            &&& steps[22] == print_step("inheritable..."@)
            &&& steps[43] == print_step("done.\n"@)
            &&& steps[first] == drops(Capability::AuditControl)
            &&& steps[first + 1] == drops(Capability::AuditRead)
            &&& steps[first + 2] == drops(Capability::AuditWrite)
            &&& steps[first + 3] == drops(Capability::BlockSuspend)
            &&& steps[first + 4] == drops(Capability::DacReadSearch)
            &&& steps[first + 5] == drops(Capability::Fsetid)
            &&& steps[first + 6] == drops(Capability::IpcLock)
            &&& steps[first + 7] == drops(Capability::MacAdmin)
            &&& steps[first + 8] == drops(Capability::MacOverride)
            &&& steps[first + 9] == drops(Capability::Mknod)
            &&& steps[first + 10] == drops(Capability::Setfcap)
            &&& steps[first + 11] == drops(Capability::Syslog)
            &&& steps[first + 12] == drops(Capability::SysAdmin)
            &&& steps[first + 13] == drops(Capability::SysBoot)
            &&& steps[first + 14] == drops(Capability::SysModule)
            &&& steps[first + 15] == drops(Capability::SysNice)
            &&& steps[first + 16] == drops(Capability::SysRawio)
            &&& steps[first + 17] == drops(Capability::SysResource)
            &&& steps[first + 18] == drops(Capability::SysTime)
            &&& steps[first + 19] == drops(Capability::WakeAlarm)
        }),
{
}

} // verus!
