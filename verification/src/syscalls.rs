//! The system calls that a container must not make.

use vstd::prelude::*;
use crate::action::{
    Action, ActionView, Step, StepView, or_cause, print, print_step, step_or_cause, step_views,
};

verus! {

/// A test on one argument of a system call: `argument & mask == datum`.
#[derive(Clone, Copy, Debug, PartialEq, Eq, Structural)]
pub struct MaskedEqual {
    /// Which argument, from zero.
    pub argument: u32,
    pub mask: u64,
    pub datum: u64,
}

/// A rule of the filter: the call fails with `errno` where the condition holds, or always where
/// there is none.
#[derive(Clone, Copy, Debug)]
pub struct Rule {
    pub errno: i32,
    pub syscall: &'static str,
    pub condition: Option<MaskedEqual>,
}

/// A [`Rule`] over a mathematical text.
pub struct RuleView {
    pub errno: i32,
    pub syscall: Seq<char>,
    pub condition: Option<MaskedEqual>,
}

impl View for Rule {
    type V = RuleView;

    open spec fn view(&self) -> RuleView {
        RuleView { errno: self.errno, syscall: self.syscall@, condition: self.condition }
    }
}

/// "Operation not permitted".
pub open spec fn eperm() -> i32 {
    1
}

/// "Function not implemented".
pub open spec fn enosys() -> i32 {
    38
}

/// The bit of a file mode that makes a program run as its owner.
pub open spec fn setuid_bit() -> u64 {
    0x800
}

/// The bit of a file mode that makes a program run as its group.
pub open spec fn setgid_bit() -> u64 {
    0x400
}

/// The flag that asks for a new user namespace.
pub open spec fn new_user_flag() -> u64 {
    0x10000000
}

/// The terminal request that injects input.
pub open spec fn inject_input_request() -> u64 {
    0x5412
}

/// The bits of an argument that hold the request of an `ioctl`: the kernel takes the request as 32
/// bits and does not look at the others.
pub const REQUEST_BITS: u64 = 0xffff_ffff;

/// `libc::EPERM`. Its value on Linux is 1.
#[verifier::external_body]
fn libc_eperm() -> (errno: i32)
    ensures
        errno == eperm(),
{
    libc::EPERM
}

/// `libc::ENOSYS`. Its value on x86_64 Linux, the only machine that the runtime accepts, is 38.
#[verifier::external_body]
fn libc_enosys() -> (errno: i32)
    ensures
        errno == enosys(),
{
    libc::ENOSYS
}

/// `libc::S_ISUID`, widened. Its value is octal 4000.
#[verifier::external_body]
fn libc_s_isuid() -> (bits: u64)
    ensures
        bits == setuid_bit(),
{
    libc::S_ISUID as u64
}

/// `libc::S_ISGID`, widened. Its value is octal 2000.
#[verifier::external_body]
fn libc_s_isgid() -> (bits: u64)
    ensures
        bits == setgid_bit(),
{
    libc::S_ISGID as u64
}

/// `libc::CLONE_NEWUSER`, widened. Its value on Linux is hexadecimal 10000000.
#[verifier::external_body]
fn libc_clone_newuser() -> (bits: u64)
    ensures
        bits == new_user_flag(),
{
    libc::CLONE_NEWUSER as u64
}

/// `libc::TIOCSTI`, widened. Its value on x86_64 Linux, the only machine that the runtime
/// accepts, is hexadecimal 5412.
#[verifier::external_body]
fn libc_tiocsti() -> (bits: u64)
    ensures
        bits == inject_input_request(),
{
    libc::TIOCSTI as u64
}

/// The rule against a call whose argument has all of `bits`.
pub open spec fn against_bits(syscall: Seq<char>, argument: u32, bits: u64) -> RuleView {
    RuleView {
        errno: eperm(),
        syscall,
        condition: Some(MaskedEqual { argument, mask: bits, datum: bits }),
    }
}

/// The rule against one request of `ioctl`. The whole request is compared, so that requests which
/// merely have the same bits among theirs are not touched.
pub open spec fn against_request(request: u64) -> RuleView {
    RuleView {
        errno: eperm(),
        syscall: "ioctl"@,
        condition: Some(MaskedEqual { argument: 1, mask: REQUEST_BITS, datum: request }),
    }
}

/// The rule against a call, whatever its arguments.
pub open spec fn against(syscall: Seq<char>) -> RuleView {
    RuleView { errno: eperm(), syscall, condition: None }
}

/// The rule that makes a call look like one that the kernel does not have.
pub open spec fn hiding(syscall: Seq<char>) -> RuleView {
    RuleView { errno: enosys(), syscall, condition: None }
}

/// The rules, in the order in which they are added.
///
/// `clone3` takes its flags from memory, where a filter cannot look, so no rule can tell whether it
/// asks for a user namespace. It is hidden: to a program the kernel seems to have no `clone3`, and
/// C libraries then fall back on `clone`, whose flags the filter does see. A refusal for want of
/// permission would make them give up instead, and with them threads and new processes.
pub open spec fn filter_rules() -> Seq<RuleView> {
    seq![
        // Setting the set-user-id or set-group-id bit of a file.
        against_bits("chmod"@, 1, setuid_bit()),
        against_bits("chmod"@, 1, setgid_bit()),
        against_bits("fchmod"@, 1, setuid_bit()),
        against_bits("fchmod"@, 1, setgid_bit()),
        against_bits("fchmodat"@, 2, setuid_bit()),
        against_bits("fchmodat"@, 2, setgid_bit()),
        against_bits("fchmodat2"@, 2, setuid_bit()),
        against_bits("fchmodat2"@, 2, setgid_bit()),
        // A user namespace inside the container.
        against_bits("unshare"@, 0, new_user_flag()),
        against_bits("clone"@, 0, new_user_flag()),
        hiding("clone3"@),
        // Input injected into the terminal of the parent.
        against_request(inject_input_request()),
        // The keyring, which has no namespaces.
        against("keyctl"@),
        against("add_key"@),
        against("request_key"@),
        against("ptrace"@),
        // Memory policies.
        against("mbind"@),
        against("migrate_pages"@),
        against("move_pages"@),
        against("set_mempolicy"@),
        // Building blocks of attacks on the kernel.
        against("userfaultfd"@),
        against("perf_event_open"@),
    ]
}

/// The whole procedure: a filter that allows everything, the rules, and the filter handed to the
/// kernel without the no-new-privileges bit.
pub open spec fn syscalls_steps() -> Seq<StepView> {
    seq![
        print_step("=> filtering syscalls..."@),
        step_or_cause(ActionView::NewFilter, ""@),
    ] + Seq::new(
        filter_rules().len(),
        |i: int| step_or_cause(ActionView::AddRule(filter_rules()[i]), ""@),
    ) + seq![
        step_or_cause(ActionView::ControlNoNewPrivileges(false), ""@),
        step_or_cause(ActionView::LoadFilter, ""@),
        print_step("done.\n"@),
    ]
}

fn deny_bits(syscall: &'static str, argument: u32, bits: u64) -> (rule: Rule)
    ensures
        rule@ == against_bits(syscall@, argument, bits),
{
    Rule {
        errno: libc_eperm(),
        syscall,
        condition: Some(MaskedEqual { argument, mask: bits, datum: bits }),
    }
}

fn deny_request(request: u64) -> (rule: Rule)
    ensures
        rule@ == against_request(request),
{
    Rule {
        errno: libc_eperm(),
        syscall: "ioctl",
        condition: Some(MaskedEqual { argument: 1, mask: REQUEST_BITS, datum: request }),
    }
}

fn deny(syscall: &'static str) -> (rule: Rule)
    ensures
        rule@ == against(syscall@),
{
    Rule { errno: libc_eperm(), syscall, condition: None }
}

fn hide_call(syscall: &'static str) -> (rule: Rule)
    ensures
        rule@ == hiding(syscall@),
{
    Rule { errno: libc_enosys(), syscall, condition: None }
}

/// The rules of the filter.
pub fn rules() -> (rules: Vec<Rule>)
    ensures
        rules@.len() == filter_rules().len(),
        forall|i: int| 0 <= i < rules@.len() ==> (#[trigger] rules@[i])@ == filter_rules()[i],
{
    let setuid: u64 = libc_s_isuid();
    let setgid: u64 = libc_s_isgid();
    let new_user: u64 = libc_clone_newuser();
    let inject_input: u64 = libc_tiocsti();
    vec![
        deny_bits("chmod", 1, setuid),
        deny_bits("chmod", 1, setgid),
        deny_bits("fchmod", 1, setuid),
        deny_bits("fchmod", 1, setgid),
        deny_bits("fchmodat", 2, setuid),
        deny_bits("fchmodat", 2, setgid),
        deny_bits("fchmodat2", 2, setuid),
        deny_bits("fchmodat2", 2, setgid),
        deny_bits("unshare", 0, new_user),
        deny_bits("clone", 0, new_user),
        hide_call("clone3"),
        deny_request(inject_input),
        deny("keyctl"),
        deny("add_key"),
        deny("request_key"),
        deny("ptrace"),
        deny("mbind"),
        deny("migrate_pages"),
        deny("move_pages"),
        deny("set_mempolicy"),
        deny("userfaultfd"),
        deny("perf_event_open"),
    ]
}

/// The steps that install the system call filter.
pub fn syscalls() -> (steps: Vec<Step>)
    ensures
        step_views(steps@) == syscalls_steps(),
{
    let rules = rules();
    let mut steps: Vec<Step> = Vec::new();
    steps.push(print("=> filtering syscalls..."));
    steps.push(or_cause(Action::NewFilter, ""));
    assert(step_views(steps@) =~= syscalls_steps().take(2));
    let mut i: usize = 0;
    while i < rules.len()
        invariant
            i <= rules@.len(),
            rules@.len() == filter_rules().len(),
            forall|k: int| 0 <= k < rules@.len() ==> (#[trigger] rules@[k])@ == filter_rules()[k],
            step_views(steps@) == syscalls_steps().take(2 + i),
        decreases rules.len() - i,
    {
        let ghost before = steps@;
        let rule: Rule = rules[i];
        steps.push(or_cause(Action::AddRule(rule), ""));
        assert(step_views(steps@) =~= step_views(before).push(syscalls_steps()[2 + i]));
        i = i + 1;
        assert(syscalls_steps().take(2 + i) =~= syscalls_steps().take(1 + i).push(
            syscalls_steps()[1 + i],
        ));
    }
    let ghost before = steps@;
    steps.push(or_cause(Action::ControlNoNewPrivileges(false), ""));
    steps.push(or_cause(Action::LoadFilter, ""));
    steps.push(print("done.\n"));
    assert(step_views(before).len() == 24);
    assert forall|k: int| 0 <= k < 24 implies step_views(steps@)[k] == syscalls_steps()[k] by {
        assert(step_views(steps@)[k] == step_views(before)[k]);
        assert(syscalls_steps().take(24)[k] == syscalls_steps()[k]);
    }
    assert(step_views(steps@) =~= syscalls_steps());
    steps
}

/// Whether a rule applies to a call.
pub open spec fn applies(rule: RuleView, syscall: Seq<char>, arguments: Seq<u64>) -> bool {
    &&& rule.syscall == syscall
    &&& match rule.condition {
        None => true,
        Some(test) => arguments[test.argument as int] & test.mask == test.datum,
    }
}

/// Whether the installed filter makes a call fail: some rule applies. Every other call is
/// allowed.
pub open spec fn denied(syscall: Seq<char>, arguments: Seq<u64>) -> bool {
    exists|i: int|
        0 <= i < filter_rules().len() && #[trigger] applies(filter_rules()[i], syscall, arguments)
}

/// Whether `value` has all of `bits`.
pub open spec fn has_bits(value: u64, bits: u64) -> bool {
    value & bits == bits
}

/// Which calls are denied, and that no others are.
pub proof fn law_denied_calls(syscall: Seq<char>, arguments: Seq<u64>)
    requires
        arguments.len() == 6,
    ensures
        denied(syscall, arguments) <==> {
            ||| (syscall == "chmod"@ || syscall == "fchmod"@) && (has_bits(
                arguments[1],
                setuid_bit(),
            ) || has_bits(arguments[1], setgid_bit()))
            ||| (syscall == "fchmodat"@ || syscall == "fchmodat2"@) && (has_bits(
                arguments[2],
                setuid_bit(),
            ) || has_bits(arguments[2], setgid_bit()))
            ||| (syscall == "unshare"@ || syscall == "clone"@) && has_bits(
                arguments[0],
                new_user_flag(),
            )
            ||| syscall == "clone3"@
            ||| syscall == "ioctl"@ && arguments[1] & REQUEST_BITS == inject_input_request()
            ||| syscall == "keyctl"@
            ||| syscall == "add_key"@
            ||| syscall == "request_key"@
            ||| syscall == "ptrace"@
            ||| syscall == "mbind"@
            ||| syscall == "migrate_pages"@
            ||| syscall == "move_pages"@
            ||| syscall == "set_mempolicy"@
            ||| syscall == "userfaultfd"@
            ||| syscall == "perf_event_open"@
        },
{
    let rules = filter_rules();
    assert(rules.len() == 22);
    assert(applies(rules[0], syscall, arguments) <==> syscall == "chmod"@ && has_bits(
        arguments[1],
        setuid_bit(),
    ));
    assert(applies(rules[1], syscall, arguments) <==> syscall == "chmod"@ && has_bits(
        arguments[1],
        setgid_bit(),
    ));
    assert(applies(rules[2], syscall, arguments) <==> syscall == "fchmod"@ && has_bits(
        arguments[1],
        setuid_bit(),
    ));
    assert(applies(rules[3], syscall, arguments) <==> syscall == "fchmod"@ && has_bits(
        arguments[1],
        setgid_bit(),
    ));
    assert(applies(rules[4], syscall, arguments) <==> syscall == "fchmodat"@ && has_bits(
        arguments[2],
        setuid_bit(),
    ));
    assert(applies(rules[5], syscall, arguments) <==> syscall == "fchmodat"@ && has_bits(
        arguments[2],
        setgid_bit(),
    ));
    assert(applies(rules[6], syscall, arguments) <==> syscall == "fchmodat2"@ && has_bits(
        arguments[2],
        setuid_bit(),
    ));
    assert(applies(rules[7], syscall, arguments) <==> syscall == "fchmodat2"@ && has_bits(
        arguments[2],
        setgid_bit(),
    ));
    assert(applies(rules[8], syscall, arguments) <==> syscall == "unshare"@ && has_bits(
        arguments[0],
        new_user_flag(),
    ));
    assert(applies(rules[9], syscall, arguments) <==> syscall == "clone"@ && has_bits(
        arguments[0],
        new_user_flag(),
    ));
    assert(applies(rules[10], syscall, arguments) <==> syscall == "clone3"@);
    assert(applies(rules[11], syscall, arguments) <==> syscall == "ioctl"@ && arguments[1]
        & REQUEST_BITS == inject_input_request());
    assert(applies(rules[12], syscall, arguments) <==> syscall == "keyctl"@);
    assert(applies(rules[13], syscall, arguments) <==> syscall == "add_key"@);
    assert(applies(rules[14], syscall, arguments) <==> syscall == "request_key"@);
    assert(applies(rules[15], syscall, arguments) <==> syscall == "ptrace"@);
    assert(applies(rules[16], syscall, arguments) <==> syscall == "mbind"@);
    assert(applies(rules[17], syscall, arguments) <==> syscall == "migrate_pages"@);
    assert(applies(rules[18], syscall, arguments) <==> syscall == "move_pages"@);
    assert(applies(rules[19], syscall, arguments) <==> syscall == "set_mempolicy"@);
    assert(applies(rules[20], syscall, arguments) <==> syscall == "userfaultfd"@);
    assert(applies(rules[21], syscall, arguments) <==> syscall == "perf_event_open"@);
}

/// No call of the chmod family gives a file the set-user-id or the set-group-id bit.
pub proof fn law_no_setuid_files(syscall: Seq<char>, arguments: Seq<u64>, mode: u64)
    requires
        arguments.len() == 6,
        mode & setuid_bit() != 0 || mode & setgid_bit() != 0,
        ((syscall == "chmod"@ || syscall == "fchmod"@) && arguments[1] == mode) || ((syscall
            == "fchmodat"@ || syscall == "fchmodat2"@) && arguments[2] == mode),
    ensures
        denied(syscall, arguments),
{
    law_denied_calls(syscall, arguments);
    assert(mode & 0x800 != 0 ==> mode & 0x800 == 0x800) by (bit_vector);
    assert(mode & 0x400 != 0 ==> mode & 0x400 == 0x400) by (bit_vector);
}

/// No user namespace is made inside the container: not by `unshare` or `clone` with the flag for it,
/// and not by `clone3`, which fails whatever it asks for.
pub proof fn law_no_nested_user_namespace(syscall: Seq<char>, arguments: Seq<u64>)
    requires
        arguments.len() == 6,
        syscall == "clone3"@ || ((syscall == "unshare"@ || syscall == "clone"@) && arguments[0]
            & new_user_flag() != 0),
    ensures
        denied(syscall, arguments),
{
    law_denied_calls(syscall, arguments);
    let flags = arguments[0];
    assert(flags & 0x10000000 != 0 ==> flags & 0x10000000 == 0x10000000) by (bit_vector);
}

/// The names in the rules, by what tells each from the others.
proof fn lemma_call_names()
    ensures
        "chmod"@.len() == 5 && "chmod"@[0] == 'c' && "chmod"@[1] == 'h',
        "fchmod"@.len() == 6 && "fchmod"@[0] == 'f' && "fchmod"@[1] == 'c',
        "fchmodat"@.len() == 8 && "fchmodat"@[0] == 'f' && "fchmodat"@[1] == 'c',
        "fchmodat2"@.len() == 9 && "fchmodat2"@[0] == 'f' && "fchmodat2"@[1] == 'c',
        "unshare"@.len() == 7 && "unshare"@[0] == 'u' && "unshare"@[1] == 'n',
        "clone"@.len() == 5 && "clone"@[0] == 'c' && "clone"@[1] == 'l',
        "clone3"@.len() == 6 && "clone3"@[0] == 'c' && "clone3"@[1] == 'l',
        "ioctl"@.len() == 5 && "ioctl"@[0] == 'i' && "ioctl"@[1] == 'o',
        "keyctl"@.len() == 6 && "keyctl"@[0] == 'k' && "keyctl"@[1] == 'e',
        "add_key"@.len() == 7 && "add_key"@[0] == 'a' && "add_key"@[1] == 'd',
        "request_key"@.len() == 11 && "request_key"@[0] == 'r' && "request_key"@[1] == 'e',
        "ptrace"@.len() == 6 && "ptrace"@[0] == 'p' && "ptrace"@[1] == 't',
        "mbind"@.len() == 5 && "mbind"@[0] == 'm' && "mbind"@[1] == 'b',
        "migrate_pages"@.len() == 13 && "migrate_pages"@[0] == 'm' && "migrate_pages"@[1] == 'i',
        "move_pages"@.len() == 10 && "move_pages"@[0] == 'm' && "move_pages"@[1] == 'o',
        "set_mempolicy"@.len() == 13 && "set_mempolicy"@[0] == 's' && "set_mempolicy"@[1] == 'e',
        "userfaultfd"@.len() == 11 && "userfaultfd"@[0] == 'u' && "userfaultfd"@[1] == 's',
        "perf_event_open"@.len() == 15 && "perf_event_open"@[0] == 'p' && "perf_event_open"@[1] == 'e',
{
    reveal_strlit("chmod");
    reveal_strlit("fchmod");
    reveal_strlit("fchmodat");
    reveal_strlit("fchmodat2");
    reveal_strlit("unshare");
    reveal_strlit("clone");
    reveal_strlit("clone3");
    reveal_strlit("ioctl");
    reveal_strlit("keyctl");
    reveal_strlit("add_key");
    reveal_strlit("request_key");
    reveal_strlit("ptrace");
    reveal_strlit("mbind");
    reveal_strlit("migrate_pages");
    reveal_strlit("move_pages");
    reveal_strlit("set_mempolicy");
    reveal_strlit("userfaultfd");
    reveal_strlit("perf_event_open");
}

/// What remains: a process may be made by `clone`, and a namespace of another kind by `unshare`, as
/// long as the flag for a user namespace is not among the flags.
pub proof fn law_other_flags_are_allowed(syscall: Seq<char>, arguments: Seq<u64>)
    requires
        arguments.len() == 6,
        syscall == "unshare"@ || syscall == "clone"@,
        arguments[0] & new_user_flag() == 0,
    ensures
        !denied(syscall, arguments),
{
    law_denied_calls(syscall, arguments);
    lemma_call_names();
}

/// The one request of `ioctl` that is refused is the one that injects input into a terminal. The
/// kernel sees the same request whatever the upper half of the argument holds.
pub proof fn law_no_injected_input(arguments: Seq<u64>)
    requires
        arguments.len() == 6,
    ensures
        denied("ioctl"@, arguments) <==> arguments[1] & REQUEST_BITS == inject_input_request(),
        arguments[1] <= u32::MAX ==> (denied("ioctl"@, arguments) <==> arguments[1]
            == inject_input_request()),
{
    law_denied_calls("ioctl"@, arguments);
    lemma_call_names();
    let request = arguments[1];
    assert(request <= 0xffff_ffff ==> request & 0xffff_ffff == request) by (bit_vector);
}

/// Every rule of the filter makes the call fail for want of permission, but for the one that hides
/// `clone3`.
pub proof fn law_refusal_errors(i: int)
    requires
        0 <= i < filter_rules().len(),
    ensures
        filter_rules()[i].errno == if filter_rules()[i].syscall == "clone3"@ {
            enosys()
        } else {
            eperm()
        },
{
    lemma_call_names();
}

/// The filter is built and loaded step by step: a fresh one, every rule in its place, no bit forced,
/// and then the kernel gets it.
pub proof fn law_filter_is_built(i: int)
    requires
        0 <= i < filter_rules().len(),
    ensures
        ({
            let steps = syscalls_steps();
            let n = filter_rules().len() as int;
            &&& steps.len() == n + 5
            &&& steps[0] == print_step("=> filtering syscalls..."@)
            &&& steps[1] == step_or_cause(ActionView::NewFilter, ""@)
            &&& steps[2 + i] == step_or_cause(ActionView::AddRule(filter_rules()[i]), ""@)
            &&& steps[n + 2] == step_or_cause(ActionView::ControlNoNewPrivileges(false), ""@)
            &&& steps[n + 3] == step_or_cause(ActionView::LoadFilter, ""@)
            &&& steps[n + 4] == print_step("done.\n"@)
        }),
{
}

} // verus!
