//! What the surrounding program can be asked to do, and what it can answer.
//!
//! A procedure of the runtime is a list of [`Step`]s: each step names one [`Action`] and says what
//! its failure means. No procedure performs anything itself: the surrounding program performs the
//! actions and answers each with an [`Outcome`].

use vstd::prelude::*;
use vstd::string::*;
use crate::capabilities::{CapSet, Capability};
use crate::syscalls::{Rule, RuleView};

verus! {

/// The texts of a sequence of strings.
pub open spec fn texts(strings: Seq<String>) -> Seq<Seq<char>> {
    Seq::new(strings.len(), |i: int| strings[i]@)
}

/// The text of a string that may be absent.
pub open spec fn optional_text(string: Option<String>) -> Option<Seq<char>> {
    match string {
        Some(s) => Some(s@),
        None => None,
    }
}

#[derive(Clone, Copy, Debug, PartialEq, Eq, Structural)]
pub enum MountFlag {
    /// Applies to every mount below the target.
    Recursive,
    /// Mount events do not travel to or from the target.
    Private,
    /// Makes the source directory visible at the target.
    Bind,
}

/// Which of the two temporary directories of the mount dance is meant.
#[derive(Clone, Copy, Debug, PartialEq, Eq, Structural)]
pub enum TempDir {
    /// Where the root filesystem of the container is bound.
    NewRoot,
    /// Where the root filesystem of the host goes.
    OldRoot,
}

/// One request to the surrounding program.
#[derive(Debug)]
pub enum Action {
    /// Print the text, as it is, to standard error.
    Print(String),
    SetHostname(String),
    Mount { source: Option<String>, target: String, flags: Vec<MountFlag> },
    /// Make a directory with a unique name from a template.
    MakeTempDir { purpose: TempDir, template: String },
    PivotRoot { new_root: String, put_old: String },
    ChangeDir(String),
    /// Take the mount out of sight at once and unmount it when nothing uses it any more.
    DetachMount(String),
    RemoveDir(String),
    /// Move into a new user namespace.
    UnshareUser,
    /// Write one integer to a socket.
    SendInt { fd: i32, value: i32 },
    /// Read one integer from a socket.
    ReceiveInt { fd: i32 },
    SetGroups(Vec<u32>),
    SetGroupIds { rgid: u32, egid: u32, sgid: u32 },
    SetUserIds { ruid: u32, euid: u32, suid: u32 },
    DropCapability { set: CapSet, capability: Capability },
    /// Start a system call filter that allows every call.
    NewFilter,
    /// Add a rule to the filter.
    AddRule(Rule),
    /// Whether loading the filter sets the no-new-privileges bit.
    ControlNoNewPrivileges(bool),
    /// Hand the filter to the kernel.
    LoadFilter,
    /// Open an existing file for writing.
    OpenForWriting(String),
    /// Write the whole text, at once, to the file opened last.
    Write(String),
    /// Create a directory and those above it that are missing.
    CreateDirs(String),
    /// Limit the number of open files of this process.
    LimitOpenFiles { soft: u64, hard: u64 },
    Close { fd: i32 },
    /// Replace this process by a program.
    Execute { program: String, argv: Vec<String>, environment: Vec<String> },
    /// Kill a process outright.
    Kill { pid: i32 },
    /// Wait for a process to end.
    Wait { pid: i32 },
}

/// An [`Action`] over mathematical texts and sequences.
pub enum ActionView {
    Print(Seq<char>),
    SetHostname(Seq<char>),
    Mount { source: Option<Seq<char>>, target: Seq<char>, flags: Seq<MountFlag> },
    MakeTempDir { purpose: TempDir, template: Seq<char> },
    PivotRoot { new_root: Seq<char>, put_old: Seq<char> },
    ChangeDir(Seq<char>),
    DetachMount(Seq<char>),
    RemoveDir(Seq<char>),
    UnshareUser,
    SendInt { fd: i32, value: i32 },
    ReceiveInt { fd: i32 },
    SetGroups(Seq<u32>),
    SetGroupIds { rgid: u32, egid: u32, sgid: u32 },
    SetUserIds { ruid: u32, euid: u32, suid: u32 },
    DropCapability { set: CapSet, capability: Capability },
    NewFilter,
    AddRule(RuleView),
    ControlNoNewPrivileges(bool),
    LoadFilter,
    OpenForWriting(Seq<char>),
    Write(Seq<char>),
    CreateDirs(Seq<char>),
    LimitOpenFiles { soft: u64, hard: u64 },
    Close { fd: i32 },
    Execute { program: Seq<char>, argv: Seq<Seq<char>>, environment: Seq<Seq<char>> },
    Kill { pid: i32 },
    Wait { pid: i32 },
}

impl View for Action {
    type V = ActionView;

    open spec fn view(&self) -> ActionView {
        match *self {
            Action::Print(text) => ActionView::Print(text@),
            Action::SetHostname(name) => ActionView::SetHostname(name@),
            Action::Mount { source, target, flags } => ActionView::Mount {
                source: optional_text(source),
                target: target@,
                flags: flags@,
            },
            Action::MakeTempDir { purpose, template } => ActionView::MakeTempDir {
                purpose,
                template: template@,
            },
            Action::PivotRoot { new_root, put_old } => ActionView::PivotRoot {
                new_root: new_root@,
                put_old: put_old@,
            },
            Action::ChangeDir(path) => ActionView::ChangeDir(path@),
            Action::DetachMount(path) => ActionView::DetachMount(path@),
            Action::RemoveDir(path) => ActionView::RemoveDir(path@),
            Action::UnshareUser => ActionView::UnshareUser,
            Action::SendInt { fd, value } => ActionView::SendInt { fd, value },
            Action::ReceiveInt { fd } => ActionView::ReceiveInt { fd },
            Action::SetGroups(groups) => ActionView::SetGroups(groups@),
            Action::SetGroupIds { rgid, egid, sgid } => ActionView::SetGroupIds {
                rgid,
                egid,
                sgid,
            },
            Action::SetUserIds { ruid, euid, suid } => ActionView::SetUserIds {
                ruid,
                euid,
                suid,
            },
            Action::DropCapability { set, capability } => ActionView::DropCapability {
                set,
                capability,
            },
            Action::NewFilter => ActionView::NewFilter,
            Action::AddRule(rule) => ActionView::AddRule(rule@),
            Action::ControlNoNewPrivileges(on) => ActionView::ControlNoNewPrivileges(on),
            Action::LoadFilter => ActionView::LoadFilter,
            Action::OpenForWriting(path) => ActionView::OpenForWriting(path@),
            Action::Write(text) => ActionView::Write(text@),
            Action::CreateDirs(path) => ActionView::CreateDirs(path@),
            Action::LimitOpenFiles { soft, hard } => ActionView::LimitOpenFiles { soft, hard },
            Action::Close { fd } => ActionView::Close { fd },
            Action::Execute { program, argv, environment } => ActionView::Execute {
                program: program@,
                argv: texts(argv@),
                environment: texts(environment@),
            },
            Action::Kill { pid } => ActionView::Kill { pid },
            Action::Wait { pid } => ActionView::Wait { pid },
        }
    }
}

/// What the failure of an action means for the procedure.
#[derive(Clone, Copy, Debug)]
pub enum Complaint {
    /// Nothing: the procedure goes on.
    Ignored,
    /// The procedure fails with this text.
    Text(&'static str),
    /// The procedure fails with this text and the cause behind it.
    Cause(&'static str),
}

/// A [`Complaint`] over mathematical texts.
pub enum ComplaintView {
    Ignored,
    Text(Seq<char>),
    Cause(Seq<char>),
}

impl View for Complaint {
    type V = ComplaintView;

    open spec fn view(&self) -> ComplaintView {
        match *self {
            Complaint::Ignored => ComplaintView::Ignored,
            Complaint::Text(text) => ComplaintView::Text(text@),
            Complaint::Cause(text) => ComplaintView::Cause(text@),
        }
    }
}

/// One step of a procedure.
#[derive(Debug)]
pub enum Step {
    Do { action: Action, complaint: Complaint },
    /// The procedure fails here, with this text.
    Abort(&'static str),
}

/// A [`Step`] over mathematical texts.
pub enum StepView {
    Do { action: ActionView, complaint: ComplaintView },
    Abort(Seq<char>),
}

impl View for Step {
    type V = StepView;

    open spec fn view(&self) -> StepView {
        match *self {
            Step::Do { action, complaint } => StepView::Do {
                action: action@,
                complaint: complaint@,
            },
            Step::Abort(text) => StepView::Abort(text@),
        }
    }
}

/// A sequence of steps over mathematical texts.
pub open spec fn step_views(steps: Seq<Step>) -> Seq<StepView> {
    Seq::new(steps.len(), |i: int| steps[i]@)
}

/// The step that prints `text`. Its failure is of no consequence.
pub open spec fn print_step(text: Seq<char>) -> StepView {
    StepView::Do { action: ActionView::Print(text), complaint: ComplaintView::Ignored }
}

/// The step that performs `action` and fails with `text`.
pub open spec fn step_or_text(action: ActionView, text: Seq<char>) -> StepView {
    StepView::Do { action, complaint: ComplaintView::Text(text) }
}

/// The step that performs `action` and fails with `text` and the cause behind it.
pub open spec fn step_or_cause(action: ActionView, text: Seq<char>) -> StepView {
    StepView::Do { action, complaint: ComplaintView::Cause(text) }
}

/// The step that performs `action` and goes on either way.
pub open spec fn step_either_way(action: ActionView) -> StepView {
    StepView::Do { action, complaint: ComplaintView::Ignored }
}

pub(crate) fn print(text: &str) -> (step: Step)
    ensures
        step@ == print_step(text@),
{
    Step::Do { action: Action::Print(text.to_string()), complaint: Complaint::Ignored }
}

pub(crate) fn or_text(action: Action, text: &'static str) -> (step: Step)
    ensures
        step@ == step_or_text(action@, text@),
{
    Step::Do { action, complaint: Complaint::Text(text) }
}

pub(crate) fn or_cause(action: Action, text: &'static str) -> (step: Step)
    ensures
        step@ == step_or_cause(action@, text@),
{
    Step::Do { action, complaint: Complaint::Cause(text) }
}

pub(crate) fn either_way(action: Action) -> (step: Step)
    ensures
        step@ == step_either_way(action@),
{
    Step::Do { action, complaint: Complaint::Ignored }
}

/// How a process that was waited for has ended.
#[derive(Clone, Copy, Debug, PartialEq, Eq, Structural)]
pub enum Ending {
    /// It exited, with this code.
    Exited(i32),
    /// It did not exit by itself.
    Otherwise,
}

/// The answer to an action.
#[derive(Debug)]
pub enum Outcome {
    /// It worked, and there is nothing more to say.
    Done,
    /// It worked, and made this path.
    Path(String),
    /// It worked, and read this integer.
    Int(i32),
    /// It worked, and the process has ended.
    Ended(Ending),
    /// It failed, for this cause.
    Failed(String),
}

/// An [`Outcome`] over mathematical texts.
pub enum OutcomeView {
    Done,
    Path(Seq<char>),
    Int(i32),
    Ended(Ending),
    Failed(Seq<char>),
}

impl View for Outcome {
    type V = OutcomeView;

    open spec fn view(&self) -> OutcomeView {
        match *self {
            Outcome::Done => OutcomeView::Done,
            Outcome::Path(path) => OutcomeView::Path(path@),
            Outcome::Int(value) => OutcomeView::Int(value),
            Outcome::Ended(ending) => OutcomeView::Ended(ending),
            Outcome::Failed(cause) => OutcomeView::Failed(cause@),
        }
    }
}

/// Whether `outcome` is an answer to `action`: a failure always is; a success has to carry what
/// the action asks for.
pub open spec fn answers(action: ActionView, outcome: OutcomeView) -> bool {
    match outcome {
        OutcomeView::Failed(_) => true,
        OutcomeView::Path(_) => action is MakeTempDir,
        OutcomeView::Int(_) => action is ReceiveInt,
        OutcomeView::Ended(_) => action is Wait,
        OutcomeView::Done => action !is MakeTempDir && action !is ReceiveInt && action !is Wait,
    }
}

/// What an answer makes of a step: the procedure goes on, or fails with a text.
pub open spec fn verdict(complaint: ComplaintView, outcome: OutcomeView) -> Result<(), Seq<char>> {
    match (outcome, complaint) {
        (OutcomeView::Failed(_), ComplaintView::Text(text)) => Err(text),
        (OutcomeView::Failed(cause), ComplaintView::Cause(text)) => Err(text + cause),
        _ => Ok(()),
    }
}

/// What an answer makes of a step.
pub fn judge(complaint: &Complaint, outcome: &Outcome) -> (result: Result<(), String>)
    ensures
        match verdict(complaint@, outcome@) {
            Ok(()) => result is Ok,
            Err(text) => result matches Err(e) && e@ == text,
        },
{
    match outcome {
        Outcome::Failed(cause) => match complaint {
            Complaint::Ignored => Ok(()),
            Complaint::Text(text) => Err((*text).to_string()),
            Complaint::Cause(text) => Err((*text).to_string().concat(cause.as_str())),
        },
        _ => Ok(()),
    }
}

/// What a failure means: nothing, a fixed text, or a text with the cause behind it. Without a
/// failure a procedure always goes on.
pub proof fn law_verdicts(complaint: ComplaintView, text: Seq<char>, outcome: OutcomeView)
    ensures
        verdict(ComplaintView::Ignored, outcome) is Ok,
        outcome !is Failed ==> verdict(complaint, outcome) is Ok,
        outcome matches OutcomeView::Failed(cause) ==> {
            &&& verdict(ComplaintView::Text(text), outcome) == Err::<(), _>(text)
            &&& verdict(ComplaintView::Cause(text), outcome) == Err::<(), _>(text + cause)
        },
{
}

/// The four shapes of a step.
pub proof fn law_step_shapes(action: ActionView, text: Seq<char>)
    ensures
        print_step(text) == (StepView::Do {
            action: ActionView::Print(text),
            complaint: ComplaintView::Ignored,
        }),
        step_or_text(action, text) == (StepView::Do {
            action,
            complaint: ComplaintView::Text(text),
        }),
        step_or_cause(action, text) == (StepView::Do {
            action,
            complaint: ComplaintView::Cause(text),
        }),
        step_either_way(action) == (StepView::Do { action, complaint: ComplaintView::Ignored }),
{
}

/// Every action can fail, and every action has one way to succeed: those that make, read or wait for
/// something have to say what it is.
pub proof fn law_every_action_can_be_answered(
    action: ActionView,
    cause: Seq<char>,
    path: Seq<char>,
    value: i32,
    ending: Ending,
)
    ensures
        answers(action, OutcomeView::Failed(cause)),
        match action {
            ActionView::MakeTempDir { .. } => answers(action, OutcomeView::Path(path)) && !answers(
                action,
                OutcomeView::Int(value),
            ) && !answers(action, OutcomeView::Ended(ending)) && !answers(
                action,
                OutcomeView::Done,
            ),
            ActionView::ReceiveInt { .. } => answers(action, OutcomeView::Int(value)) && !answers(
                action,
                OutcomeView::Path(path),
            ) && !answers(action, OutcomeView::Ended(ending)) && !answers(
                action,
                OutcomeView::Done,
            ),
            ActionView::Wait { .. } => answers(action, OutcomeView::Ended(ending)) && !answers(
                action,
                OutcomeView::Path(path),
            ) && !answers(action, OutcomeView::Int(value)) && !answers(action, OutcomeView::Done),
            _ => answers(action, OutcomeView::Done) && !answers(action, OutcomeView::Path(path))
                && !answers(action, OutcomeView::Int(value)) && !answers(
                action,
                OutcomeView::Ended(ending),
            ),
        },
{
}

/// The view of an action holds everything that the action holds.
pub proof fn law_actions_are_seen_whole(action: Action)
    ensures
        match action {
            Action::Print(text) => action@ == ActionView::Print(text@),
            Action::SetHostname(name) => action@ == ActionView::SetHostname(name@),
            Action::Mount { source, target, flags } => action@ matches ActionView::Mount {
                source: s,
                target: t,
                flags: f,
            } && (source is Some <==> s is Some) && (source matches Some(text) ==> s == Some(
                text@,
            )) && t == target@ && f == flags@,
            Action::MakeTempDir { purpose, template } => action@ == (ActionView::MakeTempDir {
                purpose,
                template: template@,
            }),
            Action::PivotRoot { new_root, put_old } => action@ == (ActionView::PivotRoot {
                new_root: new_root@,
                put_old: put_old@,
            }),
            Action::ChangeDir(path) => action@ == ActionView::ChangeDir(path@),
            Action::DetachMount(path) => action@ == ActionView::DetachMount(path@),
            Action::RemoveDir(path) => action@ == ActionView::RemoveDir(path@),
            Action::UnshareUser => action@ == ActionView::UnshareUser,
            Action::SendInt { fd, value } => action@ == (ActionView::SendInt { fd, value }),
            Action::ReceiveInt { fd } => action@ == (ActionView::ReceiveInt { fd }),
            Action::SetGroups(groups) => action@ == ActionView::SetGroups(groups@),
            Action::SetGroupIds { rgid, egid, sgid } => action@ == (ActionView::SetGroupIds {
                rgid,
                egid,
                sgid,
            }),
            Action::SetUserIds { ruid, euid, suid } => action@ == (ActionView::SetUserIds {
                ruid,
                euid,
                suid,
            }),
            Action::DropCapability { set, capability } => action@ == (ActionView::DropCapability {
                set,
                capability,
            }),
            Action::NewFilter => action@ == ActionView::NewFilter,
            Action::AddRule(rule) => action@ matches ActionView::AddRule(r) && r.errno
                == rule.errno && r.syscall == rule.syscall@ && r.condition == rule.condition,
            Action::ControlNoNewPrivileges(on) => action@ == ActionView::ControlNoNewPrivileges(on),
            Action::LoadFilter => action@ == ActionView::LoadFilter,
            Action::OpenForWriting(path) => action@ == ActionView::OpenForWriting(path@),
            Action::Write(text) => action@ == ActionView::Write(text@),
            Action::CreateDirs(path) => action@ == ActionView::CreateDirs(path@),
            Action::LimitOpenFiles { soft, hard } => action@ == (ActionView::LimitOpenFiles {
                soft,
                hard,
            }),
            Action::Close { fd } => action@ == (ActionView::Close { fd }),
            Action::Execute { program, argv, environment } => action@ matches ActionView::Execute {
                program: p,
                argv: a,
                environment: e,
            } && p == program@ && a.len() == argv@.len() && e.len() == environment@.len() && (
            forall|i: int| 0 <= i < a.len() ==> #[trigger] a[i] == argv@[i]@) && (forall|i: int|
                0 <= i < e.len() ==> #[trigger] e[i] == environment@[i]@),
            Action::Kill { pid } => action@ == (ActionView::Kill { pid }),
            Action::Wait { pid } => action@ == (ActionView::Wait { pid }),
        },
{
}

/// The views of steps, complaints and outcomes hold everything that these hold, and the steps of a
/// procedure are seen one by one and in order.
pub proof fn law_steps_are_seen_whole(steps: Seq<Step>, complaint: Complaint, outcome: Outcome)
    ensures
        step_views(steps).len() == steps.len(),
        forall|i: int|
            0 <= i < steps.len() ==> match #[trigger] steps[i] {
                Step::Do { action, complaint } => step_views(steps)[i] == (StepView::Do {
                    action: action@,
                    complaint: complaint@,
                }),
                Step::Abort(text) => step_views(steps)[i] == StepView::Abort(text@),
            },
        match complaint {
            Complaint::Ignored => complaint@ == ComplaintView::Ignored,
            Complaint::Text(text) => complaint@ == ComplaintView::Text(text@),
            Complaint::Cause(text) => complaint@ == ComplaintView::Cause(text@),
        },
        match outcome {
            Outcome::Done => outcome@ == OutcomeView::Done,
            Outcome::Path(path) => outcome@ == OutcomeView::Path(path@),
            Outcome::Int(value) => outcome@ == OutcomeView::Int(value),
            Outcome::Ended(ending) => outcome@ == OutcomeView::Ended(ending),
            Outcome::Failed(cause) => outcome@ == OutcomeView::Failed(cause@),
        },
{
}

/// The texts of strings are the texts of each of them, in order.
pub proof fn law_texts(strings: Seq<String>, string: String)
    ensures
        texts(strings).len() == strings.len(),
        forall|i: int| 0 <= i < strings.len() ==> texts(strings)[i] == (#[trigger] strings[i])@,
        optional_text(Some(string)) == Some(string@),
        optional_text(None) is None,
{
}

} // verus!
