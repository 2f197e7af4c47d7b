//! Which kernel and machine the runtime accepts.

use vstd::prelude::*;
use vstd::string::*;
use crate::text::{parse_u32, u32_meaning};

verus! {

/// Why a system is refused.
#[derive(Clone, Copy, Debug, PartialEq, Eq, Structural)]
pub enum Refusal {
    /// The release does not begin with a number.
    WeirdRelease,
    /// The major version is below 4.
    TooOld,
    /// The machine is not x86_64.
    WrongMachine,
}

/// What stands before the first `.` of a release, or all of it where there is none.
pub open spec fn before_dot(release: Seq<char>) -> Seq<char>
    decreases release.len(),
{
    if release.len() == 0 || release[0] == '.' {
        Seq::empty()
    } else {
        seq![release[0]] + before_dot(release.skip(1))
    }
}

/// Whether a system is accepted, and if not, the first reason against it.
pub open spec fn assessment(release: Seq<char>, machine: Seq<char>) -> Result<(), Refusal> {
    match u32_meaning(before_dot(release)) {
        None => Err(Refusal::WeirdRelease),
        Some(major) => if major < 4 {
            Err(Refusal::TooOld)
        } else if machine != "x86_64"@ {
            Err(Refusal::WrongMachine)
        } else {
            Ok(())
        },
    }
}

/// What is printed about a system.
pub open spec fn assessment_text(release: Seq<char>, machine: Seq<char>) -> Seq<char> {
    match assessment(release, machine) {
        Ok(()) => release + " on "@ + machine + ".\n"@,
        Err(Refusal::WeirdRelease) => "weird release format: "@ + release + "\n"@,
        Err(Refusal::TooOld) => "kernel too old: "@ + release + "\n"@,
        Err(Refusal::WrongMachine) => "expected x86_64: "@ + machine + "\n"@,
    }
}

proof fn lemma_before_dot(release: Seq<char>, end: int)
    requires
        0 <= end <= release.len(),
        end < release.len() ==> release[end] == '.',
        forall|i: int| 0 <= i < end ==> release[i] != '.',
    ensures
        before_dot(release) == release.take(end),
    decreases release.len(),
{
    if end > 0 {
        assert(forall|i: int| 0 <= i < end - 1 ==> release.skip(1)[i] == release[i + 1]);
        lemma_before_dot(release.skip(1), end - 1);
        assert(release.take(end) =~= seq![release[0]] + release.skip(1).take(end - 1));
    } else {
        assert(release.take(0) =~= Seq::<char>::empty());
    }
}

/// Whether the runtime accepts a kernel release and a machine.
pub fn check_system(release: &str, machine: &str) -> (result: Result<(), Refusal>)
    ensures
        result == assessment(release@, machine@),
{
    let length: usize = release.unicode_len();
    let mut end: usize = 0;
    while end < length && release.get_char(end) != '.'
        invariant
            end <= length,
            length == release@.len(),
            forall|i: int| 0 <= i < end ==> release@[i] != '.',
        decreases length - end,
    {
        end = end + 1;
    }
    proof {
        lemma_before_dot(release@, end as int);
        assert(release@.subrange(0, end as int) =~= release@.take(end as int));
    }
    match parse_u32(release.substring_char(0, end)) {
        None => Err(Refusal::WeirdRelease),
        Some(major) => if major < 4 {
            Err(Refusal::TooOld)
        } else if machine.to_string() != "x86_64".to_string() {
            Err(Refusal::WrongMachine)
        } else {
            Ok(())
        },
    }
}

/// The line to print about a kernel release and a machine.
pub fn system_line(release: &str, machine: &str) -> (line: String)
    ensures
        line@ == assessment_text(release@, machine@),
{
    match check_system(release, machine) {
        Ok(()) => release.to_string().concat(" on ").concat(machine).concat(".\n"),
        Err(Refusal::WeirdRelease) => "weird release format: ".to_string().concat(release).concat(
            "\n",
        ),
        Err(Refusal::TooOld) => "kernel too old: ".to_string().concat(release).concat("\n"),
        Err(Refusal::WrongMachine) => "expected x86_64: ".to_string().concat(machine).concat("\n"),
    }
}

/// What comes behind the first dot of a release makes no difference.
pub proof fn law_only_the_major_version_counts(
    major: Seq<char>,
    rest: Seq<char>,
    machine: Seq<char>,
)
    requires
        !major.contains('.'),
    ensures
        assessment(major + seq!['.'] + rest, machine) == assessment(major, machine),
{
    let release = major + seq!['.'] + rest;
    assert forall|i: int| 0 <= i < major.len() implies release[i] != '.' by {
        assert(major.contains(major[i]));
    }
    lemma_before_dot(release, major.len() as int);
    assert forall|i: int| 0 <= i < major.len() implies major[i] != '.' by {
        assert(major.contains(major[i]));
    }
    lemma_before_dot(major, major.len() as int);
    assert(release.take(major.len() as int) =~= major.take(major.len() as int));
}

/// Which systems are accepted, by the number before the first dot, or by the whole release where it
/// has no dot: those from 4 on, on x86_64. The first reason against a system is the one that counts,
/// and it is what is printed.
pub proof fn law_accepted_systems(
    major: Seq<char>,
    rest: Seq<char>,
    machine: Seq<char>,
    dotted: bool,
)
    requires
        !major.contains('.'),
    ensures
        ({
            let release = if dotted {
                major + seq!['.'] + rest
            } else {
                major
            };
            let accepted = assessment(release, machine);
            let line = assessment_text(release, machine);
            match u32_meaning(major) {
                None => {
                    &&& accepted == Err::<(), _>(Refusal::WeirdRelease)
                    &&& line == "weird release format: "@ + release + "\n"@
                },
                Some(number) => {
                    &&& number <= 3 ==> accepted == Err::<(), _>(Refusal::TooOld) && line
                        == "kernel too old: "@ + release + "\n"@
                    &&& number >= 4 && machine != "x86_64"@ ==> accepted == Err::<(), _>(
                        Refusal::WrongMachine,
                    ) && line == "expected x86_64: "@ + machine + "\n"@
                    &&& number >= 4 && machine == "x86_64"@ ==> accepted is Ok && line == release
                        + " on "@ + machine + ".\n"@
                },
            }
        }),
{
    law_only_the_major_version_counts(major, rest, machine);
    assert forall|i: int| 0 <= i < major.len() implies major[i] != '.' by {
        assert(major.contains(major[i]));
    }
    lemma_before_dot(major, major.len() as int);
    assert(major.take(major.len() as int) =~= major);
}

} // verus!
