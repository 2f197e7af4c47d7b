//! The mount dance: bind the root filesystem of the container, make it the root, and detach the
//! root of the host, so that the container cannot see it.

use vstd::prelude::*;
use vstd::string::*;
use crate::action::{
    Action, ActionView, MountFlag, Step, StepView, TempDir, or_cause, or_text, print, print_step,
    step_or_cause, step_or_text, step_views,
};
use crate::path::{base_name, file_name, law_joined_name_is_file_name};

verus! {

/// Up to the root of the host having been put at `old_root`.
pub open spec fn pivot_steps(
    mount_dir: Seq<char>,
    new_root: Seq<char>,
    old_root: Seq<char>,
) -> Seq<StepView> {
    seq![
        print_step("=> remounting everything with MS_PRIVATE..."@),
        step_or_cause(
            ActionView::Mount {
                source: None,
                target: "/"@,
                flags: seq![MountFlag::Recursive, MountFlag::Private],
            },
            "failed! "@,
        ),
        print_step("remounted.\n"@),
        print_step("=> making a temp directory and a bind mount there..."@),
        step_or_cause(
            ActionView::MakeTempDir { purpose: TempDir::NewRoot, template: "/tmp/tmp.XXXXXX"@ },
            "mkdtemp failed: "@,
        ),
        step_or_text(
            ActionView::Mount {
                source: Some(mount_dir),
                target: new_root,
                flags: seq![MountFlag::Bind, MountFlag::Private],
            },
            "bind mount failed!"@,
        ),
        step_or_cause(
            ActionView::MakeTempDir {
                purpose: TempDir::OldRoot,
                template: new_root + "/oldroot.XXXXXX"@,
            },
            "mkdtemp failed: "@,
        ),
        print_step("done.\n"@),
        print_step("=> pivoting root..."@),
        step_or_text(ActionView::PivotRoot { new_root, put_old: old_root }, "failed!"@),
        print_step("done.\n"@),
    ]
}

/// Detaching the root of the host, which is at `place` now.
pub open spec fn detach_steps(place: Seq<char>) -> Seq<StepView> {
    seq![
        print_step("=> unmounting "@ + place + "..."@),
        step_or_cause(ActionView::ChangeDir("/"@), "chdir failed! "@),
        step_or_cause(ActionView::DetachMount(place), "umount failed! "@),
        step_or_cause(ActionView::RemoveDir(place), "rmdir failed! "@),
        print_step("done.\n"@),
    ]
}

/// The whole procedure, where the two temporary directories are `new_root` and `old_root`. After
/// the pivot, the root of the host is at the last component of `old_root`.
pub open spec fn mounts_steps(
    mount_dir: Seq<char>,
    new_root: Seq<char>,
    old_root: Seq<char>,
) -> Seq<StepView> {
    pivot_steps(mount_dir, new_root, old_root) + match file_name(old_root) {
        None => seq![StepView::Abort("bad inner mount dir"@)],
        Some(name) => detach_steps("/"@ + name),
    }
}

/// The steps of the mount dance. A directory that has not been made yet may be anything: the
/// steps up to the one that makes it do not depend on it.
pub fn mounts(mount_dir: &str, new_root: &str, old_root: &str) -> (steps: Vec<Step>)
    ensures
        step_views(steps@) == mounts_steps(mount_dir@, new_root@, old_root@),
{
    let mut steps: Vec<Step> = Vec::new();
    steps.push(print("=> remounting everything with MS_PRIVATE..."));
    let flags = vec![MountFlag::Recursive, MountFlag::Private];
    assert(flags@ =~= seq![MountFlag::Recursive, MountFlag::Private]);
    steps.push(
        or_cause(
            Action::Mount { source: None, target: "/".to_string(), flags },
            "failed! ",
        ),
    );
    steps.push(print("remounted.\n"));
    steps.push(print("=> making a temp directory and a bind mount there..."));
    steps.push(
        or_cause(
            Action::MakeTempDir {
                purpose: TempDir::NewRoot,
                template: "/tmp/tmp.XXXXXX".to_string(),
            },
            "mkdtemp failed: ",
        ),
    );
    let flags = vec![MountFlag::Bind, MountFlag::Private];
    assert(flags@ =~= seq![MountFlag::Bind, MountFlag::Private]);
    steps.push(
        or_text(
            Action::Mount {
                source: Some(mount_dir.to_string()),
                target: new_root.to_string(),
                flags,
            },
            "bind mount failed!",
        ),
    );
    steps.push(
        or_cause(
            Action::MakeTempDir {
                purpose: TempDir::OldRoot,
                template: new_root.to_string().concat("/oldroot.XXXXXX"),
            },
            "mkdtemp failed: ",
        ),
    );
    steps.push(print("done.\n"));
    steps.push(print("=> pivoting root..."));
    steps.push(
        or_text(
            Action::PivotRoot { new_root: new_root.to_string(), put_old: old_root.to_string() },
            "failed!",
        ),
    );
    steps.push(print("done.\n"));
    let ghost pivot = pivot_steps(mount_dir@, new_root@, old_root@);
    assert(step_views(steps@) =~= pivot);
    match base_name(old_root) {
        None => {
            steps.push(Step::Abort("bad inner mount dir"));
            assert(step_views(steps@) =~= pivot + seq![StepView::Abort("bad inner mount dir"@)]);
        },
        Some(name) => {
            let place: String = "/".to_string().concat(name.as_str());
            let ghost detach = detach_steps(place@);
            steps.push(print("=> unmounting ".to_string().concat(place.as_str()).concat("...").as_str()));
            steps.push(or_cause(Action::ChangeDir("/".to_string()), "chdir failed! "));
            steps.push(or_cause(Action::DetachMount(place.clone()), "umount failed! "));
            steps.push(or_cause(Action::RemoveDir(place), "rmdir failed! "));
            steps.push(print("done.\n"));
            assert(step_views(steps@) =~= pivot + detach);
        },
    }
    steps
}

/// The root of the host is put inside the new root, and what is detached and removed is the very
/// directory that it was put at, by the name that it has once the new root is the root. The
/// directory is what the template makes of a suffix without a slash.
pub proof fn law_old_root_is_detached(
    mount_dir: Seq<char>,
    new_root: Seq<char>,
    old_root: Seq<char>,
    suffix: Seq<char>,
)
    requires
        old_root == new_root + "/oldroot."@ + suffix,
        !suffix.contains('/'),
    ensures
        ({
            let place = "/oldroot."@ + suffix;
            let steps = mounts_steps(mount_dir, new_root, old_root);
            &&& new_root + place == old_root
            &&& steps.len() == 16
            &&& steps[9] == step_or_text(
                ActionView::PivotRoot { new_root, put_old: old_root },
                "failed!"@,
            )
            &&& steps[13] == step_or_cause(ActionView::DetachMount(place), "umount failed! "@)
            &&& steps[14] == step_or_cause(ActionView::RemoveDir(place), "rmdir failed! "@)
        }),
{
    reveal_strlit("/oldroot.");
    reveal_strlit("/");
    let name = "/oldroot."@.skip(1) + suffix;
    assert(name[0] == 'o');
    assert(!name.contains('/')) by {
        assert forall|i: int| 0 <= i < name.len() implies name[i] != '/' by {
            if i >= 8 {
                assert(name[i] == suffix[i - 8]);
                assert(suffix.contains(suffix[i - 8]));
            } else {
                assert(name[i] == "/oldroot."@[i + 1]);
            }
        }
    }
    assert(old_root =~= new_root + seq!['/'] + name);
    law_joined_name_is_file_name(new_root, name);
    assert("/"@ + name =~= "/oldroot."@ + suffix);
    assert(new_root + ("/oldroot."@ + suffix) =~= old_root);
}

/// The mount dance, step by step. The new root is a fresh directory below `/tmp`, where `mount_dir` is
/// bound; the directory for the old root is made inside the new root; and the pivot puts the old root
/// there.
pub proof fn law_mount_dance(mount_dir: Seq<char>, new_root: Seq<char>, old_root: Seq<char>)
    ensures
        ({
            let steps = mounts_steps(mount_dir, new_root, old_root);
            &&& steps.len() >= 12
            &&& steps[0] == print_step("=> remounting everything with MS_PRIVATE..."@)
            &&& steps[1] == step_or_cause(
                ActionView::Mount {
                    source: None,
                    target: "/"@,
                    flags: seq![MountFlag::Recursive, MountFlag::Private],
                },
                "failed! "@,
            )
            &&& steps[2] == print_step("remounted.\n"@)
            &&& steps[3] == print_step("=> making a temp directory and a bind mount there..."@)
            &&& steps[4] == step_or_cause(
                ActionView::MakeTempDir { purpose: TempDir::NewRoot, template: "/tmp/tmp.XXXXXX"@ },
                "mkdtemp failed: "@,
            )
            &&& steps[5] == step_or_text(
                ActionView::Mount {
                    source: Some(mount_dir),
                    target: new_root,
                    flags: seq![MountFlag::Bind, MountFlag::Private],
                },
                "bind mount failed!"@,
            )
            &&& steps[6] == step_or_cause(
                ActionView::MakeTempDir {
                    purpose: TempDir::OldRoot,
                    template: new_root + "/oldroot.XXXXXX"@,
                },
                "mkdtemp failed: "@,
            )
            &&& steps[7] == print_step("done.\n"@)
            &&& steps[8] == print_step("=> pivoting root..."@)
            &&& steps[9] == step_or_text(
                ActionView::PivotRoot { new_root, put_old: old_root },
                "failed!"@,
            )
            &&& steps[10] == print_step("done.\n"@)
            &&& match file_name(old_root) {
                None => steps.len() == 12 && steps[11] == StepView::Abort("bad inner mount dir"@),
                Some(name) => {
                    &&& steps.len() == 16
                    &&& steps[11] == print_step("=> unmounting "@ + ("/"@ + name) + "..."@)
                    &&& steps[12] == step_or_cause(ActionView::ChangeDir("/"@), "chdir failed! "@)
                    &&& steps[13] == step_or_cause(
                        ActionView::DetachMount("/"@ + name),
                        "umount failed! "@,
                    )
                    &&& steps[14] == step_or_cause(
                        ActionView::RemoveDir("/"@ + name),
                        "rmdir failed! "@,
                    )
                    &&& steps[15] == print_step("done.\n"@)
                },
            }
        }),
{
}

/// The directory for the old root is made inside the new root and nowhere else: its template is what
/// stands at the new root, a slash, and a name without one.
pub proof fn law_old_root_is_inside_the_new_root(
    mount_dir: Seq<char>,
    new_root: Seq<char>,
    old_root: Seq<char>,
    i: int,
)
    requires
        0 <= i < mounts_steps(mount_dir, new_root, old_root).len(),
    ensures
        mounts_steps(mount_dir, new_root, old_root)[i] matches StepView::Do {
            action: ActionView::MakeTempDir { purpose: TempDir::OldRoot, template },
            ..
        } ==> {
            &&& template.len() > new_root.len() + 1
            &&& template.take(new_root.len() as int) == new_root
            &&& template[new_root.len() as int] == '/'
            &&& !template.skip(new_root.len() as int + 1).contains('/')
        },
{
    reveal_strlit("/oldroot.XXXXXX");
    let template = new_root + "/oldroot.XXXXXX"@;
    assert(template.take(new_root.len() as int) =~= new_root);
    assert(template.skip(new_root.len() as int + 1) =~= "/oldroot.XXXXXX"@.skip(1));
    assert(!"/oldroot.XXXXXX"@.skip(1).contains('/')) by {
        assert forall|k: int| 0 <= k < 14 implies "/oldroot.XXXXXX"@.skip(1)[k] != '/' by {
            assert("/oldroot.XXXXXX"@.skip(1)[k] == "/oldroot.XXXXXX"@[k + 1]);
        }
    }
    law_mount_dance(mount_dir, new_root, old_root);
}

} // verus!
