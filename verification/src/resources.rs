//! Resource limits through version 1 control groups.

use vstd::prelude::*;
use vstd::string::*;
use crate::action::{
    Action, ActionView, Step, StepView, either_way, or_cause, step_either_way, step_or_cause,
    step_views,
};

verus! {

/// The limit on open files.
pub const FD_COUNT: u64 = 64;

/// One file of a control group and what is written to it.
#[derive(Clone, Copy, Debug)]
pub struct Setting {
    pub name: &'static str,
    pub value: &'static str,
}

/// One controller and the settings of its group.
#[derive(Debug)]
pub struct Control {
    pub control: &'static str,
    pub settings: Vec<Setting>,
}

/// A [`Setting`] over mathematical texts.
pub struct SettingView {
    pub name: Seq<char>,
    pub value: Seq<char>,
}

/// A [`Control`] over mathematical texts.
pub struct ControlView {
    pub control: Seq<char>,
    pub settings: Seq<SettingView>,
}

impl View for Setting {
    type V = SettingView;

    open spec fn view(&self) -> SettingView {
        SettingView { name: self.name@, value: self.value@ }
    }
}

impl View for Control {
    type V = ControlView;

    open spec fn view(&self) -> ControlView {
        ControlView {
            control: self.control@,
            settings: Seq::new(self.settings@.len(), |i: int| self.settings@[i]@),
        }
    }
}

pub open spec fn setting(name: Seq<char>, value: Seq<char>) -> SettingView {
    SettingView { name, value }
}

/// The controllers: memory, processor shares, number of processes, and block device weight. The
/// last setting of each moves this process into the group.
pub open spec fn control_groups() -> Seq<ControlView> {
    seq![
        ControlView {
            control: "memory"@,
            settings: seq![
                setting("memory.limit_in_bytes"@, "1073741824"@),
                setting("memory.kmem.limit_in_bytes"@, "1073741824"@),
                setting("tasks"@, "0"@),
            ],
        },
        ControlView {
            control: "cpu"@,
            settings: seq![setting("cpu.shares"@, "256"@), setting("tasks"@, "0"@)],
        },
        ControlView {
            control: "pids"@,
            settings: seq![setting("pids.max"@, "64"@), setting("tasks"@, "0"@)],
        },
        ControlView {
            control: "blkio"@,
            settings: seq![setting("blkio.weight"@, "64"@), setting("tasks"@, "0"@)],
        },
    ]
}

/// The controllers and their settings.
pub fn controls() -> (controls: Vec<Control>)
    ensures
        controls@.len() == control_groups().len(),
        forall|i: int|
            0 <= i < controls@.len() ==> (#[trigger] controls@[i])@ == control_groups()[i],
{
    let memory = "1073741824";
    let shares = "256";
    let pids = "64";
    let controls = vec![
        Control {
            control: "memory",
            settings: vec![
                Setting { name: "memory.limit_in_bytes", value: memory },
                Setting { name: "memory.kmem.limit_in_bytes", value: memory },
                Setting { name: "tasks", value: "0" },
            ],
        },
        Control {
            control: "cpu",
            settings: vec![
                Setting { name: "cpu.shares", value: shares },
                Setting { name: "tasks", value: "0" },
            ],
        },
        Control {
            control: "pids",
            settings: vec![
                Setting { name: "pids.max", value: pids },
                Setting { name: "tasks", value: "0" },
            ],
        },
        Control {
            control: "blkio",
            settings: vec![
                Setting { name: "blkio.weight", value: pids },
                Setting { name: "tasks", value: "0" },
            ],
        },
    ];
    proof {
        assert(controls@[0]@.settings =~= control_groups()[0].settings);
        assert(controls@[1]@.settings =~= control_groups()[1].settings);
        assert(controls@[2]@.settings =~= control_groups()[2].settings);
        assert(controls@[3]@.settings =~= control_groups()[3].settings);
    }
    controls
}

/// The directory of the group that `hostname` has under a controller.
pub open spec fn group_dir(control: Seq<char>, hostname: Seq<char>) -> Seq<char> {
    "/sys/fs/cgroup/"@ + control + "/"@ + hostname
}

/// Opening a file and writing a text to it.
pub open spec fn write_file_steps(path: Seq<char>, text: Seq<char>) -> Seq<StepView> {
    seq![
        step_or_cause(ActionView::OpenForWriting(path), ""@),
        step_or_cause(ActionView::Write(text), ""@),
    ]
}

/// Writing each of the settings to its file in `dir`.
pub open spec fn settings_steps(dir: Seq<char>, settings: Seq<SettingView>) -> Seq<StepView>
    decreases settings.len(),
{
    if settings.len() == 0 {
        Seq::empty()
    } else {
        settings_steps(dir, settings.drop_last()) + write_file_steps(
            dir + "/"@ + settings.last().name,
            settings.last().value,
        )
    }
}

/// Making the group of each controller and filling it in.
pub open spec fn groups_made_steps(
    controls: Seq<ControlView>,
    hostname: Seq<char>,
) -> Seq<StepView>
    decreases controls.len(),
{
    if controls.len() == 0 {
        Seq::empty()
    } else {
        let dir = group_dir(controls.last().control, hostname);
        groups_made_steps(controls.drop_last(), hostname) + seq![
            step_or_cause(ActionView::CreateDirs(dir), ""@),
        ] + settings_steps(dir, controls.last().settings)
    }
}

/// Leaving the group of each controller for the one above it, and removing it.
pub open spec fn groups_removed_steps(
    controls: Seq<ControlView>,
    hostname: Seq<char>,
) -> Seq<StepView>
    decreases controls.len(),
{
    if controls.len() == 0 {
        Seq::empty()
    } else {
        let control = controls.last().control;
        groups_removed_steps(controls.drop_last(), hostname) + write_file_steps(
            "/sys/fs/cgroup/"@ + control + "/tasks"@,
            "0"@,
        ) + seq![step_or_cause(ActionView::RemoveDir(group_dir(control, hostname)), ""@)]
    }
}

/// The whole procedure that puts the limits in place. Whether the limit on open files takes
/// effect does not matter.
pub open spec fn set_resources_steps(hostname: Seq<char>) -> Seq<StepView> {
    groups_made_steps(control_groups(), hostname) + seq![
        step_either_way(ActionView::LimitOpenFiles { soft: FD_COUNT, hard: FD_COUNT }),
    ]
}

/// The whole procedure that takes the groups away again.
pub open spec fn free_resources_steps(hostname: Seq<char>) -> Seq<StepView> {
    groups_removed_steps(control_groups(), hostname)
}

fn group_path(control: &str, hostname: &str) -> (dir: String)
    ensures
        dir@ == group_dir(control@, hostname@),
{
    "/sys/fs/cgroup/".to_string().concat(control).concat("/").concat(hostname)
}

fn push_write_file(steps: &mut Vec<Step>, path: String, text: &str)
    ensures
        step_views(final(steps)@) == step_views(old(steps)@) + write_file_steps(path@, text@),
{
    steps.push(or_cause(Action::OpenForWriting(path), ""));
    steps.push(or_cause(Action::Write(text.to_string()), ""));
    assert(step_views(steps@) =~= step_views(old(steps)@) + write_file_steps(path@, text@));
}

fn push_settings(steps: &mut Vec<Step>, dir: &str, control: &Control)
    ensures
        step_views(final(steps)@) == step_views(old(steps)@) + settings_steps(
            dir@,
            control@.settings,
        ),
{
    let ghost settings = control@.settings;
    let mut i: usize = 0;
    assert(step_views(steps@) =~= step_views(steps@) + settings_steps(dir@, settings.take(0)));
    while i < control.settings.len()
        invariant
            i <= control.settings@.len(),
            settings == control@.settings,
            step_views(steps@) == step_views(old(steps)@) + settings_steps(
                dir@,
                settings.take(i as int),
            ),
        decreases control.settings.len() - i,
    {
        let setting: Setting = control.settings[i];
        let path: String = dir.to_string().concat("/").concat(setting.name);
        push_write_file(steps, path, setting.value);
        i = i + 1;
        proof {
            let done = settings.take(i as int);
            assert(done.drop_last() =~= settings.take(i - 1));
            assert(done.last() == setting@);
            assert(step_views(steps@) =~= step_views(old(steps)@) + settings_steps(dir@, done));
        }
    }
    assert(settings.take(i as int) =~= settings);
}

/// The steps that put the resource limits of the container in place.
pub fn set_resources(hostname: &str) -> (steps: Vec<Step>)
    ensures
        step_views(steps@) == set_resources_steps(hostname@),
{
    let controls = controls();
    let ghost groups = control_groups();
    let mut steps: Vec<Step> = Vec::new();
    assert(step_views(steps@) =~= groups_made_steps(groups.take(0), hostname@));
    let mut i: usize = 0;
    while i < controls.len()
        invariant
            i <= controls@.len(),
            groups == control_groups(),
            controls@.len() == groups.len(),
            forall|k: int| 0 <= k < controls@.len() ==> (#[trigger] controls@[k])@ == groups[k],
            step_views(steps@) == groups_made_steps(groups.take(i as int), hostname@),
        decreases controls.len() - i,
    {
        let dir: String = group_path(controls[i].control, hostname);
        let ghost before = steps@;
        steps.push(or_cause(Action::CreateDirs(dir.clone()), ""));
        assert(step_views(steps@) =~= step_views(before) + seq![
            step_or_cause(ActionView::CreateDirs(dir@), ""@),
        ]);
        push_settings(&mut steps, dir.as_str(), &controls[i]);
        i = i + 1;
        proof {
            let done = groups.take(i as int);
            assert(done.drop_last() =~= groups.take(i - 1));
            assert(done.last() == groups[i - 1]);
        }
    }
    assert(groups.take(i as int) =~= groups);
    let ghost before = steps@;
    steps.push(either_way(Action::LimitOpenFiles { soft: FD_COUNT, hard: FD_COUNT }));
    assert(step_views(steps@) =~= step_views(before) + seq![
        step_either_way(ActionView::LimitOpenFiles { soft: FD_COUNT, hard: FD_COUNT }),
    ]);
    steps
}

/// The steps that take the control groups of the container away again.
pub fn free_resources(hostname: &str) -> (steps: Vec<Step>)
    ensures
        step_views(steps@) == free_resources_steps(hostname@),
{
    let controls = controls();
    let ghost groups = control_groups();
    let mut steps: Vec<Step> = Vec::new();
    assert(step_views(steps@) =~= groups_removed_steps(groups.take(0), hostname@));
    let mut i: usize = 0;
    while i < controls.len()
        invariant
            i <= controls@.len(),
            groups == control_groups(),
            controls@.len() == groups.len(),
            forall|k: int| 0 <= k < controls@.len() ==> (#[trigger] controls@[k])@ == groups[k],
            step_views(steps@) == groups_removed_steps(groups.take(i as int), hostname@),
        decreases controls.len() - i,
    {
        let control: &'static str = controls[i].control;
        let tasks: String = "/sys/fs/cgroup/".to_string().concat(control).concat("/tasks");
        push_write_file(&mut steps, tasks, "0");
        let ghost before = steps@;
        steps.push(or_cause(Action::RemoveDir(group_path(control, hostname)), ""));
        assert(step_views(steps@) =~= step_views(before) + seq![
            step_or_cause(ActionView::RemoveDir(group_dir(control@, hostname@)), ""@),
        ]);
        i = i + 1;
        proof {
            let done = groups.take(i as int);
            assert(done.drop_last() =~= groups.take(i - 1));
            assert(done.last() == groups[i - 1]);
        }
    }
    assert(groups.take(i as int) =~= groups);
    steps
}

/// Whether `path` is the directory of a group that `hostname` has under one of the controllers.
pub open spec fn is_group_dir(
    controls: Seq<ControlView>,
    hostname: Seq<char>,
    path: Seq<char>,
) -> bool {
    exists|i: int|
        0 <= i < controls.len() && path == #[trigger] group_dir(controls[i].control, hostname)
}

/// Whether some step makes the directory `path`.
pub open spec fn makes_dir(steps: Seq<StepView>, path: Seq<char>) -> bool {
    steps.contains(step_or_cause(ActionView::CreateDirs(path), ""@))
}

/// Whether some step removes the directory `path`.
pub open spec fn removes_dir(steps: Seq<StepView>, path: Seq<char>) -> bool {
    steps.contains(step_or_cause(ActionView::RemoveDir(path), ""@))
}

proof fn lemma_settings_make_no_dir(dir: Seq<char>, settings: Seq<SettingView>, path: Seq<char>)
    ensures
        !makes_dir(settings_steps(dir, settings), path),
    decreases settings.len(),
{
    if settings.len() > 0 {
        lemma_settings_make_no_dir(dir, settings.drop_last(), path);
        lemma_contains_add(
            settings_steps(dir, settings.drop_last()),
            write_file_steps(dir + "/"@ + settings.last().name, settings.last().value),
            step_or_cause(ActionView::CreateDirs(path), ""@),
        );
    }
}

proof fn lemma_contains_add(a: Seq<StepView>, b: Seq<StepView>, step: StepView)
    ensures
        (a + b).contains(step) <==> a.contains(step) || b.contains(step),
{
    if a.contains(step) {
        let i = a.index_of(step);
        assert((a + b)[i] == step);
    }
    if b.contains(step) {
        let i = b.index_of(step);
        assert((a + b)[a.len() + i] == step);
    }
}

proof fn lemma_dirs_of_groups(controls: Seq<ControlView>, hostname: Seq<char>, path: Seq<char>)
    ensures
        makes_dir(groups_made_steps(controls, hostname), path) <==> is_group_dir(
            controls,
            hostname,
            path,
        ),
        removes_dir(groups_removed_steps(controls, hostname), path) <==> is_group_dir(
            controls,
            hostname,
            path,
        ),
    decreases controls.len(),
{
    if controls.len() > 0 {
        let last = controls.len() - 1;
        assert(is_group_dir(controls, hostname, path) <==> is_group_dir(
            controls.drop_last(),
            hostname,
            path,
        ) || path == group_dir(controls[last].control, hostname)) by {
            assert(forall|i: int| 0 <= i < last ==> controls.drop_last()[i] == controls[i]);
            if is_group_dir(controls.drop_last(), hostname, path) {
                let i = choose|i: int|
                    0 <= i < last && path == #[trigger] group_dir(
                        controls.drop_last()[i].control,
                        hostname,
                    );
                assert(path == group_dir(controls[i].control, hostname));
            }
            if is_group_dir(controls, hostname, path) {
                let i = choose|i: int|
                    0 <= i <= last && path == #[trigger] group_dir(controls[i].control, hostname);
                assert(i == last || path == group_dir(controls.drop_last()[i].control, hostname));
            }
        }
        lemma_dirs_of_groups(controls.drop_last(), hostname, path);
        let control = controls.last();
        let dir = group_dir(control.control, hostname);
        let made = step_or_cause(ActionView::CreateDirs(path), ""@);
        let removed = step_or_cause(ActionView::RemoveDir(path), ""@);
        let earlier = groups_made_steps(controls.drop_last(), hostname);
        let making = seq![step_or_cause(ActionView::CreateDirs(dir), ""@)];
        lemma_contains_add(earlier, making, made);
        lemma_contains_add(earlier + making, settings_steps(dir, control.settings), made);
        lemma_settings_make_no_dir(dir, control.settings, path);
        let earlier = groups_removed_steps(controls.drop_last(), hostname);
        let writing = write_file_steps("/sys/fs/cgroup/"@ + control.control + "/tasks"@, "0"@);
        let removing = seq![step_or_cause(ActionView::RemoveDir(dir), ""@)];
        lemma_contains_add(earlier, writing, removed);
        lemma_contains_add(earlier + writing, removing, removed);
        assert(making.contains(made) <==> path == dir) by {
            assert(making[0] == step_or_cause(ActionView::CreateDirs(dir), ""@));
        }
        assert(removing.contains(removed) <==> path == dir) by {
            assert(removing[0] == step_or_cause(ActionView::RemoveDir(dir), ""@));
        }
    }
}

/// Setting the resources makes the group of each controller and no other directory, and freeing
/// them removes exactly those.
pub proof fn law_freed_is_what_was_made(hostname: Seq<char>, path: Seq<char>)
    ensures
        makes_dir(set_resources_steps(hostname), path) <==> is_group_dir(
            control_groups(),
            hostname,
            path,
        ),
        removes_dir(free_resources_steps(hostname), path) <==> makes_dir(
            set_resources_steps(hostname),
            path,
        ),
{
    lemma_dirs_of_groups(control_groups(), hostname, path);
    lemma_contains_add(
        groups_made_steps(control_groups(), hostname),
        seq![step_either_way(ActionView::LimitOpenFiles { soft: FD_COUNT, hard: FD_COUNT })],
        step_or_cause(ActionView::CreateDirs(path), ""@),
    );
}

/// What is written to which file: for each setting, in order, its own file in the directory is opened
/// and its own value is written there, right behind.
pub proof fn law_each_setting_is_written(dir: Seq<char>, settings: Seq<SettingView>, i: int)
    requires
        0 <= i < settings.len(),
    ensures
        settings_steps(dir, settings).len() == 2 * settings.len(),
        settings_steps(dir, settings)[2 * i] == step_or_cause(
            ActionView::OpenForWriting(dir + "/"@ + settings[i].name),
            ""@,
        ),
        settings_steps(dir, settings)[2 * i + 1] == step_or_cause(
            ActionView::Write(settings[i].value),
            ""@,
        ),
    decreases settings.len(),
{
    let others = settings.drop_last();
    if others.len() > 0 {
        let k = if i < others.len() {
            i
        } else {
            0
        };
        law_each_setting_is_written(dir, others, k);
    } else {
        assert(settings_steps(dir, others).len() == 0);
    }
}

/// Setting the resources, step by step, for every host name: in the group of each controller every
/// limit goes to its own file, and the process itself last.
pub proof fn law_resources_that_are_set(hostname: Seq<char>)
    ensures
        ({
            let steps = set_resources_steps(hostname);
            let memory = "/sys/fs/cgroup/"@ + "memory"@ + "/"@ + hostname;
            let cpu = "/sys/fs/cgroup/"@ + "cpu"@ + "/"@ + hostname;
            let pids = "/sys/fs/cgroup/"@ + "pids"@ + "/"@ + hostname;
            let blkio = "/sys/fs/cgroup/"@ + "blkio"@ + "/"@ + hostname;
            let makes = |dir: Seq<char>| step_or_cause(ActionView::CreateDirs(dir), ""@);
            let opens = |dir: Seq<char>, name: Seq<char>|
                step_or_cause(ActionView::OpenForWriting(dir + "/"@ + name), ""@);
            let writes = |text: Seq<char>| step_or_cause(ActionView::Write(text), ""@);
            steps =~= seq![
                makes(memory),
                opens(memory, "memory.limit_in_bytes"@),
                writes("1073741824"@),
                opens(memory, "memory.kmem.limit_in_bytes"@),
                writes("1073741824"@),
                opens(memory, "tasks"@),
                writes("0"@),
                makes(cpu),
                opens(cpu, "cpu.shares"@),
                writes("256"@),
                opens(cpu, "tasks"@),
                writes("0"@),
                makes(pids),
                opens(pids, "pids.max"@),
                writes("64"@),
                opens(pids, "tasks"@),
                writes("0"@),
                makes(blkio),
                opens(blkio, "blkio.weight"@),
                writes("64"@),
                opens(blkio, "tasks"@),
                writes("0"@),
                step_either_way(ActionView::LimitOpenFiles { soft: 64, hard: 64 }),
            ]
        }),
{
    let groups = control_groups();
    let g3 = groups.drop_last();
    let g2 = g3.drop_last();
    let g1 = g2.drop_last();
    assert(g1.drop_last() =~= Seq::empty());
    assert(groups_made_steps(g1.drop_last(), hostname) =~= Seq::empty());
    assert(g1.last() == groups[0] && g2.last() == groups[1] && g3.last() == groups[2]);
    lemma_settings_by_two(group_dir("memory"@, hostname), groups[0].settings.drop_last());
    lemma_settings_by_one(group_dir("memory"@, hostname), groups[0].settings);
    lemma_settings_by_two(group_dir("cpu"@, hostname), groups[1].settings);
    lemma_settings_by_two(group_dir("pids"@, hostname), groups[2].settings);
    lemma_settings_by_two(group_dir("blkio"@, hostname), groups[3].settings);
    reveal_with_fuel(groups_made_steps, 5);
}

proof fn lemma_settings_by_one(dir: Seq<char>, settings: Seq<SettingView>)
    requires
        settings.len() > 0,
    ensures
        settings_steps(dir, settings) == settings_steps(dir, settings.drop_last()) + seq![
            step_or_cause(ActionView::OpenForWriting(dir + "/"@ + settings.last().name), ""@),
            step_or_cause(ActionView::Write(settings.last().value), ""@),
        ],
{
}

proof fn lemma_settings_by_two(dir: Seq<char>, settings: Seq<SettingView>)
    requires
        settings.len() == 2,
    ensures
        settings_steps(dir, settings) == seq![
            step_or_cause(ActionView::OpenForWriting(dir + "/"@ + settings[0].name), ""@),
            step_or_cause(ActionView::Write(settings[0].value), ""@),
            step_or_cause(ActionView::OpenForWriting(dir + "/"@ + settings[1].name), ""@),
            step_or_cause(ActionView::Write(settings[1].value), ""@),
        ],
{
    let one = settings.drop_last();
    lemma_settings_by_one(dir, settings);
    lemma_settings_by_one(dir, one);
    assert(settings_steps(dir, one.drop_last()) =~= Seq::empty());
}

/// Freeing the resources, step by step, for every host name: the process goes back to the group at the
/// top of each controller, and the group of the host name is removed.
pub proof fn law_resources_that_are_freed(hostname: Seq<char>)
    ensures
        ({
            let opens = |control: Seq<char>|
                step_or_cause(
                    ActionView::OpenForWriting("/sys/fs/cgroup/"@ + control + "/tasks"@),
                    ""@,
                );
            let writes = step_or_cause(ActionView::Write("0"@), ""@);
            let removes = |control: Seq<char>|
                step_or_cause(
                    ActionView::RemoveDir("/sys/fs/cgroup/"@ + control + "/"@ + hostname),
                    ""@,
                );
            free_resources_steps(hostname) =~= seq![
                opens("memory"@),
                writes,
                removes("memory"@),
                opens("cpu"@),
                writes,
                removes("cpu"@),
                opens("pids"@),
                writes,
                removes("pids"@),
                opens("blkio"@),
                writes,
                removes("blkio"@),
            ]
        }),
{
    let groups = control_groups();
    let g3 = groups.drop_last();
    let g2 = g3.drop_last();
    let g1 = g2.drop_last();
    assert(g1.drop_last() =~= Seq::empty());
    assert(groups_removed_steps(g1.drop_last(), hostname) =~= Seq::empty());
    assert(g1.last() == groups[0] && g2.last() == groups[1] && g3.last() == groups[2]);
    reveal_with_fuel(groups_removed_steps, 5);
}

/// The view of a controller holds everything that the controller holds.
pub proof fn law_control_is_seen_whole(control: Control)
    ensures
        control@.control == control.control@,
        control@.settings.len() == control.settings@.len(),
        forall|i: int|
            0 <= i < control.settings@.len() ==> (#[trigger] control@.settings[i]).name
                == control.settings@[i].name@ && control@.settings[i].value
                == control.settings@[i].value@,
{
}

} // verus!
