//! The Flutter controls in the title bar: which device and which entry point to run.

use crate::actions::FlutterRun;
use crate::commands::{devices_command, devices_text, CommandLine};
use crate::order::{in_order, sort_texts};
use crate::paths::{
    file_name, is_verbatim, join, law_child_path, law_path_is_taken_in_two_steps, name_of, parent,
    parent_of, path_from, path_in, segments_of, unified, PathStyle,
};
use crate::targets::{
    holds_text, is_target_of, law_found_targets_are_targets, law_scan_finds_all_targets_once,
    law_target_path_parts, package_in, tree_holds, tree_is_named, with_worktrees, Worktree, LIB_DIR,
};
use crate::text::{joined, text_of, texts};
use vstd::prelude::*;

verus! {

/// A device that apps can run on.
#[derive(Debug)]
pub struct Device {
    pub id: String,
    pub name: String,
    pub target_platform: String,
    pub emulator: bool,
}

impl Clone for Device {
    fn clone(&self) -> (r: Self)
        ensures
            r == *self,
    {
        Device {
            id: self.id.clone(),
            name: self.name.clone(),
            target_platform: self.target_platform.clone(),
            emulator: self.emulator,
        }
    }
}

/// The state of the controls.
#[derive(Debug)]
pub struct FlutterControls {
    /// How the platform writes paths.
    pub path_style: PathStyle,
    pub devices: Vec<Device>,
    pub selected_device: Option<Device>,
    pub targets: Vec<String>,
    pub selected_target: Option<String>,
    pub worktree_root: Option<String>,
    pub is_loading_devices: bool,
    pub is_loading_targets: bool,
}

/// What the controls show.
#[derive(Debug)]
pub struct ControlsView {
    /// On the button that opens the list of devices.
    pub device_label: String,
    /// The devices' names, in the list.
    pub device_menu: Vec<String>,
    /// In the list instead, where there are no devices.
    pub device_hint: Option<String>,
    /// On the button that opens the list of targets.
    pub target_label: String,
    /// The targets, in the list.
    pub target_menu: Vec<String>,
}

/// The names of devices.
pub open spec fn device_names(devices: Seq<Device>) -> Seq<Seq<char>> {
    devices.map_values(|d: Device| d.name@)
}

/// What the device button says.
pub open spec fn device_label(controls: FlutterControls) -> Seq<char> {
    if controls.is_loading_devices {
        "Loading..."@
    } else {
        match controls.selected_device {
            Some(device) => device.name@,
            None => "No Device"@,
        }
    }
}

/// The target that the target button speaks of.
pub open spec fn target_text(controls: FlutterControls) -> Seq<char> {
    if controls.is_loading_targets {
        "Loading..."@
    } else {
        match controls.selected_target {
            Some(target) => target@,
            None => "No Target"@,
        }
    }
}

/// What the target button says: the target's file name, where it has one.
pub open spec fn target_label(controls: FlutterControls) -> Seq<char> {
    match name_of(controls.path_style, target_text(controls)) {
        Some(name) => name,
        None => target_text(controls),
    }
}

/// What a run of the selected target runs: its file, in `lib`.
pub open spec fn run_target(controls: FlutterControls) -> Option<Seq<char>> {
    match controls.selected_target {
        Some(target) => match name_of(controls.path_style, target@) {
            Some(file) => Some("lib/"@ + file),
            None => None,
        },
        None => None,
    }
}

/// The path of the package that holds a target: two directories up.
pub open spec fn package_of(style: PathStyle, target: Seq<char>) -> Option<Seq<char>> {
    match parent_of(style, target) {
        Some(lib) => parent_of(style, lib),
        None => None,
    }
}

/// Where a run of the selected target runs: where its package's path leads to from the root of
/// the first worktree.
pub open spec fn run_cwd(controls: FlutterControls) -> Option<Seq<char>> {
    match controls.selected_target {
        Some(target) => match (package_of(controls.path_style, target@), controls.worktree_root) {
            (Some(package), Some(root)) => Some(path_from(controls.path_style, root@, package)),
            _ => None,
        },
        None => None,
    }
}

impl FlutterControls {
    /// Controls that begin to list devices and to look for targets: the controls, and the
    /// command that lists the devices.
    pub fn new(path_style: PathStyle) -> (r: (Self, CommandLine))
        ensures
            r.0.path_style == path_style,
            r.0.devices@.len() == 0,
            r.0.selected_device is None,
            r.0.targets@.len() == 0,
            r.0.selected_target is None,
            r.0.worktree_root is None,
            r.0.is_loading_devices,
            r.0.is_loading_targets,
            r.1@ == devices_text(),
    {
        let mut controls = FlutterControls {
            path_style,
            devices: Vec::new(),
            selected_device: None,
            targets: Vec::new(),
            selected_target: None,
            worktree_root: None,
            is_loading_devices: true,
            is_loading_targets: true,
        };
        let command = controls.refresh_devices();
        controls.refresh_targets();
        (controls, command)
    }

    /// Begins to list the devices: the command to run for it. Its result goes to
    /// `devices_listed`.
    pub fn refresh_devices(&mut self) -> (r: CommandLine)
        ensures
            r@ == devices_text(),
            *final(self) == (FlutterControls { is_loading_devices: true, ..*old(self) }),
    {
        self.is_loading_devices = true;
        devices_command()
    }

    /// Takes in the devices that were listed, or that listing them failed. The first device
    /// is selected where none was.
    pub fn devices_listed(&mut self, listed: Option<Vec<Device>>)
        ensures
            listed is None ==> *final(self) == (FlutterControls {
                is_loading_devices: false,
                ..*old(self)
            }),
            listed matches Some(devices) ==> *final(self) == (FlutterControls {
                is_loading_devices: false,
                devices,
                selected_device: if old(self).selected_device is Some || devices@.len() == 0 {
                    old(self).selected_device
                } else {
                    Some(devices@[0])
                },
                ..*old(self)
            }),
    {
        self.is_loading_devices = false;
        if let Some(devices) = listed {
            self.devices = devices;
            if self.selected_device.is_none() && self.devices.len() > 0 {
                self.selected_device = Some(self.devices[0].clone());
            }
        }
    }

    /// Begins to look for targets. What is found goes to `targets_found`.
    pub fn refresh_targets(&mut self)
        ensures
            *final(self) == (FlutterControls { is_loading_targets: true, ..*old(self) }),
    {
        self.is_loading_targets = true;
    }

    /// Takes in the targets that were found, and the root of the first worktree. Where
    /// none were found, the ones from before stay. Where the selected target is not among
    /// them, the first one is selected.
    pub fn targets_found(&mut self, worktree_root: Option<String>, targets: Vec<String>)
        ensures
            targets@.len() == 0 ==> *final(self) == (FlutterControls {
                is_loading_targets: false,
                worktree_root,
                ..*old(self)
            }),
            targets@.len() > 0 ==> texts(final(self).targets@).contains(
                final(self).selected_target->0@,
            ),
            targets@.len() > 0 ==> {
                &&& in_order(texts(final(self).targets@))
                &&& texts(final(self).targets@).to_multiset() == texts(targets@).to_multiset()
                &&& *final(self) == (FlutterControls {
                    is_loading_targets: false,
                    worktree_root,
                    targets: final(self).targets,
                    selected_target: if old(self).selected_target is Some && texts(
                        targets@,
                    ).contains(old(self).selected_target->0@) {
                        old(self).selected_target
                    } else {
                        Some(final(self).targets@[0])
                    },
                    ..*old(self)
                })
            },
    {
        self.is_loading_targets = false;
        self.worktree_root = worktree_root;
        if targets.len() > 0 {
            let mut sorted = targets;
            sort_texts(&mut sorted);
            proof {
                texts(targets@).to_multiset_ensures();
                texts(sorted@).to_multiset_ensures();
            }
            let keep = match &self.selected_target {
                Some(target) => holds_text(&sorted, target.as_str()),
                None => false,
            };
            proof {
                if let Some(target) = old(self).selected_target {
                    assert(texts(sorted@).to_multiset().count(target@) == texts(
                        targets@,
                    ).to_multiset().count(target@));
                }
            }
            self.targets = sorted;
            if !keep {
                self.selected_target = Some(self.targets[0].clone());
                assert(texts(self.targets@)[0] == self.targets@[0]@);
            }
        }
    }

    /// Selects a device.
    pub fn select_device(&mut self, device: Device)
        ensures
            *final(self) == (FlutterControls { selected_device: Some(device), ..*old(self) }),
    {
        self.selected_device = Some(device);
    }

    /// Selects a target.
    pub fn select_target(&mut self, target: String)
        ensures
            *final(self) == (FlutterControls { selected_target: Some(target), ..*old(self) }),
    {
        self.selected_target = Some(target);
    }

    /// What the controls show.
    pub fn render(&self) -> (view: ControlsView)
        ensures
            view.device_label@ == device_label(*self),
            texts(view.device_menu@) == device_names(self.devices@),
            self.devices@.len() == 0 ==> text_of(view.device_hint) == Some("No devices found"@),
            self.devices@.len() > 0 ==> view.device_hint is None,
            view.target_label@ == target_label(*self),
            texts(view.target_menu@) == texts(self.targets@),
    {
        let device_label: String = if self.is_loading_devices {
            "Loading...".to_owned()
        } else {
            match &self.selected_device {
                Some(device) => device.name.clone(),
                None => "No Device".to_owned(),
            }
        };
        let target_text: String = if self.is_loading_targets {
            "Loading...".to_owned()
        } else {
            match &self.selected_target {
                Some(target) => target.clone(),
                None => "No Target".to_owned(),
            }
        };
        let target_label: String = match file_name(self.path_style, target_text.as_str()) {
            Some(name) => name,
            None => target_text,
        };
        let mut device_menu: Vec<String> = Vec::new();
        let mut i: usize = 0;
        while i < self.devices.len()
            invariant
                i <= self.devices@.len(),
                texts(device_menu@) =~= device_names(self.devices@).take(i as int),
            decreases self.devices@.len() - i,
        {
            let ghost before = device_menu@;
            device_menu.push(self.devices[i].name.clone());
            assert(texts(device_menu@) =~= texts(before).push(self.devices@[i as int].name@));
            i = i + 1;
        }
        assert(device_names(self.devices@).take(self.devices@.len() as int) =~= device_names(
            self.devices@,
        ));
        let device_hint: Option<String> = if self.devices.len() == 0 {
            Some("No devices found".to_owned())
        } else {
            None
        };
        ControlsView {
            device_label,
            device_menu,
            device_hint,
            target_label,
            target_menu: clone_texts(&self.targets),
        }
    }

    /// The action that runs the selected target on the selected device.
    pub fn run(&self) -> (r: FlutterRun)
        ensures
            text_of(r.device_id) == match self.selected_device {
                Some(device) => Some(device.id@),
                None => None,
            },
            text_of(r.target) == run_target(*self),
            text_of(r.cwd) == run_cwd(*self),
    {
        let device_id: Option<String> = match &self.selected_device {
            Some(device) => Some(device.id.clone()),
            None => None,
        };
        let mut target: Option<String> = None;
        let mut cwd: Option<String> = None;
        if let Some(selected) = &self.selected_target {
            if let Some(file) = file_name(self.path_style, selected.as_str()) {
                target = Some(joined("lib/", file.as_str()));
            }
            if let Some(lib) = parent(self.path_style, selected.as_str()) {
                if let Some(package) = parent(self.path_style, lib.as_str()) {
                    if let Some(root) = &self.worktree_root {
                        cwd = Some(join(self.path_style, root.as_str(), package.as_str()));
                    }
                }
            }
        }
        FlutterRun { device_id, target, cwd }
    }
}

/// Strings with the same texts.
fn clone_texts(v: &Vec<String>) -> (r: Vec<String>)
    ensures
        texts(r@) == texts(v@),
{
    let mut r: Vec<String> = Vec::new();
    let mut i: usize = 0;
    while i < v.len()
        invariant
            i <= v@.len(),
            texts(r@) =~= texts(v@).take(i as int),
        decreases v@.len() - i,
    {
        let ghost before = r@;
        r.push(v[i].clone());
        assert(texts(r@) =~= texts(before).push(v@[i as int]@));
        i = i + 1;
    }
    assert(texts(v@).take(v@.len() as int) =~= texts(v@));
    r
}

/// A run of an entry point runs its file from `lib`, in the directory that its package's path
/// leads to from the root of the first worktree.
pub proof fn law_run_is_in_package(controls: FlutterControls, package: Seq<char>, file: Seq<char>)
    requires
        controls.selected_target matches Some(target) && is_target_of(
            controls.path_style,
            target@,
            package,
            file,
        ),
    ensures
        run_target(controls) == Some("lib/"@ + file),
        controls.worktree_root matches Some(root) ==> run_cwd(controls) == Some(
            path_from(controls.path_style, root@, package),
        ),
{
    law_target_path_parts(controls.path_style, package, file);
}

/// The controls run `file` from `lib`, in the directory that `package` leads to from the root of
/// the first worktree.
pub open spec fn runs_in_package(
    controls: FlutterControls,
    package: Seq<char>,
    file: Seq<char>,
) -> bool {
    &&& run_target(controls) == Some("lib/"@ + file)
    &&& controls.worktree_root matches Some(root) ==> run_cwd(controls) == Some(
        path_from(controls.path_style, root@, package),
    )
}

/// A run finds the entry point that was selected: its target, taken from the directory it runs
/// in, leads over the same segments as the selected target, taken from the root of the first
/// worktree. Where that directory is not verbatim, the two differ at most in how they write
/// separators, and where there is one way to write those, not at all.
pub proof fn law_run_leads_to_target(
    controls: FlutterControls,
    root: String,
    target: String,
    package: Seq<char>,
    file: Seq<char>,
)
    requires
        controls.worktree_root == Some(root),
        controls.selected_target == Some(target),
        is_target_of(controls.path_style, target@, package, file),
    ensures
        ({
            let style = controls.path_style;
            let run = path_from(style, run_cwd(controls)->0, run_target(controls)->0);
            let selected = path_from(style, root@, target@);
            &&& run_cwd(controls) is Some && run_target(controls) is Some
            &&& segments_of(style, run) == segments_of(style, selected)
            &&& !is_verbatim(style, run_cwd(controls)->0) ==> unified(style, run) == unified(
                style,
                selected,
            )
            &&& style == PathStyle::Posix ==> run == selected
        }),
{
    law_run_is_in_package(controls, package, file);
    reveal_strlit("lib");
    reveal_strlit("lib/");
    reveal_strlit("main");
    assert(file.subrange(0, 4)[0] == 'm');
    assert("lib/"@ + file =~= LIB_DIR@ + seq!['/'] + file);
    law_path_is_taken_in_two_steps(controls.path_style, root@, package, LIB_DIR@, file);
}

/// Whatever a scan of the worktrees finds can be run: it is an entry point of a package that one
/// of the worktrees holds, and selecting it runs that entry point, in the directory that the
/// package's path leads to from the root of the first worktree. That is the package's own
/// directory where the first worktree holds it.
pub proof fn law_found_targets_can_be_run(
    controls: FlutterControls,
    worktrees: Seq<Worktree>,
    target: Seq<char>,
)
    requires
        forall|i: int| 0 <= i < worktrees.len() ==> tree_is_named(
            controls.path_style,
            (#[trigger] worktrees[i]).root,
        ),
        with_worktrees(controls.path_style, worktrees).contains(target),
        controls.selected_target matches Some(selected) && selected@ == target,
    ensures
        exists|i: int, package: Seq<char>, file: Seq<char>|
            0 <= i < worktrees.len() && #[trigger] package_in(
                controls.path_style,
                worktrees[i].root,
                Seq::empty(),
                package,
                file,
            ) && is_target_of(controls.path_style, target, package, file) && runs_in_package(
                controls,
                package,
                file,
            ),
{
    let style = controls.path_style;
    law_scan_finds_all_targets_once(style, worktrees, target);
    let i = choose|i: int|
        0 <= i < worktrees.len() && tree_holds(
            style,
            (#[trigger] worktrees[i]).root,
            Seq::empty(),
            target,
        );
    law_found_targets_are_targets(style, worktrees[i].root, Seq::empty(), target);
    let (package, file) = choose|package: Seq<char>, file: Seq<char>|
        is_target_of(style, target, package, file) && #[trigger] package_in(
            style,
            worktrees[i].root,
            Seq::empty(),
            package,
            file,
        );
    law_run_is_in_package(controls, package, file);
}

/// The device button names the selected device, whichever it is, once devices were listed.
pub proof fn law_device_button_names_device(controls: FlutterControls)
    ensures
        controls.is_loading_devices ==> device_label(controls) == "Loading..."@,
        !controls.is_loading_devices && controls.selected_device is Some ==> device_label(controls)
            == controls.selected_device->0.name@,
        !controls.is_loading_devices && controls.selected_device is None ==> device_label(controls)
            == "No Device"@,
{
}

/// The list of devices names them all, in the order in which they were listed.
pub proof fn law_all_devices_are_named(devices: Seq<Device>)
    ensures
        device_names(devices).len() == devices.len(),
        forall|i: int|
            0 <= i < devices.len() ==> #[trigger] device_names(devices)[i] == devices[i].name@,
{
}

/// The target button names the file of the selected target, whichever it is, once targets were
/// looked for.
pub proof fn law_target_button_names_file(
    controls: FlutterControls,
    package: Seq<char>,
    file: Seq<char>,
)
    ensures
        controls.is_loading_targets ==> target_label(controls) == "Loading..."@,
        !controls.is_loading_targets && controls.selected_target is None ==> target_label(controls)
            == "No Target"@,
        !controls.is_loading_targets && controls.selected_target is Some && is_target_of(
            controls.path_style,
            controls.selected_target->0@,
            package,
            file,
        ) ==> target_label(controls) == file,
{
    let style = controls.path_style;
    reveal_strlit("Loading...");
    reveal_strlit("No Target");
    let none = Seq::<char>::empty();
    law_child_path(style, none, "Loading..."@);
    law_child_path(style, none, "No Target"@);
    assert(path_in(style, none, "Loading..."@) == "Loading..."@);
    assert(path_in(style, none, "No Target"@) == "No Target"@);
    if is_target_of(style, controls.selected_target->0@, package, file) {
        law_target_path_parts(style, package, file);
    }
}

/// Without a selected target no target is asked for, and without a target or a worktree no
/// directory is.
pub proof fn law_nothing_selected_asks_for_nothing(controls: FlutterControls)
    ensures
        controls.selected_target is None ==> run_target(controls) is None && run_cwd(
            controls,
        ) is None,
        controls.worktree_root is None ==> run_cwd(controls) is None,
{
}

/// What is run depends on the selected target and the root of the first worktree alone.
pub proof fn law_run_depends_on_selection(a: FlutterControls, b: FlutterControls)
    requires
        a.path_style == b.path_style,
        a.selected_target == b.selected_target,
        a.worktree_root == b.worktree_root,
    ensures
        run_target(a) == run_target(b),
        run_cwd(a) == run_cwd(b),
{
}

} // verus!
