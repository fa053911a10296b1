use flutter::actions::FlutterRun;
use flutter::controls::{Device, FlutterControls};
use flutter::paths::{join, PathStyle};
use flutter::targets::{
    find_dart_targets, names_entry_point, scan_worktrees, searches_in, DirEntry, DirListing, DirTree, LibEntry,
    Worktree,
};

fn file(name: &str) -> LibEntry {
    LibEntry { name: Some(name.to_string()), is_file: true }
}

fn dir(name: &str, contents: DirTree) -> DirEntry {
    DirEntry { name: Some(name.to_string()), contents: Some(contents) }
}

fn plain_file(name: &str) -> DirEntry {
    DirEntry { name: Some(name.to_string()), contents: None }
}

fn listed(entries: Vec<DirEntry>) -> DirTree {
    DirTree::Listed(DirListing { entries, has_pubspec: false, lib: None })
}

fn package(entries: Vec<DirEntry>, lib: Vec<LibEntry>) -> DirTree {
    DirTree::Listed(DirListing { entries, has_pubspec: true, lib: Some(lib) })
}

fn targets(tree: &DirTree) -> Vec<String> {
    let mut found = Vec::new();
    find_dart_targets(PathStyle::Posix, tree, "", &mut found);
    found
}

fn device(id: &str, name: &str) -> Device {
    Device {
        id: id.to_string(),
        name: name.to_string(),
        target_platform: "darwin".to_string(),
        emulator: false,
    }
}

fn strings(v: &[&str]) -> Vec<String> {
    v.iter().map(|s| s.to_string()).collect()
}

fn controls() -> FlutterControls {
    FlutterControls::new(PathStyle::Posix).0
}

#[test]
fn entry_points_are_main_files() {
    for name in ["main.dart", "main_dev.dart", "mainly.dart"] {
        assert!(names_entry_point(name));
    }
    for name in ["app.dart", "main.txt", "main", "Main.dart", "maindart", ""] {
        assert!(!names_entry_point(name));
    }
}

#[test]
fn hidden_and_build_directories_are_passed_over() {
    for name in [".git", ".dart_tool", ".", "build"] {
        assert!(!searches_in(name));
    }
    for name in ["lib", "builds", "packages", "a.b"] {
        assert!(searches_in(name));
    }
    let tree = listed(vec![
        dir(".hidden", package(vec![], vec![file("main.dart")])),
        dir("build", package(vec![], vec![file("main.dart")])),
        dir("app", package(vec![], vec![file("main.dart")])),
    ]);
    assert_eq!(targets(&tree), strings(&["app/lib/main.dart"]));
}

#[test]
fn packages_below_come_before_their_parent() {
    let tree = package(
        vec![
            plain_file("README.md"),
            dir("packages", listed(vec![dir("b", package(vec![], vec![file("main.dart")]))])),
            dir("example", package(vec![], vec![file("main_dev.dart"), file("x.dart")])),
        ],
        vec![file("main.dart"), file("app.dart")],
    );
    assert_eq!(
        targets(&tree),
        strings(&["packages/b/lib/main.dart", "example/lib/main_dev.dart", "lib/main.dart"])
    );
}

#[test]
fn directories_without_pubspec_or_lib_hold_no_targets() {
    let no_pubspec = DirTree::Listed(DirListing {
        entries: vec![],
        has_pubspec: false,
        lib: Some(vec![file("main.dart")]),
    });
    assert!(targets(&no_pubspec).is_empty());
    let no_lib = DirTree::Listed(DirListing { entries: vec![], has_pubspec: true, lib: None });
    assert!(targets(&no_lib).is_empty());
    assert!(targets(&DirTree::Unreadable).is_empty());
}

#[test]
fn names_that_are_no_text_and_directories_in_lib_are_passed_over() {
    let tree = package(
        vec![DirEntry { name: None, contents: Some(package(vec![], vec![file("main.dart")])) }],
        vec![
            LibEntry { name: None, is_file: true },
            LibEntry { name: Some("main_dir.dart".to_string()), is_file: false },
            file("main.dart"),
        ],
    );
    assert_eq!(targets(&tree), strings(&["lib/main.dart"]));
}

#[test]
fn nothing_is_found_twice() {
    let tree = package(vec![], vec![file("main.dart"), file("main.dart")]);
    let mut found = strings(&["before", "lib/main.dart"]);
    find_dart_targets(PathStyle::Posix, &tree, "", &mut found);
    assert_eq!(found, strings(&["before", "lib/main.dart"]));
}

#[test]
fn worktrees_are_scanned_in_order() {
    let worktrees = vec![
        Worktree { path: "/one".to_string(), root: package(vec![], vec![file("main.dart")]) },
        Worktree {
            path: "/two".to_string(),
            root: package(
                vec![dir("app", package(vec![], vec![file("main.dart")]))],
                vec![file("main.dart"), file("main_b.dart")],
            ),
        },
    ];
    let (root, found) = scan_worktrees(PathStyle::Posix, &worktrees);
    assert_eq!(root.as_deref(), Some("/one"));
    assert_eq!(found, strings(&["lib/main.dart", "app/lib/main.dart", "lib/main_b.dart"]));
    let (none, empty) = scan_worktrees(PathStyle::Posix, &vec![]);
    assert_eq!(none, None);
    assert!(empty.is_empty());
}

#[test]
fn new_controls_are_loading() {
    let (c, command) = FlutterControls::new(PathStyle::Posix);
    assert_eq!(command.program, "flutter");
    assert_eq!(command.args, strings(&["devices", "--machine"]));
    let view = c.render();
    assert_eq!(view.device_label, "Loading...");
    assert_eq!(view.target_label, "Loading...");
    assert_eq!(view.device_hint.as_deref(), Some("No devices found"));
    assert!(view.device_menu.is_empty() && view.target_menu.is_empty());
}

#[test]
fn first_device_is_selected() {
    let mut c = controls();
    c.devices_listed(Some(vec![device("a", "Phone"), device("b", "Desktop")]));
    assert_eq!(c.render().device_label, "Phone");
    assert_eq!(c.render().device_menu, strings(&["Phone", "Desktop"]));
    assert_eq!(c.render().device_hint, None);
    c.select_device(device("b", "Desktop"));
    c.refresh_devices();
    assert_eq!(c.render().device_label, "Loading...");
    c.devices_listed(Some(vec![device("a", "Phone")]));
    assert_eq!(c.render().device_label, "Desktop");
}

#[test]
fn failed_listing_keeps_devices() {
    let mut c = controls();
    c.devices_listed(None);
    assert_eq!(c.render().device_label, "No Device");
    c.devices_listed(Some(vec![]));
    assert_eq!(c.render().device_label, "No Device");
    c.devices_listed(Some(vec![device("a", "Phone")]));
    c.devices_listed(None);
    assert_eq!(c.render().device_menu, strings(&["Phone"]));
}

#[test]
fn targets_are_sorted_and_the_first_is_selected() {
    let mut c = controls();
    c.targets_found(
        Some("/w".to_string()),
        strings(&["lib/main.dart", "a/lib/main.dart", "a-b/lib/main_x.dart"]),
    );
    let view = c.render();
    assert_eq!(view.target_menu, strings(&["a-b/lib/main_x.dart", "a/lib/main.dart", "lib/main.dart"]));
    assert_eq!(view.target_label, "main_x.dart");
}

#[test]
fn selected_target_stays_while_it_is_there() {
    let mut c = controls();
    c.targets_found(Some("/w".to_string()), strings(&["a/lib/main.dart", "lib/main.dart"]));
    c.select_target("lib/main.dart".to_string());
    c.targets_found(Some("/w".to_string()), strings(&["lib/main.dart", "b/lib/main.dart"]));
    assert_eq!(c.selected_target.as_deref(), Some("lib/main.dart"));
    c.targets_found(Some("/w".to_string()), strings(&["c/lib/main.dart"]));
    assert_eq!(c.selected_target.as_deref(), Some("c/lib/main.dart"));
    c.refresh_targets();
    assert_eq!(c.render().target_label, "Loading...");
    c.targets_found(None, vec![]);
    assert_eq!(c.selected_target.as_deref(), Some("c/lib/main.dart"));
    assert_eq!(c.worktree_root, None);
}

#[test]
fn no_targets_leave_no_target() {
    let mut c = controls();
    c.targets_found(Some("/w".to_string()), vec![]);
    assert_eq!(c.render().target_label, "No Target");
}

fn run(c: &FlutterControls) -> (Option<String>, Option<String>, Option<String>) {
    let FlutterRun { device_id, target, cwd } = c.run();
    (device_id, target, cwd)
}

#[test]
fn run_is_in_the_targets_package() {
    let mut c = controls();
    assert_eq!(run(&c), (None, None, None));
    c.devices_listed(Some(vec![device("macos", "Mac")]));
    c.targets_found(Some("/w".to_string()), strings(&["packages/x/lib/main_dev.dart"]));
    assert_eq!(
        run(&c),
        (
            Some("macos".to_string()),
            Some("lib/main_dev.dart".to_string()),
            Some("/w/packages/x".to_string())
        )
    );
}

#[test]
fn run_of_the_root_package_is_in_the_root() {
    let mut c = controls();
    c.targets_found(Some("/w".to_string()), strings(&["lib/main.dart"]));
    assert_eq!(run(&c), (None, Some("lib/main.dart".to_string()), Some("/w/".to_string())));
    c.targets_found(None, strings(&["lib/main.dart"]));
    assert_eq!(run(&c).2, None);
}

#[test]
fn run_of_an_odd_target_has_what_its_path_has() {
    let mut c = controls();
    c.targets_found(Some("/w".to_string()), strings(&["main.dart"]));
    assert_eq!(run(&c), (None, Some("lib/main.dart".to_string()), None));
    c.select_target("a/..".to_string());
    assert_eq!(run(&c), (None, None, Some("/w/".to_string())));
}

#[test]
fn second_search_finds_nothing_more() {
    let tree = package(vec![dir("a", package(vec![], vec![file("main.dart")]))], vec![file("main.dart")]);
    let once = targets(&tree);
    assert_eq!(once, strings(&["a/lib/main.dart", "lib/main.dart"]));
    let mut twice = once.clone();
    find_dart_targets(PathStyle::Posix, &tree, "", &mut twice);
    assert_eq!(twice, once);
}

#[test]
fn windows_targets_are_found_and_run() {
    let tree = listed(vec![dir("packages", listed(vec![dir("x", package(vec![], vec![file("main.dart")]))]))]);
    let worktrees = vec![Worktree { path: "C:\\w".to_string(), root: tree }];
    let (root, found) = scan_worktrees(PathStyle::Windows, &worktrees);
    assert_eq!(found, strings(&["packages\\x\\lib\\main.dart"]));
    let mut c = FlutterControls::new(PathStyle::Windows).0;
    c.targets_found(root, found);
    assert_eq!(c.render().target_label, "main.dart");
    assert_eq!(
        run(&c),
        (None, Some("lib/main.dart".to_string()), Some("C:\\w\\packages\\x".to_string()))
    );
}

#[test]
fn run_is_taken_from_the_first_worktree() {
    let worktrees = vec![
        Worktree { path: "/one".to_string(), root: listed(vec![]) },
        Worktree { path: "/two".to_string(), root: package(vec![], vec![file("main.dart")]) },
    ];
    let (root, found) = scan_worktrees(PathStyle::Posix, &worktrees);
    let mut c = controls();
    c.targets_found(root, found);
    assert_eq!(run(&c).2, Some("/one/".to_string()));
}

#[test]
fn run_leads_to_the_selected_target() {
    for (style, root, target) in [
        (PathStyle::Posix, "/w", "packages/x/lib/main.dart"),
        (PathStyle::Posix, "/w/", "lib/main_dev.dart"),
        (PathStyle::Posix, "/", "a/lib/main.dart"),
        (PathStyle::Windows, "C:\\w", "packages\\x\\lib\\main.dart"),
        (PathStyle::Windows, "C:\\", "lib\\main.dart"),
        (PathStyle::Windows, "C:", "lib\\main.dart"),
        (PathStyle::Windows, "\\\\server\\share", "a\\lib\\main.dart"),
        (PathStyle::Windows, "\\\\?\\C:\\w", "a\\b\\lib\\main.dart"),
        (PathStyle::Windows, "\\\\?\\C:\\w", "lib\\main.dart"),
        (PathStyle::Windows, "\\\\?\\UNC\\server\\share\\w", "a\\lib\\main.dart"),
    ] {
        let mut c = FlutterControls::new(style).0;
        c.targets_found(Some(root.to_string()), strings(&[target]));
        let (_, run_target, cwd) = run(&c);
        let via = join(style, &cwd.unwrap(), &run_target.unwrap());
        let direct = join(style, root, target);
        match style {
            PathStyle::Posix => assert_eq!(via, direct),
            PathStyle::Windows => assert_eq!(via.replace('/', "\\"), direct),
        }
    }
}
