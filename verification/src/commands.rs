//! The command lines of Flutter's tools.

use crate::connection::SERVICE_FILE;
use crate::text::texts;
use vstd::prelude::*;

verus! {

/// A program and its arguments.
#[derive(Debug)]
pub struct CommandLine {
    pub program: String,
    pub args: Vec<String>,
}

/// A program and its arguments, as texts.
#[verifier::ext_equal]
pub struct CommandText {
    pub program: Seq<char>,
    pub args: Seq<Seq<char>>,
}

impl View for CommandLine {
    type V = CommandText;

    open spec fn view(&self) -> CommandText {
        CommandText { program: self.program@, args: texts(self.args@) }
    }
}

/// The command that lists the devices an app can run on, as JSON.
pub open spec fn devices_text() -> CommandText {
    CommandText { program: "flutter"@, args: seq!["devices"@, "--machine"@] }
}

/// The command that lists the devices an app can run on, as JSON.
pub fn devices_command() -> (r: CommandLine)
    ensures
        r@ == devices_text(),
{
    let mut args: Vec<String> = Vec::new();
    args.push("devices".to_owned());
    args.push("--machine".to_owned());
    let r = CommandLine { program: "flutter".to_owned(), args };
    assert(r@.args =~= devices_text().args);
    r
}

/// Where `flutter run` is told to leave the address of its VM service.
pub const SERVICE_FILE_ARG: &'static str = "--vmservice-out-file=.dart_tool/flutter_url";

/// The arguments of `flutter` that run the app.
pub open spec fn run_args(device_id: Seq<char>, target: Seq<char>) -> Seq<Seq<char>> {
    seq!["run"@, "-d"@, device_id, "-t"@, target, SERVICE_FILE_ARG@]
}

/// The command that runs the app, through FVM where the project uses it.
pub open spec fn run_text(use_fvm: bool, device_id: Seq<char>, target: Seq<char>) -> CommandText {
    if use_fvm {
        CommandText { program: "fvm"@, args: seq!["flutter"@] + run_args(device_id, target) }
    } else {
        CommandText { program: "flutter"@, args: run_args(device_id, target) }
    }
}

/// The command that runs the app, through FVM where the project uses it.
pub fn run_command(use_fvm: bool, device_id: &str, target: &str) -> (r: CommandLine)
    ensures
        r@ == run_text(use_fvm, device_id@, target@),
{
    let mut args: Vec<String> = Vec::new();
    if use_fvm {
        args.push("flutter".to_owned());
    }
    args.push("run".to_owned());
    args.push("-d".to_owned());
    args.push(device_id.to_owned());
    args.push("-t".to_owned());
    args.push(target.to_owned());
    args.push(SERVICE_FILE_ARG.to_owned());
    let program: String = if use_fvm {
        "fvm".to_owned()
    } else {
        "flutter".to_owned()
    };
    let r = CommandLine { program, args };
    assert(r@.args =~= run_text(use_fvm, device_id@, target@).args);
    r
}

/// The file by which older versions of FVM mark a project.
pub const FVM_CONFIG_FILE: &'static str = ".fvm/fvm_config.json";

/// The file by which newer versions of FVM mark a project.
pub const FVM_VERSION_FILE: &'static str = ".fvm/version";

/// The files by which FVM marks a project, and whether they are in a directory.
#[derive(Debug, Clone, Copy)]
pub struct FvmMarkers {
    /// [`FVM_CONFIG_FILE`] is there.
    pub config: bool,
    /// [`FVM_VERSION_FILE`] is there.
    pub version: bool,
}

/// A directory is marked as using FVM.
pub open spec fn is_marked(markers: FvmMarkers) -> bool {
    markers.config || markers.version
}

/// Whether a project is one of FVM's: the directory the app runs in is marked, or one of the
/// workspace's roots is.
pub open spec fn is_fvm_project(cwd: Option<FvmMarkers>, roots: Seq<FvmMarkers>) -> bool {
    (cwd is Some && is_marked(cwd->0)) || exists|i: int|
        0 <= i < roots.len() && is_marked(#[trigger] roots[i])
}

/// Whether the project uses FVM.
pub fn uses_fvm(cwd: Option<FvmMarkers>, workspace_roots: &Vec<FvmMarkers>) -> (r: bool)
    ensures
        r == ((cwd is Some && is_marked(cwd->0)) || exists|i: int|
            0 <= i < workspace_roots@.len() && is_marked(#[trigger] workspace_roots@[i])),
        r == is_fvm_project(cwd, workspace_roots@),
{
    if let Some(markers) = cwd {
        if markers.config || markers.version {
            return true;
        }
    }
    let mut i: usize = 0;
    while i < workspace_roots.len()
        invariant
            i <= workspace_roots@.len(),
            forall|j: int| 0 <= j < i ==> !is_marked(#[trigger] workspace_roots@[j]),
        decreases workspace_roots@.len() - i,
    {
        let markers = workspace_roots[i];
        if markers.config || markers.version {
            assert(is_marked(workspace_roots@[i as int]));
            return true;
        }
        i = i + 1;
    }
    false
}

/// What the command is called in the log.
pub open spec fn command_name(use_fvm: bool) -> Seq<char> {
    if use_fvm {
        "fvm flutter"@
    } else {
        "flutter"@
    }
}

/// The log's message that a run begins.
pub open spec fn starting_text(use_fvm: bool, device_id: Seq<char>, target: Seq<char>) -> Seq<
    char,
> {
    "Starting "@ + command_name(use_fvm) + " run -d "@ + device_id + " -t "@ + target
}

/// The log's message that a run begins.
pub fn starting_message(use_fvm: bool, device_id: &str, target: &str) -> (r: String)
    ensures
        r@ == starting_text(use_fvm, device_id@, target@),
{
    let mut r: String = "Starting ".to_owned();
    if use_fvm {
        r.append("fvm flutter");
    } else {
        r.append("flutter");
    }
    r.append(" run -d ");
    r.append(device_id);
    r.append(" -t ");
    r.append(target);
    r
}

/// `option` stands among the arguments, directly followed by `value`.
pub open spec fn has_option(args: Seq<Seq<char>>, option: Seq<char>, value: Seq<char>) -> bool {
    exists|i: int|
        0 <= i && i + 1 < args.len() && #[trigger] args[i] == option && args[i + 1] == value
}

/// The command runs the target that is asked for, on the device that is asked for, whatever
/// they are and whether or not through FVM, and tells it where to leave its address.
pub proof fn law_command_runs_what_is_asked_for(
    use_fvm: bool,
    device_id: Seq<char>,
    target: Seq<char>,
)
    ensures
        has_option(run_text(use_fvm, device_id, target).args, "-d"@, device_id),
        has_option(run_text(use_fvm, device_id, target).args, "-t"@, target),
        run_text(use_fvm, device_id, target).args.last() == SERVICE_FILE_ARG@,
        run_text(use_fvm, device_id, target).args.contains("run"@),
{
    let args = run_text(use_fvm, device_id, target).args;
    let k: int = if use_fvm {
        1
    } else {
        0
    };
    assert(args[k] == "run"@);
    assert(args[k + 1] == "-d"@ && args[k + 2] == device_id);
    assert(args[k + 3] == "-t"@ && args[k + 4] == target);
}

/// The arguments of the command that does not go through FVM: these six, in this order.
pub proof fn law_command_has_six_arguments(device_id: Seq<char>, target: Seq<char>)
    ensures
        run_text(false, device_id, target).program == "flutter"@,
        run_text(false, device_id, target).args == seq![
            "run"@,
            "-d"@,
            device_id,
            "-t"@,
            target,
            "--vmservice-out-file=.dart_tool/flutter_url"@,
        ],
{
}

/// Through FVM the same command is run, with its program as the first argument.
pub proof fn law_fvm_runs_same_command(device_id: Seq<char>, target: Seq<char>)
    ensures
        run_text(true, device_id, target).program == "fvm"@,
        run_text(true, device_id, target).args == seq![run_text(false, device_id, target).program]
            + run_text(false, device_id, target).args,
{
}

/// The file that the command is told to leave its address in is the one that is read for it.
pub proof fn law_address_is_left_where_it_is_read()
    ensures
        SERVICE_FILE_ARG@ == "--vmservice-out-file="@ + SERVICE_FILE@,
{
    reveal_strlit("--vmservice-out-file=.dart_tool/flutter_url");
    reveal_strlit("--vmservice-out-file=");
    reveal_strlit(".dart_tool/flutter_url");
    assert(SERVICE_FILE_ARG@ =~= "--vmservice-out-file="@ + SERVICE_FILE@);
}

/// The log names the command as it is run, up to its target.
pub proof fn law_start_is_told_as_it_is_run(
    use_fvm: bool,
    device_id: Seq<char>,
    target: Seq<char>,
)
    ensures
        starting_text(true, device_id, target) == "Starting fvm flutter run -d "@ + device_id
            + " -t "@ + target,
        starting_text(false, device_id, target) == "Starting flutter run -d "@ + device_id
            + " -t "@ + target,
{
    reveal_strlit("Starting fvm flutter run -d ");
    reveal_strlit("Starting flutter run -d ");
    reveal_strlit("Starting ");
    reveal_strlit("fvm flutter");
    reveal_strlit("flutter");
    reveal_strlit(" run -d ");
    assert("Starting "@ + "fvm flutter"@ + " run -d "@ =~= "Starting fvm flutter run -d "@);
    assert("Starting "@ + "flutter"@ + " run -d "@ =~= "Starting flutter run -d "@);
}

/// One marker is enough for a directory to use FVM, and without either it does not.
pub proof fn law_one_marker_is_enough(markers: FvmMarkers)
    ensures
        is_marked(markers) <==> markers.config || markers.version,
{
}

/// Devices are listed by `flutter devices --machine`.
pub proof fn law_devices_are_listed_by_flutter()
    ensures
        devices_text().program == "flutter"@,
        devices_text().args == seq!["devices"@, "--machine"@],
{
}

/// A directory is marked for FVM by its configuration or its version, in `.fvm`.
pub proof fn law_marker_files()
    ensures
        FVM_CONFIG_FILE@ == ".fvm/"@ + "fvm_config.json"@,
        FVM_VERSION_FILE@ == ".fvm/"@ + "version"@,
{
    reveal_strlit(".fvm/");
    reveal_strlit("fvm_config.json");
    reveal_strlit("version");
    reveal_strlit(".fvm/fvm_config.json");
    reveal_strlit(".fvm/version");
    assert(FVM_CONFIG_FILE@ =~= ".fvm/"@ + "fvm_config.json"@);
    assert(FVM_VERSION_FILE@ =~= ".fvm/"@ + "version"@);
}

} // verus!
