//! What the user can ask for: the actions of the title bar and the command palette, and
//! what they make of the log panel.

use crate::clock::is_clock_text;
use crate::log_view::FlutterLogPanel;
use crate::panel_model::{actions_of, clear_actions, run_entry, ActionModel, PanelAction};
use crate::text::text_of;
use vstd::prelude::*;

verus! {

/// Run the app: on a device, from an entry point, in a package's directory.
#[derive(Debug)]
pub struct FlutterRun {
    pub device_id: Option<String>,
    pub target: Option<String>,
    pub cwd: Option<String>,
}

/// The device to run on: the one that is asked for, or else the desktop.
pub open spec fn device_to_run(action: FlutterRun) -> Seq<char> {
    match action.device_id {
        Some(device_id) => device_id@,
        None => "macos"@,
    }
}

/// The entry point to run: the one that is asked for, or else the usual one.
pub open spec fn target_to_run(action: FlutterRun) -> Seq<char> {
    match action.target {
        Some(target) => target@,
        None => "lib/main.dart"@,
    }
}

/// Runs the app in the panel. `use_fvm` says whether the project uses FVM.
pub fn flutter_run<S: Copy>(
    panel: &mut FlutterLogPanel<S>,
    action: FlutterRun,
    use_fvm: bool,
) -> (actions: Vec<PanelAction>)
    requires
        old(panel)@.next_inlay_id < usize::MAX,
    ensures
        old(panel)@.wf() ==> final(panel)@.wf(),
        exists|t: Seq<char>|
            is_clock_text(t) && final(panel)@ == #[trigger] old(panel)@.before_run(
                text_of(action.cwd),
            ).logged(t, run_entry(device_to_run(action), target_to_run(action), use_fvm))
                && actions_of(actions@) == old(panel)@.run_actions(
                t,
                device_to_run(action),
                target_to_run(action),
                text_of(action.cwd),
                use_fvm,
            ).push(ActionModel::ToggleFocus),
{
    let device_id: String = match action.device_id {
        Some(device_id) => device_id,
        None => "macos".to_owned(),
    };
    let target: String = match action.target {
        Some(target) => target,
        None => "lib/main.dart".to_owned(),
    };
    let mut actions = panel.start_run(device_id, target, action.cwd, use_fvm);
    let ghost run = actions@;
    actions.push(PanelAction::ToggleFocus);
    assert(actions_of(actions@) =~= actions_of(run).push(ActionModel::ToggleFocus));
    actions
}

/// What to write to the app's process so that it reloads the app.
pub fn hot_reload<S: Copy>(panel: &FlutterLogPanel<S>) -> (input: Option<Vec<u8>>)
    ensures
        input is Some == panel@.running,
        input matches Some(bytes) ==> bytes@ == vstd::utf8::encode_utf8("r"@),
{
    panel.send_input("r")
}

/// What to write to the app's process so that it restarts the app. The log is emptied.
pub fn hot_restart<S: Copy>(panel: &mut FlutterLogPanel<S>) -> (r: (
    Option<Vec<u8>>,
    Vec<PanelAction>,
))
    ensures
        old(panel)@.wf() ==> final(panel)@.wf(),
        r.0 is Some == old(panel)@.running,
        r.0 matches Some(bytes) ==> bytes@ == vstd::utf8::encode_utf8("R"@),
        final(panel)@ == old(panel)@.cleared(),
        actions_of(r.1@) == clear_actions(),
{
    let input = panel.send_input("R");
    let actions = panel.clear_logs();
    (input, actions)
}

/// Stops the run of the app.
pub fn flutter_stop<S: Copy>(panel: &mut FlutterLogPanel<S>) -> (actions: Vec<PanelAction>)
    ensures
        old(panel)@.wf() ==> final(panel)@.wf(),
        final(panel)@ == old(panel)@.stopped(),
        actions_of(actions@) == old(panel)@.stop_actions(),
{
    panel.stop_run()
}

/// Shows the log, and looks for a VM service to follow.
pub fn open_flutter_logs<S: Copy>(panel: &mut FlutterLogPanel<S>) -> (actions: Vec<PanelAction>)
    ensures
        old(panel)@.wf() ==> final(panel)@.wf(),
        final(panel)@ == old(panel)@,
        actions_of(actions@) == seq![ActionModel::StartConnecting, ActionModel::ToggleFocus],
{
    let mut actions = panel.connect();
    let ghost asked = actions@;
    assert(asked.len() == actions_of(asked).len());
    assert(asked[0]@ == actions_of(asked)[0]);
    actions.push(PanelAction::ToggleFocus);
    assert(actions_of(actions@) =~= seq![ActionModel::StartConnecting, ActionModel::ToggleFocus]);
    actions
}

/// A run is of what is asked for, whatever that is; where nothing is asked for, of the usual
/// entry point on the desktop. What is asked for of the one does not matter for the other.
pub proof fn law_run_is_of_what_is_asked_for(
    device_id: Option<String>,
    target: Option<String>,
    cwd: Option<String>,
)
    ensures
        device_id matches Some(device) ==> device_to_run(FlutterRun { device_id, target, cwd })
            == device@,
        device_id is None ==> device_to_run(FlutterRun { device_id, target, cwd }) == "macos"@,
        target matches Some(asked) ==> target_to_run(FlutterRun { device_id, target, cwd })
            == asked@,
        target is None ==> target_to_run(FlutterRun { device_id, target, cwd })
            == "lib/main.dart"@,
{
}

} // verus!
