//! What calls of the log panel's functions, and of the actions on it, do to the panel and ask
//! for. Each law is about every result `r` that a call can have.

use crate::actions::{
    device_to_run, flutter_run, flutter_stop, hot_reload, hot_restart, open_flutter_logs,
    target_to_run, FlutterRun,
};
use crate::clock::is_clock_text;
use crate::dock::{DockGeometry, DockPosition};
use crate::log_entry::{
    event_entry, is_notable, law_groups_by_level_name, law_output_is_told, process_entry,
    EntryText, LevelGroup, LogEvent, ProcessEvent,
};
use crate::log_view::{FlutterLogPanel, PanelView};
use crate::panel_laws::{
    appended, inserted, law_lines_are_highlighted_by_level, law_log_adds_lines_only,
    law_log_appends_message, law_log_names_logger_once, law_run_keeps_the_rest, name_inlays,
    removed,
};
use crate::panel_model::{
    actions_of, message_lines, run_entry, ActionModel, Inlay, InlayId, InlayPlace, InlayText,
    LevelRanges, MetadataText, PanelAction, PanelModel,
};
use crate::text::{breaks_trimmed, text_of, texts};
use crate::vm_service::{InstanceRef, LogRecord};
use vstd::prelude::*;

verus! {

/// What is asked for, one by one, is what it is as texts.
proof fn lemma_actions_one_by_one(actions: Seq<PanelAction>)
    ensures
        actions_of(actions).len() == actions.len(),
        forall|i: int| 0 <= i < actions.len() ==> actions[i]@ == #[trigger] actions_of(actions)[i],
{
}

/// An entry that is written to the log leaves what is there as it is. Its text is appended, with
/// a line break at its end, and its first line has its timestamp and its logger.
pub proof fn law_add_log_at<S: Copy>(
    panel: &mut FlutterLogPanel<S>,
    timestamp: &str,
    message: &str,
    level: &str,
    logger_name: Option<String>,
    r: Vec<PanelAction>,
)
    requires
        call_ensures(
            FlutterLogPanel::<S>::add_log_at,
            (panel, timestamp, message, level, logger_name),
            r,
        ),
    ensures
        old(panel)@.metadata.is_prefix_of(final(panel)@.metadata),
        final(panel)@.metadata[old(panel)@.metadata.len() as int] == Some(
            MetadataText { timestamp: timestamp@, logger_name: text_of(logger_name) },
        ),
        final(panel)@.metadata.len() == old(panel)@.metadata.len() + message_lines(message@).len(),
        appended(actions_of(r@)) == breaks_trimmed(message@) + "\n"@,
        final(panel)@ == (PanelModel {
            metadata: final(panel)@.metadata,
            ranges: final(panel)@.ranges,
            next_inlay_id: final(panel)@.next_inlay_id,
            ..old(panel)@
        }),
        r@.len() > 0 && r@.last() == PanelAction::Notify,
        old(panel)@.auto_scroll ==> r@.len() > 1 && r@[r@.len() - 2] == PanelAction::ScrollToEnd,
        old(panel)@.wf() ==> final(panel)@.wf(),
{
    let entry = EntryText {
        message: message@,
        level: level@,
        logger_name: text_of(logger_name),
    };
    law_log_adds_lines_only(old(panel)@, timestamp@, entry);
    law_log_appends_message(old(panel)@, timestamp@, entry);
    lemma_actions_one_by_one(r@);
    assert(actions_of(r@)[r@.len() - 1] == r@[r@.len() - 1]@);
    if old(panel)@.auto_scroll {
        assert(actions_of(r@)[r@.len() - 2] == r@[r@.len() - 2]@);
    }
}

/// An entry that is written to the log now has its first line stamped with a time of day. Its
/// text is appended, with a line break at its end.
pub proof fn law_add_log<S: Copy>(
    panel: &mut FlutterLogPanel<S>,
    message: String,
    level: &str,
    logger_name: Option<String>,
    r: Vec<PanelAction>,
)
    requires
        call_ensures(FlutterLogPanel::<S>::add_log, (panel, message, level, logger_name), r),
    ensures
        final(panel)@.metadata.len() == old(panel)@.metadata.len() + message_lines(message@).len(),
        appended(actions_of(r@)) == breaks_trimmed(message@) + "\n"@,
        final(panel)@.metadata[old(panel)@.metadata.len() as int] matches Some(first)
            && is_clock_text(first.timestamp) && first.logger_name == text_of(logger_name),
        final(panel)@.running == old(panel)@.running,
        final(panel)@.vm_service_uri == old(panel)@.vm_service_uri,
        old(panel)@.wf() ==> final(panel)@.wf(),
{
    let entry = EntryText {
        message: message@,
        level: level@,
        logger_name: text_of(logger_name),
    };
    let t = choose|t: Seq<char>|
        is_clock_text(t) && final(panel)@ == #[trigger] old(panel)@.logged(t, entry) && actions_of(
            r@,
        ) == old(panel)@.log_actions(t, entry);
    law_log_adds_lines_only(old(panel)@, t, entry);
    law_log_appends_message(old(panel)@, t, entry);
}

/// With the cursor in a row that begins an entry, its timestamp is shown in place of the one
/// from before; with the cursor elsewhere, none is.
pub proof fn law_update_timestamp_inlay<S: Copy>(
    panel: &mut FlutterLogPanel<S>,
    row: Option<usize>,
    r: Vec<PanelAction>,
)
    requires
        call_ensures(FlutterLogPanel::<S>::update_timestamp_inlay, (panel, row), r),
        old(panel)@.next_inlay_id < usize::MAX,
    ensures
        ({
            let before = old(panel)@;
            let begins_entry = row is Some && row->0 < before.metadata.len()
                && before.metadata[row->0 as int] is Some;
            &&& begins_entry ==> final(panel)@ == (PanelModel {
                active_timestamp_inlay: Some(InlayId::LogTimestamp(before.next_inlay_id)),
                next_inlay_id: (before.next_inlay_id + 1) as usize,
                ..before
            })
            &&& !begins_entry ==> final(panel)@ == (PanelModel {
                active_timestamp_inlay: None,
                ..before
            })
            &&& r@.len() == if begins_entry || before.active_timestamp_inlay is Some {
                1int
            } else {
                0int
            }
            &&& r@.len() > 0 ==> (r@[0] matches PanelAction::SpliceInlays { remove, insert }
                && remove@ == match before.active_timestamp_inlay {
                Some(id) => seq![id],
                None => Seq::empty(),
            } && insert@.len() == if begins_entry {
                1int
            } else {
                0int
            } && (begins_entry ==> insert@[0].text@
                == before.metadata[row->0 as int]->0.timestamp))
        }),
{
    lemma_actions_one_by_one(r@);
    if r@.len() > 0 {
        assert(actions_of(r@)[0] == r@[0]@);
        if let PanelAction::SpliceInlays { remove, insert } = r@[0] {
            let shown = insert@.map_values(|inlay: Inlay| inlay@);
            assert(shown.len() == insert@.len());
            if insert@.len() > 0 {
                assert(shown[0] == insert@[0]@);
            }
        }
    }
}

/// Looking for the VM service asks for that alone.
pub proof fn law_connect<S: Copy>(panel: &mut FlutterLogPanel<S>, r: Vec<PanelAction>)
    requires
        call_ensures(FlutterLogPanel::<S>::connect, (panel,), r),
    ensures
        final(panel)@ == old(panel)@,
        r@ == seq![PanelAction::StartConnecting],
{
    lemma_actions_one_by_one(r@);
    assert(actions_of(r@)[0] == r@[0]@);
    assert(r@ =~= seq![PanelAction::StartConnecting]);
}

/// A search path is kept. Where there is no connection yet, it is looked for there.
pub proof fn law_set_search_path<S: Copy>(
    panel: &mut FlutterLogPanel<S>,
    path: String,
    r: Vec<PanelAction>,
)
    requires
        call_ensures(FlutterLogPanel::<S>::set_search_path, (panel, path), r),
    ensures
        final(panel)@ == (PanelModel { manual_search_path: Some(path@), ..old(panel)@ }),
        old(panel)@.vm_service_uri is None ==> r@ == seq![PanelAction::StartConnecting],
        old(panel)@.vm_service_uri is Some ==> r@.len() == 0,
{
    lemma_actions_one_by_one(r@);
    if old(panel)@.vm_service_uri is None {
        assert(actions_of(r@)[0] == r@[0]@);
        assert(r@ =~= seq![PanelAction::StartConnecting]);
    }
}

/// The directory that was set is looked in first, and then every root of the workspace.
pub proof fn law_search_paths<S: Copy>(
    panel: FlutterLogPanel<S>,
    roots: Vec<String>,
    r: Vec<String>,
)
    requires
        call_ensures(FlutterLogPanel::<S>::search_paths, (&panel, roots), r),
    ensures
        panel@.manual_search_path is None ==> texts(r@) == texts(roots@),
        panel@.manual_search_path matches Some(path) ==> r@.len() == roots@.len() + 1 && r@[0]@
            == path && forall|i: int|
            0 <= i < roots@.len() ==> (#[trigger] r@[i + 1])@ == roots@[i]@,
{
    assert(texts(r@).len() == r@.len());
    if let Some(path) = panel@.manual_search_path {
        assert(texts(r@) == seq![path] + texts(roots@));
        assert(texts(r@)[0] == r@[0]@);
        assert forall|i: int| 0 <= i < roots@.len() implies (#[trigger] r@[i + 1])@
            == roots@[i]@ by {
            assert(texts(r@)[i + 1] == r@[i + 1]@);
            assert(texts(roots@)[i] == roots@[i]@);
        }
    }
}

/// A connection is kept as it was made, and its log is followed.
pub proof fn law_handle_connection<S: Copy>(
    panel: &mut FlutterLogPanel<S>,
    uri: String,
    r: Vec<PanelAction>,
)
    requires
        call_ensures(FlutterLogPanel::<S>::handle_connection, (panel, uri), r),
    ensures
        final(panel)@ == (PanelModel {
            vm_service_uri: Some(uri@),
            vm_connected: true,
            ..old(panel)@
        }),
        r@ == seq![PanelAction::StartSession],
{
    lemma_actions_one_by_one(r@);
    assert(actions_of(r@)[0] == r@[0]@);
    assert(r@ =~= seq![PanelAction::StartSession]);
}

/// Whether the log is followed is what was asked for last.
pub proof fn law_toggle_auto_scroll<S: Copy>(
    panel: &mut FlutterLogPanel<S>,
    checked: bool,
    r: Vec<PanelAction>,
)
    requires
        call_ensures(FlutterLogPanel::<S>::toggle_auto_scroll, (panel, checked), r),
    ensures
        final(panel)@ == (PanelModel { auto_scroll: checked, ..old(panel)@ }),
        checked ==> r@ == seq![PanelAction::RequestAutoscroll, PanelAction::Notify],
        !checked ==> r@ == seq![PanelAction::Notify],
{
    lemma_actions_one_by_one(r@);
    assert(actions_of(r@)[0] == r@[0]@);
    if checked {
        assert(actions_of(r@)[1] == r@[1]@);
        assert(r@ =~= seq![PanelAction::RequestAutoscroll, PanelAction::Notify]);
    } else {
        assert(r@ =~= seq![PanelAction::Notify]);
    }
}

/// Emptying the log forgets its lines, their highlights and the inlays, and nothing else. The
/// editor's text is emptied.
pub proof fn law_clear_logs<S: Copy>(panel: &mut FlutterLogPanel<S>, r: Vec<PanelAction>)
    requires
        call_ensures(FlutterLogPanel::<S>::clear_logs, (panel,), r),
    ensures
        final(panel)@.metadata.len() == 0,
        final(panel)@ == (PanelModel {
            metadata: final(panel)@.metadata,
            ranges: final(panel)@.ranges,
            next_inlay_id: 0,
            active_timestamp_inlay: None,
            ..old(panel)@
        }),
        final(panel)@.ranges.fine.len() == 0 && final(panel)@.ranges.info.len() == 0,
        final(panel)@.ranges.warning.len() == 0 && final(panel)@.ranges.severe.len() == 0,
        r@.len() == 3,
        r@[0] == PanelAction::ClearText,
        r@[1] matches PanelAction::SpliceInlays { remove, insert } && remove@.len() == 0
            && insert@.len() == 0,
        r@[2] == PanelAction::Notify,
{
    lemma_actions_one_by_one(r@);
    assert(actions_of(r@)[0] == r@[0]@);
    assert(actions_of(r@)[1] == r@[1]@);
    assert(actions_of(r@)[2] == r@[2]@);
    if let PanelAction::SpliceInlays { remove, insert } = r@[1] {
        assert(insert@.map_values(|inlay: Inlay| inlay@).len()
            == insert@.len());
    }
}

/// Refreshing empties the log, and then ends what the connection task does and looks for the VM
/// service anew.
pub proof fn law_refresh<S: Copy>(panel: &mut FlutterLogPanel<S>, r: Vec<PanelAction>)
    requires
        call_ensures(FlutterLogPanel::<S>::refresh, (panel,), r),
    ensures
        final(panel)@.metadata.len() == 0,
        final(panel)@.next_inlay_id == 0,
        final(panel)@.active_timestamp_inlay is None,
        final(panel)@.running == old(panel)@.running,
        final(panel)@.vm_service_uri == old(panel)@.vm_service_uri,
        final(panel)@.vm_connected == old(panel)@.vm_connected,
        final(panel)@.manual_search_path == old(panel)@.manual_search_path,
        final(panel)@.auto_scroll == old(panel)@.auto_scroll,
        final(panel)@.dock == old(panel)@.dock,
        r@.len() == 6,
        r@[0] == PanelAction::ClearText && r@[1] is SpliceInlays && r@[2] == PanelAction::Notify,
        r@.skip(3) == seq![
            PanelAction::CancelConnection,
            PanelAction::StartConnecting,
            PanelAction::Notify,
        ],
{
    lemma_actions_one_by_one(r@);
    assert(actions_of(r@)[0] == r@[0]@);
    assert(actions_of(r@)[1] == r@[1]@);
    assert(actions_of(r@)[2] == r@[2]@);
    assert(actions_of(r@)[3] == r@[3]@);
    assert(actions_of(r@)[4] == r@[4]@);
    assert(actions_of(r@)[5] == r@[5]@);
    assert(r@.skip(3) =~= seq![
        PanelAction::CancelConnection,
        PanelAction::StartConnecting,
        PanelAction::Notify,
    ]);
}

/// Stopping forgets the run and the connection, and nothing else. A process that runs is killed
/// first, and both tasks are ended.
pub proof fn law_stop_run<S: Copy>(panel: &mut FlutterLogPanel<S>, r: Vec<PanelAction>)
    requires
        call_ensures(FlutterLogPanel::<S>::stop_run, (panel,), r),
    ensures
        final(panel)@ == (PanelModel {
            running: false,
            vm_service_uri: None,
            vm_connected: false,
            ..old(panel)@
        }),
        old(panel)@.running ==> r@ == seq![
            PanelAction::KillProcess,
            PanelAction::CancelRun,
            PanelAction::CancelConnection,
            PanelAction::Notify,
        ],
        !old(panel)@.running ==> r@ == seq![
            PanelAction::CancelRun,
            PanelAction::CancelConnection,
            PanelAction::Notify,
        ],
{
    lemma_actions_one_by_one(r@);
    assert(actions_of(r@)[0] == r@[0]@);
    assert(actions_of(r@)[1] == r@[1]@);
    assert(actions_of(r@)[2] == r@[2]@);
    if old(panel)@.running {
        assert(actions_of(r@)[3] == r@[3]@);
        assert(r@ =~= seq![
            PanelAction::KillProcess,
            PanelAction::CancelRun,
            PanelAction::CancelConnection,
            PanelAction::Notify,
        ]);
    } else {
        assert(r@ =~= seq![
            PanelAction::CancelRun,
            PanelAction::CancelConnection,
            PanelAction::Notify,
        ]);
    }
}

/// Starting a run: the panel runs, without a connection, and at the end exactly the process that
/// is asked for is started and its VM service looked for. The run's entry in the log comes
/// behind what was logged before.
pub proof fn law_start_run_at<S: Copy>(
    panel: &mut FlutterLogPanel<S>,
    timestamp: &str,
    device_id: String,
    target: String,
    cwd: Option<String>,
    use_fvm: bool,
    r: Vec<PanelAction>,
)
    requires
        call_ensures(
            FlutterLogPanel::<S>::start_run_at,
            (panel, timestamp, device_id, target, cwd, use_fvm),
            r,
        ),
    ensures
        final(panel)@.running,
        final(panel)@.vm_service_uri is None && !final(panel)@.vm_connected,
        cwd matches Some(dir) ==> final(panel)@.manual_search_path == Some(dir@),
        cwd is None ==> final(panel)@.manual_search_path == old(panel)@.manual_search_path,
        final(panel)@.auto_scroll == old(panel)@.auto_scroll,
        final(panel)@.dock == old(panel)@.dock,
        old(panel)@.metadata.is_prefix_of(final(panel)@.metadata),
        final(panel)@.metadata[old(panel)@.metadata.len() as int] == Some(
            MetadataText { timestamp: timestamp@, logger_name: Some("flutter"@) },
        ),
        r@.len() >= 3,
        old(panel)@.running ==> r@[0] == PanelAction::KillProcess,
        r@[r@.len() - 3] matches PanelAction::SpawnRun { device_id: d, target: t, cwd: c } && d@
            == device_id@ && t@ == target@ && text_of(c) == text_of(cwd),
        r@[r@.len() - 2] == PanelAction::StartConnecting,
        r@[r@.len() - 1] == PanelAction::Notify,
        old(panel)@.wf() ==> final(panel)@.wf(),
{
    let before = old(panel)@;
    let entry = run_entry(device_id@, target@, use_fvm);
    let started = before.before_run(text_of(cwd));
    law_run_keeps_the_rest(before, text_of(cwd));
    law_log_adds_lines_only(started, timestamp@, entry);
    lemma_run_ends(before, timestamp@, device_id@, target@, text_of(cwd), use_fvm);
    lemma_actions_one_by_one(r@);
    let n = r@.len() as int;
    assert(actions_of(r@)[n - 3] == r@[n - 3]@);
    assert(actions_of(r@)[n - 2] == r@[n - 2]@);
    assert(actions_of(r@)[n - 1] == r@[n - 1]@);
    if before.running {
        assert(actions_of(r@)[0] == r@[0]@);
    }
}

/// How what starting a run asks for begins and ends.
proof fn lemma_run_ends<S>(
    panel: PanelModel<S>,
    timestamp: Seq<char>,
    device_id: Seq<char>,
    target: Seq<char>,
    cwd: Option<Seq<char>>,
    use_fvm: bool,
)
    ensures
        ({
            let actions = panel.run_actions(timestamp, device_id, target, cwd, use_fvm);
            let n = actions.len() as int;
            &&& n >= 3
            &&& panel.running ==> actions[0] == ActionModel::KillProcess
            &&& actions[n - 3] == (ActionModel::SpawnRun { device_id, target, cwd })
            &&& actions[n - 2] == ActionModel::StartConnecting
            &&& actions[n - 1] == ActionModel::Notify
        }),
{
}

/// An entry's lines are highlighted in the group of its level, and in no other; the highlights
/// from before stay.
pub proof fn law_add_log_at_highlights<S: Copy>(
    panel: &mut FlutterLogPanel<S>,
    timestamp: &str,
    message: &str,
    level: &str,
    logger_name: Option<String>,
    r: Vec<PanelAction>,
    line: usize,
)
    requires
        call_ensures(
            FlutterLogPanel::<S>::add_log_at,
            (panel, timestamp, message, level, logger_name),
            r,
        ),
        old(panel)@.wf(),
        final(panel)@.metadata.len() <= usize::MAX,
        line < final(panel)@.metadata.len(),
    ensures
        line < old(panel)@.metadata.len() ==> forall|g: LevelGroup|
            (#[trigger] final(panel)@.ranges.of(g)).contains(line) <==> old(panel)@.ranges.of(
                g,
            ).contains(line),
        line >= old(panel)@.metadata.len() ==> {
            &&& final(panel)@.ranges.fine.contains(line) <==> level@ == "FINE"@
            &&& final(panel)@.ranges.info.contains(line) <==> level@ == "INFO"@
            &&& final(panel)@.ranges.warning.contains(line) <==> level@ == "WARNING"@
            &&& final(panel)@.ranges.severe.contains(line) <==> level@ == "SEVERE"@ || level@
                == "SHOUT"@ || level@ == "ERROR"@
        },
{
    let entry = EntryText {
        message: message@,
        level: level@,
        logger_name: text_of(logger_name),
    };
    let before = old(panel)@;
    law_log_adds_lines_only(before, timestamp@, entry);
    law_groups_by_level_name(level@);
    assert forall|g: LevelGroup| line < before.metadata.len() implies ((
    #[trigger] final(panel)@.ranges.of(g)).contains(line) <==> before.ranges.of(g).contains(
        line,
    )) by {
        law_lines_are_highlighted_by_level(before, timestamp@, entry, g, line);
    }
    law_lines_are_highlighted_by_level(before, timestamp@, entry, LevelGroup::Fine, line);
    law_lines_are_highlighted_by_level(before, timestamp@, entry, LevelGroup::Info, line);
    law_lines_are_highlighted_by_level(before, timestamp@, entry, LevelGroup::Warning, line);
    law_lines_are_highlighted_by_level(before, timestamp@, entry, LevelGroup::Severe, line);
}

/// An entry's logger is named once, before the entry's first line, under a new id; without a
/// logger no inlay is put in. No inlay is taken away.
pub proof fn law_add_log_at_names_logger<S: Copy>(
    panel: &mut FlutterLogPanel<S>,
    timestamp: &str,
    message: &str,
    level: &str,
    logger_name: Option<String>,
    r: Vec<PanelAction>,
)
    requires
        call_ensures(
            FlutterLogPanel::<S>::add_log_at,
            (panel, timestamp, message, level, logger_name),
            r,
        ),
        old(panel)@.next_inlay_id < usize::MAX,
    ensures
        removed(actions_of(r@)).len() == 0,
        logger_name is None ==> inserted(actions_of(r@)).len() == 0 && final(panel)@.next_inlay_id
            == old(panel)@.next_inlay_id,
        logger_name matches Some(name) ==> final(panel)@.next_inlay_id == old(
            panel,
        )@.next_inlay_id + 1 && inserted(actions_of(r@)) == seq![
            InlayText {
                id: InlayId::LogName(old(panel)@.next_inlay_id),
                place: InlayPlace::LineStart(old(panel)@.metadata.len() as usize),
                text: name@ + " "@,
            },
        ],
{
    let entry = EntryText {
        message: message@,
        level: level@,
        logger_name: text_of(logger_name),
    };
    law_log_names_logger_once(old(panel)@, timestamp@, entry);
    assert(name_inlays(old(panel)@, entry).len() <= 1);
}

/// Something that happened to the process ends the run where it is its end or a failure, and is
/// told of as such; the connection stays as it is.
pub proof fn law_process_event_at<S: Copy>(
    panel: &mut FlutterLogPanel<S>,
    timestamp: &str,
    event: ProcessEvent,
    r: (Vec<PanelAction>, bool),
)
    requires
        call_ensures(FlutterLogPanel::<S>::process_event_at, (panel, timestamp, event), r),
    ensures
        r.1 <==> event is Exited,
        event is Exited || event is Error ==> !final(panel)@.running,
        event is Stdout || event is Stderr ==> final(panel)@.running == old(panel)@.running,
        final(panel)@.vm_service_uri == old(panel)@.vm_service_uri,
        final(panel)@.vm_connected == old(panel)@.vm_connected,
        final(panel)@.manual_search_path == old(panel)@.manual_search_path,
        old(panel)@.metadata.is_prefix_of(final(panel)@.metadata),
        event matches ProcessEvent::Stderr(line) ==> appended(actions_of(r.0@)) == breaks_trimmed(
            line@,
        ) + "\n"@,
        event matches ProcessEvent::Error(message) ==> appended(actions_of(r.0@))
            == breaks_trimmed(message@) + "\n"@,
        event matches ProcessEvent::Stdout(line) ==> {
            &&& !old(panel)@.vm_connected || is_notable(line@) ==> appended(actions_of(r.0@))
                == breaks_trimmed(line@) + "\n"@
            &&& old(panel)@.vm_connected && !is_notable(line@) ==> r.0@.len() == 0
                && final(panel)@ == old(panel)@
        },
        old(panel)@.wf() ==> final(panel)@.wf(),
{
    let before = old(panel)@;
    if let Some(entry) = process_entry(before.vm_connected, event) {
        law_log_adds_lines_only(before, timestamp@, entry);
        law_log_appends_message(before, timestamp@, entry);
    }
    if let ProcessEvent::Stdout(line) = event {
        law_output_is_told(before.vm_connected, line);
    }
    assert(actions_of(r.0@).len() == r.0@.len());
}

/// A message of the app is written to the log under its own text, and its logger's name.
pub proof fn law_log_event_at<S: Copy>(
    panel: &mut FlutterLogPanel<S>,
    timestamp: &str,
    record: LogRecord,
    r: Vec<PanelAction>,
)
    requires
        call_ensures(
            FlutterLogPanel::<S>::log_event_at,
            (panel, timestamp, LogEvent::Log(record)),
            r,
        ),
    ensures
        record.message matches Some(InstanceRef { value_as_string: Some(text) }) ==> appended(
            actions_of(r@),
        ) == breaks_trimmed(text@) + "\n"@,
        final(panel)@.metadata[old(panel)@.metadata.len() as int] matches Some(first)
            && first.timestamp == timestamp@ && first.logger_name == match record.logger_name {
            Some(InstanceRef { value_as_string: Some(name) }) => Some(name@),
            _ => None,
        },
        final(panel)@.running == old(panel)@.running,
        final(panel)@.vm_service_uri == old(panel)@.vm_service_uri,
        old(panel)@.wf() ==> final(panel)@.wf(),
{
    let entry = event_entry(LogEvent::Log(record));
    law_log_adds_lines_only(old(panel)@, timestamp@, entry);
    law_log_appends_message(old(panel)@, timestamp@, entry);
}

/// Only where there is a run is anything written to it, and then the text that is given.
pub proof fn law_send_input<S: Copy>(
    panel: FlutterLogPanel<S>,
    text: &str,
    r: Option<Vec<u8>>,
)
    requires
        call_ensures(FlutterLogPanel::<S>::send_input, (&panel, text), r),
    ensures
        r is Some <==> panel@.running,
        r matches Some(bytes) ==> bytes@ == vstd::utf8::encode_utf8(text@),
{
}

/// What the panel shows: hot reload and restart are there for a run, and the status tells of a
/// connection.
pub proof fn law_panel_shows<S: Copy>(panel: FlutterLogPanel<S>, r: PanelView)
    requires
        call_ensures(FlutterLogPanel::<S>::render, (&panel,), r),
    ensures
        r.title@ == "Flutter Logs"@,
        r.hot_reload_disabled <==> !panel@.running,
        r.hot_restart_disabled <==> !panel@.running,
        r.auto_scroll == panel@.auto_scroll,
        panel@.vm_service_uri is Some ==> r.status@ == "Connected"@,
        panel@.vm_service_uri is None ==> r.status@ == "Disconnected"@,
{
}

/// A new panel is empty and idle, docked at the bottom, and follows its log.
pub proof fn law_panel_begins<S: Copy>(default_size: S, r: FlutterLogPanel<S>)
    requires
        call_ensures(FlutterLogPanel::<S>::new, (default_size,), r),
    ensures
        r@.metadata.len() == 0 && r@.next_inlay_id == 0 && r@.active_timestamp_inlay is None,
        r@.vm_service_uri is None && !r@.vm_connected && r@.manual_search_path is None,
        r@.auto_scroll && !r@.running,
        r@.dock.position == DockPosition::Bottom && r@.dock.width is None,
        r@.dock.height == Some(default_size) && r@.dock.default_size == default_size,
        r@.wf(),
{
}

/// What the panel tells of itself is what it holds.
pub proof fn law_panel_tells<S: Copy>(
    panel: FlutterLogPanel<S>,
    row: usize,
    timestamp: Option<String>,
    running: bool,
    connected: bool,
    has_id: bool,
    position: DockPosition,
)
    requires
        call_ensures(FlutterLogPanel::<S>::timestamp_in, (&panel, Some(row)), timestamp),
        call_ensures(FlutterLogPanel::<S>::is_running, (&panel,), running),
        call_ensures(FlutterLogPanel::<S>::is_connected, (&panel,), connected),
        call_ensures(FlutterLogPanel::<S>::has_inlay_id, (&panel,), has_id),
        call_ensures(FlutterLogPanel::<S>::position, (&panel,), position),
    ensures
        row < panel@.metadata.len() && panel@.metadata[row as int] is Some ==> text_of(timestamp)
            == Some(panel@.metadata[row as int]->0.timestamp),
        row >= panel@.metadata.len() || panel@.metadata[row as int] is None ==> timestamp is None,
        running == panel@.running,
        connected == panel@.vm_connected,
        has_id <==> panel@.next_inlay_id < usize::MAX,
        position == panel@.dock.position,
{
}

/// The panel's place and size: it stands where it was put, with the size that it was given there.
pub proof fn law_panel_is_docked<S: Copy>(
    moved: &mut FlutterLogPanel<S>,
    position: DockPosition,
    moving: Vec<PanelAction>,
    sized: &mut FlutterLogPanel<S>,
    size: Option<S>,
    sizing: Vec<PanelAction>,
    panel: FlutterLogPanel<S>,
    shown: S,
)
    requires
        call_ensures(FlutterLogPanel::<S>::set_position, (moved, position), moving),
        call_ensures(FlutterLogPanel::<S>::set_size, (sized, size), sizing),
        call_ensures(FlutterLogPanel::<S>::size, (&panel,), shown),
    ensures
        final(moved)@ == (PanelModel {
            dock: DockGeometry { position, ..old(moved)@.dock },
            ..old(moved)@
        }),
        moving@ == seq![PanelAction::Notify],
        old(sized)@.dock.position == DockPosition::Bottom ==> final(sized)@ == (PanelModel {
            dock: DockGeometry { height: size, ..old(sized)@.dock },
            ..old(sized)@
        }),
        old(sized)@.dock.position != DockPosition::Bottom ==> final(sized)@ == (PanelModel {
            dock: DockGeometry { width: size, ..old(sized)@.dock },
            ..old(sized)@
        }),
        sizing@ == seq![PanelAction::Notify],
        panel@.dock.position == DockPosition::Bottom && panel@.dock.height is Some ==> shown
            == panel@.dock.height->0,
        panel@.dock.position != DockPosition::Bottom && panel@.dock.width is Some ==> shown
            == panel@.dock.width->0,
        panel@.dock.width is None && (panel@.dock.height is None || panel@.dock.position
            != DockPosition::Bottom) ==> shown == panel@.dock.default_size,
{
    lemma_actions_one_by_one(moving@);
    lemma_actions_one_by_one(sizing@);
    assert(actions_of(moving@)[0] == moving@[0]@);
    assert(actions_of(sizing@)[0] == sizing@[0]@);
    assert(moving@ =~= seq![PanelAction::Notify]);
    assert(sizing@ =~= seq![PanelAction::Notify]);
}

/// Hot reload and hot restart write their letters to a run, and nothing where there is none. A
/// restart empties the log and leaves the run and the connection alone.
pub proof fn law_hot_reload_and_restart<S: Copy>(
    panel: FlutterLogPanel<S>,
    reload: Option<Vec<u8>>,
    restarted: &mut FlutterLogPanel<S>,
    restart: (Option<Vec<u8>>, Vec<PanelAction>),
)
    requires
        call_ensures(hot_reload::<S>, (&panel,), reload),
        call_ensures(hot_restart::<S>, (restarted,), restart),
    ensures
        reload is Some <==> panel@.running,
        reload matches Some(bytes) ==> bytes@ == vstd::utf8::encode_utf8("r"@),
        restart.0 is Some <==> old(restarted)@.running,
        restart.0 matches Some(bytes) ==> bytes@ == vstd::utf8::encode_utf8("R"@),
        final(restarted)@.metadata.len() == 0,
        final(restarted)@.running == old(restarted)@.running,
        final(restarted)@.vm_service_uri == old(restarted)@.vm_service_uri,
        final(restarted)@.vm_connected == old(restarted)@.vm_connected,
        restart.1@.len() == 3 && restart.1@[0] == PanelAction::ClearText,
{
    lemma_actions_one_by_one(restart.1@);
    assert(actions_of(restart.1@)[0] == restart.1@[0]@);
}

/// Stopping the app stops the panel's run.
pub proof fn law_flutter_stop<S: Copy>(panel: &mut FlutterLogPanel<S>, r: Vec<PanelAction>)
    requires
        call_ensures(flutter_stop::<S>, (panel,), r),
    ensures
        final(panel)@ == (PanelModel {
            running: false,
            vm_service_uri: None,
            vm_connected: false,
            ..old(panel)@
        }),
        old(panel)@.running <==> r@.contains(PanelAction::KillProcess),
        r@.contains(PanelAction::CancelRun) && r@.contains(PanelAction::CancelConnection),
{
    let before = old(panel)@;
    lemma_actions_one_by_one(r@);
    assert(actions_of(r@)[0] == r@[0]@);
    assert(actions_of(r@)[1] == r@[1]@);
    assert(actions_of(r@)[2] == r@[2]@);
    if before.running {
        assert(r@[0] == PanelAction::KillProcess);
        assert(r@[1] == PanelAction::CancelRun);
        assert(r@[2] == PanelAction::CancelConnection);
    } else {
        assert(r@[0] == PanelAction::CancelRun);
        assert(r@[1] == PanelAction::CancelConnection);
        assert(r@[2] == PanelAction::Notify);
        assert(r@.len() == 3);
    }
}

/// Showing the log looks for the VM service and moves the focus, and changes nothing else.
pub proof fn law_open_flutter_logs<S: Copy>(panel: &mut FlutterLogPanel<S>, r: Vec<PanelAction>)
    requires
        call_ensures(open_flutter_logs::<S>, (panel,), r),
    ensures
        final(panel)@ == old(panel)@,
        r@ == seq![PanelAction::StartConnecting, PanelAction::ToggleFocus],
{
    lemma_actions_one_by_one(r@);
    assert(actions_of(r@)[0] == r@[0]@);
    assert(actions_of(r@)[1] == r@[1]@);
    assert(r@ =~= seq![PanelAction::StartConnecting, PanelAction::ToggleFocus]);
}

/// Running the app starts the process for what is asked for, or else for the usual entry point
/// on the desktop, and moves the focus.
pub proof fn law_flutter_run<S: Copy>(
    panel: &mut FlutterLogPanel<S>,
    action: FlutterRun,
    use_fvm: bool,
    r: Vec<PanelAction>,
)
    requires
        call_ensures(flutter_run::<S>, (panel, action, use_fvm), r),
    ensures
        final(panel)@.running,
        final(panel)@.vm_service_uri is None && !final(panel)@.vm_connected,
        action.cwd matches Some(dir) ==> final(panel)@.manual_search_path == Some(dir@),
        old(panel)@.metadata.is_prefix_of(final(panel)@.metadata),
        r@.len() >= 4,
        old(panel)@.running ==> r@[0] == PanelAction::KillProcess,
        r@[r@.len() - 4] matches PanelAction::SpawnRun { device_id, target, cwd } && {
            &&& action.device_id matches Some(asked) ==> device_id@ == asked@
            &&& action.device_id is None ==> device_id@ == "macos"@
            &&& action.target matches Some(asked) ==> target@ == asked@
            &&& action.target is None ==> target@ == "lib/main.dart"@
            &&& text_of(cwd) == text_of(action.cwd)
        },
        r@[r@.len() - 3] == PanelAction::StartConnecting,
        r@[r@.len() - 2] == PanelAction::Notify,
        r@[r@.len() - 1] == PanelAction::ToggleFocus,
        old(panel)@.wf() ==> final(panel)@.wf(),
{
    let before = old(panel)@;
    let device_id = device_to_run(action);
    let target = target_to_run(action);
    let cwd = text_of(action.cwd);
    let entry = run_entry(device_id, target, use_fvm);
    let t = choose|t: Seq<char>|
        is_clock_text(t) && final(panel)@ == #[trigger] before.before_run(cwd).logged(t, entry)
            && actions_of(r@) == before.run_actions(t, device_id, target, cwd, use_fvm).push(
            ActionModel::ToggleFocus,
        );
    law_run_keeps_the_rest(before, cwd);
    law_log_adds_lines_only(before.before_run(cwd), t, entry);
    lemma_run_ends(before, t, device_id, target, cwd, use_fvm);
    lemma_actions_one_by_one(r@);
    let n = r@.len() as int;
    assert(actions_of(r@)[n - 4] == r@[n - 4]@);
    assert(actions_of(r@)[n - 3] == r@[n - 3]@);
    assert(actions_of(r@)[n - 2] == r@[n - 2]@);
    assert(actions_of(r@)[n - 1] == r@[n - 1]@);
    if before.running {
        assert(actions_of(r@)[0] == r@[0]@);
    }
}

/// Starting a run now starts exactly the process that is asked for, and says so in the log.
pub proof fn law_start_run<S: Copy>(
    panel: &mut FlutterLogPanel<S>,
    device_id: String,
    target: String,
    cwd: Option<String>,
    use_fvm: bool,
    r: Vec<PanelAction>,
)
    requires
        call_ensures(
            FlutterLogPanel::<S>::start_run,
            (panel, device_id, target, cwd, use_fvm),
            r,
        ),
    ensures
        final(panel)@.running,
        final(panel)@.vm_service_uri is None && !final(panel)@.vm_connected,
        cwd matches Some(dir) ==> final(panel)@.manual_search_path == Some(dir@),
        old(panel)@.metadata.is_prefix_of(final(panel)@.metadata),
        final(panel)@.metadata[old(panel)@.metadata.len() as int] matches Some(first)
            && is_clock_text(first.timestamp) && first.logger_name == Some("flutter"@),
        r@.len() >= 3,
        old(panel)@.running ==> r@[0] == PanelAction::KillProcess,
        r@[r@.len() - 3] matches PanelAction::SpawnRun { device_id: d, target: t, cwd: c } && d@
            == device_id@ && t@ == target@ && text_of(c) == text_of(cwd),
        r@[r@.len() - 2] == PanelAction::StartConnecting,
        r@[r@.len() - 1] == PanelAction::Notify,
        old(panel)@.wf() ==> final(panel)@.wf(),
{
    let before = old(panel)@;
    let dir = text_of(cwd);
    let entry = run_entry(device_id@, target@, use_fvm);
    let now = choose|now: Seq<char>|
        is_clock_text(now) && final(panel)@ == #[trigger] before.before_run(dir).logged(now, entry)
            && actions_of(r@) == before.run_actions(now, device_id@, target@, dir, use_fvm);
    law_run_keeps_the_rest(before, dir);
    law_log_adds_lines_only(before.before_run(dir), now, entry);
    lemma_run_ends(before, now, device_id@, target@, dir, use_fvm);
    lemma_actions_one_by_one(r@);
    let n = r@.len() as int;
    assert(actions_of(r@)[n - 3] == r@[n - 3]@);
    assert(actions_of(r@)[n - 2] == r@[n - 2]@);
    assert(actions_of(r@)[n - 1] == r@[n - 1]@);
    if before.running {
        assert(actions_of(r@)[0] == r@[0]@);
    }
}

/// Something that happens to the process now ends the run where it is its end or a failure, and
/// is told of as such; the connection stays as it is.
pub proof fn law_process_event<S: Copy>(
    panel: &mut FlutterLogPanel<S>,
    event: ProcessEvent,
    r: (Vec<PanelAction>, bool),
)
    requires
        call_ensures(FlutterLogPanel::<S>::process_event, (panel, event), r),
    ensures
        r.1 <==> event is Exited,
        event is Exited || event is Error ==> !final(panel)@.running,
        event is Stdout || event is Stderr ==> final(panel)@.running == old(panel)@.running,
        final(panel)@.vm_service_uri == old(panel)@.vm_service_uri,
        final(panel)@.vm_connected == old(panel)@.vm_connected,
        old(panel)@.metadata.is_prefix_of(final(panel)@.metadata),
        event matches ProcessEvent::Stderr(line) ==> appended(actions_of(r.0@)) == breaks_trimmed(
            line@,
        ) + "\n"@,
        event matches ProcessEvent::Error(message) ==> appended(actions_of(r.0@))
            == breaks_trimmed(message@) + "\n"@,
        event matches ProcessEvent::Stdout(line) ==> {
            &&& !old(panel)@.vm_connected || is_notable(line@) ==> appended(actions_of(r.0@))
                == breaks_trimmed(line@) + "\n"@
            &&& old(panel)@.vm_connected && !is_notable(line@) ==> r.0@.len() == 0
                && final(panel)@ == old(panel)@
        },
        old(panel)@.wf() ==> final(panel)@.wf(),
{
    let before = old(panel)@;
    let now = choose|now: Seq<char>|
        is_clock_text(now) && final(panel)@ == #[trigger] before.with_event(now, event)
            && actions_of(r.0@) == before.event_actions(now, event);
    if let Some(entry) = process_entry(before.vm_connected, event) {
        law_log_adds_lines_only(before, now, entry);
        law_log_appends_message(before, now, entry);
    }
    if let ProcessEvent::Stdout(line) = event {
        law_output_is_told(before.vm_connected, line);
    }
    assert(actions_of(r.0@).len() == r.0@.len());
}

/// A message of the app is written to the log now, under its own text and its logger's name.
pub proof fn law_log_event<S: Copy>(
    panel: &mut FlutterLogPanel<S>,
    record: LogRecord,
    r: Vec<PanelAction>,
)
    requires
        call_ensures(FlutterLogPanel::<S>::log_event, (panel, LogEvent::Log(record)), r),
    ensures
        record.message matches Some(InstanceRef { value_as_string: Some(text) }) ==> appended(
            actions_of(r@),
        ) == breaks_trimmed(text@) + "\n"@,
        final(panel)@.metadata[old(panel)@.metadata.len() as int] matches Some(first)
            && is_clock_text(first.timestamp) && first.logger_name == match record.logger_name {
            Some(InstanceRef { value_as_string: Some(name) }) => Some(name@),
            _ => None,
        },
        final(panel)@.running == old(panel)@.running,
        final(panel)@.vm_service_uri == old(panel)@.vm_service_uri,
        old(panel)@.wf() ==> final(panel)@.wf(),
{
    let before = old(panel)@;
    let entry = event_entry(LogEvent::Log(record));
    let now = choose|now: Seq<char>|
        is_clock_text(now) && final(panel)@ == #[trigger] before.logged(now, entry) && actions_of(
            r@,
        ) == before.log_actions(now, entry);
    law_log_adds_lines_only(before, now, entry);
    law_log_appends_message(before, now, entry);
}

/// The highlighted lines of a log: none at first, and a line is added at the end of its group
/// alone.
pub proof fn law_ranges_grow(
    begun: LevelRanges,
    ranges: &mut LevelRanges,
    group: LevelGroup,
    line: usize,
    copied: LevelRanges,
    copy: LevelRanges,
)
    requires
        call_ensures(LevelRanges::new, (), begun),
        call_ensures(LevelRanges::push, (ranges, Some(group), line), ()),
        call_ensures(LevelRanges::clone, (&copied,), copy),
    ensures
        begun.fine@.len() == 0 && begun.info@.len() == 0 && begun.warning@.len() == 0
            && begun.severe@.len() == 0,
        final(ranges).fine@ == if group == LevelGroup::Fine {
            old(ranges).fine@.push(line)
        } else {
            old(ranges).fine@
        },
        final(ranges).info@ == if group == LevelGroup::Info {
            old(ranges).info@.push(line)
        } else {
            old(ranges).info@
        },
        final(ranges).warning@ == if group == LevelGroup::Warning {
            old(ranges).warning@.push(line)
        } else {
            old(ranges).warning@
        },
        final(ranges).severe@ == if group == LevelGroup::Severe {
            old(ranges).severe@.push(line)
        } else {
            old(ranges).severe@
        },
        copy@ == copied@,
{
    let lines = Seq::new(1, |i: int| (line as nat + i) as usize);
    assert(lines =~= seq![line]);
    assert(old(ranges).fine@ + lines =~= old(ranges).fine@.push(line));
    assert(old(ranges).info@ + lines =~= old(ranges).info@.push(line));
    assert(old(ranges).warning@ + lines =~= old(ranges).warning@.push(line));
    assert(old(ranges).severe@ + lines =~= old(ranges).severe@.push(line));
}

} // verus!
