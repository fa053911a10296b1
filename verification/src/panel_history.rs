//! What holds of the log panel in every state that it can get into.

use crate::dock::{resized, DockGeometry, DockPosition};
use crate::log_entry::{process_entry, EntryText, ProcessEvent};
use crate::panel_laws::{
    appended, law_cursor_keeps_panel_wf, law_empty_panel_is_wf, law_log_appends_message,
    law_log_keeps_panel_wf, law_one_run_at_a_time, started,
};
use crate::panel_model::{
    clear_actions, line_metadata, message_lines, run_entry, ActionModel, MetadataText, PanelModel,
};
use crate::text::{
    break_count, breaks_trimmed, law_breaks_count_lines, law_lines_hold_no_break,
    law_lines_make_up_text,
};
use vstd::prelude::*;

verus! {

/// One call of an operation of the panel. `S` is the unit that its size is measured in.
pub enum PanelCall<S> {
    /// `add_log`, and `log_event` with the entry for its event.
    AddLog { timestamp: Seq<char>, entry: EntryText },
    UpdateTimestampInlay { row: Option<usize> },
    Connect,
    SetSearchPath { path: Seq<char> },
    HandleConnection { uri: Seq<char> },
    ToggleAutoScroll { checked: bool },
    Refresh,
    ClearLogs,
    StopRun,
    StartRun {
        timestamp: Seq<char>,
        device_id: Seq<char>,
        target: Seq<char>,
        cwd: Option<Seq<char>>,
        use_fvm: bool,
    },
    ProcessEvent { timestamp: Seq<char>, event: ProcessEvent },
    SetPosition { position: DockPosition },
    SetSize { size: Option<S> },
}

/// The panel after a call.
pub open spec fn called<S>(panel: PanelModel<S>, call: PanelCall<S>) -> PanelModel<S> {
    match call {
        PanelCall::AddLog { timestamp, entry } => panel.logged(timestamp, entry),
        PanelCall::UpdateTimestampInlay { row } => panel.with_cursor(row),
        PanelCall::Connect => panel,
        PanelCall::SetSearchPath { path } => PanelModel {
            manual_search_path: Some(path),
            ..panel
        },
        PanelCall::HandleConnection { uri } => panel.connected_to(uri),
        PanelCall::ToggleAutoScroll { checked } => PanelModel { auto_scroll: checked, ..panel },
        PanelCall::Refresh => panel.cleared(),
        PanelCall::ClearLogs => panel.cleared(),
        PanelCall::StopRun => panel.stopped(),
        PanelCall::StartRun { timestamp, device_id, target, cwd, use_fvm } => panel.before_run(
            cwd,
        ).logged(timestamp, run_entry(device_id, target, use_fvm)),
        PanelCall::ProcessEvent { timestamp, event } => panel.with_event(timestamp, event),
        PanelCall::SetPosition { position } => PanelModel {
            dock: DockGeometry { position, ..panel.dock },
            ..panel
        },
        PanelCall::SetSize { size } => PanelModel { dock: resized(panel.dock, size), ..panel },
    }
}

/// What a call asks for.
pub open spec fn asked<S>(panel: PanelModel<S>, call: PanelCall<S>) -> Seq<ActionModel> {
    match call {
        PanelCall::AddLog { timestamp, entry } => panel.log_actions(timestamp, entry),
        PanelCall::UpdateTimestampInlay { row } => panel.cursor_actions(row),
        PanelCall::Connect => seq![ActionModel::StartConnecting],
        PanelCall::SetSearchPath { .. } => panel.search_actions(),
        PanelCall::HandleConnection { .. } => seq![ActionModel::StartSession],
        PanelCall::ToggleAutoScroll { checked } => if checked {
            seq![ActionModel::RequestAutoscroll, ActionModel::Notify]
        } else {
            seq![ActionModel::Notify]
        },
        PanelCall::Refresh => clear_actions() + seq![
            ActionModel::CancelConnection,
            ActionModel::StartConnecting,
            ActionModel::Notify,
        ],
        PanelCall::ClearLogs => clear_actions(),
        PanelCall::StopRun => panel.stop_actions(),
        PanelCall::StartRun { timestamp, device_id, target, cwd, use_fvm } => panel.run_actions(
            timestamp,
            device_id,
            target,
            cwd,
            use_fvm,
        ),
        PanelCall::ProcessEvent { timestamp, event } => panel.event_actions(timestamp, event),
        PanelCall::SetPosition { .. } => seq![ActionModel::Notify],
        PanelCall::SetSize { .. } => seq![ActionModel::Notify],
    }
}

/// The panel after calls on a new one.
pub open spec fn reached<S>(default_size: S, calls: Seq<PanelCall<S>>) -> PanelModel<S>
    decreases calls.len(),
{
    if calls.len() == 0 {
        PanelModel::fresh(default_size)
    } else {
        called(reached(default_size, calls.drop_last()), calls.last())
    }
}

/// The editor's text after the actions, where it was `text` before.
pub open spec fn edited(text: Seq<char>, actions: Seq<ActionModel>) -> Seq<char>
    decreases actions.len(),
{
    if actions.len() == 0 {
        text
    } else {
        let before = edited(text, actions.drop_last());
        match actions.last() {
            ActionModel::AppendLine { text, .. } => before + text,
            ActionModel::ClearText => Seq::empty(),
            _ => before,
        }
    }
}

/// The editor's text after calls on a new panel.
pub open spec fn shown<S>(default_size: S, calls: Seq<PanelCall<S>>) -> Seq<char>
    decreases calls.len(),
{
    if calls.len() == 0 {
        Seq::empty()
    } else {
        edited(
            shown(default_size, calls.drop_last()),
            asked(reached(default_size, calls.drop_last()), calls.last()),
        )
    }
}

/// An entry and when it was logged.
pub struct Stamped {
    pub timestamp: Seq<char>,
    pub entry: EntryText,
}

/// The entries that a call logs.
pub open spec fn entries_of_call<S>(panel: PanelModel<S>, call: PanelCall<S>) -> Seq<Stamped> {
    match call {
        PanelCall::AddLog { timestamp, entry } => seq![Stamped { timestamp, entry }],
        PanelCall::StartRun { timestamp, device_id, target, use_fvm, .. } => seq![
            Stamped { timestamp, entry: run_entry(device_id, target, use_fvm) },
        ],
        PanelCall::ProcessEvent { timestamp, event } => match process_entry(
            panel.vm_connected,
            event,
        ) {
            Some(entry) => seq![Stamped { timestamp, entry }],
            None => Seq::empty(),
        },
        _ => Seq::empty(),
    }
}

/// The entries that calls on a new panel logged, since the log was last emptied.
pub open spec fn log_of<S>(default_size: S, calls: Seq<PanelCall<S>>) -> Seq<Stamped>
    decreases calls.len(),
{
    if calls.len() == 0 || calls.last() is ClearLogs || calls.last() is Refresh {
        Seq::empty()
    } else {
        log_of(default_size, calls.drop_last()) + entries_of_call(
            reached(default_size, calls.drop_last()),
            calls.last(),
        )
    }
}

/// What is known of the lines of entries: of the first line of each its timestamp and its
/// logger, of the others nothing.
pub open spec fn metadata_of_log(log: Seq<Stamped>) -> Seq<Option<MetadataText>>
    decreases log.len(),
{
    if log.len() == 0 {
        Seq::empty()
    } else {
        let last = log.last();
        metadata_of_log(log.drop_last()) + Seq::new(
            message_lines(last.entry.message).len(),
            |i: int| line_metadata(last.timestamp, last.entry, i),
        )
    }
}

/// The messages of entries, with one line break at the end of each.
pub open spec fn text_of_log(log: Seq<Stamped>) -> Seq<char>
    decreases log.len(),
{
    if log.len() == 0 {
        Seq::empty()
    } else {
        text_of_log(log.drop_last()) + breaks_trimmed(log.last().entry.message) + "\n"@
    }
}

proof fn lemma_edited_together(text: Seq<char>, a: Seq<ActionModel>, b: Seq<ActionModel>)
    ensures
        edited(text, a + b) == edited(edited(text, a), b),
    decreases b.len(),
{
    if b.len() == 0 {
        assert(a + b =~= a);
    } else {
        lemma_edited_together(text, a, b.drop_last());
        assert((a + b).drop_last() =~= a + b.drop_last());
        assert((a + b).last() == b.last());
    }
}

/// Actions that empty nothing append to the text.
proof fn lemma_edited_appends(text: Seq<char>, actions: Seq<ActionModel>)
    requires
        forall|i: int| 0 <= i < actions.len() ==> !((#[trigger] actions[i]) is ClearText),
    ensures
        edited(text, actions) == text + appended(actions),
    decreases actions.len(),
{
    if actions.len() == 0 {
        assert(text + appended(actions) =~= text);
    } else {
        let rest = actions.drop_last();
        assert forall|i: int| 0 <= i < rest.len() implies !((#[trigger] rest[i]) is ClearText) by {
            assert(rest[i] == actions[i]);
        }
        lemma_edited_appends(text, rest);
        assert(actions.last() == actions[actions.len() - 1]);
        assert(edited(text, actions) =~= text + appended(actions));
    }
}

/// Actions that append nothing and empty nothing leave the text as it is.
proof fn lemma_edited_not_at_all(text: Seq<char>, actions: Seq<ActionModel>)
    requires
        forall|i: int|
            0 <= i < actions.len() ==> !((#[trigger] actions[i]) is ClearText)
                && !(actions[i] is AppendLine),
    ensures
        edited(text, actions) == text,
    decreases actions.len(),
{
    if actions.len() > 0 {
        let rest = actions.drop_last();
        assert forall|i: int| 0 <= i < rest.len() implies !((#[trigger] rest[i]) is ClearText)
            && !(rest[i] is AppendLine) by {
            assert(rest[i] == actions[i]);
        }
        lemma_edited_not_at_all(text, rest);
        assert(actions.last() == actions[actions.len() - 1]);
    }
}

proof fn lemma_lines_clear_nothing<S>(
    panel: PanelModel<S>,
    timestamp: Seq<char>,
    entry: EntryText,
    k: nat,
)
    ensures
        forall|i: int|
            0 <= i < panel.line_actions(timestamp, entry, k).len() ==> !((
            #[trigger] panel.line_actions(timestamp, entry, k)[i]) is ClearText),
    decreases k,
{
    if k > 0 {
        lemma_lines_clear_nothing(panel, timestamp, entry, (k - 1) as nat);
    }
}

proof fn lemma_edited_by_log<S>(
    text: Seq<char>,
    panel: PanelModel<S>,
    timestamp: Seq<char>,
    entry: EntryText,
)
    ensures
        edited(text, panel.log_actions(timestamp, entry)) == text + (breaks_trimmed(entry.message)
            + "\n"@),
{
    lemma_lines_clear_nothing(panel, timestamp, entry, message_lines(entry.message).len());
    lemma_edited_appends(text, panel.log_actions(timestamp, entry));
    law_log_appends_message(panel, timestamp, entry);
}

proof fn lemma_edited_by_run<S>(
    text: Seq<char>,
    panel: PanelModel<S>,
    timestamp: Seq<char>,
    device_id: Seq<char>,
    target: Seq<char>,
    cwd: Option<Seq<char>>,
    use_fvm: bool,
)
    ensures
        edited(text, panel.run_actions(timestamp, device_id, target, cwd, use_fvm)) == text + (
        breaks_trimmed(run_entry(device_id, target, use_fvm).message) + "\n"@),
{
    let searching = if cwd is Some {
        seq![ActionModel::StartConnecting]
    } else {
        Seq::empty()
    };
    let entry = run_entry(device_id, target, use_fvm);
    let before = panel.before_run(cwd);
    let first = panel.stop_actions() + searching;
    let logging = before.log_actions(timestamp, entry);
    let end = seq![
        ActionModel::SpawnRun { device_id, target, cwd },
        ActionModel::StartConnecting,
        ActionModel::Notify,
    ];
    lemma_edited_not_at_all(text, first);
    lemma_edited_together(text, first, logging);
    lemma_edited_by_log(text, before, timestamp, entry);
    lemma_edited_together(text, first + logging, end);
    lemma_edited_not_at_all(edited(text, first + logging), end);
}

proof fn lemma_edited_by_clearing(text: Seq<char>, rest: Seq<ActionModel>)
    requires
        forall|i: int|
            0 <= i < rest.len() ==> !((#[trigger] rest[i]) is ClearText)
                && !(rest[i] is AppendLine),
    ensures
        edited(text, clear_actions() + rest) == Seq::<char>::empty(),
{
    let none = Seq::<ActionModel>::empty();
    let clearing = none.push(ActionModel::ClearText);
    let after = clear_actions().skip(1);
    assert(clearing.drop_last() =~= none);
    assert(edited(text, clearing) == Seq::<char>::empty());
    assert(clear_actions() =~= clearing + after);
    lemma_edited_together(text, clearing, after);
    lemma_edited_not_at_all(Seq::empty(), after);
    lemma_edited_together(text, clear_actions(), rest);
    lemma_edited_not_at_all(Seq::empty(), rest);
}

/// In every state, the editor's text and what is known of its lines are those of the entries
/// that were logged since the log was last emptied.
pub proof fn law_panel_shows_its_log<S>(default_size: S, calls: Seq<PanelCall<S>>)
    ensures
        shown(default_size, calls) == text_of_log(log_of(default_size, calls)),
        reached(default_size, calls).metadata == metadata_of_log(log_of(default_size, calls)),
    decreases calls.len(),
{
    if calls.len() > 0 {
        let rest = calls.drop_last();
        let call = calls.last();
        let panel = reached(default_size, rest);
        let text = shown(default_size, rest);
        let log = log_of(default_size, rest);
        law_panel_shows_its_log(default_size, rest);
        if call is ClearLogs || call is Refresh {
            let none = Seq::<ActionModel>::empty();
            assert(clear_actions() + none =~= clear_actions());
            lemma_edited_by_clearing(text, none);
            lemma_edited_by_clearing(
                text,
                seq![
                    ActionModel::CancelConnection,
                    ActionModel::StartConnecting,
                    ActionModel::Notify,
                ],
            );
        } else {
            let entries = entries_of_call(panel, call);
            if entries.len() > 0 {
                let last = entries[0];
                assert(log + entries =~= log.push(last));
                assert(log.push(last).drop_last() =~= log);
                match call {
                    PanelCall::AddLog { timestamp, entry } => {
                        lemma_edited_by_log(text, panel, timestamp, entry);
                    },
                    PanelCall::StartRun { timestamp, device_id, target, cwd, use_fvm } => {
                        lemma_edited_by_run(
                            text,
                            panel,
                            timestamp,
                            device_id,
                            target,
                            cwd,
                            use_fvm,
                        );
                    },
                    PanelCall::ProcessEvent { timestamp, event } => {
                        let entry = process_entry(panel.vm_connected, event)->0;
                        lemma_edited_by_log(text, panel, timestamp, entry);
                    },
                    _ => {},
                }
                let added = breaks_trimmed(last.entry.message) + "\n"@;
                assert(text + added =~= text + breaks_trimmed(last.entry.message) + "\n"@);
                assert(called(panel, call).metadata =~= metadata_of_log(log.push(last)));
            } else {
                assert(log + entries =~= log);
                lemma_edited_not_at_all(text, asked(panel, call));
            }
        }
    }
}

proof fn lemma_log_keeps_step(log: Seq<Stamped>)
    ensures
        metadata_of_log(log).len() == break_count(text_of_log(log)),
        text_of_log(log).len() == 0 || text_of_log(log).last() == '\n',
        text_of_log(log).len() == 0 <==> log.len() == 0,
    decreases log.len(),
{
    if log.len() > 0 {
        reveal_strlit("\n");
        let before = text_of_log(log.drop_last());
        let message = breaks_trimmed(log.last().entry.message);
        let lines = message_lines(log.last().entry.message);
        lemma_log_keeps_step(log.drop_last());
        law_lines_make_up_text(message);
        law_lines_hold_no_break(message);
        law_breaks_count_lines(lines);
        assert(before + message + "\n"@ =~= before + message.push('\n'));
        lemma_break_count_together(before, message.push('\n'));
    }
}

proof fn lemma_break_count_together(a: Seq<char>, b: Seq<char>)
    ensures
        break_count(a + b) == break_count(a) + break_count(b),
    decreases b.len(),
{
    if b.len() == 0 {
        assert(a + b =~= a);
    } else {
        lemma_break_count_together(a, b.drop_last());
        assert((a + b).drop_last() =~= a + b.drop_last());
        assert((a + b).last() == b.last());
    }
}

/// In every state, there is one thing known for each line break of the editor's text, and the
/// text is empty or ends with a line break.
pub proof fn law_metadata_is_in_step<S>(default_size: S, calls: Seq<PanelCall<S>>)
    ensures
        reached(default_size, calls).metadata.len() == break_count(shown(default_size, calls)),
        shown(default_size, calls).len() == 0 || shown(default_size, calls).last() == '\n',
{
    law_panel_shows_its_log(default_size, calls);
    lemma_log_keeps_step(log_of(default_size, calls));
}

/// How many lines the first `k` entries of a log take up.
pub open spec fn lines_before(log: Seq<Stamped>, k: nat) -> nat
    decreases k,
{
    if k == 0 {
        0
    } else {
        lines_before(log, (k - 1) as nat) + message_lines(log[k - 1].entry.message).len()
    }
}

proof fn lemma_metadata_of_first_entries(log: Seq<Stamped>, k: nat)
    requires
        k <= log.len(),
    ensures
        metadata_of_log(log.take(k as int)).len() == lines_before(log, k),
        metadata_of_log(log.take(k as int)).is_prefix_of(metadata_of_log(log)),
    decreases log.len(), k,
{
    if k > 0 {
        assert(log.take(k as int).drop_last() =~= log.take(k - 1));
        lemma_metadata_of_first_entries(log, (k - 1) as nat);
    } else {
        assert(log.take(0) =~= Seq::empty());
    }
    if k < log.len() {
        let rest = log.drop_last();
        lemma_metadata_of_first_entries(rest, k);
        assert(rest.take(k as int) =~= log.take(k as int));
        let a = metadata_of_log(log.take(k as int));
        let b = metadata_of_log(rest);
        let c = metadata_of_log(log);
        assert(b =~= c.subrange(0, b.len() as int));
        assert(a =~= c.subrange(0, a.len() as int)) by {
            assert forall|i: int| 0 <= i < a.len() implies a[i] == c[i] by {
                assert(a[i] == b.subrange(0, a.len() as int)[i]);
                assert(b[i] == c.subrange(0, b.len() as int)[i]);
            }
        }
    } else {
        assert(log.take(k as int) =~= log);
        let a = metadata_of_log(log);
        assert(a =~= a.subrange(0, a.len() as int));
    }
}

/// In every state, the timestamp of a line is known exactly where the line is the first of an
/// entry, and it is that entry's.
pub proof fn law_first_lines_are_stamped<S>(
    default_size: S,
    calls: Seq<PanelCall<S>>,
    k: nat,
    i: nat,
)
    requires
        k < log_of(default_size, calls).len(),
        i < message_lines(log_of(default_size, calls)[k as int].entry.message).len(),
    ensures
        ({
            let log = log_of(default_size, calls);
            let metadata = reached(default_size, calls).metadata;
            let line = lines_before(log, k) + i as int;
            &&& line < metadata.len()
            &&& metadata[line] == line_metadata(
                log[k as int].timestamp,
                log[k as int].entry,
                i as int,
            )
        }),
{
    let log = log_of(default_size, calls);
    law_panel_shows_its_log(default_size, calls);
    lemma_metadata_of_first_entries(log, k);
    lemma_metadata_of_first_entries(log, k + 1);
    let first = log.take((k + 1) as int);
    assert(first.drop_last() =~= log.take(k as int));
    let a = metadata_of_log(first);
    let c = metadata_of_log(log);
    let line = lines_before(log, k) + i as int;
    assert(a[line] == c.subrange(0, a.len() as int)[line]);
}

/// In every state, there is a connection exactly where the address of a VM service is known.
pub proof fn law_connection_is_known<S>(default_size: S, calls: Seq<PanelCall<S>>)
    ensures
        reached(default_size, calls).vm_connected == (reached(
            default_size,
            calls,
        ).vm_service_uri is Some),
    decreases calls.len(),
{
    if calls.len() > 0 {
        law_connection_is_known(default_size, calls.drop_last());
    }
}

/// A run was started by the calls, and since then it was neither stopped nor did it end.
pub open spec fn run_goes_on<S>(calls: Seq<PanelCall<S>>) -> bool
    decreases calls.len(),
{
    calls.len() > 0 && match calls.last() {
        PanelCall::StartRun { .. } => true,
        PanelCall::StopRun => false,
        PanelCall::ProcessEvent { event, .. } => !(event is Error) && !(event is Exited)
            && run_goes_on(calls.drop_last()),
        _ => run_goes_on(calls.drop_last()),
    }
}

/// In every state, the panel counts as running exactly while a run goes on.
pub proof fn law_running_while_run_goes_on<S>(default_size: S, calls: Seq<PanelCall<S>>)
    ensures
        reached(default_size, calls).running == run_goes_on(calls),
    decreases calls.len(),
{
    if calls.len() > 0 {
        law_running_while_run_goes_on(default_size, calls.drop_last());
    }
}

/// In every state in which a run goes on, its process is killed before anything else is done
/// for a new run, and when the run is stopped. Otherwise nothing is killed.
pub proof fn law_run_is_killed_before_next<S>(
    default_size: S,
    calls: Seq<PanelCall<S>>,
    timestamp: Seq<char>,
    device_id: Seq<char>,
    target: Seq<char>,
    cwd: Option<Seq<char>>,
    use_fvm: bool,
)
    ensures
        ({
            let panel = reached(default_size, calls);
            let start = PanelCall::StartRun { timestamp, device_id, target, cwd, use_fvm };
            &&& asked(panel, start)[0] == ActionModel::KillProcess <==> run_goes_on(calls)
            &&& asked(panel, PanelCall::StopRun)[0] == ActionModel::KillProcess <==> run_goes_on(
                calls,
            )
            &&& started(asked(panel, start)) == 1
        }),
{
    let panel = reached(default_size, calls);
    law_running_while_run_goes_on(default_size, calls);
    law_one_run_at_a_time(panel, timestamp, device_id, target, cwd, use_fvm);
    assert(panel.stop_actions().len() > 0);
    assert(panel.run_actions(timestamp, device_id, target, cwd, use_fvm)[0]
        == panel.stop_actions()[0]);
}

/// The machine's limits leave room for the entry: for its lines, and for the inlay that names
/// its logger.
pub open spec fn has_room<S>(panel: PanelModel<S>, entry: EntryText) -> bool {
    &&& panel.has_id_for(entry.logger_name)
    &&& panel.metadata.len() + message_lines(entry.message).len() <= usize::MAX
}

/// The machine's limits leave room for a call.
pub open spec fn can_be_called<S>(panel: PanelModel<S>, call: PanelCall<S>) -> bool {
    match call {
        PanelCall::AddLog { entry, .. } => has_room(panel, entry),
        PanelCall::UpdateTimestampInlay { row } => panel.timestamp_in(row) is Some
            ==> panel.next_inlay_id < usize::MAX,
        PanelCall::StartRun { device_id, target, use_fvm, .. } => has_room(
            panel,
            run_entry(device_id, target, use_fvm),
        ),
        PanelCall::ProcessEvent { event, .. } => process_entry(
            panel.vm_connected,
            event,
        ) matches Some(entry) ==> has_room(panel, entry),
        _ => true,
    }
}

/// The machine's limits leave room for calls on a new panel.
pub open spec fn can_be_reached<S>(default_size: S, calls: Seq<PanelCall<S>>) -> bool
    decreases calls.len(),
{
    calls.len() > 0 ==> {
        &&& can_be_reached(default_size, calls.drop_last())
        &&& can_be_called(reached(default_size, calls.drop_last()), calls.last())
    }
}

/// In every state that the machine's limits leave room for, the panel is well formed.
pub proof fn law_panel_stays_wf<S>(default_size: S, calls: Seq<PanelCall<S>>)
    requires
        can_be_reached(default_size, calls),
    ensures
        reached(default_size, calls).wf(),
    decreases calls.len(),
{
    if calls.len() == 0 {
        let panel = PanelModel::fresh(default_size);
        assert(panel.cleared() =~= panel);
        law_empty_panel_is_wf(panel);
    } else {
        let panel = reached(default_size, calls.drop_last());
        let after = called(panel, calls.last());
        law_panel_stays_wf(default_size, calls.drop_last());
        match calls.last() {
            PanelCall::AddLog { timestamp, entry } => {
                law_log_keeps_panel_wf(panel, timestamp, entry);
            },
            PanelCall::UpdateTimestampInlay { row } => {
                law_cursor_keeps_panel_wf(panel, row);
            },
            PanelCall::StartRun { timestamp, device_id, target, cwd, use_fvm } => {
                law_log_keeps_panel_wf(
                    panel.before_run(cwd),
                    timestamp,
                    run_entry(device_id, target, use_fvm),
                );
            },
            PanelCall::ProcessEvent { timestamp, event } => {
                if let Some(entry) = process_entry(panel.vm_connected, event) {
                    law_log_keeps_panel_wf(panel, timestamp, entry);
                    assert(after.ranges == panel.logged(timestamp, entry).ranges);
                }
            },
            PanelCall::Refresh | PanelCall::ClearLogs => {
                assert(after.cleared() =~= after);
                law_empty_panel_is_wf(after);
            },
            _ => {
                assert(after.ranges == panel.ranges);
            },
        }
    }
}

} // verus!
