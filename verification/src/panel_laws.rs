//! What holds of the log panel as a whole.

use crate::commands::law_start_is_told_as_it_is_run;
use crate::dock::DockPosition;
use crate::log_entry::{group_of, process_entry, EntryText, LevelGroup, ProcessEvent};
use crate::panel_model::{
    are_lines, clear_actions, message_lines, run_entry, ActionModel, InlayId, InlayPlace, InlayText,
    MetadataText, PanelModel,
};
use crate::text::{
    break_count, breaks_trimmed, law_breaks_count_lines, law_lines_hold_no_break,
    law_lines_make_up_text, with_breaks,
};
use vstd::prelude::*;

verus! {

/// The text that the actions append to the editor's.
pub open spec fn appended(actions: Seq<ActionModel>) -> Seq<char>
    decreases actions.len(),
{
    if actions.len() == 0 {
        Seq::empty()
    } else {
        match actions.last() {
            ActionModel::AppendLine { text, .. } => appended(actions.drop_last()) + text,
            _ => appended(actions.drop_last()),
        }
    }
}

/// The inlays that the actions put in.
pub open spec fn inserted(actions: Seq<ActionModel>) -> Seq<InlayText>
    decreases actions.len(),
{
    if actions.len() == 0 {
        Seq::empty()
    } else {
        match actions.last() {
            ActionModel::SpliceInlays { insert, .. } => inserted(actions.drop_last()) + insert,
            _ => inserted(actions.drop_last()),
        }
    }
}

/// The inlays that the actions take away.
pub open spec fn removed(actions: Seq<ActionModel>) -> Seq<InlayId>
    decreases actions.len(),
{
    if actions.len() == 0 {
        Seq::empty()
    } else {
        match actions.last() {
            ActionModel::SpliceInlays { remove, .. } => removed(actions.drop_last()) + remove,
            _ => removed(actions.drop_last()),
        }
    }
}

proof fn lemma_push(actions: Seq<ActionModel>, action: ActionModel)
    ensures
        appended(actions.push(action)) == match action {
            ActionModel::AppendLine { text, .. } => appended(actions) + text,
            _ => appended(actions),
        },
        inserted(actions.push(action)) == match action {
            ActionModel::SpliceInlays { insert, .. } => inserted(actions) + insert,
            _ => inserted(actions),
        },
        removed(actions.push(action)) == match action {
            ActionModel::SpliceInlays { remove, .. } => removed(actions) + remove,
            _ => removed(actions),
        },
{
    assert(actions.push(action).drop_last() =~= actions);
}

/// The inlay that names an entry's logger, if there is one to name.
pub open spec fn name_inlays<S>(panel: PanelModel<S>, entry: EntryText) -> Seq<InlayText> {
    match entry.logger_name {
        Some(name) => seq![
            InlayText {
                id: InlayId::LogName(panel.next_inlay_id),
                place: InlayPlace::LineStart(panel.metadata.len() as usize),
                text: name + " "@,
            },
        ],
        None => Seq::empty(),
    }
}

proof fn lemma_line_actions<S>(panel: PanelModel<S>, timestamp: Seq<char>, entry: EntryText, k: nat)
    requires
        k <= message_lines(entry.message).len(),
    ensures
        appended(panel.line_actions(timestamp, entry, k)) == with_breaks(
            message_lines(entry.message).take(k as int),
        ),
        k > 0 ==> inserted(panel.line_actions(timestamp, entry, k)) == name_inlays(panel, entry),
        k == 0 ==> inserted(panel.line_actions(timestamp, entry, k)) == Seq::<InlayText>::empty(),
        removed(panel.line_actions(timestamp, entry, k)) == Seq::<InlayId>::empty(),
    decreases k,
{
    let lines = message_lines(entry.message);
    if k == 0 {
        assert(lines.take(0) =~= Seq::empty());
    } else {
        let j = (k - 1) as nat;
        lemma_line_actions(panel, timestamp, entry, j);
        reveal_strlit("\n");
        let line = (panel.metadata.len() + k - 1) as usize;
        let before = panel.line_actions(timestamp, entry, j);
        let append = ActionModel::AppendLine { line, text: lines[k - 1] + "\n"@ };
        let highlight = ActionModel::Highlight {
            ranges: panel.with_lines(timestamp, entry, k).ranges,
        };
        lemma_push(before, append);
        lemma_push(before.push(append), highlight);
        let shown = before.push(append).push(highlight);
        assert(lines.take(k as int).drop_last() =~= lines.take(k - 1));
        assert(lines[k - 1] + "\n"@ =~= lines[k - 1].push('\n'));
        if k == 1 && entry.logger_name is Some {
            let names = ActionModel::SpliceInlays {
                remove: Seq::empty(),
                insert: name_inlays(panel, entry),
            };
            assert(name_inlays(panel, entry) =~= seq![
                InlayText {
                    id: InlayId::LogName(panel.next_inlay_id),
                    place: InlayPlace::LineStart(line),
                    text: entry.logger_name->0 + " "@,
                },
            ]);
            lemma_push(shown, names);
            assert(Seq::<InlayText>::empty() + name_inlays(panel, entry) =~= name_inlays(
                panel,
                entry,
            ));
            assert(Seq::<InlayId>::empty() + Seq::<InlayId>::empty() =~= Seq::<InlayId>::empty());
        }
    }
}

proof fn lemma_log_actions<S>(panel: PanelModel<S>, timestamp: Seq<char>, entry: EntryText)
    ensures
        appended(panel.log_actions(timestamp, entry)) == with_breaks(message_lines(entry.message)),
        inserted(panel.log_actions(timestamp, entry)) == name_inlays(panel, entry),
        removed(panel.log_actions(timestamp, entry)) == Seq::<InlayId>::empty(),
{
    let lines = message_lines(entry.message);
    law_lines_make_up_text(breaks_trimmed(entry.message));
    lemma_line_actions(panel, timestamp, entry, lines.len());
    assert(lines.take(lines.len() as int) =~= lines);
    let shown = panel.line_actions(timestamp, entry, lines.len());
    lemma_push(shown, ActionModel::ScrollToEnd);
    lemma_push(shown.push(ActionModel::ScrollToEnd), ActionModel::Notify);
    lemma_push(shown, ActionModel::Notify);
}

/// What an entry adds to the editor's text is its message, with one line break at its end.
pub proof fn law_log_appends_message<S>(
    panel: PanelModel<S>,
    timestamp: Seq<char>,
    entry: EntryText,
)
    ensures
        appended(panel.log_actions(timestamp, entry)) == breaks_trimmed(entry.message) + "\n"@,
{
    reveal_strlit("\n");
    lemma_log_actions(panel, timestamp, entry);
    law_lines_make_up_text(breaks_trimmed(entry.message));
    assert(breaks_trimmed(entry.message) + "\n"@ =~= breaks_trimmed(entry.message).push('\n'));
}

/// What is known of the log's lines stays in step with the text that is shown: an entry adds
/// as many of the one as line breaks to the other.
pub proof fn law_metadata_keeps_step_with_text<S>(
    panel: PanelModel<S>,
    timestamp: Seq<char>,
    entry: EntryText,
)
    ensures
        panel.logged(timestamp, entry).metadata.len() == panel.metadata.len() + break_count(
            appended(panel.log_actions(timestamp, entry)),
        ),
{
    let lines = message_lines(entry.message);
    lemma_log_actions(panel, timestamp, entry);
    law_lines_hold_no_break(breaks_trimmed(entry.message));
    law_breaks_count_lines(lines);
}

/// An entry takes away no inlay. Where it has a logger's name, it puts in that name, once,
/// before its first line, under an id that is handed out with it.
pub proof fn law_log_names_logger_once<S>(
    panel: PanelModel<S>,
    timestamp: Seq<char>,
    entry: EntryText,
)
    requires
        panel.has_id_for(entry.logger_name),
    ensures
        removed(panel.log_actions(timestamp, entry)) == Seq::<InlayId>::empty(),
        inserted(panel.log_actions(timestamp, entry)) == name_inlays(panel, entry),
        panel.logged(timestamp, entry).next_inlay_id == panel.next_inlay_id + name_inlays(
            panel,
            entry,
        ).len(),
{
    lemma_log_actions(panel, timestamp, entry);
    law_lines_make_up_text(breaks_trimmed(entry.message));
}

/// Of an entry's lines the first has its timestamp, the others have none. The lines from
/// before keep theirs.
pub proof fn law_first_line_has_timestamp<S>(
    panel: PanelModel<S>,
    timestamp: Seq<char>,
    entry: EntryText,
    row: usize,
)
    ensures
        row < panel.metadata.len() ==> panel.logged(timestamp, entry).timestamp_in(Some(row))
            == panel.timestamp_in(Some(row)),
        row == panel.metadata.len() ==> panel.logged(timestamp, entry).timestamp_in(Some(row))
            == Some(timestamp),
        row > panel.metadata.len() ==> panel.logged(timestamp, entry).timestamp_in(Some(row))
            is None,
{
    law_lines_make_up_text(breaks_trimmed(entry.message));
}

/// The cursor's row decides which timestamp is shown: at most one, and what is taken away
/// is the one that was shown before.
pub proof fn law_cursor_shows_one_timestamp<S>(panel: PanelModel<S>, row: Option<usize>)
    requires
        panel.timestamp_in(row) is Some ==> panel.next_inlay_id < usize::MAX,
    ensures
        removed(panel.cursor_actions(row)) == panel.shown_timestamps(),
        inserted(panel.cursor_actions(row)).len() <= 1,
        inserted(panel.cursor_actions(row)).map_values(|inlay: InlayText| inlay.id)
            == panel.with_cursor(row).shown_timestamps(),
        inserted(panel.cursor_actions(row)).map_values(|inlay: InlayText| inlay.text)
            == match panel.timestamp_in(row) {
            Some(timestamp) => seq![timestamp],
            None => Seq::empty(),
        },
{
    let actions = panel.cursor_actions(row);
    if actions.len() > 0 {
        let none = Seq::<ActionModel>::empty();
        assert(actions =~= none.push(actions[0]));
        lemma_push(none, actions[0]);
        assert(removed(actions) =~= panel.shown_timestamps());
    }
    assert(inserted(actions).map_values(|inlay: InlayText| inlay.id) =~= panel.with_cursor(
        row,
    ).shown_timestamps());
    assert(inserted(actions).map_values(|inlay: InlayText| inlay.text)
        =~= match panel.timestamp_in(row) {
        Some(timestamp) => seq![timestamp],
        None => Seq::empty(),
    });
}

proof fn lemma_lines_added<S>(
    panel: PanelModel<S>,
    timestamp: Seq<char>,
    entry: EntryText,
    g: LevelGroup,
)
    requires
        panel.metadata.len() + message_lines(entry.message).len() <= usize::MAX,
    ensures
        ({
            let first = panel.metadata.len();
            let n = message_lines(entry.message).len();
            let lines = Seq::new(n, |i: int| (first + i) as usize);
            panel.logged(timestamp, entry).ranges.of(g) == if group_of(entry.level) == Some(g) {
                panel.ranges.of(g) + lines
            } else {
                panel.ranges.of(g)
            }
        }),
{
}

/// An entry's lines are highlighted in the group of its level, and in no other.
pub proof fn law_lines_are_highlighted_by_level<S>(
    panel: PanelModel<S>,
    timestamp: Seq<char>,
    entry: EntryText,
    g: LevelGroup,
    line: usize,
)
    requires
        panel.wf(),
        panel.metadata.len() + message_lines(entry.message).len() <= usize::MAX,
    ensures
        line < panel.metadata.len() ==> (panel.logged(timestamp, entry).ranges.of(g).contains(line)
            <==> panel.ranges.of(g).contains(line)),
        panel.metadata.len() <= line < panel.logged(timestamp, entry).metadata.len() ==> (
        panel.logged(timestamp, entry).ranges.of(g).contains(line) <==> group_of(entry.level)
            == Some(g)),
        line >= panel.logged(timestamp, entry).metadata.len() ==> !panel.logged(
            timestamp,
            entry,
        ).ranges.of(g).contains(line),
{
    let old_lines = panel.ranges.of(g);
    let first = panel.metadata.len();
    let n = message_lines(entry.message).len();
    let lines = Seq::new(n, |i: int| (first + i) as usize);
    let new_lines = panel.logged(timestamp, entry).ranges.of(g);
    lemma_lines_added(panel, timestamp, entry, g);
    assert(are_lines(old_lines, first));
    if new_lines.contains(line) {
        let k = choose|k: int| 0 <= k < new_lines.len() && new_lines[k] == line;
        if k < old_lines.len() {
            assert(old_lines[k] == line);
            assert(old_lines.contains(line));
        } else {
            assert(lines[k - old_lines.len()] == line);
        }
    }
    if old_lines.contains(line) {
        let k = choose|k: int| 0 <= k < old_lines.len() && old_lines[k] == line;
        assert(new_lines[k] == line);
        assert(line < first);
    }
    if first <= line < first + n && group_of(entry.level) == Some(g) {
        assert(lines[line - first] == line);
        assert(new_lines[old_lines.len() + line - first] == line);
        assert(new_lines.contains(line));
    }
}

/// Logging an entry keeps the panel well formed.
pub proof fn law_log_keeps_panel_wf<S>(panel: PanelModel<S>, timestamp: Seq<char>, entry: EntryText)
    requires
        panel.wf(),
        panel.has_id_for(entry.logger_name),
        panel.metadata.len() + message_lines(entry.message).len() <= usize::MAX,
    ensures
        panel.logged(timestamp, entry).wf(),
{
    let after = panel.logged(timestamp, entry);
    let first = panel.metadata.len();
    assert forall|g: LevelGroup| #[trigger]
        are_lines(after.ranges.of(g), after.metadata.len()) by {
        lemma_lines_added(panel, timestamp, entry, g);
        assert(are_lines(panel.ranges.of(g), first));
    }
    assert forall|g: LevelGroup, h: LevelGroup, line: usize|
        g != h && #[trigger] after.ranges.of(g).contains(line) implies !#[trigger] after.ranges.of(
        h,
    ).contains(line) by {
        law_lines_are_highlighted_by_level(panel, timestamp, entry, g, line);
        law_lines_are_highlighted_by_level(panel, timestamp, entry, h, line);
    }
}

/// Moving the cursor keeps the panel well formed.
pub proof fn law_cursor_keeps_panel_wf<S>(panel: PanelModel<S>, row: Option<usize>)
    requires
        panel.wf(),
        panel.timestamp_in(row) is Some ==> panel.next_inlay_id < usize::MAX,
    ensures
        panel.with_cursor(row).wf(),
{
    let after = panel.with_cursor(row);
    assert forall|g: LevelGroup| #[trigger]
        are_lines(after.ranges.of(g), after.metadata.len()) by {
        assert(are_lines(panel.ranges.of(g), panel.metadata.len()));
    }
    assert forall|g: LevelGroup, h: LevelGroup, line: usize|
        g != h && #[trigger] after.ranges.of(g).contains(line) implies !#[trigger] after.ranges.of(
        h,
    ).contains(line) by {
        assert(panel.ranges.of(g).contains(line));
    }
}

/// A panel with an empty log is well formed, where it knows what it is connected to.
pub proof fn law_empty_panel_is_wf<S>(panel: PanelModel<S>)
    requires
        panel.cleared() == panel,
        panel.vm_connected == (panel.vm_service_uri is Some),
    ensures
        panel.wf(),
{
    let after = panel.cleared();
    assert forall|g: LevelGroup| #[trigger]
        are_lines(after.ranges.of(g), after.metadata.len()) by {
        assert(after.ranges.of(g) =~= Seq::empty());
    }
    assert forall|g: LevelGroup, h: LevelGroup, line: usize|
        g != h && #[trigger] after.ranges.of(g).contains(line) implies !#[trigger] after.ranges.of(
        h,
    ).contains(line) by {
        assert(after.ranges.of(g) =~= Seq::empty());
    }
}

/// Emptying the log forgets every entry, and all that showed of it.
pub proof fn law_clearing_forgets_entries<S>(
    panel: PanelModel<S>,
    timestamp: Seq<char>,
    entry: EntryText,
    row: Option<usize>,
)
    ensures
        panel.logged(timestamp, entry).cleared() == panel.cleared(),
        panel.with_cursor(row).cleared() == panel.cleared(),
        panel.cleared().cleared() == panel.cleared(),
        panel.cleared().timestamp_in(row) is None,
{
}

/// Logging, moving the cursor and emptying the log leave the run, the connection and the
/// panel's place alone.
pub proof fn law_log_leaves_run_alone<S>(
    panel: PanelModel<S>,
    timestamp: Seq<char>,
    entry: EntryText,
    row: Option<usize>,
)
    ensures
        panel.logged(timestamp, entry).stopped() == panel.stopped().logged(timestamp, entry),
        panel.logged(timestamp, entry).running == panel.running,
        panel.logged(timestamp, entry).vm_connected == panel.vm_connected,
        panel.logged(timestamp, entry).vm_service_uri == panel.vm_service_uri,
        panel.logged(timestamp, entry).dock == panel.dock,
        panel.with_cursor(row).running == panel.running,
        panel.with_cursor(row).vm_service_uri == panel.vm_service_uri,
        panel.cleared().running == panel.running,
        panel.cleared().vm_service_uri == panel.vm_service_uri,
{
    assert(panel.logged(timestamp, entry).stopped() =~= panel.stopped().logged(timestamp, entry));
}

/// Stopping ends the run and the connection, and stopping again changes nothing and kills
/// nothing.
pub proof fn law_stopping_is_final<S>(panel: PanelModel<S>)
    ensures
        !panel.stopped().running,
        panel.stopped().vm_service_uri is None,
        panel.stopped().stopped() == panel.stopped(),
        panel.stop_actions().contains(ActionModel::KillProcess) <==> panel.running,
        !panel.stopped().stop_actions().contains(ActionModel::KillProcess),
{
    if panel.running {
        assert(panel.stop_actions()[0] == ActionModel::KillProcess);
    }
}

/// What each event of the process does to the run: its end and a failure end it, its output
/// does not. None of them touches the connection.
pub proof fn law_events_end_run<S>(panel: PanelModel<S>, timestamp: Seq<char>, event: ProcessEvent)
    ensures
        event is Exited || event is Error ==> !panel.with_event(timestamp, event).running,
        event is Stdout || event is Stderr ==> panel.with_event(timestamp, event).running
            == panel.running,
        panel.with_event(timestamp, event).vm_connected == panel.vm_connected,
        panel.with_event(timestamp, event).vm_service_uri == panel.vm_service_uri,
{
}

/// How many processes the actions start.
pub open spec fn started(actions: Seq<ActionModel>) -> nat
    decreases actions.len(),
{
    if actions.len() == 0 {
        0
    } else if actions.last() is SpawnRun {
        started(actions.drop_last()) + 1
    } else {
        started(actions.drop_last())
    }
}

proof fn lemma_started_together(a: Seq<ActionModel>, b: Seq<ActionModel>)
    ensures
        started(a + b) == started(a) + started(b),
    decreases b.len(),
{
    if b.len() == 0 {
        assert(a + b =~= a);
    } else {
        lemma_started_together(a, b.drop_last());
        assert((a + b).drop_last() =~= a + b.drop_last());
    }
}

proof fn lemma_none_started(actions: Seq<ActionModel>)
    requires
        forall|i: int| 0 <= i < actions.len() ==> !((#[trigger] actions[i]) is SpawnRun),
    ensures
        started(actions) == 0,
    decreases actions.len(),
{
    if actions.len() > 0 {
        assert(actions.last() == actions[actions.len() - 1]);
        assert forall|i: int| 0 <= i < actions.drop_last().len() implies !((
        #[trigger] actions.drop_last()[i]) is SpawnRun) by {
            assert(actions.drop_last()[i] == actions[i]);
        }
        lemma_none_started(actions.drop_last());
    }
}

proof fn lemma_lines_start_none<S>(
    panel: PanelModel<S>,
    timestamp: Seq<char>,
    entry: EntryText,
    k: nat,
)
    ensures
        forall|i: int|
            0 <= i < panel.line_actions(timestamp, entry, k).len() ==> !((
            #[trigger] panel.line_actions(timestamp, entry, k)[i]) is SpawnRun),
    decreases k,
{
    if k > 0 {
        lemma_lines_start_none(panel, timestamp, entry, (k - 1) as nat);
    }
}

/// Starting a run while there is one kills it first, and asks for exactly one new process.
pub proof fn law_one_run_at_a_time<S>(
    panel: PanelModel<S>,
    timestamp: Seq<char>,
    device_id: Seq<char>,
    target: Seq<char>,
    cwd: Option<Seq<char>>,
    use_fvm: bool,
)
    ensures
        panel.before_run(cwd).running,
        panel.before_run(cwd).vm_service_uri is None,
        !panel.before_run(cwd).vm_connected,
        panel.running ==> panel.run_actions(
            timestamp,
            device_id,
            target,
            cwd,
            use_fvm,
        )[0] == ActionModel::KillProcess,
        started(panel.run_actions(timestamp, device_id, target, cwd, use_fvm)) == 1,
{
    let searching = if cwd is Some {
        seq![ActionModel::StartConnecting]
    } else {
        Seq::empty()
    };
    let entry = run_entry(device_id, target, use_fvm);
    let before = panel.before_run(cwd);
    let logging = before.log_actions(timestamp, entry);
    let spawn = ActionModel::SpawnRun { device_id, target, cwd };
    let none = Seq::<ActionModel>::empty();
    let end = seq![spawn, ActionModel::StartConnecting, ActionModel::Notify];
    lemma_none_started(panel.stop_actions());
    lemma_none_started(searching);
    lemma_lines_start_none(before, timestamp, entry, message_lines(entry.message).len());
    lemma_none_started(logging);
    assert(end =~= none.push(spawn).push(ActionModel::StartConnecting).push(ActionModel::Notify));
    assert(none.push(spawn).drop_last() =~= none);
    assert(none.push(spawn).push(ActionModel::StartConnecting).drop_last() =~= none.push(spawn));
    assert(end.drop_last() =~= none.push(spawn).push(ActionModel::StartConnecting));
    assert(started(none) == 0);
    assert(started(none.push(spawn)) == 1);
    assert(started(none.push(spawn).push(ActionModel::StartConnecting)) == 1);
    assert(started(end) == 1);
    lemma_started_together(panel.stop_actions(), searching);
    lemma_started_together(panel.stop_actions() + searching, logging);
    lemma_started_together(panel.stop_actions() + searching + logging, end);
}

/// What an entry leaves of the panel as it is, and what it adds to what is known: the timestamp
/// and the logger of its first line, and nothing of the others.
pub proof fn law_log_adds_lines_only<S>(
    panel: PanelModel<S>,
    timestamp: Seq<char>,
    entry: EntryText,
)
    ensures
        ({
            let after = panel.logged(timestamp, entry);
            let n = message_lines(entry.message).len();
            &&& after.metadata.len() == panel.metadata.len() + n
            &&& forall|i: int|
                0 <= i < panel.metadata.len() ==> #[trigger] after.metadata[i] == panel.metadata[i]
            &&& after.metadata[panel.metadata.len() as int] == Some(
                MetadataText { timestamp, logger_name: entry.logger_name },
            )
            &&& forall|i: int|
                panel.metadata.len() < i < after.metadata.len() ==> (
                #[trigger] after.metadata[i]) is None
            &&& after.active_timestamp_inlay == panel.active_timestamp_inlay
            &&& after.vm_service_uri == panel.vm_service_uri
            &&& after.vm_connected == panel.vm_connected
            &&& after.manual_search_path == panel.manual_search_path
            &&& after.auto_scroll == panel.auto_scroll
            &&& after.running == panel.running
            &&& after.dock == panel.dock
        }),
{
    law_lines_make_up_text(breaks_trimmed(entry.message));
}

/// The inlay ids that an entry takes: one where it names a logger, none otherwise.
pub proof fn law_log_takes_ids<S>(panel: PanelModel<S>, timestamp: Seq<char>, entry: EntryText)
    requires
        panel.next_inlay_id < usize::MAX,
    ensures
        panel.logged(timestamp, entry).next_inlay_id == if entry.logger_name is Some {
            panel.next_inlay_id + 1
        } else {
            panel.next_inlay_id as int
        },
{
    law_lines_make_up_text(breaks_trimmed(entry.message));
}

/// Where the actions for line `i` of an entry begin, among those for all its lines. Those for
/// the first line are one more where the entry names a logger.
pub open spec fn line_place(entry: EntryText, i: int) -> int {
    if i > 0 && entry.logger_name is Some {
        2 * i + 1
    } else {
        2 * i
    }
}

proof fn lemma_line_actions_in_places<S>(
    panel: PanelModel<S>,
    timestamp: Seq<char>,
    entry: EntryText,
    k: nat,
)
    ensures
        ({
            let actions = panel.line_actions(timestamp, entry, k);
            &&& actions.len() == line_place(entry, k as int)
            &&& forall|i: int|
                0 <= i < k ==> {
                    &&& #[trigger] actions[line_place(entry, i)] == (ActionModel::AppendLine {
                        line: (panel.metadata.len() + i) as usize,
                        text: message_lines(entry.message)[i] + "\n"@,
                    })
                    &&& actions[line_place(entry, i) + 1] == (ActionModel::Highlight {
                        ranges: panel.ranges.with_lines(
                            group_of(entry.level),
                            panel.metadata.len(),
                            (i + 1) as nat,
                        ),
                    })
                }
            &&& k > 0 && entry.logger_name is Some ==> actions[2] == (ActionModel::SpliceInlays {
                remove: Seq::empty(),
                insert: name_inlays(panel, entry),
            })
        }),
    decreases k,
{
    if k > 0 {
        lemma_line_actions_in_places(panel, timestamp, entry, (k - 1) as nat);
        let before = panel.line_actions(timestamp, entry, (k - 1) as nat);
        let actions = panel.line_actions(timestamp, entry, k);
        let last = line_place(entry, k - 1);
        assert(before.len() == last);
        assert(actions[last] == (ActionModel::AppendLine {
            line: (panel.metadata.len() + (k - 1)) as usize,
            text: message_lines(entry.message)[k - 1] + "\n"@,
        }));
        assert(actions[last + 1] == (ActionModel::Highlight {
            ranges: panel.with_lines(timestamp, entry, k).ranges,
        }));
        assert forall|i: int| 0 <= i < k implies {
            &&& #[trigger] actions[line_place(entry, i)] == (ActionModel::AppendLine {
                line: (panel.metadata.len() + i) as usize,
                text: message_lines(entry.message)[i] + "\n"@,
            })
            &&& actions[line_place(entry, i) + 1] == (ActionModel::Highlight {
                ranges: panel.ranges.with_lines(
                    group_of(entry.level),
                    panel.metadata.len(),
                    (i + 1) as nat,
                ),
            })
        } by {
            if i < k - 1 {
                assert(line_place(entry, i) + 1 < last);
                assert(actions[line_place(entry, i)] == before[line_place(entry, i)]);
                assert(actions[line_place(entry, i) + 1] == before[line_place(entry, i) + 1]);
            }
        }
        if k > 1 && entry.logger_name is Some {
            assert(actions[2] == before[2]);
        }
        if k == 1 && entry.logger_name is Some {
            assert(name_inlays(panel, entry) =~= seq![
                InlayText {
                    id: InlayId::LogName(panel.next_inlay_id),
                    place: InlayPlace::LineStart((panel.metadata.len() + k - 1) as usize),
                    text: entry.logger_name->0 + " "@,
                },
            ]);
        }
    }
}

/// What an entry asks for, in order: for each of its lines, to append the line under its number
/// and to highlight what is highlighted up to it; behind the first line's, to name the logger,
/// where there is one; at the end, to follow the log where that is wanted, and to show it.
pub proof fn law_log_asks_in_order<S>(
    panel: PanelModel<S>,
    timestamp: Seq<char>,
    entry: EntryText,
)
    ensures
        ({
            let actions = panel.log_actions(timestamp, entry);
            let n = message_lines(entry.message).len();
            let end = line_place(entry, n as int);
            &&& n > 0
            &&& forall|i: int|
                0 <= i < n ==> {
                    &&& #[trigger] actions[line_place(entry, i)] == (ActionModel::AppendLine {
                        line: (panel.metadata.len() + i) as usize,
                        text: message_lines(entry.message)[i] + "\n"@,
                    })
                    &&& actions[line_place(entry, i) + 1] == (ActionModel::Highlight {
                        ranges: panel.ranges.with_lines(
                            group_of(entry.level),
                            panel.metadata.len(),
                            (i + 1) as nat,
                        ),
                    })
                }
            &&& entry.logger_name matches Some(name) ==> actions[2]
                == (ActionModel::SpliceInlays {
                remove: Seq::empty(),
                insert: seq![
                    InlayText {
                        id: InlayId::LogName(panel.next_inlay_id),
                        place: InlayPlace::LineStart(panel.metadata.len() as usize),
                        text: name + " "@,
                    },
                ],
            })
            &&& panel.auto_scroll ==> actions.skip(end) == seq![
                ActionModel::ScrollToEnd,
                ActionModel::Notify,
            ]
            &&& !panel.auto_scroll ==> actions.skip(end) == seq![ActionModel::Notify]
        }),
{
    let n = message_lines(entry.message).len();
    let end = line_place(entry, n as int);
    let lines = panel.line_actions(timestamp, entry, n);
    let actions = panel.log_actions(timestamp, entry);
    law_lines_make_up_text(breaks_trimmed(entry.message));
    lemma_line_actions_in_places(panel, timestamp, entry, n);
    assert forall|i: int| 0 <= i < n implies #[trigger] actions[line_place(entry, i)]
        == lines[line_place(entry, i)] && actions[line_place(entry, i) + 1] == lines[line_place(
        entry,
        i,
    ) + 1] by {}
    if panel.auto_scroll {
        assert(actions.skip(end) =~= seq![ActionModel::ScrollToEnd, ActionModel::Notify]);
    } else {
        assert(actions.skip(end) =~= seq![ActionModel::Notify]);
    }
}

/// What the cursor's moving leaves of the panel as it is, and what it asks for: nothing where no
/// timestamp is shown and none is to be, otherwise one change of inlays, with the timestamp at
/// the end of the cursor's row.
pub proof fn law_cursor_changes_timestamp_only<S>(panel: PanelModel<S>, row: usize)
    ensures
        panel.with_cursor(Some(row)) == (PanelModel {
            next_inlay_id: panel.with_cursor(Some(row)).next_inlay_id,
            active_timestamp_inlay: panel.with_cursor(Some(row)).active_timestamp_inlay,
            ..panel
        }),
        panel.with_cursor(None) == (PanelModel { active_timestamp_inlay: None, ..panel }),
        panel.timestamp_in(None) is None,
        panel.timestamp_in(Some(row)) == if row < panel.metadata.len()
            && panel.metadata[row as int] is Some {
            Some(panel.metadata[row as int]->0.timestamp)
        } else {
            None
        },
        panel.timestamp_in(Some(row)) is None ==> panel.with_cursor(Some(row))
            == panel.with_cursor(None),
        panel.timestamp_in(Some(row)) matches Some(timestamp) ==> panel.cursor_actions(Some(row))
            == seq![
            ActionModel::SpliceInlays {
                remove: match panel.active_timestamp_inlay {
                    Some(id) => seq![id],
                    None => Seq::empty(),
                },
                insert: seq![
                    InlayText {
                        id: InlayId::LogTimestamp(panel.next_inlay_id),
                        place: InlayPlace::RowEnd(row),
                        text: timestamp,
                    },
                ],
            },
        ],
        panel.timestamp_in(Some(row)) is None ==> panel.cursor_actions(Some(row))
            == panel.cursor_actions(None),
        panel.active_timestamp_inlay is None ==> panel.cursor_actions(None)
            == Seq::<ActionModel>::empty(),
        panel.active_timestamp_inlay matches Some(id) ==> panel.cursor_actions(None) == seq![
            ActionModel::SpliceInlays { remove: seq![id], insert: Seq::empty() },
        ],
{
}

/// Emptying the log forgets its lines, their highlights and the inlays, and nothing else.
pub proof fn law_clearing_keeps_the_rest<S>(panel: PanelModel<S>)
    ensures
        panel.cleared().metadata.len() == 0,
        forall|g: LevelGroup| (#[trigger] panel.cleared().ranges.of(g)).len() == 0,
        panel.cleared().next_inlay_id == 0,
        panel.cleared().active_timestamp_inlay is None,
        panel.cleared().vm_service_uri == panel.vm_service_uri,
        panel.cleared().vm_connected == panel.vm_connected,
        panel.cleared().manual_search_path == panel.manual_search_path,
        panel.cleared().auto_scroll == panel.auto_scroll,
        panel.cleared().running == panel.running,
        panel.cleared().dock == panel.dock,
        clear_actions() == seq![
            ActionModel::ClearText,
            ActionModel::SpliceInlays { remove: Seq::empty(), insert: Seq::empty() },
            ActionModel::Notify,
        ],
{
}

/// Stopping forgets the run and the connection, and nothing else. It ends the tasks of both, and
/// kills a process that runs.
pub proof fn law_stopping_keeps_the_rest<S>(panel: PanelModel<S>)
    ensures
        panel.stopped() == (PanelModel {
            running: false,
            vm_service_uri: None,
            vm_connected: false,
            ..panel
        }),
        panel.running ==> panel.stop_actions() == seq![
            ActionModel::KillProcess,
            ActionModel::CancelRun,
            ActionModel::CancelConnection,
            ActionModel::Notify,
        ],
        !panel.running ==> panel.stop_actions() == seq![
            ActionModel::CancelRun,
            ActionModel::CancelConnection,
            ActionModel::Notify,
        ],
{
    if panel.running {
        assert(panel.stop_actions() =~= seq![
            ActionModel::KillProcess,
            ActionModel::CancelRun,
            ActionModel::CancelConnection,
            ActionModel::Notify,
        ]);
    }
}

/// A connection is kept as it was made, and changes nothing else.
pub proof fn law_connection_is_kept<S>(panel: PanelModel<S>, uri: Seq<char>)
    ensures
        panel.connected_to(uri).vm_service_uri == Some(uri),
        panel.connected_to(uri).vm_connected,
        panel.connected_to(uri) == (PanelModel {
            vm_service_uri: Some(uri),
            vm_connected: true,
            ..panel
        }),
        panel.vm_service_uri is None ==> panel.search_actions() == seq![
            ActionModel::StartConnecting,
        ],
        panel.vm_service_uri is Some ==> panel.search_actions() == Seq::<ActionModel>::empty(),
{
}

/// Starting a run: what ran before is stopped, the app's directory is searched first for its
/// address, where the run has one, and the log and everything else stay as they are.
pub proof fn law_run_keeps_the_rest<S>(panel: PanelModel<S>, cwd: Option<Seq<char>>)
    ensures
        panel.before_run(cwd) == (PanelModel {
            running: true,
            vm_service_uri: None,
            vm_connected: false,
            manual_search_path: if cwd is Some {
                cwd
            } else {
                panel.manual_search_path
            },
            ..panel
        }),
{
}

/// What starting a run asks for, in order: what stopping asks for; to look for the VM service,
/// where the run has a directory; what its entry in the log asks for; and then to start exactly
/// the process that is asked for, and to look for its VM service.
pub proof fn law_run_asks_in_order<S>(
    panel: PanelModel<S>,
    timestamp: Seq<char>,
    device_id: Seq<char>,
    target: Seq<char>,
    cwd: Option<Seq<char>>,
    use_fvm: bool,
)
    ensures
        ({
            let actions = panel.run_actions(timestamp, device_id, target, cwd, use_fvm);
            let logging = panel.before_run(cwd).log_actions(
                timestamp,
                run_entry(device_id, target, use_fvm),
            );
            let n = panel.stop_actions().len() as int;
            let m: int = if cwd is Some {
                n + 1
            } else {
                n
            };
            let k = m + logging.len();
            &&& actions.take(n) == panel.stop_actions()
            &&& cwd is Some ==> actions[n] == ActionModel::StartConnecting
            &&& actions.subrange(m, k) == logging
            &&& actions.skip(k) == seq![
                ActionModel::SpawnRun { device_id, target, cwd },
                ActionModel::StartConnecting,
                ActionModel::Notify,
            ]
        }),
{
    let actions = panel.run_actions(timestamp, device_id, target, cwd, use_fvm);
    let logging = panel.before_run(cwd).log_actions(
        timestamp,
        run_entry(device_id, target, use_fvm),
    );
    let n = panel.stop_actions().len() as int;
    let m: int = if cwd is Some {
        n + 1
    } else {
        n
    };
    let k = m + logging.len();
    assert(actions.take(n) =~= panel.stop_actions());
    assert(actions.subrange(m, k) =~= logging);
    assert(actions.skip(k) =~= seq![
        ActionModel::SpawnRun { device_id, target, cwd },
        ActionModel::StartConnecting,
        ActionModel::Notify,
    ]);
}

/// The log's entry that a run begins names its device and its target.
pub proof fn law_run_is_told(device_id: Seq<char>, target: Seq<char>)
    ensures
        run_entry(device_id, target, true).message == "Starting fvm flutter run -d "@ + device_id
            + " -t "@ + target,
        run_entry(device_id, target, false).message == "Starting flutter run -d "@ + device_id
            + " -t "@ + target,
        forall|use_fvm: bool| (#[trigger] run_entry(device_id, target, use_fvm)).level == "INFO"@,
        forall|use_fvm: bool|
            (#[trigger] run_entry(device_id, target, use_fvm)).logger_name == Some("flutter"@),
{
    law_start_is_told_as_it_is_run(true, device_id, target);
}

/// Something that happened to the process is logged where there is an entry for it, as that
/// entry, and otherwise asks for nothing. Only the run can be changed by it besides.
pub proof fn law_events_are_logged<S>(
    panel: PanelModel<S>,
    timestamp: Seq<char>,
    event: ProcessEvent,
)
    ensures
        ({
            let after = panel.with_event(timestamp, event);
            let entry = process_entry(panel.vm_connected, event);
            &&& entry matches Some(e) ==> panel.event_actions(timestamp, event)
                == panel.log_actions(timestamp, e) && after == (PanelModel {
                running: after.running,
                ..panel.logged(timestamp, e)
            })
            &&& entry is None ==> panel.event_actions(timestamp, event)
                == Seq::<ActionModel>::empty() && after == (PanelModel {
                running: after.running,
                ..panel
            })
        }),
{
}

/// A new panel is empty and idle, docked at the bottom, and follows its log.
pub proof fn law_fresh_panel<S>(default_size: S)
    ensures
        ({
            let panel = PanelModel::fresh(default_size);
            &&& panel.metadata.len() == 0
            &&& forall|g: LevelGroup| (#[trigger] panel.ranges.of(g)).len() == 0
            &&& panel.next_inlay_id == 0
            &&& panel.active_timestamp_inlay is None
            &&& panel.vm_service_uri is None && !panel.vm_connected
            &&& panel.manual_search_path is None
            &&& panel.auto_scroll
            &&& !panel.running
            &&& panel.dock.position == DockPosition::Bottom
            &&& panel.dock.width is None
            &&& panel.dock.height == Some(default_size)
            &&& panel.dock.default_size == default_size
        }),
{
}

} // verus!
