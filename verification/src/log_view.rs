//! The log panel: the lines it has logged, the run of the app and the connection to its VM
//! service. Each operation returns what it asks of the editor that shows the log and of the
//! tasks that feed it.

use crate::clock::{is_clock_text, time_of_day};
use crate::commands::starting_message;
use crate::dock::{docked_size, resized, DockGeometry, DockPosition};
use crate::log_entry::{
    entry_for_event, entry_for_process, event_entry, group_of, level_group,
    EntryText, LogEvent, ProcessEvent,
};
use crate::panel_laws::{law_cursor_keeps_panel_wf, law_empty_panel_is_wf, law_log_keeps_panel_wf};
use crate::panel_model::{
    actions_of, clear_actions, line_metadata, message_lines, metadata_of, run_entry, ActionModel,
    Inlay, InlayId, InlayPlace, LevelRanges, LogMetadata, PanelAction, PanelModel,
};
use crate::text::{joined, split_lines, text_of, texts, trim_breaks};
use vstd::prelude::*;

verus! {

/// The log panel. `S` is the unit that its size is measured in.
#[derive(Debug)]
pub struct FlutterLogPanel<S> {
    metadata: Vec<Option<LogMetadata>>,
    ranges: LevelRanges,
    next_inlay_id: usize,
    active_timestamp_inlay: Option<InlayId>,
    vm_service_uri: Option<String>,
    vm_connected: bool,
    manual_search_path: Option<String>,
    auto_scroll: bool,
    running: bool,
    dock: DockGeometry<S>,
}

impl<S> View for FlutterLogPanel<S> {
    type V = PanelModel<S>;

    closed spec fn view(&self) -> PanelModel<S> {
        PanelModel {
            metadata: self.metadata@.map_values(|m: Option<LogMetadata>| metadata_of(m)),
            ranges: self.ranges@,
            next_inlay_id: self.next_inlay_id,
            active_timestamp_inlay: self.active_timestamp_inlay,
            vm_service_uri: text_of(self.vm_service_uri),
            vm_connected: self.vm_connected,
            manual_search_path: text_of(self.manual_search_path),
            auto_scroll: self.auto_scroll,
            running: self.running,
            dock: self.dock,
        }
    }
}

/// What the panel shows around the log.
#[derive(Debug)]
pub struct PanelView {
    pub title: String,
    pub hot_reload_disabled: bool,
    pub hot_restart_disabled: bool,
    pub auto_scroll: bool,
    /// Whether there is a connection to a VM service.
    pub status: String,
}

proof fn lemma_actions_append(a: Seq<PanelAction>, b: Seq<PanelAction>)
    ensures
        actions_of(a + b) == actions_of(a) + actions_of(b),
{
    assert(actions_of(a + b) =~= actions_of(a) + actions_of(b));
}

impl<S: Copy> FlutterLogPanel<S> {
    /// A panel with an empty log.
    pub fn new(default_size: S) -> (r: Self)
        ensures
            r@ == PanelModel::fresh(default_size),
            r@.wf(),
    {
        let r = FlutterLogPanel {
            metadata: Vec::new(),
            ranges: LevelRanges::new(),
            next_inlay_id: 0,
            active_timestamp_inlay: None,
            vm_service_uri: None,
            vm_connected: false,
            manual_search_path: None,
            auto_scroll: true,
            running: false,
            dock: DockGeometry::new(default_size),
        };
        assert(r@.metadata =~= Seq::empty());
        proof {
            assert(r@.cleared() =~= r@);
            law_empty_panel_is_wf(r@);
        }
        r
    }

    /// Whether there is an id left for another inlay. Where there is none, nothing that shows
    /// one can be asked of the panel before the log is emptied.
    pub fn has_inlay_id(&self) -> (r: bool)
        ensures
            r == (self@.next_inlay_id < usize::MAX),
    {
        self.next_inlay_id < usize::MAX
    }

    /// Writes an entry to the log, stamped with the given time.
    pub fn add_log_at(
        &mut self,
        timestamp: &str,
        message: &str,
        level: &str,
        logger_name: Option<String>,
    ) -> (actions: Vec<PanelAction>)
        requires
            old(self)@.has_id_for(text_of(logger_name)),
        ensures
            old(self)@.wf() ==> final(self)@.wf(),
            ({
                let entry = EntryText {
                    message: message@,
                    level: level@,
                    logger_name: text_of(logger_name),
                };
                &&& final(self)@ == old(self)@.logged(timestamp@, entry)
                &&& actions_of(actions@) == old(self)@.log_actions(timestamp@, entry)
            }),
    {
        let ghost entry = EntryText {
            message: message@,
            level: level@,
            logger_name: text_of(logger_name),
        };
        let ghost start = self@;
        let mut actions: Vec<PanelAction> = Vec::new();
        let trimmed = trim_breaks(message);
        let lines = split_lines(trimmed.as_str());
        let group = level_group(level);
        let mut i: usize = 0;
        assert(actions_of(actions@) =~= start.line_actions(timestamp@, entry, 0));
        assert(start.with_lines(timestamp@, entry, 0) =~= start);
        while i < lines.len()
            invariant
                i <= lines@.len(),
                texts(lines@) == message_lines(entry.message),
                entry == (EntryText {
                    message: message@,
                    level: level@,
                    logger_name: text_of(logger_name),
                }),
                group == group_of(entry.level),
                start.has_id_for(entry.logger_name),
                self@ == start.with_lines(timestamp@, entry, i as nat),
                actions_of(actions@) == start.line_actions(timestamp@, entry, i as nat),
            decreases lines@.len() - i,
        {
            let line: usize = self.metadata.len();
            assert(self@.metadata.len() == self.metadata@.len());
            assert(line == start.metadata.len() + i);
            let meta: Option<LogMetadata> = if i == 0 {
                Some(
                    LogMetadata {
                        timestamp: timestamp.to_owned(),
                        logger_name: logger_name.clone(),
                    },
                )
            } else {
                None
            };
            let ghost known = self@.metadata;
            let ghost done = actions@;
            self.metadata.push(meta);
            assert(self@.metadata =~= known.push(line_metadata(timestamp@, entry, i as int)));
            assert(self@.metadata =~= start.with_lines(timestamp@, entry, (i + 1) as nat).metadata);
            actions.push(
                PanelAction::AppendLine { line, text: joined(lines[i].as_str(), "\n") },
            );
            let ghost appended = actions@;
            self.ranges.push(group, line);
            assert(self@.ranges =~= start.with_lines(timestamp@, entry, (i + 1) as nat).ranges);
            actions.push(PanelAction::Highlight { ranges: self.ranges.clone() });
            let ghost highlighted = actions@;
            assert(actions_of(appended) =~= actions_of(done).push(appended.last()@));
            assert(actions_of(highlighted) =~= actions_of(appended).push(highlighted.last()@));
            assert(lines@[i as int]@ == message_lines(entry.message)[i as int]) by {
                assert(texts(lines@)[i as int] == lines@[i as int]@);
            }
            if i == 0 {
                if let Some(name) = &logger_name {
                    let inlay = Inlay {
                        id: InlayId::LogName(self.next_inlay_id),
                        place: InlayPlace::LineStart(line),
                        text: joined(name.as_str(), " "),
                    };
                    self.next_inlay_id = self.next_inlay_id + 1;
                    let mut insert: Vec<Inlay> = Vec::new();
                    insert.push(inlay);
                    let remove: Vec<InlayId> = Vec::new();
                    let ghost placed = insert@.map_values(|inlay: Inlay| inlay@);
                    assert(placed =~= seq![inlay@]);
                    assert(remove@ =~= Seq::empty());
                    actions.push(PanelAction::SpliceInlays { remove, insert });
                    assert(actions_of(actions@) =~= actions_of(highlighted).push(actions@.last()@));
                }
            }
            i = i + 1;
            assert(self@ =~= start.with_lines(timestamp@, entry, i as nat));
            assert(actions_of(actions@) =~= start.line_actions(timestamp@, entry, i as nat));
        }
        assert(self@.metadata.len() == self.metadata.len());
        assert(self@.metadata.len() == start.metadata.len() + texts(lines@).len());
        proof {
            if start.wf() {
                law_log_keeps_panel_wf(start, timestamp@, entry);
            }
        }
        let ghost shown = actions@;
        if self.auto_scroll {
            actions.push(PanelAction::ScrollToEnd);
            assert(actions_of(actions@) =~= actions_of(shown).push(ActionModel::ScrollToEnd));
        }
        let ghost scrolled = actions@;
        actions.push(PanelAction::Notify);
        assert(actions_of(actions@) =~= actions_of(scrolled).push(ActionModel::Notify));
        actions
    }

    /// Writes an entry to the log, stamped with the time.
    pub fn add_log(
        &mut self,
        message: String,
        level: &str,
        logger_name: Option<String>,
    ) -> (actions: Vec<PanelAction>)
        requires
            old(self)@.has_id_for(text_of(logger_name)),
        ensures
            old(self)@.wf() ==> final(self)@.wf(),
            exists|t: Seq<char>|
                is_clock_text(t) && final(self)@ == #[trigger] old(self)@.logged(
                    t,
                    EntryText {
                        message: message@,
                        level: level@,
                        logger_name: text_of(logger_name),
                    },
                ) && actions_of(actions@) == old(self)@.log_actions(
                    t,
                    EntryText {
                        message: message@,
                        level: level@,
                        logger_name: text_of(logger_name),
                    },
                ),
    {
        let timestamp = time_of_day();
        self.add_log_at(timestamp.as_str(), message.as_str(), level, logger_name)
    }

    /// The timestamp of the line in a row of the editor, if it is the first of its entry.
    pub fn timestamp_in(&self, row: Option<usize>) -> (r: Option<String>)
        ensures
            text_of(r) == self@.timestamp_in(row),
    {
        assert(self@.metadata.len() == self.metadata@.len());
        if let Some(row) = row {
            if row < self.metadata.len() {
                assert(self@.metadata[row as int] == metadata_of(self.metadata@[row as int]));
                if let Some(meta) = &self.metadata[row] {
                    return Some(meta.timestamp.clone());
                }
            }
        }
        None
    }

    /// Shows the timestamp of the line that the cursor is in. `row` is the cursor's row in
    /// the editor, if there is a cursor.
    pub fn update_timestamp_inlay(&mut self, row: Option<usize>) -> (actions: Vec<PanelAction>)
        requires
            old(self)@.timestamp_in(row) is Some ==> old(self)@.next_inlay_id < usize::MAX,
        ensures
            old(self)@.wf() ==> final(self)@.wf(),
            final(self)@ == old(self)@.with_cursor(row),
            actions_of(actions@) == old(self)@.cursor_actions(row),
    {
        let ghost start = self@;
        let timestamp = self.timestamp_in(row);
        let mut actions: Vec<PanelAction> = Vec::new();
        let mut remove: Vec<InlayId> = Vec::new();
        let mut insert: Vec<Inlay> = Vec::new();
        if let Some(id) = self.active_timestamp_inlay {
            remove.push(id);
        }
        assert(remove@ =~= start.shown_timestamps());
        match (timestamp, row) {
            (Some(text), Some(row)) => {
                let id = InlayId::LogTimestamp(self.next_inlay_id);
                self.next_inlay_id = self.next_inlay_id + 1;
                self.active_timestamp_inlay = Some(id);
                let inlay = Inlay { id, place: InlayPlace::RowEnd(row), text };
                insert.push(inlay);
                assert(insert@.map_values(|inlay: Inlay| inlay@) =~= seq![inlay@]);
                actions.push(PanelAction::SpliceInlays { remove, insert });
                assert(actions_of(actions@) =~= start.cursor_actions(Some(row)));
            },
            _ => {
                if self.active_timestamp_inlay.is_some() {
                    assert(insert@.map_values(|inlay: Inlay| inlay@) =~= Seq::empty());
                    actions.push(PanelAction::SpliceInlays { remove, insert });
                }
                self.active_timestamp_inlay = None;
                assert(actions_of(actions@) =~= start.cursor_actions(row));
            },
        }
        assert(self@.metadata =~= start.metadata);
        proof {
            if start.wf() {
                law_cursor_keeps_panel_wf(start, row);
            }
        }
        actions
    }

    /// Looks for the app's VM service.
    pub fn connect(&mut self) -> (actions: Vec<PanelAction>)
        ensures
            old(self)@.wf() ==> final(self)@.wf(),
            final(self)@ == old(self)@,
            actions_of(actions@) == seq![ActionModel::StartConnecting],
    {
        let mut actions: Vec<PanelAction> = Vec::new();
        actions.push(PanelAction::StartConnecting);
        assert(actions_of(actions@) =~= seq![ActionModel::StartConnecting]);
        actions
    }

    /// Sets where to look for the VM service's address first.
    pub fn set_search_path(&mut self, path: String) -> (actions: Vec<PanelAction>)
        ensures
            old(self)@.wf() ==> final(self)@.wf(),
            final(self)@ == (PanelModel { manual_search_path: Some(path@), ..old(self)@ }),
            actions_of(actions@) == old(self)@.search_actions(),
    {
        self.manual_search_path = Some(path);
        if self.vm_service_uri.is_none() {
            self.connect()
        } else {
            let actions: Vec<PanelAction> = Vec::new();
            assert(actions_of(actions@) =~= Seq::empty());
            actions
        }
    }

    /// The directories to look for the VM service's address in: the one that was set, then
    /// the roots of the workspace.
    pub fn search_paths(&self, workspace_roots: Vec<String>) -> (r: Vec<String>)
        ensures
            texts(r@) == match self@.manual_search_path {
                Some(path) => seq![path] + texts(workspace_roots@),
                None => texts(workspace_roots@),
            },
    {
        let mut r: Vec<String> = Vec::new();
        if let Some(path) = &self.manual_search_path {
            r.push(path.clone());
        }
        let ghost manual = texts(r@);
        let mut roots = workspace_roots;
        r.append(&mut roots);
        assert(texts(r@) =~= manual + texts(workspace_roots@));
        assert(Seq::<Seq<char>>::empty() + texts(workspace_roots@) =~= texts(workspace_roots@));
        assert(manual =~= match text_of(self.manual_search_path) {
            Some(path) => seq![path],
            None => Seq::empty(),
        });
        r
    }

    /// Takes in that the VM service at `uri` was connected to.
    pub fn handle_connection(&mut self, uri: String) -> (actions: Vec<PanelAction>)
        ensures
            old(self)@.wf() ==> final(self)@.wf(),
            final(self)@ == old(self)@.connected_to(uri@),
            actions_of(actions@) == seq![ActionModel::StartSession],
    {
        self.vm_service_uri = Some(uri);
        self.vm_connected = true;
        let mut actions: Vec<PanelAction> = Vec::new();
        actions.push(PanelAction::StartSession);
        assert(actions_of(actions@) =~= seq![ActionModel::StartSession]);
        actions
    }

    /// Writes to the log what happened on the connection, stamped with the given time.
    pub fn log_event_at(&mut self, timestamp: &str, event: LogEvent) -> (actions: Vec<PanelAction>)
        requires
            old(self)@.has_id_for(event_entry(event).logger_name),
        ensures
            old(self)@.wf() ==> final(self)@.wf(),
            final(self)@ == old(self)@.logged(timestamp@, event_entry(event)),
            actions_of(actions@) == old(self)@.log_actions(timestamp@, event_entry(event)),
    {
        let entry = entry_for_event(event);
        self.add_log_at(timestamp, entry.message.as_str(), entry.level.as_str(), entry.logger_name)
    }

    /// Writes to the log what happened on the connection, stamped with the time.
    pub fn log_event(&mut self, event: LogEvent) -> (actions: Vec<PanelAction>)
        requires
            old(self)@.has_id_for(event_entry(event).logger_name),
        ensures
            old(self)@.wf() ==> final(self)@.wf(),
            exists|t: Seq<char>|
                is_clock_text(t) && final(self)@ == #[trigger] old(self)@.logged(
                    t,
                    event_entry(event),
                ) && actions_of(actions@) == old(self)@.log_actions(t, event_entry(event)),
    {
        let timestamp = time_of_day();
        self.log_event_at(timestamp.as_str(), event)
    }

    /// Lets the panel follow the end of the log, or not.
    pub fn toggle_auto_scroll(&mut self, checked: bool) -> (actions: Vec<PanelAction>)
        ensures
            old(self)@.wf() ==> final(self)@.wf(),
            final(self)@ == (PanelModel { auto_scroll: checked, ..old(self)@ }),
            actions_of(actions@) == if checked {
                seq![ActionModel::RequestAutoscroll, ActionModel::Notify]
            } else {
                seq![ActionModel::Notify]
            },
    {
        self.auto_scroll = checked;
        let mut actions: Vec<PanelAction> = Vec::new();
        if checked {
            actions.push(PanelAction::RequestAutoscroll);
        }
        actions.push(PanelAction::Notify);
        assert(actions_of(actions@) =~= if checked {
            seq![ActionModel::RequestAutoscroll, ActionModel::Notify]
        } else {
            seq![ActionModel::Notify]
        });
        actions
    }

    /// Empties the log and looks for the VM service anew.
    pub fn refresh(&mut self) -> (actions: Vec<PanelAction>)
        ensures
            old(self)@.wf() ==> final(self)@.wf(),
            final(self)@ == old(self)@.cleared(),
            actions_of(actions@) == clear_actions() + seq![
                ActionModel::CancelConnection,
                ActionModel::StartConnecting,
                ActionModel::Notify,
            ],
    {
        let mut actions = self.clear_logs();
        let ghost cleared = actions@;
        actions.push(PanelAction::CancelConnection);
        let mut connecting = self.connect();
        let ghost asked = connecting@;
        assert(asked.len() == actions_of(asked).len());
        assert(asked[0]@ == actions_of(asked)[0]);
        actions.append(&mut connecting);
        actions.push(PanelAction::Notify);
        assert(actions_of(actions@) =~= actions_of(cleared) + seq![
            ActionModel::CancelConnection,
            ActionModel::StartConnecting,
            ActionModel::Notify,
        ]);
        actions
    }

    /// Empties the log.
    pub fn clear_logs(&mut self) -> (actions: Vec<PanelAction>)
        ensures
            old(self)@.wf() ==> final(self)@.wf(),
            final(self)@ == old(self)@.cleared(),
            actions_of(actions@) == clear_actions(),
    {
        self.metadata.clear();
        self.next_inlay_id = 0;
        self.active_timestamp_inlay = None;
        self.ranges = LevelRanges::new();
        assert(self@.metadata =~= Seq::empty());
        proof {
            assert(self@.cleared() =~= self@);
            if old(self)@.wf() {
                law_empty_panel_is_wf(self@);
            }
        }
        let mut actions: Vec<PanelAction> = Vec::new();
        actions.push(PanelAction::ClearText);
        let remove: Vec<InlayId> = Vec::new();
        let insert: Vec<Inlay> = Vec::new();
        assert(remove@ =~= Seq::empty());
        assert(insert@.map_values(|inlay: Inlay| inlay@) =~= Seq::empty());
        actions.push(PanelAction::SpliceInlays { remove, insert });
        actions.push(PanelAction::Notify);
        assert(actions_of(actions@) =~= clear_actions());
        actions
    }

    /// Whether a run of the app was started and has not ended.
    pub fn is_running(&self) -> (r: bool)
        ensures
            r == self@.running,
    {
        self.running
    }

    /// Whether there is a connection to a VM service.
    pub fn is_connected(&self) -> (r: bool)
        ensures
            r == self@.vm_connected,
    {
        self.vm_connected
    }

    /// Stops the run of the app, if there is one, and forgets its VM service.
    pub fn stop_run(&mut self) -> (actions: Vec<PanelAction>)
        ensures
            old(self)@.wf() ==> final(self)@.wf(),
            final(self)@ == old(self)@.stopped(),
            actions_of(actions@) == old(self)@.stop_actions(),
    {
        let ghost start = self@;
        let mut actions: Vec<PanelAction> = Vec::new();
        if self.running {
            actions.push(PanelAction::KillProcess);
        }
        self.running = false;
        actions.push(PanelAction::CancelRun);
        actions.push(PanelAction::CancelConnection);
        self.vm_service_uri = None;
        self.vm_connected = false;
        actions.push(PanelAction::Notify);
        assert(actions_of(actions@) =~= start.stop_actions());
        assert(self@.metadata =~= start.metadata);
        actions
    }

    /// Runs the app, with its start written to the log at the given time. `use_fvm` says
    /// whether the project uses FVM.
    pub fn start_run_at(
        &mut self,
        timestamp: &str,
        device_id: String,
        target: String,
        cwd: Option<String>,
        use_fvm: bool,
    ) -> (actions: Vec<PanelAction>)
        requires
            old(self)@.next_inlay_id < usize::MAX,
        ensures
            old(self)@.wf() ==> final(self)@.wf(),
            final(self)@ == old(self)@.before_run(text_of(cwd)).logged(
                timestamp@,
                run_entry(device_id@, target@, use_fvm),
            ),
            actions_of(actions@) == old(self)@.run_actions(
                timestamp@,
                device_id@,
                target@,
                text_of(cwd),
                use_fvm,
            ),
    {
        let ghost start = self@;
        let mut actions = self.stop_run();
        self.running = true;
        let ghost stopped = actions@;
        if let Some(path) = &cwd {
            let mut searching = self.set_search_path(path.clone());
            let ghost asked = searching@;
            actions.append(&mut searching);
            proof {
                lemma_actions_append(stopped, asked);
            }
        }
        let ghost searched = actions@;
        let ghost searching = if cwd is Some {
            seq![ActionModel::StartConnecting]
        } else {
            Seq::empty()
        };
        assert(actions_of(searched) =~= start.stop_actions() + searching);
        assert(self@ =~= start.before_run(text_of(cwd)));
        let message = starting_message(use_fvm, device_id.as_str(), target.as_str());
        let mut logging = self.add_log_at(
            timestamp,
            message.as_str(),
            "INFO",
            Some("flutter".to_owned()),
        );
        let ghost logged = logging@;
        actions.append(&mut logging);
        let ghost told = actions@;
        proof {
            lemma_actions_append(searched, logged);
        }
        actions.push(PanelAction::SpawnRun { device_id, target, cwd });
        let mut connecting = self.connect();
        let ghost asked = connecting@;
        assert(asked.len() == actions_of(asked).len());
        assert(asked[0]@ == actions_of(asked)[0]);
        actions.append(&mut connecting);
        actions.push(PanelAction::Notify);
        assert(actions_of(actions@) =~= actions_of(told) + seq![
            ActionModel::SpawnRun { device_id: device_id@, target: target@, cwd: text_of(cwd) },
            ActionModel::StartConnecting,
            ActionModel::Notify,
        ]);
        actions
    }

    /// Runs the app. `use_fvm` says whether the project uses FVM.
    pub fn start_run(
        &mut self,
        device_id: String,
        target: String,
        cwd: Option<String>,
        use_fvm: bool,
    ) -> (actions: Vec<PanelAction>)
        requires
            old(self)@.next_inlay_id < usize::MAX,
        ensures
            old(self)@.wf() ==> final(self)@.wf(),
            exists|t: Seq<char>|
                is_clock_text(t) && final(self)@ == #[trigger] old(self)@.before_run(
                    text_of(cwd),
                ).logged(t, run_entry(device_id@, target@, use_fvm)) && actions_of(actions@) == old(
                    self,
                )@.run_actions(t, device_id@, target@, text_of(cwd), use_fvm),
    {
        let timestamp = time_of_day();
        self.start_run_at(timestamp.as_str(), device_id, target, cwd, use_fvm)
    }

    /// Takes in what happened to the process, with the log's entry for it stamped with the
    /// given time. Also says whether nothing more will happen to the process.
    pub fn process_event_at(&mut self, timestamp: &str, event: ProcessEvent) -> (r: (
        Vec<PanelAction>,
        bool,
    ))
        requires
            old(self)@.has_id_for_event(event),
        ensures
            old(self)@.wf() ==> final(self)@.wf(),
            final(self)@ == old(self)@.with_event(timestamp@, event),
            actions_of(r.0@) == old(self)@.event_actions(timestamp@, event),
            r.1 == event is Exited,
    {
        let entry = entry_for_process(self.vm_connected, &event);
        let actions: Vec<PanelAction> = match entry {
            Some(entry) => self.add_log_at(
                timestamp,
                entry.message.as_str(),
                entry.level.as_str(),
                entry.logger_name,
            ),
            None => Vec::new(),
        };
        let ghost logged = self@;
        let ended: bool = match event {
            ProcessEvent::Stdout(_) => false,
            ProcessEvent::Stderr(_) => false,
            ProcessEvent::Error(_) => {
                self.running = false;
                false
            },
            ProcessEvent::Exited => {
                self.running = false;
                true
            },
        };
        assert(self@.metadata =~= logged.metadata);
        assert(entry is None ==> actions_of(actions@) =~= Seq::empty());
        (actions, ended)
    }

    /// Takes in what happened to the process. Also says whether nothing more will happen
    /// to it.
    pub fn process_event(&mut self, event: ProcessEvent) -> (r: (Vec<PanelAction>, bool))
        requires
            old(self)@.has_id_for_event(event),
        ensures
            old(self)@.wf() ==> final(self)@.wf(),
            exists|t: Seq<char>|
                is_clock_text(t) && final(self)@ == #[trigger] old(self)@.with_event(t, event)
                    && actions_of(r.0@) == old(self)@.event_actions(t, event),
            r.1 == event is Exited,
    {
        let timestamp = time_of_day();
        self.process_event_at(timestamp.as_str(), event)
    }

    /// What to write to the process, if there is one, so that it reads `text`.
    pub fn send_input(&self, text: &str) -> (r: Option<Vec<u8>>)
        ensures
            r is Some == self@.running,
            r matches Some(bytes) ==> bytes@ == vstd::utf8::encode_utf8(text@),
    {
        if self.running {
            Some(text.as_bytes_vec())
        } else {
            None
        }
    }

    /// What the panel shows around the log.
    pub fn render(&self) -> (view: PanelView)
        ensures
            view.title@ == "Flutter Logs"@,
            view.hot_reload_disabled == !self@.running,
            view.hot_restart_disabled == !self@.running,
            view.auto_scroll == self@.auto_scroll,
            view.status@ == if self@.vm_service_uri is Some {
                "Connected"@
            } else {
                "Disconnected"@
            },
    {
        PanelView {
            title: "Flutter Logs".to_owned(),
            hot_reload_disabled: !self.is_running(),
            hot_restart_disabled: !self.is_running(),
            auto_scroll: self.auto_scroll,
            status: if self.vm_service_uri.is_some() {
                "Connected".to_owned()
            } else {
                "Disconnected".to_owned()
            },
        }
    }

    /// The side of the window that the panel is docked to.
    pub fn position(&self) -> (r: DockPosition)
        ensures
            r == self@.dock.position,
    {
        self.dock.position
    }

    /// Whether the panel can be docked to a side of the window.
    pub fn position_is_valid(&self, position: DockPosition) -> (r: bool)
        ensures
            r == (position == DockPosition::Left || position == DockPosition::Right || position
                == DockPosition::Bottom),
    {
        self.dock.position_is_valid(position)
    }

    /// Docks the panel to a side of the window.
    pub fn set_position(&mut self, position: DockPosition) -> (actions: Vec<PanelAction>)
        ensures
            old(self)@.wf() ==> final(self)@.wf(),
            final(self)@ == (PanelModel {
                dock: DockGeometry { position, ..old(self)@.dock },
                ..old(self)@
            }),
            actions_of(actions@) == seq![ActionModel::Notify],
    {
        self.dock.set_position(position);
        let mut actions: Vec<PanelAction> = Vec::new();
        actions.push(PanelAction::Notify);
        assert(actions_of(actions@) =~= seq![ActionModel::Notify]);
        actions
    }

    /// The panel's size in the direction in which it can be resized.
    pub fn size(&self) -> (r: S)
        ensures
            r == docked_size(self@.dock),
    {
        self.dock.size()
    }

    /// Resizes the panel in the direction in which it can be.
    pub fn set_size(&mut self, size: Option<S>) -> (actions: Vec<PanelAction>)
        ensures
            old(self)@.wf() ==> final(self)@.wf(),
            final(self)@ == (PanelModel { dock: resized(old(self)@.dock, size), ..old(self)@ }),
            actions_of(actions@) == seq![ActionModel::Notify],
    {
        self.dock.set_size(size);
        let mut actions: Vec<PanelAction> = Vec::new();
        actions.push(PanelAction::Notify);
        assert(actions_of(actions@) =~= seq![ActionModel::Notify]);
        actions
    }
}

} // verus!
