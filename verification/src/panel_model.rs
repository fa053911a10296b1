//! What the log panel holds and asks for, as mathematical values: how each of its
//! operations changes the one and leads to the other.

use crate::commands::starting_text;
use crate::dock::{DockGeometry, DockPosition};
use crate::log_entry::{group_of, process_entry, EntryText, LevelGroup, ProcessEvent};
use crate::text::{breaks_trimmed, lines_of, text_of};
use vstd::prelude::*;

verus! {

/// What is known of the first line of an entry.
#[derive(Debug)]
pub struct LogMetadata {
    pub timestamp: String,
    pub logger_name: Option<String>,
}

/// What is known of the first line of an entry, as texts.
#[verifier::ext_equal]
pub struct MetadataText {
    pub timestamp: Seq<char>,
    pub logger_name: Option<Seq<char>>,
}

impl View for LogMetadata {
    type V = MetadataText;

    open spec fn view(&self) -> MetadataText {
        MetadataText { timestamp: self.timestamp@, logger_name: text_of(self.logger_name) }
    }
}

/// Names a text that the editor shows beside the log's own.
#[derive(Debug, Clone, Copy, PartialEq, Eq, Structural)]
pub enum InlayId {
    LogName(usize),
    LogTimestamp(usize),
}

/// Where the editor shows an inlay.
#[derive(Debug, Clone, Copy, PartialEq, Eq, Structural)]
pub enum InlayPlace {
    /// Before the text of a line of the log.
    LineStart(usize),
    /// After the text of a row of the editor.
    RowEnd(usize),
}

/// A text that the editor shows beside the log's own.
#[derive(Debug)]
pub struct Inlay {
    pub id: InlayId,
    pub place: InlayPlace,
    pub text: String,
}

/// An inlay, with its text as such.
#[verifier::ext_equal]
pub struct InlayText {
    pub id: InlayId,
    pub place: InlayPlace,
    pub text: Seq<char>,
}

impl View for Inlay {
    type V = InlayText;

    open spec fn view(&self) -> InlayText {
        InlayText { id: self.id, place: self.place, text: self.text@ }
    }
}

/// The lines of the log that are highlighted, by group. Lines count from 0, since the log
/// was last cleared.
#[derive(Debug)]
pub struct LevelRanges {
    pub fine: Vec<usize>,
    pub info: Vec<usize>,
    pub warning: Vec<usize>,
    pub severe: Vec<usize>,
}

/// The lines of the log that are highlighted, by group.
#[verifier::ext_equal]
pub struct RangesModel {
    pub fine: Seq<usize>,
    pub info: Seq<usize>,
    pub warning: Seq<usize>,
    pub severe: Seq<usize>,
}

impl View for LevelRanges {
    type V = RangesModel;

    open spec fn view(&self) -> RangesModel {
        RangesModel {
            fine: self.fine@,
            info: self.info@,
            warning: self.warning@,
            severe: self.severe@,
        }
    }
}

impl RangesModel {
    /// The lines of one group.
    pub open spec fn of(self, group: LevelGroup) -> Seq<usize> {
        match group {
            LevelGroup::Fine => self.fine,
            LevelGroup::Info => self.info,
            LevelGroup::Warning => self.warning,
            LevelGroup::Severe => self.severe,
        }
    }

    /// With the `n` lines from `first` on added to a group, if they belong to one.
    pub open spec fn with_lines(self, group: Option<LevelGroup>, first: nat, n: nat) -> Self {
        let lines = Seq::new(n, |i: int| (first + i) as usize);
        match group {
            Some(LevelGroup::Fine) => RangesModel { fine: self.fine + lines, ..self },
            Some(LevelGroup::Info) => RangesModel { info: self.info + lines, ..self },
            Some(LevelGroup::Warning) => RangesModel { warning: self.warning + lines, ..self },
            Some(LevelGroup::Severe) => RangesModel { severe: self.severe + lines, ..self },
            None => self,
        }
    }

    /// No line is highlighted.
    pub open spec fn none() -> Self {
        RangesModel {
            fine: Seq::empty(),
            info: Seq::empty(),
            warning: Seq::empty(),
            severe: Seq::empty(),
        }
    }
}

impl LevelRanges {
    /// No line is highlighted.
    pub fn new() -> (r: Self)
        ensures
            r@ == RangesModel::none(),
    {
        LevelRanges { fine: Vec::new(), info: Vec::new(), warning: Vec::new(), severe: Vec::new() }
    }

    /// Adds a line to a group, if it belongs to one.
    pub fn push(&mut self, group: Option<LevelGroup>, line: usize)
        ensures
            final(self)@ == old(self)@.with_lines(group, line as nat, 1),
    {
        let ghost lines = Seq::new(1, |i: int| (line as nat + i) as usize);
        assert(lines =~= seq![line]);
        assert(forall|s: Seq<usize>| #[trigger] (s + lines) =~= s.push(line));
        match group {
            Some(LevelGroup::Fine) => {
                self.fine.push(line);
            },
            Some(LevelGroup::Info) => {
                self.info.push(line);
            },
            Some(LevelGroup::Warning) => {
                self.warning.push(line);
            },
            Some(LevelGroup::Severe) => {
                self.severe.push(line);
            },
            None => {},
        }
    }
}

impl Clone for LevelRanges {
    fn clone(&self) -> (r: Self)
        ensures
            r@ == self@,
    {
        LevelRanges {
            fine: clone_lines(&self.fine),
            info: clone_lines(&self.info),
            warning: clone_lines(&self.warning),
            severe: clone_lines(&self.severe),
        }
    }
}

fn clone_lines(v: &Vec<usize>) -> (r: Vec<usize>)
    ensures
        r@ == v@,
{
    let r = v.clone();
    assert(r@ =~= v@);
    r
}

/// What the panel asks for, in order.
#[derive(Debug)]
pub enum PanelAction {
    /// Append a line of the log to the editor's text.
    AppendLine { line: usize, text: String },
    /// Highlight these lines, and no others.
    Highlight { ranges: LevelRanges },
    /// Take inlays away and put others in.
    SpliceInlays { remove: Vec<InlayId>, insert: Vec<Inlay> },
    /// Empty the editor's text.
    ClearText,
    /// Put the cursor behind the last line and bring it into view.
    ScrollToEnd,
    /// Bring the cursor into view.
    RequestAutoscroll,
    /// Look for the app's VM service, in place of what the connection task did before.
    StartConnecting,
    /// Follow the log of the VM service that was connected to, in place of what the
    /// connection task did before.
    StartSession,
    /// End what the connection task does.
    CancelConnection,
    /// Start the process that runs the app, and follow what happens to it.
    SpawnRun { device_id: String, target: String, cwd: Option<String> },
    /// Kill the process that runs the app, if it has been started.
    KillProcess,
    /// Stop following the process that runs the app.
    CancelRun,
    /// Move the focus to the panel, or away from it.
    ToggleFocus,
    /// Show the panel anew.
    Notify,
}

/// What the panel asks for, as texts.
#[verifier::ext_equal]
pub enum ActionModel {
    AppendLine { line: usize, text: Seq<char> },
    Highlight { ranges: RangesModel },
    SpliceInlays { remove: Seq<InlayId>, insert: Seq<InlayText> },
    ClearText,
    ScrollToEnd,
    RequestAutoscroll,
    StartConnecting,
    StartSession,
    CancelConnection,
    SpawnRun { device_id: Seq<char>, target: Seq<char>, cwd: Option<Seq<char>> },
    KillProcess,
    CancelRun,
    ToggleFocus,
    Notify,
}

impl View for PanelAction {
    type V = ActionModel;

    open spec fn view(&self) -> ActionModel {
        match self {
            PanelAction::AppendLine { line, text } => ActionModel::AppendLine {
                line: *line,
                text: text@,
            },
            PanelAction::Highlight { ranges } => ActionModel::Highlight { ranges: ranges@ },
            PanelAction::SpliceInlays { remove, insert } => ActionModel::SpliceInlays {
                remove: remove@,
                insert: insert@.map_values(|inlay: Inlay| inlay@),
            },
            PanelAction::ClearText => ActionModel::ClearText,
            PanelAction::ScrollToEnd => ActionModel::ScrollToEnd,
            PanelAction::RequestAutoscroll => ActionModel::RequestAutoscroll,
            PanelAction::StartConnecting => ActionModel::StartConnecting,
            PanelAction::StartSession => ActionModel::StartSession,
            PanelAction::CancelConnection => ActionModel::CancelConnection,
            PanelAction::SpawnRun { device_id, target, cwd } => ActionModel::SpawnRun {
                device_id: device_id@,
                target: target@,
                cwd: text_of(*cwd),
            },
            PanelAction::KillProcess => ActionModel::KillProcess,
            PanelAction::CancelRun => ActionModel::CancelRun,
            PanelAction::ToggleFocus => ActionModel::ToggleFocus,
            PanelAction::Notify => ActionModel::Notify,
        }
    }
}

/// The actions of a list, as texts.
pub open spec fn actions_of(actions: Seq<PanelAction>) -> Seq<ActionModel> {
    actions.map_values(|a: PanelAction| a@)
}

/// What the log panel holds.
#[verifier::ext_equal]
pub struct PanelModel<S> {
    /// For each line of the log: what is known of it, if it is the first of its entry.
    pub metadata: Seq<Option<MetadataText>>,
    pub ranges: RangesModel,
    pub next_inlay_id: usize,
    /// The inlay that shows the timestamp of the cursor's line.
    pub active_timestamp_inlay: Option<InlayId>,
    /// The address of the VM service that was connected to.
    pub vm_service_uri: Option<Seq<char>>,
    pub vm_connected: bool,
    /// Where to look for the VM service's address first.
    pub manual_search_path: Option<Seq<char>>,
    pub auto_scroll: bool,
    /// A run of the app was started and has not ended.
    pub running: bool,
    pub dock: DockGeometry<S>,
}

/// What is known of a line, as texts.
pub open spec fn metadata_of(meta: Option<LogMetadata>) -> Option<MetadataText> {
    match meta {
        Some(meta) => Some(meta@),
        None => None,
    }
}

/// The lines that an entry's message takes up. Line breaks at its end take up none.
pub open spec fn message_lines(message: Seq<char>) -> Seq<Seq<char>> {
    lines_of(breaks_trimmed(message))
}

/// What is known of line `i` of an entry.
pub open spec fn line_metadata(timestamp: Seq<char>, entry: EntryText, i: int) -> Option<
    MetadataText,
> {
    if i == 0 {
        Some(MetadataText { timestamp, logger_name: entry.logger_name })
    } else {
        None
    }
}

/// `lines` are lines of a log of `n` lines, in order.
pub open spec fn are_lines(lines: Seq<usize>, n: nat) -> bool {
    &&& forall|i: int| 0 <= i < lines.len() ==> (#[trigger] lines[i]) < n
    &&& forall|i: int, j: int| 0 <= i < j < lines.len() ==> lines[i] < lines[j]
}

impl<S> PanelModel<S> {
    /// A panel with an empty log, and neither a run nor a connection.
    pub open spec fn fresh(default_size: S) -> Self {
        PanelModel {
            metadata: Seq::empty(),
            ranges: RangesModel::none(),
            next_inlay_id: 0,
            active_timestamp_inlay: None,
            vm_service_uri: None,
            vm_connected: false,
            manual_search_path: None,
            auto_scroll: true,
            running: false,
            dock: DockGeometry {
                position: DockPosition::Bottom,
                width: None,
                height: Some(default_size),
                default_size,
            },
        }
    }

    /// With the first `k` lines of an entry in the log.
    pub open spec fn with_lines(self, timestamp: Seq<char>, entry: EntryText, k: nat) -> Self {
        PanelModel {
            metadata: self.metadata + Seq::new(k, |i: int| line_metadata(timestamp, entry, i)),
            ranges: self.ranges.with_lines(group_of(entry.level), self.metadata.len(), k),
            next_inlay_id: if k > 0 && entry.logger_name is Some {
                (self.next_inlay_id + 1) as usize
            } else {
                self.next_inlay_id
            },
            ..self
        }
    }

    /// What the first `k` lines of an entry ask for: each line's text, the highlights, and
    /// the logger's name before the first line.
    pub open spec fn line_actions(self, timestamp: Seq<char>, entry: EntryText, k: nat) -> Seq<
        ActionModel,
    >
        decreases k,
    {
        if k == 0 {
            Seq::empty()
        } else {
            let line = (self.metadata.len() + k - 1) as usize;
            let before = self.line_actions(timestamp, entry, (k - 1) as nat);
            let shown = before.push(
                ActionModel::AppendLine {
                    line,
                    text: message_lines(entry.message)[k - 1] + "\n"@,
                },
            ).push(ActionModel::Highlight { ranges: self.with_lines(timestamp, entry, k).ranges });
            if k == 1 && entry.logger_name is Some {
                shown.push(
                    ActionModel::SpliceInlays {
                        remove: Seq::empty(),
                        insert: seq![
                            InlayText {
                                id: InlayId::LogName(self.next_inlay_id),
                                place: InlayPlace::LineStart(line),
                                text: entry.logger_name->0 + " "@,
                            },
                        ],
                    },
                )
            } else {
                shown
            }
        }
    }

    /// With an entry in the log.
    pub open spec fn logged(self, timestamp: Seq<char>, entry: EntryText) -> Self {
        self.with_lines(timestamp, entry, message_lines(entry.message).len())
    }

    /// What an entry asks for.
    pub open spec fn log_actions(self, timestamp: Seq<char>, entry: EntryText) -> Seq<ActionModel> {
        let lines = self.line_actions(timestamp, entry, message_lines(entry.message).len());
        if self.auto_scroll {
            lines.push(ActionModel::ScrollToEnd).push(ActionModel::Notify)
        } else {
            lines.push(ActionModel::Notify)
        }
    }

    /// The timestamp of the line in a row of the editor, if it is the first of its entry.
    pub open spec fn timestamp_in(self, row: Option<usize>) -> Option<Seq<char>> {
        match row {
            Some(row) => if row < self.metadata.len() {
                match self.metadata[row as int] {
                    Some(meta) => Some(meta.timestamp),
                    None => None,
                }
            } else {
                None
            },
            None => None,
        }
    }

    /// With the cursor in a row of the editor.
    pub open spec fn with_cursor(self, row: Option<usize>) -> Self {
        match self.timestamp_in(row) {
            Some(_) => PanelModel {
                active_timestamp_inlay: Some(InlayId::LogTimestamp(self.next_inlay_id)),
                next_inlay_id: (self.next_inlay_id + 1) as usize,
                ..self
            },
            None => PanelModel { active_timestamp_inlay: None, ..self },
        }
    }

    /// The inlays that show a timestamp.
    pub open spec fn shown_timestamps(self) -> Seq<InlayId> {
        match self.active_timestamp_inlay {
            Some(id) => seq![id],
            None => Seq::empty(),
        }
    }

    /// What the cursor's coming into a row of the editor asks for: the timestamp of that
    /// row's line in place of the one shown before.
    pub open spec fn cursor_actions(self, row: Option<usize>) -> Seq<ActionModel> {
        match self.timestamp_in(row) {
            Some(timestamp) => seq![
                ActionModel::SpliceInlays {
                    remove: self.shown_timestamps(),
                    insert: seq![
                        InlayText {
                            id: InlayId::LogTimestamp(self.next_inlay_id),
                            place: InlayPlace::RowEnd(row->0),
                            text: timestamp,
                        },
                    ],
                },
            ],
            None => if self.active_timestamp_inlay is Some {
                seq![
                    ActionModel::SpliceInlays {
                        remove: self.shown_timestamps(),
                        insert: Seq::empty(),
                    },
                ]
            } else {
                Seq::empty()
            },
        }
    }

    /// With an empty log.
    pub open spec fn cleared(self) -> Self {
        PanelModel {
            metadata: Seq::empty(),
            ranges: RangesModel::none(),
            next_inlay_id: 0,
            active_timestamp_inlay: None,
            ..self
        }
    }

    /// With no run of the app, and no connection to one.
    pub open spec fn stopped(self) -> Self {
        PanelModel { running: false, vm_service_uri: None, vm_connected: false, ..self }
    }

    /// What stopping a run asks for.
    pub open spec fn stop_actions(self) -> Seq<ActionModel> {
        let rest = seq![
            ActionModel::CancelRun,
            ActionModel::CancelConnection,
            ActionModel::Notify,
        ];
        if self.running {
            seq![ActionModel::KillProcess] + rest
        } else {
            rest
        }
    }

    /// What a new search path asks for: to look for the VM service there, unless it was
    /// found.
    pub open spec fn search_actions(self) -> Seq<ActionModel> {
        if self.vm_service_uri is None {
            seq![ActionModel::StartConnecting]
        } else {
            Seq::empty()
        }
    }

    /// With a run that is about to be started, and nothing in the log of it yet.
    pub open spec fn before_run(self, cwd: Option<Seq<char>>) -> Self {
        PanelModel {
            running: true,
            manual_search_path: if cwd is Some {
                cwd
            } else {
                self.manual_search_path
            },
            ..self.stopped()
        }
    }

    /// What starting a run asks for. A run from before is stopped, the VM service is looked
    /// for in the directory the app runs in, and the log says what is run.
    pub open spec fn run_actions(
        self,
        timestamp: Seq<char>,
        device_id: Seq<char>,
        target: Seq<char>,
        cwd: Option<Seq<char>>,
        use_fvm: bool,
    ) -> Seq<ActionModel> {
        let searching = if cwd is Some {
            seq![ActionModel::StartConnecting]
        } else {
            Seq::empty()
        };
        self.stop_actions() + searching + self.before_run(cwd).log_actions(
            timestamp,
            run_entry(device_id, target, use_fvm),
        ) + seq![
            ActionModel::SpawnRun { device_id, target, cwd },
            ActionModel::StartConnecting,
            ActionModel::Notify,
        ]
    }

    /// With something having happened to the process, and the log not having it yet.
    pub open spec fn after_event(self, event: ProcessEvent) -> Self {
        PanelModel {
            running: self.running && !(event is Error) && !(event is Exited),
            ..self
        }
    }

    /// With something having happened to the process, and the log having it where it is to.
    pub open spec fn with_event(self, timestamp: Seq<char>, event: ProcessEvent) -> Self {
        match process_entry(self.vm_connected, event) {
            Some(entry) => self.logged(timestamp, entry).after_event(event),
            None => self.after_event(event),
        }
    }

    /// What something that happened to the process asks for.
    pub open spec fn event_actions(self, timestamp: Seq<char>, event: ProcessEvent) -> Seq<
        ActionModel,
    > {
        match process_entry(self.vm_connected, event) {
            Some(entry) => self.log_actions(timestamp, entry),
            None => Seq::empty(),
        }
    }

    /// There is an inlay id left for what the event needs one for.
    pub open spec fn has_id_for_event(self, event: ProcessEvent) -> bool {
        process_entry(self.vm_connected, event) is Some ==> self.next_inlay_id < usize::MAX
    }

    /// With a connection to the VM service at `uri`.
    pub open spec fn connected_to(self, uri: Seq<char>) -> Self {
        PanelModel { vm_service_uri: Some(uri), vm_connected: true, ..self }
    }

    /// The highlighted lines are lines of the log, in the order in which they were logged,
    /// and none is in two groups. The timestamp that is shown has an id that was handed out.
    /// There is a connection exactly where the address of a VM service is known.
    pub open spec fn wf(self) -> bool {
        &&& forall|g: LevelGroup| #[trigger] are_lines(self.ranges.of(g), self.metadata.len())
        &&& forall|g: LevelGroup, h: LevelGroup, line: usize|
            g != h && #[trigger] self.ranges.of(g).contains(line) ==> !#[trigger] self.ranges.of(
                h,
            ).contains(line)
        &&& match self.active_timestamp_inlay {
            Some(InlayId::LogTimestamp(n)) => n < self.next_inlay_id,
            Some(InlayId::LogName(_)) => false,
            None => true,
        }
        &&& self.vm_connected == (self.vm_service_uri is Some)
    }

    /// There is an inlay id left for what the entry needs one for.
    pub open spec fn has_id_for(self, logger_name: Option<Seq<char>>) -> bool {
        logger_name is Some ==> self.next_inlay_id < usize::MAX
    }
}

/// The log's entry that a run begins.
pub open spec fn run_entry(device_id: Seq<char>, target: Seq<char>, use_fvm: bool) -> EntryText {
    EntryText {
        message: starting_text(use_fvm, device_id, target),
        level: "INFO"@,
        logger_name: Some("flutter"@),
    }
}

/// What emptying the log asks for.
pub open spec fn clear_actions() -> Seq<ActionModel> {
    seq![
        ActionModel::ClearText,
        ActionModel::SpliceInlays { remove: Seq::empty(), insert: Seq::empty() },
        ActionModel::Notify,
    ]
}

} // verus!
