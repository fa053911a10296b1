//! How the panel finds the VM service of a running app: which files it reads, what it
//! connects to, and when it gives up. And how it follows the service's log afterwards.

use crate::log_entry::{plain_entry, EntryText, LogEntry, LogEvent};
use crate::paths::{
    begins_with_drive, is_verbatim, join, lemma_two_names_taken_from, path_from, segments_of,
    PathStyle,
};
use crate::text::{begins, ends, joined, texts};
use crate::uri::{announced_uri, service_uri};
use crate::vm_service::LogRecord;
use vstd::prelude::*;

verus! {

/// Where `flutter run` leaves the address of its VM service, in the directory it runs in.
pub const SERVICE_FILE: &'static str = ".dart_tool/flutter_url";

/// How many rounds of looking are followed by another.
pub const MAX_WAITS: u32 = 60;

/// How long to wait between two rounds, in milliseconds.
pub const WAIT_MILLIS: u64 = 500;

/// What to do next in order to find the VM service.
#[derive(Debug)]
pub enum ConnectAction {
    /// List the directories to look in; then call `paths_listed`.
    ListPaths,
    /// Read a file; then call `file_read`.
    ReadFile { path: String },
    /// Connect to an address; then call `connect_ended`.
    Connect { uri: String },
    /// Wait for some milliseconds; then call `woken`.
    Wait { millis: u64 },
    /// The service at this address was connected to; hand the connection to the panel.
    Done { uri: String },
    /// Stop looking.
    GiveUp,
}

/// What to do next, as texts.
#[verifier::ext_equal]
pub enum ConnectActionText {
    ListPaths,
    ReadFile { path: Seq<char> },
    Connect { uri: Seq<char> },
    Wait { millis: u64 },
    Done { uri: Seq<char> },
    GiveUp,
}

impl View for ConnectAction {
    type V = ConnectActionText;

    open spec fn view(&self) -> ConnectActionText {
        match self {
            ConnectAction::ListPaths => ConnectActionText::ListPaths,
            ConnectAction::ReadFile { path } => ConnectActionText::ReadFile { path: path@ },
            ConnectAction::Connect { uri } => ConnectActionText::Connect { uri: uri@ },
            ConnectAction::Wait { millis } => ConnectActionText::Wait { millis: *millis },
            ConnectAction::Done { uri } => ConnectActionText::Done { uri: uri@ },
            ConnectAction::GiveUp => ConnectActionText::GiveUp,
        }
    }
}

/// How an attempt to connect ended.
#[derive(Debug)]
pub enum ConnectOutcome {
    Connected,
    /// The service is not ready yet.
    NotReady,
    /// The task that connects failed.
    TaskFailed(String),
    /// The task that connects could not be started.
    SpawnFailed(String),
}

/// What a step of looking for the service leads to: entries for the log, then an action.
#[derive(Debug)]
pub struct ConnectStep {
    pub entries: Vec<LogEntry>,
    pub action: ConnectAction,
}

/// What a step leads to, as texts.
#[verifier::ext_equal]
pub struct StepText {
    pub entries: Seq<EntryText>,
    pub action: ConnectActionText,
}

/// The entries of a list, as texts.
pub open spec fn entries_of(entries: Seq<LogEntry>) -> Seq<EntryText> {
    entries.map_values(|e: LogEntry| e@)
}

impl View for ConnectStep {
    type V = StepText;

    open spec fn view(&self) -> StepText {
        StepText { entries: entries_of(self.entries@), action: self.action@ }
    }
}

/// The state of looking for a VM service.
#[derive(Debug)]
pub struct Connector {
    style: PathStyle,
    attempts: u32,
    paths: Vec<String>,
}

/// The state of looking for a VM service.
#[verifier::ext_equal]
pub struct ConnectorModel {
    /// How paths are written.
    pub style: PathStyle,
    /// How many rounds are over.
    pub attempts: nat,
    /// The directories that are left to look in, in this round.
    pub paths: Seq<Seq<char>>,
}

impl View for Connector {
    type V = ConnectorModel;

    closed spec fn view(&self) -> ConnectorModel {
        ConnectorModel {
            style: self.style,
            attempts: self.attempts as nat,
            paths: texts(self.paths@),
        }
    }
}

/// An entry without a logger's name.
pub open spec fn plain(message: Seq<char>, level: Seq<char>) -> EntryText {
    EntryText { message, level, logger_name: None }
}

/// What the log says when a round is over, and `attempts` were before it.
pub open spec fn round_entries(attempts: nat) -> Seq<EntryText> {
    if attempts >= MAX_WAITS {
        seq![
            plain("Could not link to running Flutter app (connection timed out)."@, "ERROR"@),
            plain(
                "Please ensure 'flutter run' is active and '.dart_tool/flutter_url' exists."@,
                "ERROR"@,
            ),
        ]
    } else if attempts == 0 {
        seq![plain("Waiting for Flutter app to start..."@, "INFO"@)]
    } else {
        Seq::empty()
    }
}

/// What to do when a round is over, and `attempts` were before it.
pub open spec fn round_action(attempts: nat) -> ConnectActionText {
    if attempts >= MAX_WAITS {
        ConnectActionText::GiveUp
    } else {
        ConnectActionText::Wait { millis: WAIT_MILLIS }
    }
}

impl ConnectorModel {
    /// The state after going on to the next directory, or to the end of the round.
    pub open spec fn moved_on(self) -> Self {
        if self.paths.len() > 0 {
            ConnectorModel { paths: self.paths.skip(1), ..self }
        } else {
            ConnectorModel { attempts: self.attempts + 1, ..self }
        }
    }

    /// What going on leads to, with entries for the log from before.
    pub open spec fn next_step(self, entries: Seq<EntryText>) -> StepText {
        if self.paths.len() > 0 {
            StepText {
                entries,
                action: ConnectActionText::ReadFile {
                    path: path_from(self.style, self.paths[0], SERVICE_FILE@),
                },
            }
        } else {
            StepText {
                entries: entries + round_entries(self.attempts),
                action: round_action(self.attempts),
            }
        }
    }

    /// The rounds are not over.
    pub open spec fn goes_on(self) -> bool {
        self.attempts <= MAX_WAITS
    }
}

/// The address that a file announces, if it could be read and announces one.
pub open spec fn file_uri(contents: Option<String>) -> Option<Seq<char>> {
    match contents {
        Some(contents) => announced_uri(contents@),
        None => None,
    }
}

/// What the log says of an attempt to connect.
pub open spec fn outcome_entries(attempts: nat, uri: Seq<char>, outcome: ConnectOutcome) -> Seq<
    EntryText,
> {
    match outcome {
        ConnectOutcome::Connected => seq![plain("VM service connected at "@ + uri, "INFO"@)],
        ConnectOutcome::NotReady => Seq::empty(),
        ConnectOutcome::TaskFailed(error) => seq![
            plain("Connection task failed: "@ + error@, "ERROR"@),
        ],
        ConnectOutcome::SpawnFailed(error) => if attempts == 0 {
            seq![plain("Failed to spawn connection task: "@ + error@, "ERROR"@)]
        } else {
            Seq::empty()
        },
    }
}

proof fn lemma_entries_push(a: Seq<LogEntry>, x: LogEntry)
    ensures
        entries_of(a.push(x)) == entries_of(a).push(x@),
{
    assert(entries_of(a.push(x)) =~= entries_of(a).push(x@));
}

impl Connector {
    /// Begins to look for a VM service, on a platform that writes paths in this style.
    pub fn new(style: PathStyle) -> (r: (Self, ConnectAction))
        ensures
            r.0@ == (ConnectorModel { style, attempts: 0, paths: Seq::empty() }),
            r.1@ == ConnectActionText::ListPaths,
    {
        let r = Connector { style, attempts: 0, paths: Vec::new() };
        assert(r@.paths =~= Seq::empty());
        (r, ConnectAction::ListPaths)
    }

    /// Whether the rounds are not over.
    pub fn goes_on(&self) -> (r: bool)
        ensures
            r == self@.goes_on(),
    {
        self.attempts <= MAX_WAITS
    }

    /// Goes on to the next directory, or to the end of the round.
    fn go_on(&mut self, entries: Vec<LogEntry>) -> (r: ConnectStep)
        requires
            old(self)@.goes_on(),
        ensures
            final(self)@ == old(self)@.moved_on(),
            r@ == old(self)@.next_step(entries_of(entries@)),
    {
        let ghost start = self@;
        let mut entries = entries;
        let ghost before = entries_of(entries@);
        if self.paths.len() > 0 {
            let path = self.paths.remove(0);
            assert(texts(self.paths@) =~= start.paths.skip(1));
            assert(start.paths[0] == path@);
            let file = join(self.style, path.as_str(), SERVICE_FILE);
            let action = ConnectAction::ReadFile { path: file };
            ConnectStep { entries, action }
        } else {
            assert(start.paths =~= Seq::empty());
            let attempts: u32 = self.attempts;
            self.attempts = attempts + 1;
            if attempts >= MAX_WAITS {
                let ghost first = entries@;
                entries.push(
                    plain_entry(
                        "Could not link to running Flutter app (connection timed out).",
                        "ERROR",
                    ),
                );
                let ghost second = entries@;
                entries.push(
                    plain_entry(
                        "Please ensure 'flutter run' is active and '.dart_tool/flutter_url' exists.",
                        "ERROR",
                    ),
                );
                proof {
                    lemma_entries_push(first, second.last());
                    lemma_entries_push(second, entries@.last());
                }
                assert(entries_of(entries@) =~= before + round_entries(attempts as nat));
                ConnectStep { entries, action: ConnectAction::GiveUp }
            } else {
                if attempts == 0 {
                    let ghost first = entries@;
                    entries.push(plain_entry("Waiting for Flutter app to start...", "INFO"));
                    proof {
                        lemma_entries_push(first, entries@.last());
                    }
                }
                assert(entries_of(entries@) =~= before + round_entries(attempts as nat));
                ConnectStep { entries, action: ConnectAction::Wait { millis: WAIT_MILLIS } }
            }
        }
    }

    /// Takes in the directories to look in, if the panel that asks for them is still there.
    pub fn paths_listed(&mut self, paths: Option<Vec<String>>) -> (r: ConnectStep)
        requires
            old(self)@.goes_on(),
        ensures
            ({
                let listed = ConnectorModel {
                    paths: match paths {
                        Some(paths) => texts(paths@),
                        None => Seq::empty(),
                    },
                    ..old(self)@
                };
                let entries = if paths is Some {
                    Seq::empty()
                } else {
                    seq![plain("No workspace available"@, "WARNING"@)]
                };
                &&& final(self)@ == listed.moved_on()
                &&& r@ == listed.next_step(entries)
            }),
    {
        let mut entries: Vec<LogEntry> = Vec::new();
        match paths {
            Some(paths) => {
                self.paths = paths;
                assert(entries_of(entries@) =~= Seq::empty());
            },
            None => {
                self.paths = Vec::new();
                entries.push(plain_entry("No workspace available", "WARNING"));
                assert(entries_of(entries@) =~= seq![
                    plain("No workspace available"@, "WARNING"@),
                ]);
                assert(self@.paths =~= Seq::empty());
            },
        }
        self.go_on(entries)
    }

    /// Takes in what the file holds, if it could be read.
    pub fn file_read(&mut self, contents: Option<String>) -> (r: ConnectStep)
        requires
            old(self)@.goes_on(),
        ensures
            file_uri(contents) matches Some(uri) ==> final(self)@ == old(self)@ && r@ == (StepText {
                entries: Seq::empty(),
                action: ConnectActionText::Connect { uri },
            }),
            file_uri(contents) is None ==> final(self)@ == old(self)@.moved_on() && r@ == old(
                self,
            )@.next_step(Seq::empty()),
    {
        let entries: Vec<LogEntry> = Vec::new();
        assert(entries_of(entries@) =~= Seq::empty());
        if let Some(contents) = contents {
            if let Some(uri) = service_uri(contents.as_str()) {
                return ConnectStep { entries, action: ConnectAction::Connect { uri } };
            }
        }
        self.go_on(entries)
    }

    /// Takes in how the attempt to connect to `uri` ended.
    pub fn connect_ended(&mut self, uri: String, outcome: ConnectOutcome) -> (r: ConnectStep)
        requires
            old(self)@.goes_on(),
        ensures
            outcome is Connected ==> final(self)@ == old(self)@ && r@ == (StepText {
                entries: outcome_entries(old(self)@.attempts, uri@, outcome),
                action: ConnectActionText::Done { uri: uri@ },
            }),
            !(outcome is Connected) ==> final(self)@ == old(self)@.moved_on() && r@ == old(
                self,
            )@.next_step(outcome_entries(old(self)@.attempts, uri@, outcome)),
    {
        let mut entries: Vec<LogEntry> = Vec::new();
        match &outcome {
            ConnectOutcome::Connected => {
                let message = joined("VM service connected at ", uri.as_str());
                entries.push(plain_entry(message.as_str(), "INFO"));
                assert(entries_of(entries@) =~= outcome_entries(self@.attempts, uri@, outcome));
                return ConnectStep { entries, action: ConnectAction::Done { uri } };
            },
            ConnectOutcome::NotReady => {},
            ConnectOutcome::TaskFailed(error) => {
                let message = joined("Connection task failed: ", error.as_str());
                entries.push(plain_entry(message.as_str(), "ERROR"));
            },
            ConnectOutcome::SpawnFailed(error) => {
                if self.attempts == 0 {
                    let message = joined("Failed to spawn connection task: ", error.as_str());
                    entries.push(plain_entry(message.as_str(), "ERROR"));
                }
            },
        }
        assert(entries_of(entries@) =~= outcome_entries(self@.attempts, uri@, outcome));
        self.go_on(entries)
    }

    /// Takes in that the wait between two rounds is over.
    pub fn woken(&mut self) -> (r: ConnectAction)
        ensures
            final(self)@ == old(self)@,
            r@ == ConnectActionText::ListPaths,
    {
        ConnectAction::ListPaths
    }
}

/// What the end of a round leads to: every round but the last is followed by a wait.
pub proof fn law_rounds_end_in_wait_or_end(model: ConnectorModel, entries: Seq<EntryText>)
    requires
        model.goes_on(),
        model.paths.len() == 0,
    ensures
        model.moved_on().attempts == model.attempts + 1,
        model.next_step(entries).action is GiveUp <==> !model.moved_on().goes_on(),
        model.next_step(entries).action is Wait <==> model.moved_on().goes_on(),
{
}

/// Every step brings the end nearer: it takes a directory off the round, or it ends the
/// round.
pub proof fn law_looking_ends(model: ConnectorModel)
    requires
        model.goes_on(),
    ensures
        model.moved_on().attempts == model.attempts && model.moved_on().paths.len()
            < model.paths.len() || model.moved_on().attempts == model.attempts + 1,
        model.moved_on().attempts <= MAX_WAITS + 1,
{
}

/// How long was waited, in milliseconds, when `attempts` rounds are over.
pub open spec fn waited_millis(attempts: nat) -> int
    decreases attempts,
{
    if attempts == 0 {
        0
    } else {
        waited_millis((attempts - 1) as nat) + match round_action((attempts - 1) as nat) {
            ConnectActionText::Wait { millis } => millis as int,
            _ => 0,
        }
    }
}

proof fn lemma_waited(attempts: nat)
    requires
        attempts <= MAX_WAITS,
    ensures
        waited_millis(attempts) == attempts * WAIT_MILLIS,
    decreases attempts,
{
    if attempts > 0 {
        lemma_waited((attempts - 1) as nat);
    }
}

/// Looking ends once 30 seconds were waited, and not before.
pub proof fn law_looking_takes_thirty_seconds(model: ConnectorModel, entries: Seq<EntryText>)
    requires
        model.goes_on(),
        model.paths.len() == 0,
    ensures
        model.next_step(entries).action is GiveUp <==> waited_millis(model.attempts) == 30_000,
{
    lemma_waited(model.attempts);
}

/// The log says that the app is waited for once, at the end of the first round.
pub proof fn law_waiting_is_told_once(attempts: nat)
    requires
        attempts <= MAX_WAITS,
    ensures
        round_entries(attempts).contains(plain("Waiting for Flutter app to start..."@, "INFO"@))
            <==> attempts == 0,
{
    let told = plain("Waiting for Flutter app to start..."@, "INFO"@);
    reveal_strlit("INFO");
    reveal_strlit("ERROR");
    assert("INFO"@[0] != "ERROR"@[0]);
    if attempts == 0 {
        assert(round_entries(attempts)[0] == told);
    }
}

/// What to do next in order to follow the service's log.
#[derive(Debug, Clone, Copy, PartialEq, Eq, Structural)]
pub enum SessionAction {
    /// Subscribe to the log; then call `session_subscribed`.
    Subscribe,
    /// Wait for a record; then call `session_received`.
    Receive,
    /// Stop.
    Stop,
}

/// A connection was made: what happened, and what to do next.
pub fn session_opened() -> (r: (LogEvent, SessionAction))
    ensures
        r == (LogEvent::Connected, SessionAction::Subscribe),
{
    (LogEvent::Connected, SessionAction::Subscribe)
}

/// Subscribing to the log succeeded, or failed with this message.
pub fn session_subscribed(result: Result<(), String>) -> (r: (LogEvent, SessionAction))
    ensures
        result is Ok ==> r == (LogEvent::Subscribed, SessionAction::Receive),
        result matches Err(error) ==> r.1 == SessionAction::Stop && (r.0 matches LogEvent::Error(
            message,
        ) && message@ == "Failed to subscribe to logs: "@ + error@),
{
    match result {
        Ok(_) => (LogEvent::Subscribed, SessionAction::Receive),
        Err(error) => (
            LogEvent::Error(joined("Failed to subscribe to logs: ", error.as_str())),
            SessionAction::Stop,
        ),
    }
}

/// A record came in, or there will be no more.
pub fn session_received(record: Option<LogRecord>) -> (r: (LogEvent, SessionAction))
    ensures
        record matches Some(record) ==> r == (LogEvent::Log(record), SessionAction::Receive),
        record is None ==> r == (LogEvent::Disconnected, SessionAction::Stop),
{
    match record {
        Some(record) => (LogEvent::Log(record), SessionAction::Receive),
        None => (LogEvent::Disconnected, SessionAction::Stop),
    }
}

/// Going on means to read the same file of the next directory in every round, however many
/// rounds were before it, with nothing to tell but what was to be told anyway.
pub proof fn law_every_round_reads_same_files(
    model: ConnectorModel,
    other: ConnectorModel,
    entries: Seq<EntryText>,
)
    requires
        model.style == other.style,
        model.paths.len() > 0 && other.paths.len() > 0,
        model.paths[0] == other.paths[0],
    ensures
        model.next_step(entries).action == other.next_step(entries).action,
        model.next_step(entries).action == (ConnectActionText::ReadFile {
            path: path_from(model.style, model.paths[0], ".dart_tool/flutter_url"@),
        }),
        model.next_step(entries).entries == entries,
{
}

/// Going on leaves the directories behind the first one to look in, in the same round.
pub proof fn law_directories_are_taken_in_order(model: ConnectorModel)
    requires
        model.paths.len() > 0,
    ensures
        model.moved_on().attempts == model.attempts,
        model.moved_on().style == model.style,
        model.moved_on().paths.len() == model.paths.len() - 1,
        forall|i: int|
            0 <= i < model.moved_on().paths.len() ==> #[trigger] model.moved_on().paths[i]
                == model.paths[i + 1],
{
}

/// A round with no directories left ends: half a second is waited before the next, or after
/// sixty such waits the search is given up.
pub proof fn law_round_ends(model: ConnectorModel, entries: Seq<EntryText>)
    requires
        model.paths.len() == 0,
    ensures
        model.attempts < 60 ==> model.next_step(entries).action == (ConnectActionText::Wait {
            millis: 500,
        }),
        model.attempts >= 60 ==> model.next_step(entries).action == ConnectActionText::GiveUp,
        model.moved_on() == (ConnectorModel { attempts: model.attempts + 1, ..model }),
        0 < model.attempts < 60 ==> model.next_step(entries).entries == entries,
        model.attempts == 0 ==> model.next_step(entries).entries == entries + seq![
            plain("Waiting for Flutter app to start..."@, "INFO"@),
        ],
        model.attempts >= 60 ==> model.next_step(entries).entries == entries + seq![
            plain("Could not link to running Flutter app (connection timed out)."@, "ERROR"@),
            plain(
                "Please ensure 'flutter run' is active and '.dart_tool/flutter_url' exists."@,
                "ERROR"@,
            ),
        ],
{
    if 0 < model.attempts < 60 {
        assert(entries + Seq::<EntryText>::empty() =~= entries);
    }
}

/// The file that is read lies in the directory that is looked in: its path leads there, and then
/// to `flutter_url` in `.dart_tool`. A drive without a directory has no separator behind it.
pub proof fn law_file_lies_in_directory(model: ConnectorModel, entries: Seq<EntryText>)
    requires
        model.paths.len() > 0,
        !(begins_with_drive(model.style, model.paths[0]) && model.paths[0].len() == 2),
    ensures
        ({
            let style = model.style;
            let dir = model.paths[0];
            let path = model.next_step(entries).action->path;
            &&& model.next_step(entries).action is ReadFile
            &&& segments_of(style, path) == segments_of(style, dir) + seq![
                ".dart_tool"@,
                "flutter_url"@,
            ]
            &&& !is_verbatim(style, dir) ==> ends(path, SERVICE_FILE@) && begins(path, dir)
        }),
{
    let style = model.style;
    let dir = model.paths[0];
    let path = path_from(style, dir, SERVICE_FILE@);
    reveal_strlit(".dart_tool/flutter_url");
    reveal_strlit(".dart_tool");
    reveal_strlit("flutter_url");
    assert(SERVICE_FILE@ =~= ".dart_tool"@ + seq!['/'] + "flutter_url"@);
    lemma_two_names_taken_from(style, dir, ".dart_tool"@, "flutter_url"@);
    if !is_verbatim(style, dir) {
        let n = path.len() as int;
        let m = SERVICE_FILE@.len() as int;
        assert(path.subrange(n - m, n) =~= SERVICE_FILE@);
        assert(path.subrange(0, dir.len() as int) =~= dir);
    }
}

/// What the log says of an attempt to connect: where it succeeded, or why its task failed, told
/// every time; or why its task could not be started, told in the first round only. A service
/// that is not ready is not told of.
pub proof fn law_attempts_are_told(attempts: nat, uri: Seq<char>, error: String)
    ensures
        outcome_entries(attempts, uri, ConnectOutcome::Connected) == seq![
            plain("VM service connected at "@ + uri, "INFO"@),
        ],
        outcome_entries(attempts, uri, ConnectOutcome::NotReady) == Seq::<EntryText>::empty(),
        outcome_entries(attempts, uri, ConnectOutcome::TaskFailed(error)) == seq![
            plain("Connection task failed: "@ + error@, "ERROR"@),
        ],
        attempts == 0 ==> outcome_entries(attempts, uri, ConnectOutcome::SpawnFailed(error))
            == seq![plain("Failed to spawn connection task: "@ + error@, "ERROR"@)],
        attempts > 0 ==> outcome_entries(attempts, uri, ConnectOutcome::SpawnFailed(error))
            == Seq::<EntryText>::empty(),
{
}

/// An entry of these has its message and its level, and no logger's name.
pub proof fn law_plain_entries_have_no_logger(message: Seq<char>, level: Seq<char>)
    ensures
        plain(message, level).message == message,
        plain(message, level).level == level,
        plain(message, level).logger_name is None,
{
}

/// What a file announces is connected to, in every round; a file that cannot be read announces
/// nothing.
pub proof fn law_files_announce(contents: String)
    ensures
        file_uri(Some(contents)) == announced_uri(contents@),
        file_uri(None) is None,
{
}

/// The search goes on until the round after the sixtieth wait is over.
pub proof fn law_search_goes_on(model: ConnectorModel)
    ensures
        model.goes_on() <==> model.attempts <= 60,
{
}

} // verus!
