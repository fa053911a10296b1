//! What is written to the log: entries, their levels, and the events they come from.

use crate::text::{
    contains_text, end_trimmed, joined, law_occurs_between, law_occurs_only_between, occurs,
    same_text, text_of, trim_end,
};
use crate::vm_service::{InstanceRef, LogRecord};
use vstd::prelude::*;

verus! {

/// A message for the log.
#[derive(Debug)]
pub struct LogEntry {
    pub message: String,
    pub level: String,
    /// Who logs it, if that is to be shown.
    pub logger_name: Option<String>,
}

/// A message for the log, as texts.
#[verifier::ext_equal]
pub struct EntryText {
    pub message: Seq<char>,
    pub level: Seq<char>,
    pub logger_name: Option<Seq<char>>,
}

impl View for LogEntry {
    type V = EntryText;

    open spec fn view(&self) -> EntryText {
        EntryText {
            message: self.message@,
            level: self.level@,
            logger_name: text_of(self.logger_name),
        }
    }
}

/// The groups of levels that are highlighted alike.
#[derive(Debug, Clone, Copy, PartialEq, Eq, Structural)]
pub enum LevelGroup {
    Fine,
    Info,
    Warning,
    Severe,
}

/// The group that a level belongs to. Levels that are not known belong to none.
pub open spec fn group_of(level: Seq<char>) -> Option<LevelGroup> {
    if level == "FINE"@ {
        Some(LevelGroup::Fine)
    } else if level == "INFO"@ {
        Some(LevelGroup::Info)
    } else if level == "WARNING"@ {
        Some(LevelGroup::Warning)
    } else if level == "SEVERE"@ || level == "SHOUT"@ || level == "ERROR"@ {
        Some(LevelGroup::Severe)
    } else {
        None
    }
}

/// The group that a level belongs to.
pub fn level_group(level: &str) -> (r: Option<LevelGroup>)
    ensures
        r == group_of(level@),
{
    if same_text(level, "FINE") {
        Some(LevelGroup::Fine)
    } else if same_text(level, "INFO") {
        Some(LevelGroup::Info)
    } else if same_text(level, "WARNING") {
        Some(LevelGroup::Warning)
    } else if same_text(level, "SEVERE") || same_text(level, "SHOUT") || same_text(level, "ERROR") {
        Some(LevelGroup::Severe)
    } else {
        None
    }
}

/// The name of a level that Dart's logging numbers `level`.
pub open spec fn level_text(level: int) -> Seq<char> {
    if 0 <= level <= 500 {
        "FINE"@
    } else if 501 <= level <= 800 {
        "INFO"@
    } else if 801 <= level <= 900 {
        "WARNING"@
    } else if 901 <= level <= 1000 {
        "SEVERE"@
    } else {
        "SHOUT"@
    }
}

/// The name of a level that Dart's logging numbers `level`.
pub fn level_name(level: i32) -> (r: String)
    ensures
        r@ == level_text(level as int),
{
    if 0 <= level && level <= 500 {
        "FINE".to_owned()
    } else if 501 <= level && level <= 800 {
        "INFO".to_owned()
    } else if 801 <= level && level <= 900 {
        "WARNING".to_owned()
    } else if 901 <= level && level <= 1000 {
        "SEVERE".to_owned()
    } else {
        "SHOUT".to_owned()
    }
}

/// What happens on a connection to the VM service.
#[derive(Debug)]
pub enum LogEvent {
    Connected,
    Subscribed,
    Disconnected,
    Error(String),
    Log(LogRecord),
}

/// The text that a reference to a string in the VM stands for, if it is known.
pub open spec fn instance_text(instance: Option<InstanceRef>) -> Option<Seq<char>> {
    match instance {
        Some(instance) => text_of(instance.value_as_string),
        None => None,
    }
}

/// The entry for a record of the VM's log. A record without a level counts as level 0.
pub open spec fn record_entry(record: LogRecord) -> EntryText {
    EntryText {
        message: match instance_text(record.message) {
            Some(message) => message,
            None => "<no message>"@,
        },
        level: level_text(
            match record.level {
                Some(level) => level as int,
                None => 0,
            },
        ),
        logger_name: instance_text(record.logger_name),
    }
}

/// The entry for an event on a connection.
pub open spec fn event_entry(event: LogEvent) -> EntryText {
    match event {
        LogEvent::Connected => EntryText {
            message: "Connected to Dart VM Service"@,
            level: "INFO"@,
            logger_name: None,
        },
        LogEvent::Subscribed => EntryText {
            message: "Subscribed to Logging stream"@,
            level: "INFO"@,
            logger_name: None,
        },
        LogEvent::Disconnected => EntryText {
            message: "Disconnected from VM Service"@,
            level: "INFO"@,
            logger_name: None,
        },
        LogEvent::Error(message) => EntryText {
            message: message@,
            level: "ERROR"@,
            logger_name: None,
        },
        LogEvent::Log(record) => record_entry(record),
    }
}

/// An entry without a logger's name.
pub fn plain_entry(message: &str, level: &str) -> (r: LogEntry)
    ensures
        r@ == (EntryText { message: message@, level: level@, logger_name: None }),
{
    LogEntry { message: message.to_owned(), level: level.to_owned(), logger_name: None }
}

/// An entry with a logger's name.
pub fn named_entry(message: &str, level: &str, logger_name: &str) -> (r: LogEntry)
    ensures
        r@ == (EntryText { message: message@, level: level@, logger_name: Some(logger_name@) }),
{
    LogEntry {
        message: message.to_owned(),
        level: level.to_owned(),
        logger_name: Some(logger_name.to_owned()),
    }
}

/// The text that a reference to a string in the VM stands for.
fn instance_value(instance: Option<InstanceRef>) -> (r: Option<String>)
    ensures
        text_of(r) == instance_text(instance),
{
    match instance {
        Some(instance) => instance.value_as_string,
        None => None,
    }
}

/// The entry for an event on a connection.
pub fn entry_for_event(event: LogEvent) -> (r: LogEntry)
    ensures
        r@ == event_entry(event),
{
    match event {
        LogEvent::Connected => plain_entry("Connected to Dart VM Service", "INFO"),
        LogEvent::Subscribed => plain_entry("Subscribed to Logging stream", "INFO"),
        LogEvent::Disconnected => plain_entry("Disconnected from VM Service", "INFO"),
        LogEvent::Error(message) => plain_entry(message.as_str(), "ERROR"),
        LogEvent::Log(record) => {
            let message: String = match instance_value(record.message) {
                Some(message) => message,
                None => "<no message>".to_owned(),
            };
            let level: i32 = match record.level {
                Some(level) => level,
                None => 0,
            };
            LogEntry {
                message,
                level: level_name(level),
                logger_name: instance_value(record.logger_name),
            }
        },
    }
}

/// What happens to the process that runs the app.
#[derive(Debug)]
pub enum ProcessEvent {
    Stdout(String),
    Stderr(String),
    Error(String),
    Exited,
}

/// A line of output that is shown even when the VM's own log is.
pub open spec fn is_notable(line: Seq<char>) -> bool {
    ||| occurs(line, "Performing hot reload"@)
    ||| occurs(line, "Performing hot restart"@)
    ||| occurs(line, "Reloaded"@)
    ||| occurs(line, "Restarted application"@)
    ||| occurs(line, "Try again after fixing"@)
    ||| occurs(line, "Error:"@)
    ||| occurs(line, "Exception:"@)
}

/// Whether a line of output is shown even when the VM's own log is.
pub fn shows_when_connected(line: &str) -> (r: bool)
    ensures
        r == is_notable(line@),
{
    contains_text(line, "Performing hot reload") || contains_text(line, "Performing hot restart")
        || contains_text(line, "Reloaded") || contains_text(line, "Restarted application")
        || contains_text(line, "Try again after fixing") || contains_text(line, "Error:")
        || contains_text(line, "Exception:")
}

/// The entry for what happened to the process, if there is to be one. While the VM's own
/// log is shown, only the notable lines of its output are.
pub open spec fn process_entry(vm_connected: bool, event: ProcessEvent) -> Option<EntryText> {
    match event {
        ProcessEvent::Stdout(line) => if !vm_connected {
            Some(EntryText { message: line@, level: "FINE"@, logger_name: Some("Flutter"@) })
        } else if is_notable(line@) {
            Some(EntryText { message: line@, level: "INFO"@, logger_name: Some("Flutter"@) })
        } else {
            None
        },
        ProcessEvent::Stderr(line) => Some(
            EntryText { message: line@, level: "WARNING"@, logger_name: Some("stderr"@) },
        ),
        ProcessEvent::Error(message) => Some(
            EntryText { message: message@, level: "ERROR"@, logger_name: Some("flutter"@) },
        ),
        ProcessEvent::Exited => Some(
            EntryText {
                message: "Flutter process exited"@,
                level: "INFO"@,
                logger_name: Some("flutter"@),
            },
        ),
    }
}

/// An optional entry's texts.
pub open spec fn entry_of(entry: Option<LogEntry>) -> Option<EntryText> {
    match entry {
        Some(entry) => Some(entry@),
        None => None,
    }
}

/// The entry for what happened to the process, if there is to be one.
pub fn entry_for_process(vm_connected: bool, event: &ProcessEvent) -> (r: Option<LogEntry>)
    ensures
        entry_of(r) == process_entry(vm_connected, *event),
{
    match event {
        ProcessEvent::Stdout(line) => if !vm_connected {
            Some(named_entry(line.as_str(), "FINE", "Flutter"))
        } else if shows_when_connected(line.as_str()) {
            Some(named_entry(line.as_str(), "INFO", "Flutter"))
        } else {
            None
        },
        ProcessEvent::Stderr(line) => Some(named_entry(line.as_str(), "WARNING", "stderr")),
        ProcessEvent::Error(message) => Some(named_entry(message.as_str(), "ERROR", "flutter")),
        ProcessEvent::Exited => Some(named_entry("Flutter process exited", "INFO", "flutter")),
    }
}

/// A line as it was read from the process, without the white space at its end.
pub fn output_line(raw: &str) -> (r: String)
    ensures
        r@ == end_trimmed(raw@),
{
    trim_end(raw)
}

/// The event that the process could not be started.
pub fn start_failure(error: &str) -> (r: ProcessEvent)
    ensures
        r matches ProcessEvent::Error(message) && message@ == "Failed to start flutter run: "@
            + error@,
{
    ProcessEvent::Error(joined("Failed to start flutter run: ", error))
}

/// How severe a group is.
pub open spec fn severity(group: LevelGroup) -> int {
    match group {
        LevelGroup::Fine => 0,
        LevelGroup::Info => 1,
        LevelGroup::Warning => 2,
        LevelGroup::Severe => 3,
    }
}

proof fn lemma_level_names()
    ensures
        group_of("FINE"@) == Some(LevelGroup::Fine),
        group_of("INFO"@) == Some(LevelGroup::Info),
        group_of("WARNING"@) == Some(LevelGroup::Warning),
        group_of("SEVERE"@) == Some(LevelGroup::Severe),
        group_of("SHOUT"@) == Some(LevelGroup::Severe),
        group_of("ERROR"@) == Some(LevelGroup::Severe),
{
    reveal_strlit("FINE");
    reveal_strlit("INFO");
    reveal_strlit("WARNING");
    reveal_strlit("SEVERE");
    reveal_strlit("SHOUT");
    reveal_strlit("ERROR");
    assert("INFO"@[0] != "FINE"@[0]);
    assert("WARNING"@[0] != "FINE"@[0] && "WARNING"@[0] != "INFO"@[0]);
    assert("SEVERE"@[0] != "FINE"@[0] && "SEVERE"@[0] != "INFO"@[0] && "SEVERE"@[0]
        != "WARNING"@[0]);
    assert("SHOUT"@[0] != "FINE"@[0] && "SHOUT"@[0] != "INFO"@[0] && "SHOUT"@[0] != "WARNING"@[0]);
    assert("ERROR"@[0] != "FINE"@[0] && "ERROR"@[0] != "INFO"@[0] && "ERROR"@[0] != "WARNING"@[0]);
}

/// Every entry that an event on a connection gives rise to is highlighted.
pub proof fn law_event_entries_are_highlighted(event: LogEvent)
    ensures
        group_of(event_entry(event).level) is Some,
{
    lemma_level_names();
}

/// Every entry that the process gives rise to is highlighted.
pub proof fn law_process_entries_are_highlighted(vm_connected: bool, event: ProcessEvent)
    ensures
        process_entry(vm_connected, event) matches Some(entry) ==> group_of(entry.level) is Some,
{
    lemma_level_names();
}

/// A record of a higher level is never shown as less severe. Levels below 0 are no levels
/// of Dart's logging.
pub proof fn law_severity_grows_with_level(low: int, high: int)
    requires
        0 <= low <= high,
    ensures
        group_of(level_text(low)) is Some,
        group_of(level_text(high)) is Some,
        severity(group_of(level_text(low))->0) <= severity(group_of(level_text(high))->0),
{
    lemma_level_names();
}

/// Connecting to the VM hides lines of the output, and shows none that was hidden.
pub proof fn law_connecting_only_hides_output(event: ProcessEvent)
    ensures
        process_entry(false, event) is Some,
        !(event is Stdout) ==> process_entry(true, event) == process_entry(false, event),
        process_entry(true, event) is Some ==> process_entry(true, event)->0.message
            == process_entry(false, event)->0.message,
{
}

/// Which level names are highlighted, and how: each of the known ones in its group, and no
/// other.
pub proof fn law_groups_by_level_name(level: Seq<char>)
    ensures
        group_of(level) == Some(LevelGroup::Fine) <==> level == "FINE"@,
        group_of(level) == Some(LevelGroup::Info) <==> level == "INFO"@,
        group_of(level) == Some(LevelGroup::Warning) <==> level == "WARNING"@,
        group_of(level) == Some(LevelGroup::Severe) <==> level == "SEVERE"@ || level == "SHOUT"@
            || level == "ERROR"@,
{
    lemma_level_names();
}

/// A level's name is settled by the range that its number lies in. Numbers below 0 lie in none,
/// and are named as those above 1000 are.
pub proof fn law_level_names_by_range(level: int)
    ensures
        level_text(level) == "FINE"@ <==> 0 <= level <= 500,
        level_text(level) == "INFO"@ <==> 500 < level <= 800,
        level_text(level) == "WARNING"@ <==> 800 < level <= 900,
        level_text(level) == "SEVERE"@ <==> 900 < level <= 1000,
        level_text(level) == "SHOUT"@ <==> level < 0 || level > 1000,
{
    lemma_level_names();
    reveal_strlit("SEVERE");
    reveal_strlit("SHOUT");
    assert("SEVERE"@[1] != "SHOUT"@[1]);
}

/// A record's message, level and logger are its entry's, whatever its time, error and stack
/// trace are.
pub proof fn law_record_is_logged_as_it_is(record: LogRecord, message: String, name: String)
    ensures
        record.message == Some(InstanceRef { value_as_string: Some(message) }) ==> event_entry(
            LogEvent::Log(record),
        ).message == message@,
        record.message is None || record.message->0.value_as_string is None ==> event_entry(
            LogEvent::Log(record),
        ).message == "<no message>"@,
        record.level matches Some(level) ==> event_entry(LogEvent::Log(record)).level == level_text(
            level as int,
        ),
        record.level is None ==> event_entry(LogEvent::Log(record)).level == "FINE"@,
        record.logger_name == Some(InstanceRef { value_as_string: Some(name) }) ==> event_entry(
            LogEvent::Log(record),
        ).logger_name == Some(name@),
        record.logger_name is None || record.logger_name->0.value_as_string is None
            ==> event_entry(LogEvent::Log(record)).logger_name is None,
{
}

/// Two records that agree in message, level and logger give the same entry.
pub proof fn law_records_alike_are_logged_alike(a: LogRecord, b: LogRecord)
    requires
        a.message == b.message,
        a.level == b.level,
        a.logger_name == b.logger_name,
    ensures
        event_entry(LogEvent::Log(a)) == event_entry(LogEvent::Log(b)),
{
}

/// What the log says of a connection, besides its records. An error is told in its own words.
pub proof fn law_connection_is_told(error: String)
    ensures
        event_entry(LogEvent::Connected) == (EntryText {
            message: "Connected to Dart VM Service"@,
            level: "INFO"@,
            logger_name: None,
        }),
        event_entry(LogEvent::Subscribed) == (EntryText {
            message: "Subscribed to Logging stream"@,
            level: "INFO"@,
            logger_name: None,
        }),
        event_entry(LogEvent::Disconnected) == (EntryText {
            message: "Disconnected from VM Service"@,
            level: "INFO"@,
            logger_name: None,
        }),
        event_entry(LogEvent::Error(error)) == (EntryText {
            message: error@,
            level: "ERROR"@,
            logger_name: None,
        }),
{
}

/// The phrases by which a line of output is notable.
pub open spec fn notable_phrases() -> Seq<Seq<char>> {
    seq![
        "Performing hot reload"@,
        "Performing hot restart"@,
        "Reloaded"@,
        "Restarted application"@,
        "Try again after fixing"@,
        "Error:"@,
        "Exception:"@,
    ]
}

/// A line is notable where a phrase stands in it, whatever stands around the phrase.
pub proof fn law_phrases_are_notable(before: Seq<char>, k: int, after: Seq<char>)
    requires
        0 <= k < notable_phrases().len(),
    ensures
        is_notable(before + notable_phrases()[k] + after),
{
    law_occurs_between(before, notable_phrases()[k], after);
}

/// A line is notable only where a phrase stands in it.
pub proof fn law_only_phrases_are_notable(line: Seq<char>)
    requires
        is_notable(line),
    ensures
        exists|before: Seq<char>, k: int, after: Seq<char>|
            0 <= k < notable_phrases().len() && line == #[trigger] (before + notable_phrases()[k]
                + after),
{
    let phrases = notable_phrases();
    let k: int = if occurs(line, phrases[0]) {
        0
    } else if occurs(line, phrases[1]) {
        1
    } else if occurs(line, phrases[2]) {
        2
    } else if occurs(line, phrases[3]) {
        3
    } else if occurs(line, phrases[4]) {
        4
    } else if occurs(line, phrases[5]) {
        5
    } else {
        6
    };
    law_occurs_only_between(line, phrases[k]);
    let (a, b) = choose|a: Seq<char>, b: Seq<char>| line == #[trigger] (a + phrases[k] + b);
    assert(line == a + notable_phrases()[k] + b);
}

/// What the log says of a line that the process printed: the line itself. While there is no
/// connection every line of its output is told; with one, the notable lines are, more visibly,
/// and no others. What it prints as errors is always told.
pub proof fn law_output_is_told(vm_connected: bool, line: String)
    ensures
        !vm_connected ==> process_entry(vm_connected, ProcessEvent::Stdout(line)) == Some(
            EntryText { message: line@, level: "FINE"@, logger_name: Some("Flutter"@) },
        ),
        vm_connected && is_notable(line@) ==> process_entry(
            vm_connected,
            ProcessEvent::Stdout(line),
        ) == Some(EntryText { message: line@, level: "INFO"@, logger_name: Some("Flutter"@) }),
        process_entry(vm_connected, ProcessEvent::Stdout(line)) is None <==> vm_connected
            && !is_notable(line@),
        process_entry(vm_connected, ProcessEvent::Stderr(line)) == Some(
            EntryText { message: line@, level: "WARNING"@, logger_name: Some("stderr"@) },
        ),
        process_entry(vm_connected, ProcessEvent::Error(line)) == Some(
            EntryText { message: line@, level: "ERROR"@, logger_name: Some("flutter"@) },
        ),
        process_entry(vm_connected, ProcessEvent::Exited) == Some(
            EntryText {
                message: "Flutter process exited"@,
                level: "INFO"@,
                logger_name: Some("flutter"@),
            },
        ),
{
}

} // verus!
