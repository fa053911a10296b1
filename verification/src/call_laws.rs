//! What calls of the library's functions give, whatever they are given. Each law is about every
//! result `r` that a call can have.

use crate::actions::FlutterRun;
use crate::commands::{
    devices_command, is_marked, run_command, starting_message, uses_fvm, CommandLine, FvmMarkers,
};
use crate::connection::{
    session_opened, session_received, session_subscribed, ConnectAction, ConnectOutcome,
    ConnectStep, Connector, SessionAction,
};
use crate::controls::{
    law_run_is_in_package, law_target_button_names_file, ControlsView, Device, FlutterControls,
};
use crate::dock::{Axis, DockGeometry, DockPosition};
use crate::log_entry::{
    entry_for_event, entry_for_process, is_notable, law_groups_by_level_name,
    law_level_names_by_range, law_output_is_told, level_group, level_name, named_entry,
    output_line, plain_entry, shows_when_connected, start_failure, LevelGroup, LogEntry, LogEvent,
    ProcessEvent,
};
use crate::order::{in_order, sort_texts};
use crate::paths::{path_from, path_in, PathStyle};
use crate::targets::{
    find_dart_targets, is_target_of, law_directories_are_passed_over_by_name,
    law_directories_are_searched, law_entry_points_are_found, law_main_files_are_entry_points,
    law_only_main_files_are_entry_points, law_scan_searches_all_worktrees,
    law_search_keeps_found_targets, names_entry_point, scan_worktrees, searches_in, target_path,
    with_tree, DirListing, DirTree, Worktree,
};
use crate::text::{decimal, end_trimmed, law_end_trimmed_loses_space, text_of, texts};
use crate::uri::{announced_uri, service_uri};
use crate::vm_service::{
    found, law_listen_request_text, next_request_id, DartVmService, Exchange, Incoming,
    InstanceRef, JsonRpcResponse, LogRecord, NextLog, RequestCounter, StreamNotifyParams, VmEvent,
    VmServiceError,
};
use vstd::prelude::*;

verus! {

/// A directory is searched unless its name begins with a dot or is `build`.
pub proof fn law_searches_in(name: &str, r: bool)
    requires
        call_ensures(searches_in, (name,), r),
    ensures
        r <==> !(name@.len() > 0 && name@[0] == '.') && name@ != "build"@,
{
    law_directories_are_passed_over_by_name(name@);
}

/// A file is an entry point where its name is `main`, anything, and `.dart`.
pub proof fn law_names_entry_point(name: &str, r: bool)
    requires
        call_ensures(names_entry_point, (name,), r),
    ensures
        r <==> exists|middle: Seq<char>| name@ == #[trigger] ("main"@ + middle + ".dart"@),
{
    if r {
        law_only_main_files_are_entry_points(name@);
    }
    if exists|middle: Seq<char>| name@ == #[trigger] ("main"@ + middle + ".dart"@) {
        let middle = choose|middle: Seq<char>| name@ == #[trigger] ("main"@ + middle + ".dart"@);
        law_main_files_are_entry_points(middle);
    }
}

/// A search keeps what was found before, and finds every entry point of the package that it
/// begins at.
pub proof fn law_find_finds_own_entry_points(
    style: PathStyle,
    listing: DirListing,
    current: &str,
    targets: &mut Vec<String>,
    j: int,
    middle: Seq<char>,
)
    requires
        call_ensures(
            find_dart_targets,
            (style, &DirTree::Listed(listing), current, targets),
            (),
        ),
        listing.has_pubspec,
        listing.lib is Some,
        0 <= j < listing.lib->0@.len(),
        listing.lib->0@[j].is_file,
        listing.lib->0@[j].name matches Some(name) && name@ == "main"@ + middle + ".dart"@,
    ensures
        texts(final(targets)@).contains(
            path_in(style, path_in(style, current@, "lib"@), "main"@ + middle + ".dart"@),
        ),
        texts(old(targets)@).is_prefix_of(texts(final(targets)@)),
{
    law_entry_points_are_found(style, texts(old(targets)@), listing, current@, j, middle);
    law_search_keeps_found_targets(
        style,
        texts(old(targets)@),
        DirTree::Listed(listing),
        current@,
    );
}

/// A search finds every entry point of the packages in the directories where it begins, whatever
/// these are called, but for names that begin with a dot and `build`.
pub proof fn law_find_finds_entry_points_below(
    style: PathStyle,
    listing: DirListing,
    current: &str,
    targets: &mut Vec<String>,
    i: int,
    name: String,
    below: DirListing,
    j: int,
    middle: Seq<char>,
)
    requires
        call_ensures(
            find_dart_targets,
            (style, &DirTree::Listed(listing), current, targets),
            (),
        ),
        0 <= i < listing.entries@.len(),
        listing.entries@[i].name == Some(name),
        listing.entries@[i].contents == Some(DirTree::Listed(below)),
        name@.len() > 0 ==> name@[0] != '.',
        name@ != "build"@,
        below.has_pubspec,
        below.lib is Some,
        0 <= j < below.lib->0@.len(),
        below.lib->0@[j].is_file,
        below.lib->0@[j].name matches Some(file) && file@ == "main"@ + middle + ".dart"@,
    ensures
        texts(final(targets)@).contains(
            path_in(
                style,
                path_in(style, path_in(style, current@, name@), "lib"@),
                "main"@ + middle + ".dart"@,
            ),
        ),
{
    let at = path_in(style, current@, name@);
    law_entry_points_are_found(style, Seq::empty(), below, at, j, middle);
    law_directories_are_searched(
        style,
        texts(old(targets)@),
        listing,
        current@,
        i,
        name,
        DirTree::Listed(below),
        target_path(style, at, "main"@ + middle + ".dart"@),
    );
}

/// A search finds what the searches that it is made of find, and nothing twice.
pub proof fn law_find_searches(
    style: PathStyle,
    tree: DirTree,
    current: &str,
    targets: &mut Vec<String>,
)
    requires
        call_ensures(find_dart_targets, (style, &tree, current, targets), ()),
    ensures
        texts(final(targets)@) == with_tree(style, texts(old(targets)@), tree, current@),
        texts(old(targets)@).no_duplicates() ==> texts(final(targets)@).no_duplicates(),
        tree is Unreadable ==> texts(final(targets)@) == texts(old(targets)@),
{
    law_search_keeps_found_targets(style, texts(old(targets)@), tree, current@);
}

/// A scan finds what searches of the worktrees find, and gives the first worktree's path.
pub proof fn law_scan_worktrees(
    style: PathStyle,
    worktrees: Vec<Worktree>,
    r: (Option<String>, Vec<String>),
    target: Seq<char>,
)
    requires
        call_ensures(scan_worktrees, (style, &worktrees), r),
    ensures
        worktrees@.len() > 0 ==> r.0 == Some(worktrees@[0].path),
        worktrees@.len() == 0 ==> r.0 is None,
        texts(r.1@).contains(target) <==> exists|i: int|
            0 <= i < worktrees@.len() && with_tree(
                style,
                Seq::empty(),
                (#[trigger] worktrees@[i]).root,
                Seq::empty(),
            ).contains(target),
{
    law_scan_searches_all_worktrees(style, worktrees@, target);
}

/// Sorting gives the same texts, in order.
pub proof fn law_sort_texts(v: &mut Vec<String>)
    requires
        call_ensures(sort_texts, (v,), ()),
    ensures
        in_order(texts(final(v)@)),
        texts(final(v)@).to_multiset() == texts(old(v)@).to_multiset(),
{
}

/// In every round, whatever was before it, the first of the directories is looked in first, for
/// the file that the app leaves its address in, and nothing is told.
pub proof fn law_paths_listed(c: &mut Connector, paths: Vec<String>, r: ConnectStep)
    requires
        call_ensures(Connector::paths_listed, (c, Some(paths)), r),
        paths@.len() > 0,
    ensures
        r.action matches ConnectAction::ReadFile { path } && path@ == path_from(
            old(c)@.style,
            paths@[0]@,
            ".dart_tool/flutter_url"@,
        ),
        r.entries@.len() == 0,
        final(c)@.attempts == old(c)@.attempts,
        final(c)@.style == old(c)@.style,
        final(c)@.paths == texts(paths@).skip(1),
{
    assert(r@.entries.len() == r.entries@.len());
    assert(texts(paths@)[0] == paths@[0]@);
}

/// A round without directories is over: half a second is waited, and after sixty waits the
/// search ends. A panel that is gone is told of.
pub proof fn law_paths_missing(c: &mut Connector, paths: Option<Vec<String>>, r: ConnectStep)
    requires
        call_ensures(Connector::paths_listed, (c, paths), r),
        paths matches Some(v) ==> v@.len() == 0,
    ensures
        old(c)@.attempts < 60 ==> r.action == (ConnectAction::Wait { millis: 500 }),
        old(c)@.attempts >= 60 ==> r.action is GiveUp,
        final(c)@.attempts == old(c)@.attempts + 1,
        paths is Some && 0 < old(c)@.attempts < 60 ==> r.entries@.len() == 0,
        paths is None ==> r.entries@.len() > 0 && r.entries@[0].message@
            == "No workspace available"@ && r.entries@[0].level@ == "WARNING"@
            && r.entries@[0].logger_name is None,
        paths is Some && old(c)@.attempts == 0 ==> r.entries@.len() == 1
            && r.entries@[0].message@ == "Waiting for Flutter app to start..."@
            && r.entries@[0].level@ == "INFO"@,
{
    if paths is Some {
        assert(texts(paths->0@) =~= Seq::empty());
    }
    assert(r@.entries.len() == r.entries@.len());
    if r.entries@.len() > 0 {
        assert(r@.entries[0] == r.entries@[0]@);
    }
}

/// A file that announces an address has it connected to; otherwise the next directory is looked
/// in, in the same way.
pub proof fn law_file_read(c: &mut Connector, contents: Option<String>, r: ConnectStep)
    requires
        call_ensures(Connector::file_read, (c, contents), r),
    ensures
        contents is Some && announced_uri(contents->0@) is Some ==> (r.action
            matches ConnectAction::Connect { uri } && uri@ == announced_uri(contents->0@)->0)
            && r.entries@.len() == 0 && final(c)@ == old(c)@,
        (contents is None || announced_uri(contents->0@) is None) && old(c)@.paths.len() > 0 ==> (
        r.action matches ConnectAction::ReadFile { path } && path@ == path_from(
            old(c)@.style,
            old(c)@.paths[0],
            ".dart_tool/flutter_url"@,
        )) && r.entries@.len() == 0 && final(c)@.paths == old(c)@.paths.skip(1),
        (contents is None || announced_uri(contents->0@) is None) && old(c)@.paths.len() == 0
            && old(c)@.attempts < 60 ==> r.action == (ConnectAction::Wait { millis: 500 }),
        (contents is None || announced_uri(contents->0@) is None) && old(c)@.paths.len() == 0
            && old(c)@.attempts >= 60 ==> r.action is GiveUp,
{
    assert(r@.entries.len() == r.entries@.len());
}

/// A connection that was made ends the search, with its address; one that was not lets it go on
/// with the next directory.
pub proof fn law_connect_ended(
    c: &mut Connector,
    uri: String,
    outcome: ConnectOutcome,
    r: ConnectStep,
)
    requires
        call_ensures(Connector::connect_ended, (c, uri, outcome), r),
    ensures
        outcome is Connected ==> (r.action matches ConnectAction::Done { uri: done } && done@
            == uri@) && r.entries@.len() == 1 && r.entries@[0].message@
            == "VM service connected at "@ + uri@ && r.entries@[0].level@ == "INFO"@ && final(c)@
            == old(c)@,
        !(outcome is Connected) && old(c)@.paths.len() > 0 ==> (r.action
            matches ConnectAction::ReadFile { path } && path@ == path_from(
            old(c)@.style,
            old(c)@.paths[0],
            ".dart_tool/flutter_url"@,
        )) && final(c)@.paths == old(c)@.paths.skip(1) && final(c)@.attempts == old(c)@.attempts,
        outcome is NotReady && old(c)@.paths.len() > 0 ==> r.entries@.len() == 0,
        outcome matches ConnectOutcome::TaskFailed(error) ==> old(c)@.paths.len() > 0
            ==> r.entries@.len() == 1 && r.entries@[0].message@ == "Connection task failed: "@
            + error@ && r.entries@[0].level@ == "ERROR"@,
        outcome matches ConnectOutcome::SpawnFailed(error) ==> old(c)@.paths.len() > 0 && old(
            c,
        )@.attempts == 0 ==> r.entries@.len() == 1 && r.entries@[0].message@
            == "Failed to spawn connection task: "@ + error@ && r.entries@[0].level@ == "ERROR"@,
        outcome is SpawnFailed && old(c)@.paths.len() > 0 && old(c)@.attempts > 0
            ==> r.entries@.len() == 0,
        !(outcome is Connected) && old(c)@.paths.len() == 0 && old(c)@.attempts < 60 ==> r.action
            == (ConnectAction::Wait { millis: 500 }) && final(c)@.attempts == old(c)@.attempts + 1,
{
    assert(r@.entries.len() == r.entries@.len());
    if r.entries@.len() > 0 {
        assert(r@.entries[0] == r.entries@[0]@);
    }
}

/// The search begins, and goes on after a wait, with listing the directories.
pub proof fn law_search_begins(style: PathStyle, r: (Connector, ConnectAction))
    requires
        call_ensures(Connector::new, (style,), r),
    ensures
        r.0@.attempts == 0,
        r.0@.style == style,
        r.1 is ListPaths,
{
}

/// A wait over changes nothing.
pub proof fn law_search_is_woken(c: &mut Connector, r: ConnectAction)
    requires
        call_ensures(Connector::woken, (c,), r),
    ensures
        r is ListPaths,
        final(c)@ == old(c)@,
{
}

/// A session connects, subscribes, and then receives until there is no more to receive.
pub proof fn law_session(
    opened: (LogEvent, SessionAction),
    result: Result<(), String>,
    subscribed: (LogEvent, SessionAction),
    record: Option<LogRecord>,
    received: (LogEvent, SessionAction),
)
    requires
        call_ensures(session_opened, (), opened),
        call_ensures(session_subscribed, (result,), subscribed),
        call_ensures(session_received, (record,), received),
    ensures
        opened == (LogEvent::Connected, SessionAction::Subscribe),
        result is Ok ==> subscribed == (LogEvent::Subscribed, SessionAction::Receive),
        result matches Err(error) ==> subscribed.1 == SessionAction::Stop && (subscribed.0
            matches LogEvent::Error(message) && message@ == "Failed to subscribe to logs: "@
            + error@),
        record matches Some(logged) ==> received == (LogEvent::Log(logged), SessionAction::Receive),
        record is None ==> received == (LogEvent::Disconnected, SessionAction::Stop),
{
}

/// A message is a notification by its method and its parameters, whatever else it holds.
pub proof fn law_next_log<V>(
    s: &mut DartVmService,
    jsonrpc: String,
    id: Option<String>,
    method: Option<String>,
    result: Option<V>,
    params: Option<V>,
    error: Option<V>,
    r: NextLog<V>,
)
    requires
        call_ensures(
            DartVmService::next_log::<V>,
            (
                s,
                Incoming::Response(
                    JsonRpcResponse { jsonrpc, id, method, result, params, error },
                ),
            ),
            r,
        ),
    ensures
        method is Some && method->0@ == "streamNotify"@ && params is Some ==> r
            == NextLog::Notification(params->0),
        !(method is Some && method->0@ == "streamNotify"@ && params is Some) ==> r
            == NextLog::<V>::Skip,
{
}

/// Where no message came in, only the end of the stream and a failure end the wait.
pub proof fn law_next_log_without_message<V>(
    s: &mut DartVmService,
    incoming: Incoming<V>,
    r: NextLog<V>,
)
    requires
        call_ensures(DartVmService::next_log::<V>, (s, incoming), r),
        !(incoming is Response),
    ensures
        r == NextLog::<V>::Ended <==> incoming is Closed || incoming is Failed,
        r == NextLog::<V>::Skip <==> incoming is NotText || incoming is NotResponse,
{
}

/// The record of a notification is taken by its stream and its event's kind.
pub proof fn law_logged(
    s: DartVmService,
    stream_id: String,
    kind: String,
    log_record: Option<LogRecord>,
    r: Option<Option<LogRecord>>,
    none: Option<Option<LogRecord>>,
)
    requires
        call_ensures(
            DartVmService::logged,
            (&s, Some(StreamNotifyParams { stream_id, event: VmEvent { kind, log_record } })),
            r,
        ),
        call_ensures(DartVmService::logged, (&s, None), none),
    ensures
        stream_id@ == "Logging"@ && kind@ == "Logging"@ ==> r == Some(log_record),
        stream_id@ != "Logging"@ || kind@ != "Logging"@ ==> r is None,
        none is None,
{
}

/// A subscription stands unless the request was not sent, its answer could not be read or
/// decoded, or the answer holds an error.
pub proof fn law_subscribed<V>(
    s: DartVmService,
    exchange: Exchange<V>,
    r: Result<(), VmServiceError<V>>,
)
    requires
        call_ensures(DartVmService::subscribed::<V>, (&s, exchange), r),
    ensures
        exchange is NotSent ==> r == Err::<(), _>(VmServiceError::<V>::SendFailed),
        exchange matches Exchange::Reply(reply) ==> {
            &&& reply is Failed ==> r == Err::<(), _>(VmServiceError::<V>::ReadFailed)
            &&& reply is NotResponse ==> r == Err::<(), _>(VmServiceError::<V>::BadReply)
            &&& reply is Closed || reply is NotText ==> r is Ok
            &&& reply matches Incoming::Response(response) ==> {
                &&& response.error is None ==> r is Ok
                &&& response.error matches Some(e) ==> r == Err::<(), _>(VmServiceError::Refused(e))
            }
        },
{
}

/// The request that is sent: one JSON object, with the counter's number for its id.
pub proof fn law_subscribe_logging(s: &mut DartVmService, counter: &mut RequestCounter, r: String)
    requires
        call_ensures(DartVmService::subscribe_logging, (s, counter), r),
    ensures
        r@ == r#"{"jsonrpc":"2.0","method":"streamListen","params":{"streamId":"Logging"},"id":""#@
            + decimal(old(counter)@ as nat) + "\"}"@,
        old(counter)@ < u64::MAX ==> final(counter)@ == old(counter)@ + 1,
{
    law_listen_request_text(old(counter)@ as nat);
}

/// Ids count on.
pub proof fn law_next_request_id(counter: &mut RequestCounter, r: String)
    requires
        call_ensures(next_request_id, (counter,), r),
    ensures
        r@ == decimal(old(counter)@ as nat),
        old(counter)@ < u64::MAX ==> final(counter)@ == old(counter)@ + 1,
        old(counter)@ == u64::MAX ==> final(counter)@ == 0,
{
}

/// There is a connection where the socket was opened.
pub proof fn law_service_connects<E, V>(
    opened: Result<(), E>,
    r: Result<DartVmService, VmServiceError<V>>,
)
    requires
        call_ensures(DartVmService::connect::<E, V>, (opened,), r),
    ensures
        opened is Ok <==> r is Ok,
        opened is Err ==> r == Err::<DartVmService, _>(VmServiceError::<V>::ConnectFailed),
{
}

/// What a search found is what it found.
pub proof fn law_found(search: Result<Option<String>, regex::Error>, r: Option<String>)
    requires
        call_ensures(found, (search,), r),
    ensures
        search matches Ok(text) ==> r == text,
        search is Err ==> r is None,
{
}

/// A record is logged with its message, its level's name and its logger, whatever its time,
/// error and stack trace are.
pub proof fn law_entry_for_record(
    message: Option<InstanceRef>,
    time: Option<i64>,
    level: Option<i32>,
    logger_name: Option<InstanceRef>,
    error: Option<InstanceRef>,
    stack_trace: Option<InstanceRef>,
    r: LogEntry,
)
    requires
        call_ensures(
            entry_for_event,
            (LogEvent::Log(LogRecord { message, time, level, logger_name, error, stack_trace }),),
            r,
        ),
    ensures
        message matches Some(InstanceRef { value_as_string: Some(text) }) ==> r.message@ == text@,
        message is None || message->0.value_as_string is None ==> r.message@ == "<no message>"@,
        r.level@ == "FINE"@ <==> level is None || 0 <= level->0 <= 500,
        r.level@ == "INFO"@ <==> level is Some && 500 < level->0 <= 800,
        r.level@ == "WARNING"@ <==> level is Some && 800 < level->0 <= 900,
        r.level@ == "SEVERE"@ <==> level is Some && 900 < level->0 <= 1000,
        r.level@ == "SHOUT"@ <==> level is Some && (level->0 < 0 || level->0 > 1000),
        logger_name matches Some(InstanceRef { value_as_string: Some(name) }) ==> text_of(
            r.logger_name,
        ) == Some(name@),
        logger_name is None || logger_name->0.value_as_string is None ==> r.logger_name is None,
{
    law_level_names_by_range(
        match level {
            Some(l) => l as int,
            None => 0,
        },
    );
}

/// The other events of a connection are told in fixed words, and an error in its own.
pub proof fn law_entry_for_event(event: LogEvent, r: LogEntry)
    requires
        call_ensures(entry_for_event, (event,), r),
        !(event is Log),
    ensures
        r.logger_name is None,
        event is Connected ==> r.message@ == "Connected to Dart VM Service"@,
        event is Subscribed ==> r.message@ == "Subscribed to Logging stream"@,
        event is Disconnected ==> r.message@ == "Disconnected from VM Service"@,
        event matches LogEvent::Error(error) ==> r.message@ == error@ && r.level@ == "ERROR"@,
        !(event is Error) ==> r.level@ == "INFO"@,
{
}

/// What the process prints is told line by line as it is; with a connection, only its notable
/// output is.
pub proof fn law_entry_for_process(vm_connected: bool, event: ProcessEvent, r: Option<LogEntry>)
    requires
        call_ensures(entry_for_process, (vm_connected, &event), r),
    ensures
        event matches ProcessEvent::Stdout(line) ==> {
            &&& r is Some <==> !vm_connected || is_notable(line@)
            &&& r matches Some(e) ==> e.message@ == line@ && text_of(e.logger_name) == Some(
                "Flutter"@,
            )
            &&& r is Some && vm_connected ==> r->0.level@ == "INFO"@
            &&& r is Some && !vm_connected ==> r->0.level@ == "FINE"@
        },
        event matches ProcessEvent::Stderr(line) ==> r is Some && r->0.message@ == line@
            && r->0.level@ == "WARNING"@ && text_of(r->0.logger_name) == Some("stderr"@),
        event matches ProcessEvent::Error(message) ==> r is Some && r->0.message@ == message@
            && r->0.level@ == "ERROR"@ && text_of(r->0.logger_name) == Some("flutter"@),
        event is Exited ==> r is Some && r->0.message@ == "Flutter process exited"@
            && r->0.level@ == "INFO"@ && text_of(r->0.logger_name) == Some("flutter"@),
{
    if let ProcessEvent::Stdout(line) = event {
        law_output_is_told(vm_connected, line);
    }
}

/// Whether a line is notable is settled by what stands in it.
pub proof fn law_shows_when_connected(line: &str, r: bool)
    requires
        call_ensures(shows_when_connected, (line,), r),
    ensures
        r == is_notable(line@),
{
}

/// A level's name is settled by the range that its number lies in.
pub proof fn law_level_name(level: i32, r: String)
    requires
        call_ensures(level_name, (level,), r),
    ensures
        r@ == "FINE"@ <==> 0 <= level <= 500,
        r@ == "INFO"@ <==> 500 < level <= 800,
        r@ == "WARNING"@ <==> 800 < level <= 900,
        r@ == "SEVERE"@ <==> 900 < level <= 1000,
        r@ == "SHOUT"@ <==> level < 0 || level > 1000,
{
    law_level_names_by_range(level as int);
}

/// A level's group is settled by its name.
pub proof fn law_level_group(level: &str, r: Option<LevelGroup>)
    requires
        call_ensures(level_group, (level,), r),
    ensures
        r == Some(LevelGroup::Fine) <==> level@ == "FINE"@,
        r == Some(LevelGroup::Info) <==> level@ == "INFO"@,
        r == Some(LevelGroup::Warning) <==> level@ == "WARNING"@,
        r == Some(LevelGroup::Severe) <==> level@ == "SEVERE"@ || level@ == "SHOUT"@ || level@
            == "ERROR"@,
{
    law_groups_by_level_name(level@);
}

/// A line that was read loses the white space at its end, and nothing else.
pub proof fn law_output_line(raw: &str, r: String)
    requires
        call_ensures(output_line, (raw,), r),
    ensures
        r@.len() <= raw@.len(),
        r@ == raw@.take(r@.len() as int),
        r@ == end_trimmed(raw@),
{
    law_end_trimmed_loses_space(raw@);
}

/// Why the process could not be started is told.
pub proof fn law_start_failure(error: &str, r: ProcessEvent)
    requires
        call_ensures(start_failure, (error,), r),
    ensures
        r matches ProcessEvent::Error(message) && message@ == "Failed to start flutter run: "@
            + error@,
{
}

/// The command that runs the app, argument by argument.
pub proof fn law_run_command(use_fvm: bool, device_id: &str, target: &str, r: CommandLine)
    requires
        call_ensures(run_command, (use_fvm, device_id, target), r),
    ensures
        r.program@ == if use_fvm {
            "fvm"@
        } else {
            "flutter"@
        },
        texts(r.args@) == (if use_fvm {
            seq!["flutter"@]
        } else {
            Seq::empty()
        }) + seq![
            "run"@,
            "-d"@,
            device_id@,
            "-t"@,
            target@,
            "--vmservice-out-file=.dart_tool/flutter_url"@,
        ],
{
    assert(texts(r.args@) =~= (if use_fvm {
        seq!["flutter"@]
    } else {
        Seq::empty()
    }) + seq![
        "run"@,
        "-d"@,
        device_id@,
        "-t"@,
        target@,
        "--vmservice-out-file=.dart_tool/flutter_url"@,
    ]);
}

/// The command through FVM and the one without differ in nothing but FVM.
pub proof fn law_run_commands_agree(
    device_id: &str,
    target: &str,
    with: CommandLine,
    without: CommandLine,
)
    requires
        call_ensures(run_command, (true, device_id, target), with),
        call_ensures(run_command, (false, device_id, target), without),
    ensures
        texts(with.args@) == seq![without.program@] + texts(without.args@),
{
    assert(texts(with.args@) =~= seq![without.program@] + texts(without.args@));
}

/// The command that lists devices.
pub proof fn law_devices_command(r: CommandLine)
    requires
        call_ensures(devices_command, (), r),
    ensures
        r.program@ == "flutter"@,
        texts(r.args@) == seq!["devices"@, "--machine"@],
{
}

/// The log's message that a run begins names its device and its target.
pub proof fn law_starting_message(use_fvm: bool, device_id: &str, target: &str, r: String)
    requires
        call_ensures(starting_message, (use_fvm, device_id, target), r),
    ensures
        r@ == "Starting "@ + (if use_fvm {
            "fvm flutter"@
        } else {
            "flutter"@
        }) + " run -d "@ + device_id@ + " -t "@ + target@,
{
}

/// FVM is used where one of its files is in one of the directories.
pub proof fn law_uses_fvm(cwd: Option<FvmMarkers>, roots: Vec<FvmMarkers>, r: bool)
    requires
        call_ensures(uses_fvm, (cwd, &roots), r),
    ensures
        r <==> (cwd is Some && (cwd->0.config || cwd->0.version)) || exists|i: int|
            0 <= i < roots@.len() && ((#[trigger] roots@[i]).config || roots@[i].version),
{
    if exists|i: int|
        0 <= i < roots@.len() && ((#[trigger] roots@[i]).config || roots@[i].version) {
        let i = choose|i: int|
            0 <= i < roots@.len() && ((#[trigger] roots@[i]).config || roots@[i].version);
        assert(is_marked(roots@[i]));
    }
    if exists|i: int| 0 <= i < roots@.len() && is_marked(#[trigger] roots@[i]) {
        let i = choose|i: int| 0 <= i < roots@.len() && is_marked(#[trigger] roots@[i]);
        assert(roots@[i].config || roots@[i].version);
    }
}

/// What a service file announces is what is connected to.
pub proof fn law_service_uri(contents: &str, r: Option<String>)
    requires
        call_ensures(service_uri, (contents,), r),
    ensures
        text_of(r) == announced_uri(contents@),
{
}

/// Controls begin with nothing selected, and ask for the devices.
pub proof fn law_controls_begin(style: PathStyle, r: (FlutterControls, CommandLine))
    requires
        call_ensures(FlutterControls::new, (style,), r),
    ensures
        r.0.path_style == style,
        r.0.devices@.len() == 0 && r.0.selected_device is None,
        r.0.targets@.len() == 0 && r.0.selected_target is None,
        r.0.worktree_root is None,
        r.0.is_loading_devices && r.0.is_loading_targets,
        r.1.program@ == "flutter"@,
        texts(r.1.args@) == seq!["devices"@, "--machine"@],
{
}

/// Devices that were listed replace those from before. A device that is selected stays selected,
/// and where none is, the first one becomes it.
pub proof fn law_devices_listed(c: &mut FlutterControls, listed: Option<Vec<Device>>)
    requires
        call_ensures(FlutterControls::devices_listed, (c, listed), ()),
    ensures
        !final(c).is_loading_devices,
        listed matches Some(devices) ==> final(c).devices == devices,
        listed is None ==> final(c).devices == old(c).devices && final(c).selected_device == old(
            c,
        ).selected_device,
        old(c).selected_device is Some ==> final(c).selected_device == old(c).selected_device,
        listed matches Some(devices) ==> devices@.len() > 0 && old(c).selected_device is None
            ==> final(c).selected_device == Some(devices@[0]),
        listed matches Some(devices) ==> devices@.len() == 0 ==> final(c).selected_device == old(
            c,
        ).selected_device,
        final(c).targets == old(c).targets,
        final(c).selected_target == old(c).selected_target,
        final(c).worktree_root == old(c).worktree_root,
        final(c).is_loading_targets == old(c).is_loading_targets,
        final(c).path_style == old(c).path_style,
{
}

/// Targets that were found replace those from before, in order; where none were found, those
/// from before stay. A selected target stays selected while it is there.
pub proof fn law_targets_found(
    c: &mut FlutterControls,
    worktree_root: Option<String>,
    targets: Vec<String>,
)
    requires
        call_ensures(FlutterControls::targets_found, (c, worktree_root, targets), ()),
    ensures
        !final(c).is_loading_targets,
        final(c).worktree_root == worktree_root,
        targets@.len() == 0 ==> final(c).targets == old(c).targets && final(c).selected_target
            == old(c).selected_target,
        targets@.len() > 0 ==> in_order(texts(final(c).targets@)),
        targets@.len() > 0 ==> texts(final(c).targets@).to_multiset() == texts(
            targets@,
        ).to_multiset(),
        targets@.len() > 0 && old(c).selected_target is Some && texts(targets@).contains(
            old(c).selected_target->0@,
        ) ==> final(c).selected_target == old(c).selected_target,
        targets@.len() > 0 && !(old(c).selected_target is Some && texts(targets@).contains(
            old(c).selected_target->0@,
        )) ==> final(c).selected_target == Some(final(c).targets@[0]),
        final(c).devices == old(c).devices,
        final(c).selected_device == old(c).selected_device,
        final(c).is_loading_devices == old(c).is_loading_devices,
        final(c).path_style == old(c).path_style,
{
}

/// What is chosen is selected, and nothing else changes.
pub proof fn law_choices_are_selected(
    a: &mut FlutterControls,
    device: Device,
    b: &mut FlutterControls,
    target: String,
)
    requires
        call_ensures(FlutterControls::select_device, (a, device), ()),
        call_ensures(FlutterControls::select_target, (b, target), ()),
    ensures
        *final(a) == (FlutterControls { selected_device: Some(device), ..*old(a) }),
        *final(b) == (FlutterControls { selected_target: Some(target), ..*old(b) }),
{
}

/// The controls show the selected device, and all devices and targets in their lists.
pub proof fn law_controls_show(c: FlutterControls, r: ControlsView)
    requires
        call_ensures(FlutterControls::render, (&c,), r),
    ensures
        c.is_loading_devices ==> r.device_label@ == "Loading..."@,
        !c.is_loading_devices && c.selected_device is Some ==> r.device_label@
            == c.selected_device->0.name@,
        !c.is_loading_devices && c.selected_device is None ==> r.device_label@ == "No Device"@,
        r.device_menu@.len() == c.devices@.len(),
        forall|i: int|
            0 <= i < c.devices@.len() ==> (#[trigger] r.device_menu@[i])@ == c.devices@[i].name@,
        c.devices@.len() == 0 ==> text_of(r.device_hint) == Some("No devices found"@),
        c.devices@.len() > 0 ==> r.device_hint is None,
        texts(r.target_menu@) == texts(c.targets@),
{
    assert(texts(r.device_menu@).len() == r.device_menu@.len());
    assert forall|i: int| 0 <= i < c.devices@.len() implies (#[trigger] r.device_menu@[i])@
        == c.devices@[i].name@ by {
        assert(texts(r.device_menu@)[i] == r.device_menu@[i]@);
    }
}

/// A run of the selected target is of its file in `lib`, on the selected device, in the directory
/// of its package.
pub proof fn law_controls_run(
    c: FlutterControls,
    package: Seq<char>,
    file: Seq<char>,
    r: FlutterRun,
)
    requires
        call_ensures(FlutterControls::run, (&c,), r),
    ensures
        c.selected_device matches Some(device) ==> text_of(r.device_id) == Some(device.id@),
        c.selected_device is None ==> r.device_id is None,
        c.selected_target is None ==> r.target is None && r.cwd is None,
        c.worktree_root is None ==> r.cwd is None,
        c.selected_target is Some && is_target_of(
            c.path_style,
            c.selected_target->0@,
            package,
            file,
        ) ==> text_of(r.target) == Some("lib/"@ + file) && (c.worktree_root matches Some(root)
            ==> text_of(r.cwd) == Some(path_from(c.path_style, root@, package))),
{
    if c.selected_target is Some && is_target_of(
        c.path_style,
        c.selected_target->0@,
        package,
        file,
    ) {
        law_run_is_in_package(c, package, file);
    }
}

/// The target button names the file of the selected target.
pub proof fn law_controls_name_target(
    c: FlutterControls,
    package: Seq<char>,
    file: Seq<char>,
    r: ControlsView,
)
    requires
        call_ensures(FlutterControls::render, (&c,), r),
    ensures
        c.is_loading_targets ==> r.target_label@ == "Loading..."@,
        !c.is_loading_targets && c.selected_target is None ==> r.target_label@ == "No Target"@,
        !c.is_loading_targets && c.selected_target is Some && is_target_of(
            c.path_style,
            c.selected_target->0@,
            package,
            file,
        ) ==> r.target_label@ == file,
{
    law_target_button_names_file(c, package, file);
}

/// Refreshing changes nothing but that something is looked for, and devices are listed by
/// `flutter devices --machine`.
pub proof fn law_controls_refresh(a: &mut FlutterControls, r: CommandLine, b: &mut FlutterControls)
    requires
        call_ensures(FlutterControls::refresh_devices, (a,), r),
        call_ensures(FlutterControls::refresh_targets, (b,), ()),
    ensures
        *final(a) == (FlutterControls { is_loading_devices: true, ..*old(a) }),
        r.program@ == "flutter"@,
        texts(r.args@) == seq!["devices"@, "--machine"@],
        *final(b) == (FlutterControls { is_loading_targets: true, ..*old(b) }),
{
}

/// Entries hold what they are made of.
pub proof fn law_entries_are_made(
    message: &str,
    level: &str,
    logger_name: &str,
    plain: LogEntry,
    named: LogEntry,
)
    requires
        call_ensures(plain_entry, (message, level), plain),
        call_ensures(named_entry, (message, level, logger_name), named),
    ensures
        plain.message@ == message@ && plain.level@ == level@ && plain.logger_name is None,
        named.message@ == message@ && named.level@ == level@ && text_of(named.logger_name) == Some(
            logger_name@,
        ),
{
}

/// The search goes on for sixty waits, and no longer.
pub proof fn law_search_has_an_end(c: Connector, r: bool)
    requires
        call_ensures(Connector::goes_on, (&c,), r),
    ensures
        r <==> c@.attempts <= 60,
{
}

/// Ids begin at one.
pub proof fn law_ids_begin_at_one(r: RequestCounter)
    requires
        call_ensures(RequestCounter::new, (), r),
    ensures
        r@ == 1,
{
}

/// A panel's place: at the bottom at first, then where it was put. Only there its size is
/// changed.
pub proof fn law_dock<S: Copy>(
    default_size: S,
    begun: DockGeometry<S>,
    moved: &mut DockGeometry<S>,
    position: DockPosition,
    sized: &mut DockGeometry<S>,
    size: Option<S>,
    dock: DockGeometry<S>,
    shown: S,
    axis: Axis,
    valid: bool,
)
    requires
        call_ensures(DockGeometry::<S>::new, (default_size,), begun),
        call_ensures(DockGeometry::<S>::set_position, (moved, position), ()),
        call_ensures(DockGeometry::<S>::set_size, (sized, size), ()),
        call_ensures(DockGeometry::<S>::size, (&dock,), shown),
        call_ensures(DockPosition::axis, (&position,), axis),
        call_ensures(DockGeometry::<S>::position_is_valid, (&dock, position), valid),
    ensures
        begun.position == DockPosition::Bottom && begun.width is None && begun.height == Some(
            default_size,
        ) && begun.default_size == default_size,
        *final(moved) == (DockGeometry { position, ..*old(moved) }),
        old(sized).position == DockPosition::Bottom ==> *final(sized) == (DockGeometry {
            height: size,
            ..*old(sized)
        }),
        old(sized).position != DockPosition::Bottom ==> *final(sized) == (DockGeometry {
            width: size,
            ..*old(sized)
        }),
        dock.position == DockPosition::Bottom && dock.height is Some ==> shown == dock.height->0,
        dock.position != DockPosition::Bottom && dock.width is Some ==> shown == dock.width->0,
        dock.width is None && (dock.height is None || dock.position != DockPosition::Bottom)
            ==> shown == dock.default_size,
        axis == Axis::Vertical <==> position == DockPosition::Bottom,
        valid,
{
}

} // verus!
