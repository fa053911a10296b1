//! The Dart VM service's protocol, without its sockets: what is sent, and what the answers
//! mean.

use crate::digits::{is_decimal_digit, lemma_digits_of_ascii};
use crate::json::{json_string, json_text, law_plain_text_is_not_escaped};
use crate::text::{
    decimal, decimal_text, ends, is_space, joined, occurs, same_text, stands_at, text_of, trimmed,
};
use crate::uri::{announced_uri, law_websocket_form_keeps_websocket_uris, websocket_form};
use vstd::prelude::*;

verus! {

/// A reference to a string that lives in the VM.
#[derive(Debug, Clone)]
pub struct InstanceRef {
    pub value_as_string: Option<String>,
}

/// One record of the VM's `Logging` stream.
#[derive(Debug, Clone)]
pub struct LogRecord {
    pub message: Option<InstanceRef>,
    pub time: Option<i64>,
    pub level: Option<i32>,
    pub logger_name: Option<InstanceRef>,
    pub error: Option<InstanceRef>,
    pub stack_trace: Option<InstanceRef>,
}

/// An event on one of the VM's streams.
#[derive(Debug, Clone)]
pub struct VmEvent {
    pub kind: String,
    pub log_record: Option<LogRecord>,
}

/// What a `streamNotify` notification carries.
#[derive(Debug, Clone)]
pub struct StreamNotifyParams {
    pub stream_id: String,
    pub event: VmEvent,
}

/// A JSON-RPC message from the VM service. `V` is the form in which JSON values are kept
/// that have not been decoded.
#[derive(Debug, Clone)]
pub struct JsonRpcResponse<V> {
    pub jsonrpc: String,
    pub id: Option<String>,
    pub method: Option<String>,
    pub result: Option<V>,
    pub params: Option<V>,
    pub error: Option<V>,
}

/// Hands out the ids of requests: 1, 2, 3 and so on, and 0 after the largest `u64`.
#[derive(Debug)]
pub struct RequestCounter {
    next: u64,
}

impl View for RequestCounter {
    type V = u64;

    closed spec fn view(&self) -> u64 {
        self.next
    }
}

impl RequestCounter {
    /// A counter that has handed out nothing yet.
    pub fn new() -> (r: Self)
        ensures
            r@ == 1,
    {
        RequestCounter { next: 1 }
    }
}

/// The number that a counter at `n` moves on to.
pub open spec fn number_after(n: u64) -> u64 {
    if n == u64::MAX {
        0
    } else {
        (n + 1) as u64
    }
}

/// The number of a counter that was at `n` and has handed out `k` ids since.
pub open spec fn number_after_all(n: u64, k: nat) -> u64
    decreases k,
{
    if k == 0 {
        n
    } else {
        number_after(number_after_all(n, (k - 1) as nat))
    }
}

/// The id for the next request: the counter's number in decimal.
pub fn next_request_id(counter: &mut RequestCounter) -> (id: String)
    ensures
        id@ == decimal(old(counter)@ as nat),
        final(counter)@ == number_after(old(counter)@),
{
    let id = decimal_text(counter.next);
    counter.next = if counter.next == u64::MAX {
        0
    } else {
        counter.next + 1
    };
    id
}

/// What came in on the socket.
#[derive(Debug)]
pub enum Incoming<V> {
    /// The stream is over.
    Closed,
    /// Reading failed.
    Failed,
    /// A frame that is not text.
    NotText,
    /// A text that is no JSON-RPC message.
    NotResponse,
    /// A JSON-RPC message.
    Response(JsonRpcResponse<V>),
}

/// How the exchange of a request for its answer went.
#[derive(Debug)]
pub enum Exchange<V> {
    /// The request could not be sent.
    NotSent,
    /// The request was sent, and this came in after it.
    Reply(Incoming<V>),
}

/// Why talking to the VM service failed.
#[derive(Debug)]
pub enum VmServiceError<V> {
    ConnectFailed,
    SendFailed,
    ReadFailed,
    BadReply,
    /// The service answered with this error.
    Refused(V),
}

/// What to do with something that came in while waiting for a log record.
#[derive(Debug)]
pub enum NextLog<V> {
    /// There will be no more records.
    Ended,
    /// This was no notification; wait on.
    Skip,
    /// A notification with these parameters.
    Notification(V),
}

/// The message that stands for an error. `detail` is the service's own error, written out.
pub open spec fn error_message<V>(error: VmServiceError<V>, detail: Seq<char>) -> Seq<char> {
    match error {
        VmServiceError::ConnectFailed => "Failed to connect to Dart VM Service"@,
        VmServiceError::SendFailed => "Failed to send streamListen request"@,
        VmServiceError::ReadFailed => "WebSocket read error"@,
        VmServiceError::BadReply => "Failed to parse streamListen response"@,
        VmServiceError::Refused(_) => "streamListen failed: "@ + detail,
    }
}

impl<V> VmServiceError<V> {
    /// The message that stands for the error. `detail` is the service's own error, written
    /// out; it matters only where the service refused.
    pub fn message(&self, detail: &str) -> (r: String)
        ensures
            r@ == error_message(*self, detail@),
    {
        match self {
            VmServiceError::ConnectFailed => "Failed to connect to Dart VM Service".to_owned(),
            VmServiceError::SendFailed => "Failed to send streamListen request".to_owned(),
            VmServiceError::ReadFailed => "WebSocket read error".to_owned(),
            VmServiceError::BadReply => "Failed to parse streamListen response".to_owned(),
            VmServiceError::Refused(_) => joined("streamListen failed: ", detail),
        }
    }
}

/// The request to listen to the `Logging` stream, under the id `id`. The order of an
/// object's members means nothing in JSON; this is the one in which it is sent.
pub open spec fn listen_request(id: Seq<char>) -> Seq<char> {
    LISTEN_REQUEST@ + json_text(id) + "}"@
}

/// The request to listen to the `Logging` stream, up to its id.
pub const LISTEN_REQUEST: &'static str =
    r#"{"jsonrpc":"2.0","method":"streamListen","params":{"streamId":"Logging"},"id":"#;

/// What the answer to a request means.
pub open spec fn exchange_result<V>(exchange: Exchange<V>) -> Result<(), VmServiceError<V>> {
    match exchange {
        Exchange::NotSent => Err(VmServiceError::SendFailed),
        Exchange::Reply(Incoming::Failed) => Err(VmServiceError::ReadFailed),
        Exchange::Reply(Incoming::NotResponse) => Err(VmServiceError::BadReply),
        Exchange::Reply(Incoming::Response(response)) => match response.error {
            Some(error) => Err(VmServiceError::Refused(error)),
            None => Ok(()),
        },
        Exchange::Reply(Incoming::Closed) => Ok(()),
        Exchange::Reply(Incoming::NotText) => Ok(()),
    }
}

/// The parameters of a message, if it is a `streamNotify` notification that has some.
pub open spec fn notification_params<V>(response: JsonRpcResponse<V>) -> Option<V> {
    match response.method {
        Some(method) => if method@ == "streamNotify"@ {
            response.params
        } else {
            None
        },
        None => None,
    }
}

/// What to do with something that came in while waiting for a log record.
pub open spec fn next_of<V>(incoming: Incoming<V>) -> NextLog<V> {
    match incoming {
        Incoming::Closed => NextLog::Ended,
        Incoming::Failed => NextLog::Ended,
        Incoming::NotText => NextLog::Skip,
        Incoming::NotResponse => NextLog::Skip,
        Incoming::Response(response) => match notification_params(response) {
            Some(params) => NextLog::Notification(params),
            None => NextLog::Skip,
        },
    }
}

/// A notification of a log record: on the `Logging` stream, and of its kind.
pub open spec fn is_logging(notify: StreamNotifyParams) -> bool {
    notify.stream_id@ == "Logging"@ && notify.event.kind@ == "Logging"@
}

/// What a decoded notification says about the log, if it is of the log's.
pub open spec fn logged_record(notify: Option<StreamNotifyParams>) -> Option<Option<LogRecord>> {
    match notify {
        Some(n) => if is_logging(n) {
            Some(n.event.log_record)
        } else {
            None
        },
        None => None,
    }
}

/// The client's side of a connection to a Dart VM service.
#[derive(Debug)]
pub struct DartVmService;

impl DartVmService {
    /// The client's side of a connection, where the socket could be opened.
    pub fn connect<E, V>(opened: Result<(), E>) -> (r: Result<Self, VmServiceError<V>>)
        ensures
            opened is Ok ==> r == Ok::<Self, VmServiceError<V>>(DartVmService),
            opened is Err ==> r == Err::<Self, VmServiceError<V>>(VmServiceError::ConnectFailed),
    {
        match opened {
            Ok(_) => Ok(DartVmService),
            Err(_) => Err(VmServiceError::ConnectFailed),
        }
    }

    /// The request to send in order to receive log records. It takes the next request id.
    pub fn subscribe_logging(&mut self, counter: &mut RequestCounter) -> (request: String)
        ensures
            request@ == listen_request(decimal(old(counter)@ as nat)),
            final(counter)@ == number_after(old(counter)@),
            *final(self) == *old(self),
    {
        let id = next_request_id(counter);
        let quoted = json_string(id.as_str());
        let mut request = joined(LISTEN_REQUEST, quoted.as_str());
        request.append("}");
        request
    }

    /// Whether the subscription stands, given how the exchange of its request went.
    pub fn subscribed<V>(&self, exchange: Exchange<V>) -> (r: Result<(), VmServiceError<V>>)
        ensures
            r == exchange_result(exchange),
    {
        match exchange {
            Exchange::NotSent => Err(VmServiceError::SendFailed),
            Exchange::Reply(incoming) => match incoming {
                Incoming::Closed => Ok(()),
                Incoming::Failed => Err(VmServiceError::ReadFailed),
                Incoming::NotText => Ok(()),
                Incoming::NotResponse => Err(VmServiceError::BadReply),
                Incoming::Response(response) => match response.error {
                    Some(error) => Err(VmServiceError::Refused(error)),
                    None => Ok(()),
                },
            },
        }
    }

    /// What to do with something that came in while waiting for a log record.
    pub fn next_log<V>(&mut self, incoming: Incoming<V>) -> (r: NextLog<V>)
        ensures
            r == next_of(incoming),
            *final(self) == *old(self),
    {
        match incoming {
            Incoming::Closed => NextLog::Ended,
            Incoming::Failed => NextLog::Ended,
            Incoming::NotText => NextLog::Skip,
            Incoming::NotResponse => NextLog::Skip,
            Incoming::Response(response) => match response.method {
                Some(method) => if same_text(method.as_str(), "streamNotify") {
                    match response.params {
                        Some(params) => NextLog::Notification(params),
                        None => NextLog::Skip,
                    }
                } else {
                    NextLog::Skip
                },
                None => NextLog::Skip,
            },
        }
    }

    /// What a notification says about the log: `None` where it is none of the log's, and
    /// the wait goes on. Otherwise the wait is over, with the record, if there is one.
    pub fn logged(&self, notify: Option<StreamNotifyParams>) -> (r: Option<Option<LogRecord>>)
        ensures
            r == logged_record(notify),
    {
        match notify {
            Some(n) => if same_text(n.stream_id.as_str(), "Logging") && same_text(
                n.event.kind.as_str(),
                "Logging",
            ) {
                Some(n.event.log_record)
            } else {
                None
            },
            None => None,
        }
    }
}

/// The last digit of a decimal, and what stands before it.
proof fn lemma_decimal_digits(n: nat)
    ensures
        decimal(n).len() > 0,
        decimal(n).last() as int == '0' as int + n % 10,
        forall|i: int| 0 <= i < decimal(n).len() ==> '0' <= #[trigger] decimal(n)[i] <= '9',
    decreases n,
{
    if n >= 10 {
        lemma_decimal_digits(n / 10);
    }
}

proof fn lemma_decimal_injective(a: nat, b: nat)
    requires
        decimal(a) == decimal(b),
    ensures
        a == b,
    decreases a,
{
    lemma_decimal_digits(a);
    lemma_decimal_digits(b);
    if a >= 10 && b >= 10 {
        assert(decimal(a).drop_last() =~= decimal(a / 10));
        assert(decimal(b).drop_last() =~= decimal(b / 10));
        lemma_decimal_injective(a / 10, b / 10);
    } else if a >= 10 {
        lemma_decimal_digits(a / 10);
        assert(decimal(b).len() == 1);
    } else if b >= 10 {
        lemma_decimal_digits(b / 10);
        assert(decimal(a).len() == 1);
    }
}

proof fn lemma_number_after_all(n: u64, k: nat)
    ensures
        number_after_all(n, k) == (n + k) % 0x1_0000_0000_0000_0000,
    decreases k,
{
    if k > 0 {
        lemma_number_after_all(n, (k - 1) as nat);
    }
}

/// Of all requests that one counter numbers, no two that are fewer than 2^64 apart have
/// the same id.
pub proof fn law_request_ids_differ(n: u64, i: nat, j: nat)
    requires
        i < j < i + 0x1_0000_0000_0000_0000,
    ensures
        decimal(number_after_all(n, i) as nat) != decimal(number_after_all(n, j) as nat),
{
    lemma_number_after_all(n, i);
    lemma_number_after_all(n, j);
    if decimal(number_after_all(n, i) as nat) == decimal(number_after_all(n, j) as nat) {
        lemma_decimal_injective(number_after_all(n, i) as nat, number_after_all(n, j) as nat);
    }
}

/// A request's number stands in it as it is, in quotation marks.
pub proof fn law_request_number_is_not_escaped(n: nat)
    ensures
        listen_request(decimal(n)) == LISTEN_REQUEST@ + "\""@ + decimal(n) + "\"}"@,
{
    lemma_decimal_digits(n);
    law_plain_text_is_not_escaped(decimal(n));
    reveal_strlit("\"");
    reveal_strlit("}");
    reveal_strlit("\"}");
    assert(listen_request(decimal(n)) =~= LISTEN_REQUEST@ + "\""@ + decimal(n) + "\"}"@);
}

/// A service address on the loopback interface.
pub const LOOPBACK_PATTERN: &'static str = r"ws://127\.0\.0\.1:\d+/[A-Za-z0-9_=-]+/ws";

/// A service address on `localhost`.
pub const LOCALHOST_PATTERN: &'static str = r"ws://localhost:\d+/[A-Za-z0-9_=-]+/ws";

/// The host in the service addresses that a pattern matches.
pub open spec fn pattern_host(pattern: Seq<char>) -> Option<Seq<char>> {
    if pattern == LOOPBACK_PATTERN@ {
        Some("127.0.0.1"@)
    } else if pattern == LOCALHOST_PATTERN@ {
        Some("localhost"@)
    } else {
        None
    }
}

/// A character of a service's access token.
pub open spec fn is_token_char(c: char) -> bool {
    'A' <= c <= 'Z' || 'a' <= c <= 'z' || '0' <= c <= '9' || c == '_' || c == '=' || c == '-'
}

/// `uri` reads `ws://`, the host, `:`, the port, `/`, the token and `/ws`.
pub open spec fn has_parts(
    uri: Seq<char>,
    host: Seq<char>,
    port: Seq<char>,
    token: Seq<char>,
) -> bool {
    uri == "ws://"@ + host + ":"@ + port + "/"@ + token + "/ws"@
}

/// `uri` is a service address on `host`.
pub open spec fn is_service_uri(uri: Seq<char>, host: Seq<char>) -> bool {
    exists|port: Seq<char>, token: Seq<char>|
        {
            &&& #[trigger] has_parts(uri, host, port, token)
            &&& port.len() > 0 && (forall|i: int|
                0 <= i < port.len() ==> is_decimal_digit(#[trigger] port[i]))
            &&& token.len() > 0 && (forall|i: int|
                0 <= i < token.len() ==> is_token_char(#[trigger] token[i]))
        }
}

/// No service address on `host` begins before position `end`.
pub open spec fn no_uri_before(text: Seq<char>, host: Seq<char>, end: int) -> bool {
    forall|i: int, j: int|
        0 <= i < end && i <= j <= text.len() ==> !is_service_uri(
            #[trigger] text.subrange(i, j),
            host,
        )
}

/// `found` is the first service address on `host` in `text`.
pub open spec fn is_first_uri(text: Seq<char>, host: Seq<char>, found: Option<Seq<char>>) -> bool {
    match found {
        Some(uri) => is_service_uri(uri, host) && exists|i: int| #[trigger]
            stands_at(text, uri, i) && no_uri_before(text, host, i),
        None => no_uri_before(text, host, text.len() as int),
    }
}

/// `regex::Error`: why a pattern is no regular expression.
#[verifier::external_type_specification]
#[verifier::external_body]
pub struct ExRegexError(regex::Error);

/// `regex::Regex::new` of the pattern, then `regex::Regex::find` in the text.
///
/// The contract claims of the two patterns for service addresses that they are regular
/// expressions, and that the leftmost match of the shape they describe is what is found. The
/// class `\d` takes the decimal digits of all scripts, as the tables of `regex_syntax` list
/// them. Of other patterns nothing is claimed.
#[verifier::external_body]
fn first_match(pattern: &str, text: &str) -> (r: Result<Option<String>, regex::Error>)
    requires
        pattern_host(pattern@) is Some,
    ensures
        r is Ok,
        is_first_uri(text@, pattern_host(pattern@)->0, text_of(r->Ok_0)),
{
    let re = regex::Regex::new(pattern)?;
    Ok(re.find(text).map(|m| m.as_str().to_string()))
}

/// The text that a search found. A pattern that is no regular expression finds nothing.
pub fn found(search: Result<Option<String>, regex::Error>) -> (r: Option<String>)
    ensures
        search matches Ok(found) ==> r == found,
        search is Err ==> r is None,
{
    match search {
        Ok(found) => found,
        Err(_) => None,
    }
}

/// `found` is the first service address on the loopback interface in `text`, or where there
/// is none, the first on `localhost`.
pub open spec fn is_preferred_uri(text: Seq<char>, found: Option<Seq<char>>) -> bool {
    ||| found is Some && is_first_uri(text, "127.0.0.1"@, found)
    ||| is_first_uri(text, "127.0.0.1"@, None) && is_first_uri(text, "localhost"@, found)
}

/// Finds the VM service's WebSocket address in what `flutter run` printed. An address on
/// the loopback interface is preferred to one on `localhost`, wherever they stand.
pub fn extract_vm_service_uri(terminal_output: &str) -> (r: Option<String>)
    ensures
        is_preferred_uri(terminal_output@, text_of(r)),
{
    let loopback = found(first_match(LOOPBACK_PATTERN, terminal_output));
    if loopback.is_some() {
        return loopback;
    }
    proof {
        reveal_strlit(r"ws://127\.0\.0\.1:\d+/[A-Za-z0-9_=-]+/ws");
        reveal_strlit(r"ws://localhost:\d+/[A-Za-z0-9_=-]+/ws");
        assert(LOOPBACK_PATTERN@[5] == '1');
        assert(LOCALHOST_PATTERN@[5] == 'l');
    }
    found(first_match(LOCALHOST_PATTERN, terminal_output))
}

/// The parts of a service address stand in it one behind the other.
spec fn parts_stand(uri: Seq<char>, host: Seq<char>, port: Seq<char>, token: Seq<char>) -> bool {
    let h = 6 + host.len() as int;
    let t = h + port.len() + 1;
    &&& uri.len() == t + token.len() + 3
    &&& uri[0] == 'w' && uri[1] == 's' && uri[2] == ':' && uri[3] == '/' && uri[4] == '/'
    &&& forall|i: int| 0 <= i < host.len() ==> uri[5 + i] == #[trigger] host[i]
    &&& uri[h - 1] == ':'
    &&& forall|i: int| 0 <= i < port.len() ==> uri[h + i] == #[trigger] port[i]
    &&& uri[h + port.len()] == '/'
    &&& forall|i: int| 0 <= i < token.len() ==> uri[t + i] == #[trigger] token[i]
    &&& uri[t + token.len()] == '/' && uri[t + token.len() + 1] == 'w' && uri[t + token.len() + 2]
        == 's'
}

proof fn lemma_parts_stand(uri: Seq<char>, host: Seq<char>, port: Seq<char>, token: Seq<char>)
    requires
        has_parts(uri, host, port, token),
    ensures
        parts_stand(uri, host, port, token),
{
    reveal_strlit("ws://");
    reveal_strlit(":");
    reveal_strlit("/");
    reveal_strlit("/ws");
}

/// The parts of a service address are of the characters that they may be of.
spec fn parts_fit(port: Seq<char>, token: Seq<char>) -> bool {
    &&& port.len() > 0 && (forall|i: int|
        0 <= i < port.len() ==> is_decimal_digit(#[trigger] port[i]))
    &&& token.len() > 0 && (forall|i: int|
        0 <= i < token.len() ==> is_token_char(#[trigger] token[i]))
}

/// Where a service address on a host begins settles where it ends.
pub proof fn law_service_uri_end_is_settled(
    text: Seq<char>,
    host: Seq<char>,
    i: int,
    j: int,
    k: int,
)
    requires
        0 <= i <= j <= text.len(),
        i <= k <= text.len(),
        is_service_uri(text.subrange(i, j), host),
        is_service_uri(text.subrange(i, k), host),
    ensures
        j == k,
{
    let a = text.subrange(i, j);
    let b = text.subrange(i, k);
    let (p, t) = choose|p: Seq<char>, t: Seq<char>|
        #[trigger] has_parts(a, host, p, t) && parts_fit(p, t);
    let (q, u) = choose|q: Seq<char>, u: Seq<char>|
        #[trigger] has_parts(b, host, q, u) && parts_fit(q, u);
    lemma_parts_stand(a, host, p, t);
    lemma_parts_stand(b, host, q, u);
    let h = 6 + host.len() as int;
    lemma_digits_of_ascii('/');
    if p.len() < q.len() {
        assert(b[h + p.len()] == q[p.len() as int]);
        assert(a[h + p.len()] == b[h + p.len()]);
    } else if q.len() < p.len() {
        assert(a[h + q.len()] == p[q.len() as int]);
        assert(a[h + q.len()] == b[h + q.len()]);
    } else {
        let s = h + p.len() + 1;
        if t.len() < u.len() {
            assert(b[s + t.len()] == u[t.len() as int]);
            assert(a[s + t.len()] == b[s + t.len()]);
        } else if u.len() < t.len() {
            assert(a[s + u.len()] == t[u.len() as int]);
            assert(a[s + u.len()] == b[s + u.len()]);
        }
    }
}

/// The hosts of service addresses hold no colon.
proof fn lemma_host_has_no_colon(host: Seq<char>)
    requires
        host == "127.0.0.1"@ || host == "localhost"@,
    ensures
        !host.contains(':'),
{
    reveal_strlit("127.0.0.1");
    reveal_strlit("localhost");
}

/// A service address has two colons: behind its scheme and behind its host. No slash follows
/// the second.
proof fn lemma_colons_stand(uri: Seq<char>, host: Seq<char>, port: Seq<char>, token: Seq<char>)
    requires
        !host.contains(':'),
        parts_stand(uri, host, port, token),
        parts_fit(port, token),
    ensures
        forall|k: int|
            0 <= k < uri.len() && #[trigger] uri[k] == ':' ==> k == 2 || k == 5 + host.len(),
        uri[6 + host.len() as int] != '/',
{
    lemma_digits_of_ascii('/');
    lemma_digits_of_ascii(':');
    let h = 6 + host.len() as int;
    let t = h + port.len() + 1;
    assert forall|k: int| 0 <= k < uri.len() && #[trigger] uri[k] == ':' implies k == 2 || k == h
        - 1 by {
        if 5 <= k < h - 1 {
            assert(uri[5 + (k - 5)] == host[k - 5]);
            assert(host.contains(host[k - 5]));
        } else if h <= k < t - 1 {
            assert(uri[h + (k - h)] == port[k - h]);
        } else if t <= k < t + token.len() {
            assert(uri[t + (k - t)] == token[k - t]);
        }
    }
    assert(uri[h + 0] == port[0]);
}

/// A scheme that needs `://` behind more than two characters stands nowhere in a text whose
/// colons stand as a service address's do.
proof fn lemma_scheme_stands_nowhere(uri: Seq<char>, scheme: Seq<char>, second: int)
    requires
        forall|k: int| 0 <= k < uri.len() && #[trigger] uri[k] == ':' ==> k == 2 || k == second,
        uri[second + 1] != '/',
        scheme.len() > 5,
        scheme[scheme.len() - 3] == ':',
        scheme[scheme.len() - 2] == '/',
    ensures
        !occurs(uri, scheme),
{
    if occurs(uri, scheme) {
        let i = choose|i: int| stands_at(uri, scheme, i);
        let n = scheme.len() as int;
        let part = uri.subrange(i, i + n);
        assert(part[n - 3] == uri[i + n - 3]);
        assert(part[n - 2] == uri[i + n - 2]);
    }
}

proof fn lemma_http_stands_nowhere(uri: Seq<char>, second: int)
    requires
        forall|k: int| 0 <= k < uri.len() && #[trigger] uri[k] == ':' ==> k == 2 || k == second,
        uri[second + 1] != '/',
    ensures
        !occurs(uri, "http://"@),
        !occurs(uri, "https://"@),
{
    reveal_strlit("http://");
    reveal_strlit("https://");
    lemma_scheme_stands_nowhere(uri, "http://"@, second);
    lemma_scheme_stands_nowhere(uri, "https://"@, second);
}

/// How a service address begins and ends.
proof fn lemma_ends_stand(uri: Seq<char>, host: Seq<char>, port: Seq<char>, token: Seq<char>)
    requires
        has_parts(uri, host, port, token),
    ensures
        uri.len() > 0,
        uri[0] == 'w',
        uri.last() == 's',
        ends(uri, "/ws"@),
{
    lemma_parts_stand(uri, host, port, token);
    reveal_strlit("/ws");
    let n = uri.len() as int;
    assert(uri.subrange(n - 3, n) =~= "/ws"@);
}

/// A text with no white space at its ends needs no trimming.
proof fn lemma_nothing_to_trim(s: Seq<char>)
    requires
        s.len() > 0,
        !is_space(s[0]),
        !is_space(s.last()),
    ensures
        trimmed(s) == s,
{
}

/// A service address that is found in the output is announced as it is by a file that
/// holds it: it needs no trimming, no other scheme and no added path.
pub proof fn law_service_uri_is_announced_as_it_is(uri: Seq<char>, host: Seq<char>)
    requires
        host == "127.0.0.1"@ || host == "localhost"@,
        is_service_uri(uri, host),
    ensures
        announced_uri(uri) == Some(uri),
        websocket_form(uri) == uri,
{
    let (port, token) = choose|port: Seq<char>, token: Seq<char>|
        #[trigger] has_parts(uri, host, port, token) && parts_fit(port, token);
    lemma_ends_stand(uri, host, port, token);
    lemma_nothing_to_trim(uri);
    lemma_host_has_no_colon(host);
    lemma_parts_stand(uri, host, port, token);
    lemma_colons_stand(uri, host, port, token);
    lemma_http_stands_nowhere(uri, 5 + host.len() as int);
    law_websocket_form_keeps_websocket_uris(uri);
}

proof fn lemma_first_uri_is_unique(
    text: Seq<char>,
    host: Seq<char>,
    a: Option<Seq<char>>,
    b: Option<Seq<char>>,
)
    requires
        is_first_uri(text, host, a),
        is_first_uri(text, host, b),
        a is Some,
    ensures
        a == b,
{
    let u = a->0;
    let i = choose|i: int| #[trigger] stands_at(text, u, i) && no_uri_before(text, host, i);
    assert(is_service_uri(text.subrange(i, i + u.len()), host));
    lemma_service_uri_is_not_empty(u, host);
    if let Some(v) = b {
        let j = choose|j: int| #[trigger] stands_at(text, v, j) && no_uri_before(text, host, j);
        assert(is_service_uri(text.subrange(j, j + v.len()), host));
        lemma_service_uri_is_not_empty(v, host);
        assert(i == j);
        law_service_uri_end_is_settled(text, host, i, (i + u.len()) as int, (i + v.len()) as int);
    }
}

proof fn lemma_service_uri_is_not_empty(uri: Seq<char>, host: Seq<char>)
    requires
        is_service_uri(uri, host),
    ensures
        uri.len() > 0,
{
    let (port, token) = choose|port: Seq<char>, token: Seq<char>|
        #[trigger] has_parts(uri, host, port, token) && parts_fit(port, token);
    lemma_ends_stand(uri, host, port, token);
}

/// What is found in a text is settled: there is no second address that could be preferred.
pub proof fn law_preferred_uri_is_unique(
    text: Seq<char>,
    a: Option<Seq<char>>,
    b: Option<Seq<char>>,
)
    requires
        is_preferred_uri(text, a),
        is_preferred_uri(text, b),
    ensures
        a == b,
{
    let loopback = "127.0.0.1"@;
    let local = "localhost"@;
    if a is Some && is_first_uri(text, loopback, a) {
        if is_first_uri(text, loopback, b) {
            lemma_first_uri_is_unique(text, loopback, a, b);
        } else {
            lemma_first_uri_is_unique(text, loopback, a, None);
        }
    } else if b is Some && is_first_uri(text, loopback, b) {
        lemma_first_uri_is_unique(text, loopback, b, None);
    } else if a is Some {
        lemma_first_uri_is_unique(text, local, a, b);
    } else if b is Some {
        lemma_first_uri_is_unique(text, local, b, a);
    }
}

/// No part of a text is a service address on `host`.
pub open spec fn holds_no_uri(text: Seq<char>, host: Seq<char>) -> bool {
    forall|i: int, j: int|
        0 <= i <= j <= text.len() ==> !is_service_uri(#[trigger] text.subrange(i, j), host)
}

proof fn lemma_none_is_first(text: Seq<char>, host: Seq<char>)
    ensures
        is_first_uri(text, host, None) <==> holds_no_uri(text, host),
{
    if is_first_uri(text, host, None) {
        assert forall|i: int, j: int| 0 <= i <= j <= text.len() implies !is_service_uri(
            #[trigger] text.subrange(i, j),
            host,
        ) by {
            if is_service_uri(text.subrange(i, j), host) {
                lemma_service_uri_is_not_empty(text.subrange(i, j), host);
            }
        }
    }
}

/// Nothing is found in a text only where no part of it is a service address on either host. An
/// address on `localhost` is found only where none is on the loopback interface.
pub proof fn law_search_misses_no_uri(text: Seq<char>, found: Option<Seq<char>>)
    requires
        is_preferred_uri(text, found),
    ensures
        found is None <==> holds_no_uri(text, "127.0.0.1"@) && holds_no_uri(text, "localhost"@),
        found matches Some(uri) ==> occurs(text, uri) && (is_service_uri(uri, "127.0.0.1"@)
            || is_service_uri(uri, "localhost"@) && holds_no_uri(text, "127.0.0.1"@)),
{
    lemma_none_is_first(text, "127.0.0.1"@);
    lemma_none_is_first(text, "localhost"@);
    if let Some(uri) = found {
        if is_first_uri(text, "127.0.0.1"@, found) {
            lemma_first_uri_stands(text, "127.0.0.1"@, uri);
        } else {
            lemma_first_uri_stands(text, "localhost"@, uri);
        }
    }
}

proof fn lemma_first_uri_stands(text: Seq<char>, host: Seq<char>, uri: Seq<char>)
    requires
        is_first_uri(text, host, Some(uri)),
    ensures
        occurs(text, uri),
        !holds_no_uri(text, host),
{
    let i = choose|i: int| #[trigger] stands_at(text, uri, i) && no_uri_before(text, host, i);
    assert(is_service_uri(text.subrange(i, i + uri.len()), host));
}

/// No part of a service address on `localhost` is one on the loopback interface.
proof fn lemma_local_holds_no_loopback(uri: Seq<char>)
    requires
        is_service_uri(uri, "localhost"@),
    ensures
        holds_no_uri(uri, "127.0.0.1"@),
{
    let local = "localhost"@;
    let loopback = "127.0.0.1"@;
    let (port, token) = choose|port: Seq<char>, token: Seq<char>|
        #[trigger] has_parts(uri, local, port, token) && parts_fit(port, token);
    lemma_host_has_no_colon(local);
    lemma_parts_stand(uri, local, port, token);
    lemma_colons_stand(uri, local, port, token);
    assert forall|i: int, j: int| 0 <= i <= j <= uri.len() implies !is_service_uri(
        #[trigger] uri.subrange(i, j),
        loopback,
    ) by {
        let part = uri.subrange(i, j);
        if is_service_uri(part, loopback) {
            let (p, t) = choose|p: Seq<char>, t: Seq<char>|
                #[trigger] has_parts(part, loopback, p, t) && parts_fit(p, t);
            lemma_parts_stand(part, loopback, p, t);
            assert(part[2] == uri[i + 2] && part[3] == uri[i + 3] && part[5] == uri[i + 5]);
            reveal_strlit("localhost");
            reveal_strlit("127.0.0.1");
            assert(uri[5int] == local[0]);
            assert(part[5int] == loopback[0]);
        }
    }
}

/// Searching an address that was found finds that same address.
pub proof fn law_found_uri_is_found_again(
    text: Seq<char>,
    uri: Seq<char>,
    again: Option<Seq<char>>,
)
    requires
        is_preferred_uri(text, Some(uri)),
        is_preferred_uri(uri, again),
    ensures
        again == Some(uri),
{
    let loopback = "127.0.0.1"@;
    let local = "localhost"@;
    assert(uri.subrange(0, uri.len() as int) =~= uri);
    assert(stands_at(uri, uri, 0));
    if is_service_uri(uri, loopback) {
        assert(is_first_uri(uri, loopback, Some(uri)));
    } else {
        lemma_local_holds_no_loopback(uri);
        lemma_none_is_first(uri, loopback);
        assert(is_first_uri(uri, local, Some(uri)));
    }
    law_preferred_uri_is_unique(uri, again, Some(uri));
}

/// A message is taken for a notification where its method is `streamNotify` and it has
/// parameters, whatever else it holds, and these are its parameters. All other messages are
/// passed over.
pub proof fn law_notifications_are_told_by_method<V>(
    jsonrpc: String,
    id: Option<String>,
    method: Option<String>,
    result: Option<V>,
    params: Option<V>,
    error: Option<V>,
)
    ensures
        ({
            let got = next_of(
                Incoming::Response(JsonRpcResponse { jsonrpc, id, method, result, params, error }),
            );
            let notifies = method is Some && method->0@ == "streamNotify"@;
            &&& notifies && params is Some ==> got == NextLog::Notification(params->0)
            &&& !notifies || params is None ==> got == NextLog::<V>::Skip
        }),
{
}

/// What ends the wait for a record, and what does not, where no message came in.
pub proof fn law_only_end_of_stream_ends_wait<V>()
    ensures
        next_of(Incoming::<V>::Closed) == NextLog::<V>::Ended,
        next_of(Incoming::<V>::Failed) == NextLog::<V>::Ended,
        next_of(Incoming::<V>::NotText) == NextLog::<V>::Skip,
        next_of(Incoming::<V>::NotResponse) == NextLog::<V>::Skip,
{
}

/// The record of a notification is taken where both its stream and its event's kind are
/// `Logging`, and then it is the event's record, as it is.
pub proof fn law_records_are_told_by_stream_and_kind(
    stream_id: String,
    kind: String,
    log_record: Option<LogRecord>,
)
    ensures
        ({
            let notify = StreamNotifyParams { stream_id, event: VmEvent { kind, log_record } };
            let logging = stream_id@ == "Logging"@ && kind@ == "Logging"@;
            &&& logging ==> logged_record(Some(notify)) == Some(log_record)
            &&& !logging ==> logged_record(Some(notify)) == None::<Option<LogRecord>>
        }),
        logged_record(None) == None::<Option<LogRecord>>,
{
}

/// A subscription is refused by an answer that holds an error, with that error, and by no other
/// answer, whatever else the answer holds.
pub proof fn law_answer_refuses_by_its_error<V>(
    jsonrpc: String,
    id: Option<String>,
    method: Option<String>,
    result: Option<V>,
    params: Option<V>,
    error: Option<V>,
)
    ensures
        ({
            let got = exchange_result(
                Exchange::Reply(
                    Incoming::Response(
                        JsonRpcResponse { jsonrpc, id, method, result, params, error },
                    ),
                ),
            );
            &&& got is Ok <==> error is None
            &&& error matches Some(e) ==> got == Err::<(), _>(VmServiceError::Refused(e))
        }),
{
}

/// How a subscription ends where no message answers it.
pub proof fn law_missing_answers<V>()
    ensures
        exchange_result(Exchange::<V>::NotSent) == Err::<(), _>(VmServiceError::<V>::SendFailed),
        exchange_result(Exchange::Reply(Incoming::<V>::Failed)) == Err::<(), _>(
            VmServiceError::<V>::ReadFailed,
        ),
        exchange_result(Exchange::Reply(Incoming::<V>::NotResponse)) == Err::<(), _>(
            VmServiceError::<V>::BadReply,
        ),
        exchange_result(Exchange::Reply(Incoming::<V>::Closed)) == Ok::<_, VmServiceError<V>>(()),
        exchange_result(Exchange::Reply(Incoming::<V>::NotText)) == Ok::<_, VmServiceError<V>>(()),
{
}

/// Only the message of a refusal tells the service's own error, and it ends with it.
pub proof fn law_error_messages<V>(refusal: V, detail: Seq<char>)
    ensures
        error_message(VmServiceError::Refused(refusal), detail) == "streamListen failed: "@
            + detail,
        error_message(VmServiceError::<V>::ConnectFailed, detail)
            == "Failed to connect to Dart VM Service"@,
        error_message(VmServiceError::<V>::SendFailed, detail)
            == "Failed to send streamListen request"@,
        error_message(VmServiceError::<V>::ReadFailed, detail) == "WebSocket read error"@,
        error_message(VmServiceError::<V>::BadReply, detail)
            == "Failed to parse streamListen response"@,
{
}

/// A counter goes on to the next number, and from the largest to 0.
pub proof fn law_counter_counts(n: u64, k: nat)
    ensures
        number_after_all(n, k) == (n + k) % 0x1_0000_0000_0000_0000,
        n < u64::MAX ==> number_after(n) == n + 1,
        number_after(u64::MAX) == 0,
{
    lemma_number_after_all(n, k);
}

/// The request is the text of one JSON object: the version, the method, the stream and, last,
/// the id as a string.
pub proof fn law_listen_request_text(n: nat)
    ensures
        listen_request(decimal(n))
            == r#"{"jsonrpc":"2.0","method":"streamListen","params":{"streamId":"Logging"},"id":""#@
            + decimal(n) + "\"}"@,
{
    law_request_number_is_not_escaped(n);
    reveal_strlit(r#"{"jsonrpc":"2.0","method":"streamListen","params":{"streamId":"Logging"},"id":"#);
    reveal_strlit(r#"{"jsonrpc":"2.0","method":"streamListen","params":{"streamId":"Logging"},"id":""#);
    reveal_strlit("\"");
    let quoted = LISTEN_REQUEST@ + "\""@;
    assert(quoted
        =~= r#"{"jsonrpc":"2.0","method":"streamListen","params":{"streamId":"Logging"},"id":""#@);
}

/// A pattern for service addresses is its host's, with dots as such, between the scheme and a
/// port and a token. Patterns of other shapes are not searched for.
pub proof fn law_patterns_name_their_hosts(pattern: Seq<char>)
    ensures
        pattern_host(pattern) is Some <==> pattern == r"ws://127\.0\.0\.1:\d+/[A-Za-z0-9_=-]+/ws"@
            || pattern == r"ws://localhost:\d+/[A-Za-z0-9_=-]+/ws"@,
        pattern == r"ws://127\.0\.0\.1:\d+/[A-Za-z0-9_=-]+/ws"@ ==> pattern_host(pattern) == Some(
            "127.0.0.1"@,
        ),
        pattern == r"ws://localhost:\d+/[A-Za-z0-9_=-]+/ws"@ ==> pattern_host(pattern) == Some(
            "localhost"@,
        ),
{
    reveal_strlit(r"ws://127\.0\.0\.1:\d+/[A-Za-z0-9_=-]+/ws");
    reveal_strlit(r"ws://localhost:\d+/[A-Za-z0-9_=-]+/ws");
    assert(LOOPBACK_PATTERN@[5] == '1');
    assert(LOCALHOST_PATTERN@[5] == 'l');
}

/// An address with a port in digits and a token in letters, digits, `_`, `=` and `-` is one of a
/// service.
pub proof fn law_service_addresses(host: Seq<char>, port: Seq<char>, token: Seq<char>)
    requires
        port.len() > 0,
        forall|i: int| 0 <= i < port.len() ==> '0' <= #[trigger] port[i] <= '9',
        token.len() > 0,
        forall|i: int|
            0 <= i < token.len() ==> ('A' <= #[trigger] token[i] <= 'Z' || 'a' <= token[i] <= 'z'
                || '0' <= token[i] <= '9' || token[i] == '_' || token[i] == '=' || token[i] == '-'),
    ensures
        is_service_uri("ws://"@ + host + ":"@ + port + "/"@ + token + "/ws"@, host),
{
    assert forall|i: int| 0 <= i < port.len() implies is_decimal_digit(
        #[trigger] port[i],
    ) by {
        lemma_digits_of_ascii(port[i]);
    }
    assert(has_parts("ws://"@ + host + ":"@ + port + "/"@ + token + "/ws"@, host, port, token));
}

} // verus!
