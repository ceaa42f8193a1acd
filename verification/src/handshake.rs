//! The handshake controller: from a parsed request to its outcome.
//!
//! A request is routed by method and path. On the WebSocket path the
//! `Upgrade` header is checked, then every header line is examined in order:
//! offered sub-protocols and origins are negotiated against the server's
//! ranked lists, and the client's key yields the accept token. The first
//! line at fault decides the rejection; without a fault and with a key the
//! handshake is accepted.

use vstd::prelude::*;
use vstd::string::StringExecFns;
use crate::accept::{accept_token, compute_accept};
use crate::negotiation::{negotiate, negotiated, options_view, HeaderOption, NegotiationResult};
use crate::text::{eq_ignore_ascii_case, same_name, same_text};

verus! {

/// The only method that can open a handshake.
pub const GET: &'static str = "GET";

/// The path that answers with a hint.
pub const INDEX_PATH: &'static str = "/";

/// The hint given on the index path.
pub const INDEX_BODY: &'static str = "Try to request /websocket";

/// The path on which connections are upgraded.
pub const WEBSOCKET_PATH: &'static str = "/websocket";

/// The value that the `Upgrade` header must have.
pub const WEBSOCKET: &'static str = "websocket";

/// What stands for the value of an `Upgrade` header that is not there.
pub const MISSING_UPGRADE: &'static str = "Missing Upgrade value";

/// The name of the header that asks for the switch of protocols.
pub const UPGRADE_HEADER: &'static str = "upgrade";

/// The name of the header that carries the client's key.
pub const KEY_HEADER: &'static str = "sec-websocket-key";

/// The name of the header that offers sub-protocols.
pub const PROTOCOL_HEADER: &'static str = "sec-websocket-protocol";

/// The name of the header that names the origin.
pub const ORIGIN_HEADER: &'static str = "origin";

/// The name of the response header that carries the accept token.
pub const ACCEPT_HEADER: &'static str = "Sec-WebSocket-Accept";

/// A request as the transport hands it over, already parsed. Header names
/// are compared without regard to the case of ASCII letters; the value of a
/// header that is not text arrives as the empty string.
#[derive(Clone, Debug, PartialEq, Eq)]
pub struct InboundRequest {
    pub method: String,
    pub path: String,
    /// The header lines, name and value, in the order received.
    pub headers: Vec<(String, String)>,
    /// Whether the connection behind the request can switch protocols.
    pub upgradable: bool,
}

/// An `InboundRequest` as plain text.
pub struct RequestView {
    pub method: Seq<char>,
    pub path: Seq<char>,
    pub headers: Seq<(Seq<char>, Seq<char>)>,
    pub upgradable: bool,
}

/// Header lines as pairs of texts.
pub open spec fn headers_view(headers: Seq<(String, String)>) -> Seq<(Seq<char>, Seq<char>)> {
    headers.map_values(|line: (String, String)| (line.0@, line.1@))
}

impl View for InboundRequest {
    type V = RequestView;

    open spec fn view(&self) -> RequestView {
        RequestView {
            method: self.method@,
            path: self.path@,
            headers: headers_view(self.headers@),
            upgradable: self.upgradable,
        }
    }
}

/// The server's ranked lists of acceptable sub-protocols and origins.
#[derive(Clone, Debug, PartialEq, Eq)]
pub struct HandshakeConfig {
    pub protocols: Vec<HeaderOption>,
    pub origins: Vec<HeaderOption>,
}

/// A `HandshakeConfig` as values and priorities.
pub struct ConfigView {
    pub protocols: Seq<(Seq<char>, int)>,
    pub origins: Seq<(Seq<char>, int)>,
}

impl View for HandshakeConfig {
    type V = ConfigView;

    open spec fn view(&self) -> ConfigView {
        ConfigView {
            protocols: options_view(self.protocols@),
            origins: options_view(self.origins@),
        }
    }
}

/// Why a request is turned away.
#[derive(Clone, Copy, Debug, PartialEq, Eq, Structural)]
pub enum HandshakeError {
    /// The method is not `GET`.
    MethodNotAllowed,
    /// The path is not known.
    NotFound,
    /// The `Upgrade` header is absent or does not say `websocket`.
    UpgradeRequired,
    /// None of the offered sub-protocols is acceptable.
    SubProtocolRejected,
    /// The origin is not on the allow-list.
    OriginRejected,
    /// The client's key is absent or empty.
    MissingKey,
}

/// The one outcome of a request on the WebSocket path.
#[derive(Clone, Debug, PartialEq, Eq)]
pub enum HandshakeOutcome {
    /// The connection is upgraded; the headers go out with status 101.
    Accepted { response_headers: Vec<(String, String)> },
    /// The request is answered with `status` and the plain text `reason`.
    Rejected { status: u16, reason: String },
}

/// A `HandshakeOutcome` as plain text.
pub enum OutcomeView {
    Accepted { response_headers: Seq<(Seq<char>, Seq<char>)> },
    Rejected { status: int, reason: Seq<char> },
}

impl View for HandshakeOutcome {
    type V = OutcomeView;

    open spec fn view(&self) -> OutcomeView {
        match self {
            HandshakeOutcome::Accepted { response_headers } => OutcomeView::Accepted {
                response_headers: headers_view(response_headers@),
            },
            HandshakeOutcome::Rejected { status, reason } => OutcomeView::Rejected {
                status: *status as int,
                reason: reason@,
            },
        }
    }
}

/// What the server answers to a request.
#[derive(Clone, Debug, PartialEq, Eq)]
pub enum Reply {
    /// A plain page with this text, outside any handshake.
    Informational { body: String },
    /// The outcome of the handshake, or of the routing before it.
    Outcome(HandshakeOutcome),
}

/// A `Reply` as plain text.
pub enum ReplyView {
    Informational { body: Seq<char> },
    Outcome(OutcomeView),
}

impl View for Reply {
    type V = ReplyView;

    open spec fn view(&self) -> ReplyView {
        match self {
            Reply::Informational { body } => ReplyView::Informational { body: body@ },
            Reply::Outcome(outcome) => ReplyView::Outcome(outcome@),
        }
    }
}

/// What a header line without fault brings to the handshake.
#[derive(Clone, Debug, PartialEq, Eq)]
pub enum Finding {
    /// The sub-protocol selected from an offer.
    Protocol(String),
    /// The origin, which is allowed.
    Origin(String),
    /// The accept token for the client's key.
    AcceptToken(String),
    /// Nothing: the line is of no concern to the handshake.
    Plain,
}

/// A `Finding` as plain text.
pub enum FindingView {
    Protocol(Seq<char>),
    Origin(Seq<char>),
    AcceptToken(Seq<char>),
    Plain,
}

impl View for Finding {
    type V = FindingView;

    open spec fn view(&self) -> FindingView {
        match self {
            Finding::Protocol(name) => FindingView::Protocol(name@),
            Finding::Origin(origin) => FindingView::Origin(origin@),
            Finding::AcceptToken(token) => FindingView::AcceptToken(token@),
            Finding::Plain => FindingView::Plain,
        }
    }
}

impl HandshakeError {
    /// The HTTP status that reports this error.
    pub open spec fn status_code(self) -> int {
        match self {
            HandshakeError::MethodNotAllowed => 405,
            HandshakeError::NotFound => 404,
            HandshakeError::UpgradeRequired => 406,
            HandshakeError::SubProtocolRejected => 400,
            HandshakeError::OriginRejected => 403,
            HandshakeError::MissingKey => 400,
        }
    }

    /// The text that reports this error.
    pub open spec fn reason_text(self) -> Seq<char> {
        match self {
            HandshakeError::MethodNotAllowed => "Method Not Allowed"@,
            HandshakeError::NotFound => "Not Found"@,
            HandshakeError::UpgradeRequired => "Unacceptable Upgrade value"@,
            HandshakeError::SubProtocolRejected => "No acceptable sub-protocol"@,
            HandshakeError::OriginRejected => "Origin not allowed"@,
            HandshakeError::MissingKey => "Missing Sec-WebSocket-Key"@,
        }
    }

    /// The rejection that reports this error.
    pub open spec fn rejected(self) -> OutcomeView {
        OutcomeView::Rejected { status: self.status_code(), reason: self.reason_text() }
    }

    /// The HTTP status that reports this error.
    pub fn status(&self) -> (code: u16)
        ensures
            code == self.status_code(),
    {
        match self {
            HandshakeError::MethodNotAllowed => 405,
            HandshakeError::NotFound => 404,
            HandshakeError::UpgradeRequired => 406,
            HandshakeError::SubProtocolRejected => 400,
            HandshakeError::OriginRejected => 403,
            HandshakeError::MissingKey => 400,
        }
    }

    /// The text that reports this error.
    pub fn reason(&self) -> (text: String)
        ensures
            text@ == self.reason_text(),
    {
        match self {
            HandshakeError::MethodNotAllowed => "Method Not Allowed".to_owned(),
            HandshakeError::NotFound => "Not Found".to_owned(),
            HandshakeError::UpgradeRequired => "Unacceptable Upgrade value".to_owned(),
            HandshakeError::SubProtocolRejected => "No acceptable sub-protocol".to_owned(),
            HandshakeError::OriginRejected => "Origin not allowed".to_owned(),
            HandshakeError::MissingKey => "Missing Sec-WebSocket-Key".to_owned(),
        }
    }

    /// The rejection that reports this error.
    pub fn rejection(&self) -> (outcome: HandshakeOutcome)
        ensures
            outcome@ == self.rejected(),
    {
        HandshakeOutcome::Rejected { status: self.status(), reason: self.reason() }
    }
}

/// Each kind of error has a rejection of its own: from status and reason the
/// kind can be told.
pub proof fn rejection_tells_error(a: HandshakeError, b: HandshakeError)
    requires
        a.rejected() == b.rejected(),
    ensures
        a == b,
{
    reveal_strlit("No acceptable sub-protocol");
    reveal_strlit("Missing Sec-WebSocket-Key");
    assert(a.status_code() == b.status_code());
    assert(a.reason_text().len() == b.reason_text().len());
}

/// The value of the first header line named `name`, if there is one.
pub open spec fn first_value(headers: Seq<(Seq<char>, Seq<char>)>, name: Seq<char>) -> Option<
    Seq<char>,
>
    decreases headers.len(),
{
    if headers.len() == 0 {
        None
    } else if same_name(headers[0].0, name) {
        Some(headers[0].1)
    } else {
        first_value(headers.drop_first(), name)
    }
}

/// The value of the `Upgrade` header, or what stands for a missing one.
pub open spec fn upgrade_value(headers: Seq<(Seq<char>, Seq<char>)>) -> Seq<char> {
    match first_value(headers, UPGRADE_HEADER@) {
        Some(value) => value,
        None => MISSING_UPGRADE@,
    }
}

/// What examining one header line gives. An offer of sub-protocols and an
/// origin are negotiated, and are at fault where nothing is acceptable; a
/// key is at fault where it is empty, and else yields its accept token; any
/// other line is plain.
pub open spec fn finding(name: Seq<char>, value: Seq<char>, config: ConfigView) -> Result<
    FindingView,
    HandshakeError,
> {
    if same_name(name, PROTOCOL_HEADER@) {
        match negotiated(value, config.protocols) {
            Some(selected) => Ok(FindingView::Protocol(selected)),
            None => Err(HandshakeError::SubProtocolRejected),
        }
    } else if same_name(name, ORIGIN_HEADER@) {
        match negotiated(value, config.origins) {
            Some(selected) => Ok(FindingView::Origin(selected)),
            None => Err(HandshakeError::OriginRejected),
        }
    } else if same_name(name, KEY_HEADER@) {
        if value.len() == 0 {
            Err(HandshakeError::MissingKey)
        } else {
            Ok(FindingView::AcceptToken(accept_token(value)))
        }
    } else {
        Ok(FindingView::Plain)
    }
}

/// The fault of one header line, if it has one.
pub open spec fn line_fault(name: Seq<char>, value: Seq<char>, config: ConfigView) -> Option<
    HandshakeError,
> {
    match finding(name, value, config) {
        Ok(_) => None,
        Err(error) => Some(error),
    }
}

/// The fault of the first header line that has one.
pub open spec fn first_fault(headers: Seq<(Seq<char>, Seq<char>)>, config: ConfigView) -> Option<
    HandshakeError,
>
    decreases headers.len(),
{
    if headers.len() == 0 {
        None
    } else {
        match line_fault(headers[0].0, headers[0].1, config) {
            Some(error) => Some(error),
            None => first_fault(headers.drop_first(), config),
        }
    }
}

/// The sub-protocol that the first header line offering any has selected.
pub open spec fn selected_protocol(
    headers: Seq<(Seq<char>, Seq<char>)>,
    config: ConfigView,
) -> Option<Seq<char>> {
    match first_value(headers, PROTOCOL_HEADER@) {
        Some(offer) => negotiated(offer, config.protocols),
        None => None,
    }
}

/// The response headers of an accepted handshake.
pub open spec fn accepted_headers(token: Seq<char>, protocol: Option<Seq<char>>) -> Seq<
    (Seq<char>, Seq<char>),
> {
    let fixed = seq![
        ("Upgrade"@, "websocket"@),
        ("Connection"@, "Upgrade"@),
        (ACCEPT_HEADER@, token),
    ];
    match protocol {
        Some(name) => fixed.push(("Sec-WebSocket-Protocol"@, name)),
        None => fixed,
    }
}

/// The outcome of a `GET` on the WebSocket path with these header lines.
pub open spec fn upgrade_outcome(
    headers: Seq<(Seq<char>, Seq<char>)>,
    config: ConfigView,
) -> OutcomeView {
    if upgrade_value(headers) != WEBSOCKET@ {
        HandshakeError::UpgradeRequired.rejected()
    } else {
        match first_fault(headers, config) {
            Some(error) => error.rejected(),
            None => match first_value(headers, KEY_HEADER@) {
                Some(key) => OutcomeView::Accepted {
                    response_headers: accepted_headers(
                        accept_token(key),
                        selected_protocol(headers, config),
                    ),
                },
                None => HandshakeError::MissingKey.rejected(),
            },
        }
    }
}

/// How one header line without fault is echoed: a negotiated line with
/// what was selected, a key as the accept header with its token, any other
/// line unchanged.
pub open spec fn echoed_line(name: Seq<char>, value: Seq<char>, config: ConfigView) -> Seq<char> {
    match finding(name, value, config) {
        Ok(FindingView::Protocol(selected)) => name + ": "@ + selected,
        Ok(FindingView::Origin(selected)) => name + ": "@ + selected,
        Ok(FindingView::AcceptToken(token)) => ACCEPT_HEADER@ + ": "@ + token,
        Ok(FindingView::Plain) => name + ": "@ + value,
        Err(_) => Seq::empty(),
    }
}

/// The echo of header lines: each line echoed, with a line feed between
/// neighbours.
pub open spec fn echoed(headers: Seq<(Seq<char>, Seq<char>)>, config: ConfigView) -> Seq<char>
    decreases headers.len(),
{
    if headers.len() == 0 {
        Seq::empty()
    } else if headers.len() == 1 {
        echoed_line(headers[0].0, headers[0].1, config)
    } else {
        echoed(headers.drop_last(), config) + "\n"@ + echoed_line(
            headers.last().0,
            headers.last().1,
            config,
        )
    }
}

/// The answer to a request.
pub open spec fn routed(request: RequestView, config: ConfigView) -> ReplyView {
    if request.method != GET@ {
        ReplyView::Outcome(HandshakeError::MethodNotAllowed.rejected())
    } else if request.path == INDEX_PATH@ {
        ReplyView::Informational { body: INDEX_BODY@ }
    } else if request.path == WEBSOCKET_PATH@ {
        ReplyView::Outcome(upgrade_outcome(request.headers, config))
    } else {
        ReplyView::Outcome(HandshakeError::NotFound.rejected())
    }
}

/// Looks up the value of the first header line named `name`, without regard
/// to the case of ASCII letters.
pub fn header_value<'a>(headers: &'a Vec<(String, String)>, name: &str) -> (found: Option<
    &'a str,
>)
    ensures
        match found {
            Some(value) => Some(value@),
            None => None,
        } == first_value(headers_view(headers@), name@),
{
    let ghost lines = headers_view(headers@);
    let mut i: usize = 0;
    assert(lines.skip(0) == lines);
    while i < headers.len()
        invariant
            lines == headers_view(headers@),
            i <= headers@.len(),
            first_value(lines, name@) == first_value(lines.skip(i as int), name@),
        decreases headers@.len() - i,
    {
        assert(lines.skip(i as int)[0] == (headers@[i as int].0@, headers@[i as int].1@));
        if eq_ignore_ascii_case(headers[i].0.as_str(), name) {
            return Some(headers[i].1.as_str());
        }
        assert(lines.skip(i as int).drop_first() == lines.skip(i + 1));
        i = i + 1;
    }
    None
}

/// The outcome of a handshake that is accepted with the accept token `token`
/// and, where one was selected, the sub-protocol `protocol`.
pub fn accepted(token: String, protocol: Option<String>) -> (outcome: HandshakeOutcome)
    ensures
        outcome@ == (OutcomeView::Accepted {
            response_headers: accepted_headers(
                token@,
                match protocol {
                    Some(name) => Some(name@),
                    None => None,
                },
            ),
        }),
{
    let mut response_headers: Vec<(String, String)> = Vec::new();
    response_headers.push(("Upgrade".to_owned(), "websocket".to_owned()));
    response_headers.push(("Connection".to_owned(), "Upgrade".to_owned()));
    response_headers.push((ACCEPT_HEADER.to_owned(), token));
    match protocol {
        Some(name) => {
            response_headers.push(("Sec-WebSocket-Protocol".to_owned(), name));
            assert(headers_view(response_headers@) =~= accepted_headers(token@, Some(name@)));
        },
        None => {
            assert(headers_view(response_headers@) =~= accepted_headers(token@, None));
        },
    }
    HandshakeOutcome::Accepted { response_headers }
}

/// What stands for a missing `Upgrade` value does not itself say `websocket`.
proof fn missing_upgrade_is_not_websocket()
    ensures
        MISSING_UPGRADE@ != WEBSOCKET@,
{
    reveal_strlit("websocket");
    reveal_strlit("Missing Upgrade value");
    assert(MISSING_UPGRADE@.len() == 21);
    assert(WEBSOCKET@.len() == 9);
}

/// The three header names that the handshake acts on are told apart by
/// their lengths.
proof fn header_names_differ(name: Seq<char>)
    ensures
        !(same_name(name, PROTOCOL_HEADER@) && same_name(name, ORIGIN_HEADER@)),
        !(same_name(name, PROTOCOL_HEADER@) && same_name(name, KEY_HEADER@)),
        !(same_name(name, ORIGIN_HEADER@) && same_name(name, KEY_HEADER@)),
{
    reveal_strlit("sec-websocket-protocol");
    reveal_strlit("origin");
    reveal_strlit("sec-websocket-key");
}

/// Examines one header line: negotiates an offer of sub-protocols or an
/// origin, derives the accept token from a key, and passes any other line.
pub fn examine_line(name: &str, value: &str, config: &HandshakeConfig) -> (result: Result<
    Finding,
    HandshakeError,
>)
    ensures
        match result {
            Ok(found) => finding(name@, value@, config@) == Ok::<FindingView, HandshakeError>(
                found@,
            ),
            Err(error) => finding(name@, value@, config@) == Err::<FindingView, HandshakeError>(
                error,
            ),
        },
{
    if eq_ignore_ascii_case(name, PROTOCOL_HEADER) {
        match negotiate(value, &config.protocols) {
            NegotiationResult::Selected(selected) => Ok(Finding::Protocol(selected)),
            NegotiationResult::NoMatch => Err(HandshakeError::SubProtocolRejected),
        }
    } else if eq_ignore_ascii_case(name, ORIGIN_HEADER) {
        match negotiate(value, &config.origins) {
            NegotiationResult::Selected(selected) => Ok(Finding::Origin(selected)),
            NegotiationResult::NoMatch => Err(HandshakeError::OriginRejected),
        }
    } else if eq_ignore_ascii_case(name, KEY_HEADER) {
        if value.is_empty() {
            Err(HandshakeError::MissingKey)
        } else {
            Ok(Finding::AcceptToken(compute_accept(value)))
        }
    } else {
        Ok(Finding::Plain)
    }
}

/// Decides a `GET` on the WebSocket path from its header lines.
///
/// Without an `Upgrade` header that says `websocket` the request is
/// rejected. Otherwise the first header line at fault rejects it: an offer
/// of sub-protocols or an origin of which none is acceptable, or an empty
/// key. Without a fault the request is accepted if it has a key, with the
/// accept token of the first key and the sub-protocol selected from the
/// first offer.
pub fn handshake(headers: &Vec<(String, String)>, config: &HandshakeConfig) -> (outcome:
    HandshakeOutcome)
    ensures
        outcome@ == upgrade_outcome(headers_view(headers@), config@),
{
    let ghost lines = headers_view(headers@);
    let upgrade = match header_value(headers, UPGRADE_HEADER) {
        Some(value) => value,
        None => MISSING_UPGRADE,
    };
    if !same_text(upgrade, WEBSOCKET) {
        return HandshakeError::UpgradeRequired.rejection();
    }
    let mut token: Option<String> = None;
    let mut protocol: Option<String> = None;
    let mut i: usize = 0;
    assert(lines.skip(0) == lines);
    while i < headers.len()
        invariant
            lines == headers_view(headers@),
            i <= headers@.len(),
            upgrade_value(lines) == WEBSOCKET@,
            first_fault(lines, config@) == first_fault(lines.skip(i as int), config@),
            match token {
                Some(text) => first_value(lines, KEY_HEADER@) matches Some(key) && text@
                    == accept_token(key),
                None => first_value(lines, KEY_HEADER@) == first_value(
                    lines.skip(i as int),
                    KEY_HEADER@,
                ),
            },
            match protocol {
                Some(name) => selected_protocol(lines, config@) == Some(name@),
                None => first_value(lines, PROTOCOL_HEADER@) == first_value(
                    lines.skip(i as int),
                    PROTOCOL_HEADER@,
                ),
            },
        decreases headers@.len() - i,
    {
        let name = headers[i].0.as_str();
        let value = headers[i].1.as_str();
        proof {
            assert(lines.skip(i as int)[0] == (name@, value@));
            assert(lines.skip(i as int).drop_first() == lines.skip(i + 1));
            header_names_differ(name@);
        }
        match examine_line(name, value, config) {
            Ok(Finding::Protocol(selected)) => {
                if protocol.is_none() {
                    protocol = Some(selected);
                }
            },
            Ok(Finding::AcceptToken(text)) => {
                if token.is_none() {
                    token = Some(text);
                }
            },
            Ok(_) => {},
            Err(error) => {
                return error.rejection();
            },
        }
        i = i + 1;
    }
    match token {
        Some(text) => accepted(text, protocol),
        None => HandshakeError::MissingKey.rejection(),
    }
}

/// The line by which a header line is echoed.
fn echo_line(name: &str, value: &str, found: &Finding) -> (line: String)
    ensures
        line@ == match found@ {
            FindingView::Protocol(selected) => name@ + ": "@ + selected,
            FindingView::Origin(selected) => name@ + ": "@ + selected,
            FindingView::AcceptToken(token) => ACCEPT_HEADER@ + ": "@ + token,
            FindingView::Plain => name@ + ": "@ + value@,
        },
{
    let (shown_name, shown_value) = match found {
        Finding::Protocol(selected) => (name, selected.as_str()),
        Finding::Origin(selected) => (name, selected.as_str()),
        Finding::AcceptToken(token) => (ACCEPT_HEADER, token.as_str()),
        Finding::Plain => (name, value),
    };
    let mut line = shown_name.to_owned();
    line.append(": ");
    line.append(shown_value);
    line
}

/// Echoes the header lines for inspection, one line of text for each: a
/// negotiated line shows what was selected, a key shows as the accept header
/// with its token, any other line is passed through unchanged. The first
/// header line at fault is reported in place of an echo.
pub fn echo(headers: &Vec<(String, String)>, config: &HandshakeConfig) -> (result: Result<
    String,
    HandshakeError,
>)
    ensures
        match result {
            Ok(text) => first_fault(headers_view(headers@), config@) is None && text@ == echoed(
                headers_view(headers@),
                config@,
            ),
            Err(error) => first_fault(headers_view(headers@), config@) == Some(error),
        },
{
    let ghost lines = headers_view(headers@);
    let mut text = String::new();
    let mut i: usize = 0;
    assert(lines.skip(0) == lines);
    while i < headers.len()
        invariant
            lines == headers_view(headers@),
            i <= headers@.len(),
            first_fault(lines, config@) == first_fault(lines.skip(i as int), config@),
            text@ == echoed(lines.take(i as int), config@),
        decreases headers@.len() - i,
    {
        let name = headers[i].0.as_str();
        let value = headers[i].1.as_str();
        proof {
            assert(lines.skip(i as int)[0] == (name@, value@));
            assert(lines.skip(i as int).drop_first() == lines.skip(i + 1));
            assert(lines.take(i + 1).drop_last() == lines.take(i as int));
            assert(lines.take(i + 1).last() == (name@, value@));
        }
        match examine_line(name, value, config) {
            Ok(found) => {
                let line = echo_line(name, value, &found);
                if i > 0 {
                    text.append("\n");
                }
                text.append(line.as_str());
            },
            Err(error) => {
                return Err(error);
            },
        }
        i = i + 1;
    }
    assert(lines.take(i as int) == lines);
    Ok(text)
}

/// Answers a request: anything but `GET` is not allowed; the index path
/// gets a hint, the WebSocket path a handshake, any other path is not found.
pub fn routing(request: &InboundRequest, config: &HandshakeConfig) -> (reply: Reply)
    ensures
        reply@ == routed(request@, config@),
{
    if !same_text(request.method.as_str(), GET) {
        Reply::Outcome(HandshakeError::MethodNotAllowed.rejection())
    } else if same_text(request.path.as_str(), INDEX_PATH) {
        Reply::Informational { body: INDEX_BODY.to_owned() }
    } else if same_text(request.path.as_str(), WEBSOCKET_PATH) {
        Reply::Outcome(handshake(&request.headers, config))
    } else {
        Reply::Outcome(HandshakeError::NotFound.rejection())
    }
}

/// Tells whether the transport is to hand the connection on as a WebSocket
/// after sending `reply`: the handshake was accepted and the connection can
/// switch protocols.
pub fn switches_protocols(request: &InboundRequest, reply: &Reply) -> (switch: bool)
    ensures
        switch == (request.upgradable && reply@ is Outcome && reply@->Outcome_0 is Accepted),
{
    match reply {
        Reply::Outcome(HandshakeOutcome::Accepted { .. }) => request.upgradable,
        _ => false,
    }
}

/// Whatever its path and headers, a request whose method is not `GET` is
/// rejected with status 405.
pub proof fn method_gate(request: RequestView, config: ConfigView)
    requires
        request.method != GET@,
    ensures
        routed(request, config) == ReplyView::Outcome(
            OutcomeView::Rejected { status: 405, reason: "Method Not Allowed"@ },
        ),
{
}

/// A `GET` on the WebSocket path whose `Upgrade` header is absent, or does
/// not say exactly `websocket`, is rejected with status 406, whatever its
/// other headers.
pub proof fn upgrade_gate(request: RequestView, config: ConfigView)
    requires
        request.method == GET@,
        request.path == WEBSOCKET_PATH@,
        first_value(request.headers, UPGRADE_HEADER@) != Some(WEBSOCKET@),
    ensures
        routed(request, config) == ReplyView::Outcome(
            OutcomeView::Rejected { status: 406, reason: "Unacceptable Upgrade value"@ },
        ),
{
    assert(INDEX_PATH@ != WEBSOCKET_PATH@) by {
        reveal_strlit("/");
        reveal_strlit("/websocket");
        assert(INDEX_PATH@.len() == 1);
        assert(WEBSOCKET_PATH@.len() == 10);
    }
    missing_upgrade_is_not_websocket();
}

/// A handshake is accepted only on a `GET` of the WebSocket path whose
/// `Upgrade` header says exactly `websocket` and whose key is present and
/// not empty; the response then carries the accept token of that key.
pub proof fn accepted_only_with_upgrade_and_key(request: RequestView, config: ConfigView)
    requires
        routed(request, config) is Outcome,
        routed(request, config)->Outcome_0 is Accepted,
    ensures
        request.method == GET@,
        request.path == WEBSOCKET_PATH@,
        first_value(request.headers, UPGRADE_HEADER@) == Some(WEBSOCKET@),
        first_value(request.headers, KEY_HEADER@) matches Some(key) && key.len() > 0
            && routed(request, config)->Outcome_0->response_headers[2] == (
            ACCEPT_HEADER@,
            accept_token(key),
        ),
{
    missing_upgrade_is_not_websocket();
    first_key_is_not_empty(request.headers, config);
}

/// Where no header line is at fault, the first key is not empty.
proof fn first_key_is_not_empty(headers: Seq<(Seq<char>, Seq<char>)>, config: ConfigView)
    requires
        first_fault(headers, config) is None,
        first_value(headers, KEY_HEADER@) is Some,
    ensures
        first_value(headers, KEY_HEADER@)->Some_0.len() > 0,
    decreases headers.len(),
{
    if headers.len() > 0 {
        if same_name(headers[0].0, KEY_HEADER@) {
            header_names_differ(headers[0].0);
        } else {
            first_key_is_not_empty(headers.drop_first(), config);
        }
    }
}

} // verus!
