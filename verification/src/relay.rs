//! Sending input and structure actions to a remote origin.
//!
//! A request goes to the origin's JSON API socket. How it travels is up to the
//! caller, who hands in a function that makes one call and gives back the
//! remote's answer, or a failure in words.
use vstd::prelude::*;

use crate::api::{
    ApiCall, CallView, Method, MethodView, PaneSendInputParams, PaneSendInputView, Request,
    RequestView,
};
use crate::origin::{origin_views, Origin, OriginKey, OriginView};

verus! {

/// Failure sending to a foreign pane.
#[derive(Debug)]
pub enum RelayError {
    /// The request failed, in words.
    Api(String),
    /// The request could not be written down, in words.
    Serialize(String),
}

/// A failure, as text.
pub enum RelayErrorView {
    Api(Seq<char>),
    Serialize(Seq<char>),
}

impl View for RelayError {
    type V = RelayErrorView;

    open spec fn view(&self) -> RelayErrorView {
        match self {
            RelayError::Api(error) => RelayErrorView::Api(error@),
            RelayError::Serialize(error) => RelayErrorView::Serialize(error@),
        }
    }
}

/// A failure in words.
pub open spec fn relay_error_text(error: RelayErrorView) -> Seq<char> {
    match error {
        RelayErrorView::Api(message) => "relay request failed: "@ + message,
        RelayErrorView::Serialize(message) => "relay serialize failed: "@ + message,
    }
}

impl RelayError {
    /// The failure in words.
    pub fn to_string(&self) -> (r: String)
        ensures
            r@ == relay_error_text(self@),
    {
        match self {
            RelayError::Api(error) => {
                let mut r = "relay request failed: ".to_owned();
                r.append(error.as_str());
                r
            },
            RelayError::Serialize(error) => {
                let mut r = "relay serialize failed: ".to_owned();
                r.append(error.as_str());
                r
            },
        }
    }
}

// ---------------------------------------------------------------------------
// Input

/// The text that bytes stand for, where what is no UTF-8 is replaced.
pub uninterp spec fn utf8_lossy(bytes: Seq<u8>) -> Seq<char>;

/// `String::from_utf8_lossy`: the text that bytes stand for. The result is named;
/// of bytes that are valid UTF-8 it is the text that they encode.
#[verifier::external_body]
fn decode_lossy(bytes: &[u8]) -> (r: String)
    ensures
        r@ == utf8_lossy(bytes@),
        vstd::utf8::valid_utf8(bytes@) ==> r@ == vstd::utf8::decode_utf8(bytes@),
{
    String::from_utf8_lossy(bytes).into_owned()
}

/// The text to type for optional bytes.
pub open spec fn input_text(bytes: Option<Seq<u8>>) -> Seq<char> {
    match bytes {
        Some(bytes) => utf8_lossy(bytes),
        None => Seq::empty(),
    }
}

/// The call that types a text into a pane of an origin.
pub open spec fn input_call(origin: OriginView, pane_id: Seq<char>, text: Seq<char>) -> CallView {
    CallView {
        socket: origin.socket,
        request: RequestView {
            id: "federation:relay:"@ + origin.key + ":"@ + pane_id,
            method: MethodView::PaneSendInput(
                PaneSendInputView { pane_id, text, keys: Seq::empty() },
            ),
        },
    }
}

/// The call that types a text into a pane of an origin. `pane_id` is the raw id
/// that the pane has on its own server.
pub fn input_request(origin: &Origin, pane_id: &str, text: String) -> (r: ApiCall)
    ensures
        r@ == input_call(origin@, pane_id@, text@),
{
    let mut id = "federation:relay:".to_owned();
    id.append(origin.key.as_str());
    id.append(":");
    id.append(pane_id);
    let params = PaneSendInputParams { pane_id: pane_id.to_owned(), text, keys: Vec::new() };
    ApiCall {
        socket: origin.target.socket_path().clone(),
        request: Request { id, method: Method::PaneSendInput(params) },
    }
}

/// Bytes that may be missing.
pub open spec fn bytes_or_none(bytes: Option<&[u8]>) -> Option<Seq<u8>> {
    match bytes {
        Some(bytes) => Some(bytes@),
        None => None,
    }
}

/// Whether an outcome is that of an answer: success for any answer, and the
/// failure of the call where there is none.
pub open spec fn relays(
    r: Result<(), RelayError>,
    reply: Result<serde_json::Value, String>,
) -> bool {
    match reply {
        Ok(_) => r is Ok,
        Err(message) => r matches Err(error) && error@ == RelayErrorView::Api(message@),
    }
}

/// The outcome of an answer.
pub fn relay_outcome(reply: Result<serde_json::Value, String>) -> (r: Result<(), RelayError>)
    ensures
        relays(r, reply),
{
    match reply {
        Ok(_) => Ok(()),
        Err(error) => Err(RelayError::Api(error)),
    }
}

/// Sends input to a foreign pane of a remote origin.
///
/// `pane_id` is the raw pane id on the remote.
pub fn send_input_to_foreign_pane<F>(
    origin: &Origin,
    pane_id: &str,
    text: Option<&[u8]>,
    send: F,
) -> (r: Result<(), RelayError>) where
    F: FnOnce(ApiCall) -> Result<serde_json::Value, String>,

    requires
        forall|call: ApiCall| #[trigger] send.requires((call,)),
    ensures
        exists|call: ApiCall, reply: Result<serde_json::Value, String>| #[trigger]
            send.ensures((call,), reply) && call@ == input_call(
                origin@,
                pane_id@,
                input_text(bytes_or_none(text)),
            ) && relays(r, reply) && (text matches Some(bytes) ==> vstd::utf8::valid_utf8(bytes@)
                ==> (call@.request.method matches MethodView::PaneSendInput(params) && params.text
                == vstd::utf8::decode_utf8(bytes@))),
{
    let typed = match text {
        Some(bytes) => decode_lossy(bytes),
        None => String::new(),
    };
    let call = input_request(origin, pane_id, typed);
    relay_outcome(send(call))
}

// ---------------------------------------------------------------------------
// Actions

/// The call that has an origin carry out an action.
pub open spec fn action_call(origin: OriginView, method: MethodView) -> CallView {
    CallView {
        socket: origin.socket,
        request: RequestView { id: "federation:action:"@ + origin.key, method },
    }
}

/// The call that has an origin carry out an action and is read for its answer.
pub open spec fn answered_call(origin: OriginView, method: MethodView) -> CallView {
    CallView {
        socket: origin.socket,
        request: RequestView { id: "federation:action-resp:"@ + origin.key, method },
    }
}

/// The call that has an origin carry out an action.
pub fn action_request(origin: &Origin, method: &Method) -> (r: ApiCall)
    ensures
        r@ == action_call(origin@, method@),
{
    let mut id = "federation:action:".to_owned();
    id.append(origin.key.as_str());
    ApiCall {
        socket: origin.target.socket_path().clone(),
        request: Request { id, method: method.clone() },
    }
}

/// The call that has an origin carry out an action and is read for its answer.
pub fn answered_request(origin: &Origin, method: &Method) -> (r: ApiCall)
    ensures
        r@ == answered_call(origin@, method@),
{
    let mut id = "federation:action-resp:".to_owned();
    id.append(origin.key.as_str());
    ApiCall {
        socket: origin.target.socket_path().clone(),
        request: Request { id, method: method.clone() },
    }
}

/// Sends a workspace, tab or pane structure mutation to a remote origin.
pub fn send_action_to_foreign<F>(origin: &Origin, method: &Method, send: F) -> (r: Result<
    (),
    RelayError,
>) where F: FnOnce(ApiCall) -> Result<serde_json::Value, String>,
    requires
        forall|call: ApiCall| #[trigger] send.requires((call,)),
    ensures
        exists|call: ApiCall, reply: Result<serde_json::Value, String>| #[trigger]
            send.ensures((call,), reply) && call@ == action_call(origin@, method@) && relays(
                r,
                reply,
            ),
{
    let call = action_request(origin, method);
    relay_outcome(send(call))
}

/// Whether an outcome carries an answer, or the failure of the call.
pub open spec fn answers(
    r: Result<serde_json::Value, RelayError>,
    reply: Result<serde_json::Value, String>,
) -> bool {
    match reply {
        Ok(value) => r == Ok::<serde_json::Value, RelayError>(value),
        Err(message) => r matches Err(error) && error@ == RelayErrorView::Api(message@),
    }
}

/// Sends a structure action to a remote origin and returns its answer.
pub fn call_action_on_foreign_with_response<F>(origin: &Origin, method: &Method, send: F) -> (r:
    Result<serde_json::Value, RelayError>) where
    F: FnOnce(ApiCall) -> Result<serde_json::Value, String>,

    requires
        forall|call: ApiCall| #[trigger] send.requires((call,)),
    ensures
        exists|call: ApiCall, reply: Result<serde_json::Value, String>| #[trigger]
            send.ensures((call,), reply) && call@ == answered_call(origin@, method@) && answers(
                r,
                reply,
            ),
{
    let call = answered_request(origin, method);
    match send(call) {
        Ok(value) => Ok(value),
        Err(error) => Err(RelayError::Api(error)),
    }
}

// ---------------------------------------------------------------------------
// Fire and forget

/// The first of a row of origins that has a key.
pub open spec fn origin_with(row: Seq<OriginView>, key: Seq<char>) -> Option<OriginView>
    decreases row.len(),
{
    if row.len() == 0 {
        None
    } else if row[0].key == key {
        Some(row[0])
    } else {
        origin_with(row.drop_first(), key)
    }
}

/// Finds the origin with a key.
pub fn find_origin<'a>(origins: &'a Vec<Origin>, key: &OriginKey) -> (r: Option<&'a Origin>)
    ensures
        match origin_with(origin_views(origins@), key@) {
            Some(origin) => r matches Some(found) && found@ == origin,
            None => r is None,
        },
{
    let ghost row = origin_views(origins@);
    let mut i: usize = 0;
    assert(row.skip(0) == row);
    while i < origins.len()
        invariant
            i <= origins@.len(),
            row == origin_views(origins@),
            origin_with(row, key@) == origin_with(row.skip(i as int), key@),
        decreases origins@.len() - i,
    {
        let ghost rest = row.skip(i as int);
        assert(rest[0] == origins@[i as int]@);
        if origins[i].key == *key {
            return Some(&origins[i]);
        }
        assert(rest.drop_first() == row.skip(i + 1));
        i = i + 1;
    }
    None
}

/// What became of an action that was routed to an origin.
#[derive(Debug)]
pub enum RouteReport {
    /// The origins could not be discovered, in words.
    DiscoveryFailed(String),
    /// No discovered origin has the key.
    OriginNotFound,
    /// The origin took the action.
    Routed,
    /// The origin was not reached or turned the action down.
    Failed(RelayError),
    /// The task that made the call panicked, in words.
    Panicked(String),
}

/// What became of an action, as text.
pub enum RouteReportView {
    DiscoveryFailed(Seq<char>),
    OriginNotFound,
    Routed,
    Failed(RelayErrorView),
    Panicked(Seq<char>),
}

impl View for RouteReport {
    type V = RouteReportView;

    open spec fn view(&self) -> RouteReportView {
        match self {
            RouteReport::DiscoveryFailed(error) => RouteReportView::DiscoveryFailed(error@),
            RouteReport::OriginNotFound => RouteReportView::OriginNotFound,
            RouteReport::Routed => RouteReportView::Routed,
            RouteReport::Failed(error) => RouteReportView::Failed(error@),
            RouteReport::Panicked(error) => RouteReportView::Panicked(error@),
        }
    }
}

/// What to do with an action once the origins are known.
#[derive(Debug)]
pub enum RouteStep {
    /// Make this call.
    Call(ApiCall),
    /// Nothing more: it is over.
    Done(RouteReport),
}

/// What to do with an action, as text.
pub enum RouteStepView {
    Call(CallView),
    Done(RouteReportView),
}

impl View for RouteStep {
    type V = RouteStepView;

    open spec fn view(&self) -> RouteStepView {
        match self {
            RouteStep::Call(call) => RouteStepView::Call(call@),
            RouteStep::Done(report) => RouteStepView::Done(report@),
        }
    }
}

/// What came of discovering the origins.
pub open spec fn discovered_views(discovered: Result<Vec<Origin>, String>) -> Result<
    Seq<OriginView>,
    Seq<char>,
> {
    match discovered {
        Ok(origins) => Ok(origin_views(origins@)),
        Err(error) => Err(error@),
    }
}

/// Where an action goes: to the first discovered origin with the key.
pub open spec fn route_of(
    key: Seq<char>,
    method: MethodView,
    discovered: Result<Seq<OriginView>, Seq<char>>,
) -> RouteStepView {
    match discovered {
        Err(error) => RouteStepView::Done(RouteReportView::DiscoveryFailed(error)),
        Ok(origins) => match origin_with(origins, key) {
            None => RouteStepView::Done(RouteReportView::OriginNotFound),
            Some(origin) => RouteStepView::Call(action_call(origin, method)),
        },
    }
}

/// Decides where an action for the origin with a key goes, once the origins are
/// discovered.
pub fn route_action(
    origin_key: &OriginKey,
    method: &Method,
    discovered: Result<Vec<Origin>, String>,
) -> (r: RouteStep)
    ensures
        r@ == route_of(origin_key@, method@, discovered_views(discovered)),
{
    match discovered {
        Err(error) => RouteStep::Done(RouteReport::DiscoveryFailed(error)),
        Ok(origins) => match find_origin(&origins, origin_key) {
            None => RouteStep::Done(RouteReport::OriginNotFound),
            Some(origin) => RouteStep::Call(action_request(origin, method)),
        },
    }
}

/// What became of the call: the answer or its failure, unless the task that
/// made it panicked.
pub open spec fn report_of(
    finished: Result<Result<serde_json::Value, String>, String>,
) -> RouteReportView {
    match finished {
        Ok(Ok(_)) => RouteReportView::Routed,
        Ok(Err(error)) => RouteReportView::Failed(RelayErrorView::Api(error@)),
        Err(error) => RouteReportView::Panicked(error@),
    }
}

/// Judges what became of the call.
pub fn route_report(finished: Result<Result<serde_json::Value, String>, String>) -> (r:
    RouteReport)
    ensures
        r@ == report_of(finished),
{
    match finished {
        Ok(reply) => match relay_outcome(reply) {
            Ok(_) => RouteReport::Routed,
            Err(error) => RouteReport::Failed(error),
        },
        Err(error) => RouteReport::Panicked(error),
    }
}

/// An action reaches its own origin or none: a call is made only on the socket
/// of a discovered origin with the key, and with the action unchanged.
pub proof fn law_actions_reach_their_origin(
    key: Seq<char>,
    method: MethodView,
    discovered: Result<Seq<OriginView>, Seq<char>>,
)
    ensures
        route_of(key, method, discovered) matches RouteStepView::Call(call) ==> {
            &&& call.request.method == method
            &&& discovered is Ok
            &&& exists|i: int|
                0 <= i < discovered->Ok_0.len() && (#[trigger] discovered->Ok_0[i]).key == key
                    && discovered->Ok_0[i].socket == call.socket
        },
{
    if let Ok(origins) = discovered {
        lemma_origin_with(origins, key);
    }
}

proof fn lemma_origin_with(row: Seq<OriginView>, key: Seq<char>)
    ensures
        origin_with(row, key) matches Some(origin) ==> origin.key == key && exists|i: int|
            0 <= i < row.len() && #[trigger] row[i] == origin,
    decreases row.len(),
{
    if row.len() > 0 {
        if row[0].key != key {
            let rest = row.drop_first();
            lemma_origin_with(rest, key);
            if let Some(origin) = origin_with(rest, key) {
                let i = choose|i: int| 0 <= i < rest.len() && #[trigger] rest[i] == origin;
                assert(row[i + 1] == origin);
            }
        } else {
            assert(row[0] == row[0]);
        }
    }
}

/// Input is typed whole: of bytes that are valid UTF-8, the origin is sent every
/// character that they encode, in order, for the pane of that raw id, on its own
/// socket, and without further keys. The outcome is that of the call.
pub proof fn law_valid_input_is_typed_whole<F>(
    origin: &Origin,
    pane_id: &str,
    bytes: &[u8],
    send: F,
    r: Result<(), RelayError>,
) where F: FnOnce(ApiCall) -> Result<serde_json::Value, String>
    requires
        vstd::utf8::valid_utf8(bytes@),
        call_ensures(send_input_to_foreign_pane::<F>, (origin, pane_id, Some(bytes), send), r),
    ensures
        exists|call: ApiCall, reply: Result<serde_json::Value, String>|
            {
                &&& #[trigger] send.ensures((call,), reply)
                &&& call.socket@ == origin@.socket
                &&& call.request.method matches Method::PaneSendInput(params)
                &&& params.text@ == vstd::utf8::decode_utf8(bytes@)
                &&& params.pane_id@ == pane_id@
                &&& params.keys@.len() == 0
                &&& r is Ok <==> reply is Ok
            },
{
    let (call, reply) = choose|call: ApiCall, reply: Result<serde_json::Value, String>| #[trigger]
        send.ensures((call,), reply) && call@ == input_call(
            origin@,
            pane_id@,
            input_text(bytes_or_none(Some(bytes))),
        ) && relays(r, reply) && (call@.request.method matches MethodView::PaneSendInput(params)
            && params.text == vstd::utf8::decode_utf8(bytes@));
    assert(send.ensures((call,), reply));
    assert(call.request.method@ == call@.request.method);
    assert(call.request.method is PaneSendInput);
}

/// What is sent for any input: the text that its bytes stand for, and nothing where
/// there are none, to the pane of that raw id, under an id that names the origin
/// and the pane.
pub proof fn law_input_reaches_its_pane(
    origin: OriginView,
    pane_id: Seq<char>,
    bytes: Option<Seq<u8>>,
)
    ensures
        ({
            let call = input_call(origin, pane_id, input_text(bytes));
            &&& call.socket == origin.socket
            &&& call.request.id == "federation:relay:"@ + origin.key + ":"@ + pane_id
            &&& call.request.method matches MethodView::PaneSendInput(params)
            &&& params.pane_id == pane_id
            &&& params.keys.len() == 0
            &&& bytes matches Some(bytes) ==> params.text == utf8_lossy(bytes)
            &&& bytes is None ==> params.text.len() == 0
        }),
{
}

/// An action is handed over as it is, on the origin's own socket; whether its answer
/// is read shows in the id.
pub proof fn law_actions_are_handed_over_unchanged(origin: OriginView, method: MethodView)
    ensures
        action_call(origin, method).socket == origin.socket,
        action_call(origin, method).request.method == method,
        action_call(origin, method).request.id == "federation:action:"@ + origin.key,
        answered_call(origin, method).socket == origin.socket,
        answered_call(origin, method).request.method == method,
        answered_call(origin, method).request.id == "federation:action-resp:"@ + origin.key,
{
}

/// An outcome is that of the call: success where there is an answer, and that very
/// answer where it is asked for; else the failure of the call, in its words.
pub proof fn law_outcomes_are_those_of_the_call(
    reply: Result<serde_json::Value, String>,
    done: Result<(), RelayError>,
    answer: Result<serde_json::Value, RelayError>,
)
    requires
        relays(done, reply),
        answers(answer, reply),
    ensures
        match reply {
            Ok(value) => done is Ok && answer == Ok::<serde_json::Value, RelayError>(value),
            Err(message) => {
                &&& done matches Err(RelayError::Api(error)) && error@ == message@
                &&& answer matches Err(RelayError::Api(error)) && error@ == message@
            },
        },
{
}

/// Where an action goes: to the first of the discovered origins that has the key,
/// if there is one; and each way in which it goes nowhere is told apart.
pub proof fn law_actions_go_to_the_first_with_the_key(
    key: Seq<char>,
    method: MethodView,
    origins: Seq<OriginView>,
    error: Seq<char>,
)
    ensures
        forall|i: int|
            0 <= i < origins.len() && (#[trigger] origins[i]).key == key && (forall|j: int|
                0 <= j < i ==> (#[trigger] origins[j]).key != key) ==> {
                &&& route_of(key, method, Ok(origins)) matches RouteStepView::Call(call)
                &&& call.socket == origins[i].socket
                &&& call.request.method == method
                &&& call.request.id == "federation:action:"@ + key
            },
        (forall|i: int| 0 <= i < origins.len() ==> (#[trigger] origins[i]).key != key) ==> (
        route_of(key, method, Ok(origins)) matches RouteStepView::Done(report)
            && report is OriginNotFound),
        route_of(key, method, Err(error)) matches RouteStepView::Done(
            RouteReportView::DiscoveryFailed(told),
        ) && told == error,
{
    lemma_origin_with(origins, key);
    assert forall|i: int|
        0 <= i < origins.len() && (#[trigger] origins[i]).key == key && (forall|j: int|
            0 <= j < i ==> (#[trigger] origins[j]).key != key) implies origin_with(origins, key)
        == Some(origins[i]) by {
        lemma_first_origin_with(origins, key, i);
    }
}

proof fn lemma_first_origin_with(row: Seq<OriginView>, key: Seq<char>, i: int)
    requires
        0 <= i < row.len(),
        row[i].key == key,
        forall|j: int| 0 <= j < i ==> (#[trigger] row[j]).key != key,
    ensures
        origin_with(row, key) == Some(row[i]),
    decreases row.len(),
{
    if i > 0 {
        let rest = row.drop_first();
        assert(rest[i - 1] == row[i]);
        assert forall|j: int| 0 <= j < i - 1 implies (#[trigger] rest[j]).key != key by {
            assert(row[j + 1].key != key);
        }
        assert(row[0].key != key);
        lemma_first_origin_with(rest, key, i - 1);
    }
}

/// What became of a call is told as it was: an answer as taken, a failure in its
/// words, and a panic in its own.
pub proof fn law_reports_tell_what_became_of_the_call(
    finished: Result<Result<serde_json::Value, String>, String>,
)
    ensures
        report_of(finished) is Routed <==> finished is Ok && finished->Ok_0 is Ok,
        report_of(finished) is Panicked <==> finished is Err,
        finished matches Err(error) ==> report_of(finished) == RouteReportView::Panicked(error@),
        finished matches Ok(Err(error)) ==> report_of(finished) == RouteReportView::Failed(
            RelayErrorView::Api(error@),
        ),
{
}

/// A failure in words ends with what it is about, word for word.
pub proof fn law_relay_failures_are_told_in_full(message: Seq<char>)
    ensures
        "relay request failed: "@.is_prefix_of(relay_error_text(RelayErrorView::Api(message))),
        message.is_suffix_of(relay_error_text(RelayErrorView::Api(message))),
        relay_error_text(RelayErrorView::Api(message)).len() == 22 + message.len(),
        "relay serialize failed: "@.is_prefix_of(
            relay_error_text(RelayErrorView::Serialize(message)),
        ),
        message.is_suffix_of(relay_error_text(RelayErrorView::Serialize(message))),
        relay_error_text(RelayErrorView::Serialize(message)).len() == 24 + message.len(),
{
    reveal_strlit("relay request failed: ");
    reveal_strlit("relay serialize failed: ");
}

/// What is handed in is taken as it is: bytes where there are some, and the origins that
/// were discovered, or why there are none.
pub proof fn law_what_is_handed_in_is_taken(
    bytes: &[u8],
    origins: Vec<Origin>,
    error: String,
)
    ensures
        bytes_or_none(Some(bytes)) == Some(bytes@),
        bytes_or_none(None) is None,
        discovered_views(Ok(origins)) == Ok::<Seq<OriginView>, Seq<char>>(origin_views(origins@)),
        discovered_views(Err(error)) == Err::<Seq<OriginView>, Seq<char>>(error@),
{
}

} // verus!
