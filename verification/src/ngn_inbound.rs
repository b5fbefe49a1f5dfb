//! Requests from the carrier.
//!
//! The driver owns the sockets and transactions. It hands each request to
//! [`NgnInboundHandler::handle_inbound`], does what that says, and reports back
//! what came of it.

use vstd::prelude::*;

use crate::bridge::{BridgeError, InboundBridge, InboundBridgeView, BridgeStageView};
use crate::browser::{addressed_view, BrowserMessage, MessageView};
use crate::counts::{
    answer_counts, count_answer, count_end, no_counts, one_count, two_counts, Count,
};
use crate::fork::{
    fork_of, fork_to_bindings, leg_to, reason_phrase, reason_phrase_for_status, Binding, Fork,
    ForkResult, ForkResultView, ForkStart, LegStart, WebRtcLegArtifacts,
};
use crate::ids::{CallId, DialogId, IpAddr, NotifyId, TxId, WsId, LOOPBACK};
use crate::response::{
    answers, copy_bytes, ensure_to_tag_with, final_response, final_response_view, has_tag,
    has_to_tag, is_added, law_final_response_answers_its_request,
    law_listing_of_methods_answers_its_request, law_only_a_missing_tag_is_added,
    law_session_description_is_the_body, lemma_contact_keeps_answers, lemma_field_names,
    lemma_named_is_answered, lemma_sdp_is_named, lemma_skeleton_is_named, names,
    response_with_allow, set_sdp, tagged, with_allow_view, with_sdp, SUPPORTED_METHODS_ALLOW,
};
use crate::sdp::{is_placeholder, is_undirected_or_webrtc_placeholder_sdp};
use crate::sip::{
    build_response_skeleton, header, law_header_set_is_header_read,
    law_response_takes_over_what_names_the_request, skeleton, ResponseView, SipMethod,
    SipRequest, SipResponse,
};
use crate::table::{dropped, Table};
use crate::text::{join, same_ignoring_case};
use crate::time::{Duration, NANOS_PER_SEC};

verus! {

/// Parameters of the handler.
#[derive(Clone, Debug)]
pub struct NgnInboundConfig {
    /// How long extensions are rung.
    pub fork_timeout: Duration,
    /// The realm of the extensions.
    pub realm: String,
    /// Where the bridge's socket towards the carrier is bound; where the SIP
    /// socket is bound, if `None`.
    pub bridge_ngn_bind_ip: Option<IpAddr>,
    /// Where the bridge's socket towards the extension is bound; as towards the
    /// carrier, if `None`.
    pub bridge_ext_bind_ip: Option<IpAddr>,
    /// The host and port in the `Contact` field of responses to the carrier;
    /// those of the SIP socket, if `None`.
    pub ngn_local_addr: Option<String>,
    /// How often connections that were closed are looked for.
    pub webrtc_active_sweep_interval: Duration,
}

impl Default for NgnInboundConfig {
    /// Twenty seconds of ringing, a sweep every thirty seconds, and nothing set.
    fn default() -> (r: Self)
        ensures
            r.fork_timeout@ == 20 * NANOS_PER_SEC,
            r.realm@ == "sabiden"@,
            r.bridge_ngn_bind_ip is None,
            r.bridge_ext_bind_ip is None,
            r.ngn_local_addr is None,
            r.webrtc_active_sweep_interval@ == 30 * NANOS_PER_SEC,
    {
        NgnInboundConfig {
            fork_timeout: Duration::from_secs(20),
            realm: "sabiden".to_owned(),
            bridge_ngn_bind_ip: None,
            bridge_ext_bind_ip: None,
            ngn_local_addr: None,
            webrtc_active_sweep_interval: Duration::from_secs(30),
        }
    }
}

/// A call from a browser to the carrier.
#[derive(Clone, Copy, Debug, PartialEq, Eq, Structural)]
pub struct WebRtcOutboundEntry {
    /// The dialog with the carrier.
    pub ngn_dialog: DialogId,
    /// The browser's connection.
    pub ws: WsId,
    /// The bridge.
    pub bridge_call_id: CallId,
}

/// The calls from browsers to the carrier, by the Call-ID on the carrier's side.
pub type WebRtcOutboundActive = Table<WebRtcOutboundEntry>;

/// How an INVITE ended, as it is counted.
#[derive(Clone, Copy, Debug, PartialEq, Eq, Structural)]
pub enum InviteResult {
    Answered,
    Busy,
    Timeout,
    Error,
}

/// What the handler knows.
#[verifier::ext_equal]
pub struct HandlerView {
    /// The transactions of INVITEs that were not acknowledged.
    pub pending: Map<Seq<char>, TxId>,
    /// The calls that were answered, each with its bridge where it has one.
    pub active: Map<Seq<char>, Option<CallId>>,
    /// The connections of the browsers that answered.
    pub webrtc_active: Map<Seq<char>, WsId>,
    /// How to stop the forks that go on.
    pub in_flight: Map<Seq<char>, NotifyId>,
    /// Whether there is a call manager that can keep bridges.
    pub bridged: bool,
    /// Whether there is somebody who knows of calls from extensions.
    pub forwards: bool,
}

/// The handler of requests from the carrier.
#[derive(Debug)]
pub struct NgnInboundHandler {
    cfg: NgnInboundConfig,
    pending: Table<TxId>,
    active: Table<Option<CallId>>,
    webrtc_active: Table<WsId>,
    in_flight: Table<NotifyId>,
    bridged: bool,
    forwards: bool,
}

impl View for NgnInboundHandler {
    type V = HandlerView;

    closed spec fn view(&self) -> HandlerView {
        HandlerView {
            pending: self.pending@,
            active: self.active@,
            webrtc_active: self.webrtc_active@,
            in_flight: self.in_flight@,
            bridged: self.bridged,
            forwards: self.forwards,
        }
    }
}

/// The Call-ID of a request.
pub open spec fn call_id_of(request: SipRequest) -> Option<Seq<char>> {
    header(request.headers@, "call-id"@)
}

/// Whether a request belongs to a dialog: its `To` field has a tag.
pub open spec fn in_dialog(request: SipRequest) -> bool {
    match header(request.headers@, "to"@) {
        Some(to) => has_tag(to),
        None => false,
    }
}

/// What is done about a request.
#[derive(Debug)]
pub enum InboundAction {
    /// Hand it to [`NgnInboundHandler::handle_invite`].
    Invite,
    /// Send the response, then hand the request to
    /// [`NgnInboundHandler::handle_bye`].
    Bye { response: SipResponse },
    /// Nothing: it was an ACK.
    Acknowledged,
    /// Send the response, then stop the fork, where one goes on.
    Cancel { response: SipResponse, stop: Option<NotifyId> },
    /// Send the response.
    Reply { response: SipResponse },
}

/// The contents of an [`InboundAction`].
pub enum InboundActionView {
    Invite,
    Bye { response: ResponseView },
    Acknowledged,
    Cancel { response: ResponseView, stop: Option<NotifyId> },
    Reply { response: ResponseView },
}

impl View for InboundAction {
    type V = InboundActionView;

    open spec fn view(&self) -> InboundActionView {
        match self {
            InboundAction::Invite => InboundActionView::Invite,
            InboundAction::Bye { response } => InboundActionView::Bye { response: response@ },
            InboundAction::Acknowledged => InboundActionView::Acknowledged,
            InboundAction::Cancel { response, stop } => InboundActionView::Cancel {
                response: response@,
                stop: *stop,
            },
            InboundAction::Reply { response } => InboundActionView::Reply { response: response@ },
        }
    }
}

/// The answer to a request that opens or changes no call: its status and its
/// reason phrase. `None` for INVITE, BYE, ACK and CANCEL.
pub open spec fn plain_answer(method: SipMethod) -> Option<(u16, Seq<char>)> {
    match method {
        SipMethod::Invite | SipMethod::Bye | SipMethod::Ack | SipMethod::Cancel => None,
        SipMethod::Options | SipMethod::Message => Some((200, "OK"@)),
        SipMethod::Notify => Some((481, "Subscription Does Not Exist"@)),
        SipMethod::Subscribe | SipMethod::Publish => Some((489, "Bad Event"@)),
        SipMethod::Prack | SipMethod::Update | SipMethod::Info => Some(
            (481, "Call/Transaction Does Not Exist"@),
        ),
        SipMethod::Refer | SipMethod::Register | SipMethod::Other(_) => Some(
            (405, "Method Not Allowed"@),
        ),
    }
}

/// The entry of `key`, where there is one.
pub open spec fn entry<V>(m: Map<Seq<char>, V>, key: Seq<char>) -> Option<V> {
    if m.contains_key(key) {
        Some(m[key])
    } else {
        None
    }
}

/// What is done about a request.
pub open spec fn inbound_action(h: HandlerView, request: SipRequest) -> InboundActionView {
    let ok = skeleton(request.headers@, 200, "OK"@);
    match request.method {
        SipMethod::Invite => InboundActionView::Invite,
        SipMethod::Bye => InboundActionView::Bye { response: ok },
        SipMethod::Ack => InboundActionView::Acknowledged,
        SipMethod::Cancel => InboundActionView::Cancel {
            response: ok,
            stop: match call_id_of(request) {
                Some(id) => entry(h.in_flight, id),
                None => None,
            },
        },
        _ => {
            let (status, reason) = plain_answer(request.method)->0;
            InboundActionView::Reply { response: with_allow_view(request, status, reason) }
        },
    }
}

/// What the handler knows after a request came in. An ACK ends the wait for it.
pub open spec fn after_inbound(h: HandlerView, request: SipRequest) -> HandlerView {
    match (request.method, call_id_of(request)) {
        (SipMethod::Ack, Some(id)) => HandlerView { pending: h.pending.remove(id), ..h },
        _ => h,
    }
}

/// Why an INVITE is not handled.
#[derive(Clone, Copy, Debug, PartialEq, Eq, Structural)]
pub enum InboundError {
    /// It has no Call-ID.
    NoCallId,
    /// It is not known where the carrier reaches this end.
    NoLocalAddr,
}

/// What is done about an INVITE, once 100 has gone out.
#[derive(Debug)]
pub enum InviteNext {
    /// It belongs to a dialog: have the extension of that dialog asked, and report
    /// to [`NgnInboundHandler::reinvite_forwarded`].
    AskForwarder,
    /// It belongs to a dialog that nobody knows of.
    Refuse(Refusal),
    /// Look up where the extensions are, and report to
    /// [`NgnInboundHandler::bindings_found`].
    FindBindings,
}

/// A final response that ends an INVITE, and how it ended: on the extension's side and
/// on the carrier's.
#[derive(Debug)]
pub struct Refusal {
    pub response: SipResponse,
    pub extension: Option<InviteResult>,
    pub ngn: Option<InviteResult>,
}

/// The contents of a [`Refusal`].
#[verifier::ext_equal]
pub struct RefusalView {
    pub response: ResponseView,
    pub extension: Option<InviteResult>,
    pub ngn: Option<InviteResult>,
}

impl View for Refusal {
    type V = RefusalView;

    open spec fn view(&self) -> RefusalView {
        RefusalView { response: self.response@, extension: self.extension, ngn: self.ngn }
    }
}

/// What an INVITE is counted as that was refused, once the refusal has gone out.
pub open spec fn refusal_counts(refused: RefusalView) -> Seq<Count> {
    match (refused.extension, refused.ngn) {
        (Some(e), Some(n)) => seq![Count::Extension(e), Count::Ngn(n)],
        (Some(e), None) => seq![Count::Extension(e)],
        (None, Some(n)) => seq![Count::Ngn(n)],
        (None, None) => seq![],
    }
}

impl Refusal {
    /// What the INVITE is counted as, once the refusal has gone out.
    pub fn counts(&self) -> (r: Vec<Count>)
        ensures
            r@ == refusal_counts(self@),
    {
        match (self.extension, self.ngn) {
            (Some(e), Some(n)) => two_counts(Count::Extension(e), Count::Ngn(n)),
            (Some(e), None) => one_count(Count::Extension(e)),
            (None, Some(n)) => one_count(Count::Ngn(n)),
            (None, None) => no_counts(),
        }
    }
}

/// A refusal of `request`.
pub open spec fn refusal(
    request: SipRequest,
    status: u16,
    reason: Seq<char>,
    tag: Seq<char>,
    extension: Option<InviteResult>,
    ngn: Option<InviteResult>,
) -> RefusalView {
    RefusalView { response: final_response_view(request, status, reason, tag), extension, ngn }
}

fn refuse(
    request: &SipRequest,
    status: u16,
    reason: &str,
    tag: &str,
    extension: Option<InviteResult>,
    ngn: Option<InviteResult>,
) -> (r: Refusal)
    ensures
        r@ == refusal(*request, status, reason@, tag@, extension, ngn),
{
    Refusal { response: final_response(request, status, reason, tag), extension, ngn }
}

/// The refusal of an INVITE in a dialog that nobody knows of (RFC 3261 §12.2.2).
pub open spec fn no_such_dialog(request: SipRequest, tag: Seq<char>) -> RefusalView {
    refusal(request, 481, "Call/Transaction Does Not Exist"@, tag, None, None)
}

/// What is done about the extensions that were found.
#[derive(Debug)]
pub enum BindingsNext {
    /// There is none.
    Refuse(Refusal),
    /// Ring them.
    Ring { fork: Fork, legs: Vec<LegStart> },
}

/// What is done about the result of a fork.
#[derive(Debug)]
pub enum ForkNext {
    /// Set up the bridge, and report to [`NgnInboundHandler::bridge_settled`].
    Bridge {
        winner_uri: String,
        response: SipResponse,
        webrtc_handle: Option<WebRtcLegArtifacts>,
        webrtc_ws: Option<WsId>,
    },
    /// Nobody answered.
    Refuse(Refusal),
}

/// How a refusal with `status` is counted.
pub open spec fn counted_as(status: u16) -> InviteResult {
    if status == 486 {
        InviteResult::Busy
    } else {
        InviteResult::Error
    }
}

/// How a refusal with `status` is counted.
pub fn count_status(status: u16) -> (r: InviteResult)
    ensures
        r == counted_as(status),
{
    if status == 486 {
        InviteResult::Busy
    } else {
        InviteResult::Error
    }
}

/// The refusal after a fork that ended with `result`, where it did not end with
/// an answer.
pub open spec fn fork_refusal(request: SipRequest, result: ForkResultView, tag: Seq<char>) -> Option<
    RefusalView,
> {
    match result {
        ForkResultView::Answered { .. } => None,
        ForkResultView::AllFailed { last_status } => {
            let status = match last_status {
                Some(status) => status,
                None => 486,
            };
            let counted = Some(counted_as(status));
            Some(refusal(request, status, reason_phrase(status), tag, counted, counted))
        },
        ForkResultView::Timeout => {
            let counted = Some(InviteResult::Timeout);
            Some(refusal(request, 408, "Request Timeout"@, tag, counted, counted))
        },
    }
}

/// What is done once it is known whether there is a bridge.
#[derive(Debug)]
pub enum BridgeNext {
    /// Send the response, and report to [`NgnInboundHandler::answer_sent`].
    Answer { response: SipResponse },
    /// Tell the browser that answered, where it was one, that the call is over,
    /// and refuse the call.
    Abandon { cancel: Option<WsId>, refusal: Refusal },
}

impl BridgeNext {
    /// What the browser that answered the call `id` is told, where it was one and the
    /// call is given up.
    pub fn message(&self, id: &str) -> (r: Option<(WsId, BrowserMessage)>)
        ensures
            addressed_view(r) == (match *self {
                BridgeNext::Abandon { cancel: Some(ws), .. } => Some(
                    (ws, MessageView::Cancel { call_id: id@ }),
                ),
                _ => None,
            }),
    {
        match self {
            BridgeNext::Abandon { cancel: Some(ws), .. } => Some(
                (*ws, BrowserMessage::Cancel { call_id: id.to_owned() }),
            ),
            _ => None,
        }
    }
}

/// Whether a call is given up when its bridge could not be set up: where there
/// should have been one, and where the answer names no place to send media to.
pub open spec fn gives_up(bridged: bool, answer: Seq<u8>) -> bool {
    bridged || is_placeholder(answer)
}

/// The 200 response to the carrier's INVITE.
pub open spec fn answer_to_ngn(
    request: SipRequest,
    body: Seq<u8>,
    addr: Seq<char>,
    tag: Seq<char>,
) -> ResponseView {
    tagged(with_sdp(skeleton(request.headers@, 200, "OK"@), body), tag).with(
        "Contact"@,
        "<sip:sabiden@"@ + addr + ">"@,
    )
}

/// What is done about a BYE.
#[derive(Clone, Copy, Debug, PartialEq, Eq, Structural)]
pub enum ByeNext {
    /// Nothing: it has no Call-ID.
    Nothing,
    /// It ends a call from a browser: end the bridge where `terminate` names it,
    /// tell the browser, and mark the dialog as ended.
    EndBrowserCall { terminate: Option<CallId>, ws: WsId, dialog: DialogId },
    /// Have the extension of the call asked, and report to
    /// [`NgnInboundHandler::bye_forwarded`].
    AskForwarder,
    /// It ends a call to an extension.
    End(CallEnd),
}

/// What is done about a call to an extension that has ended: end the bridge, and tell
/// the browser. `was_active` says whether the call was answered.
#[derive(Clone, Copy, Debug, PartialEq, Eq, Structural)]
pub struct CallEnd {
    pub was_active: bool,
    pub terminate: Option<CallId>,
    pub ws: Option<WsId>,
}

/// What a call to an extension is counted as at its end.
pub open spec fn call_end_counts(end: CallEnd) -> Seq<Count> {
    if end.was_active {
        seq![Count::CallEnded]
    } else {
        seq![]
    }
}

/// What a call is counted as that a BYE ends.
pub open spec fn bye_counts(next: ByeNext) -> Seq<Count> {
    match next {
        ByeNext::EndBrowserCall { .. } => seq![Count::CallEnded],
        ByeNext::End(end) => call_end_counts(end),
        ByeNext::Nothing | ByeNext::AskForwarder => seq![],
    }
}

/// What the browser of a call to an extension is told at the end of the call, where it
/// was one.
pub open spec fn call_end_message(end: CallEnd) -> Option<(WsId, MessageView)> {
    match end.ws {
        Some(ws) => Some((ws, MessageView::Bye)),
        None => None,
    }
}

/// What the browser of a call that a BYE ends is told, where it has one.
pub open spec fn bye_message(next: ByeNext) -> Option<(WsId, MessageView)> {
    match next {
        ByeNext::EndBrowserCall { ws, .. } => Some((ws, MessageView::Bye)),
        ByeNext::End(end) => call_end_message(end),
        ByeNext::Nothing | ByeNext::AskForwarder => None,
    }
}

impl CallEnd {
    /// What the browser that answered the call is told, where it was one.
    pub fn message(&self) -> (r: Option<(WsId, BrowserMessage)>)
        ensures
            addressed_view(r) == call_end_message(*self),
    {
        match self.ws {
            Some(ws) => Some((ws, BrowserMessage::Bye)),
            None => None,
        }
    }

    /// What the call is counted as at its end.
    pub fn counts(&self) -> (r: Vec<Count>)
        ensures
            r@ == call_end_counts(*self),
    {
        if self.was_active {
            count_end()
        } else {
            no_counts()
        }
    }
}

impl ByeNext {
    /// What the browser of the call is told, where it has one.
    pub fn message(&self) -> (r: Option<(WsId, BrowserMessage)>)
        ensures
            addressed_view(r) == bye_message(*self),
    {
        match self {
            ByeNext::EndBrowserCall { ws, .. } => Some((*ws, BrowserMessage::Bye)),
            ByeNext::End(end) => end.message(),
            ByeNext::Nothing | ByeNext::AskForwarder => None,
        }
    }

    /// What the call is counted as that the BYE ends.
    pub fn counts(&self) -> (r: Vec<Count>)
        ensures
            r@ == bye_counts(*self),
    {
        match self {
            ByeNext::EndBrowserCall { .. } => count_end(),
            ByeNext::End(end) => end.counts(),
            ByeNext::Nothing | ByeNext::AskForwarder => no_counts(),
        }
    }
}

/// What is done about the end of the call `id` to an extension.
pub open spec fn call_end(h: HandlerView, id: Seq<char>) -> CallEnd {
    CallEnd {
        was_active: h.active.contains_key(id),
        terminate: if h.bridged && h.active.contains_key(id) {
            h.active[id]
        } else {
            None
        },
        ws: entry(h.webrtc_active, id),
    }
}

/// What the handler knows after the end of the call `id`.
pub open spec fn after_end(h: HandlerView, id: Seq<char>) -> HandlerView {
    HandlerView {
        pending: h.pending.remove(id),
        active: h.active.remove(id),
        webrtc_active: h.webrtc_active.remove(id),
        ..h
    }
}

/// What is done about a BYE, and what the handler and the browsers' table hold
/// afterwards.
pub open spec fn bye_step(
    h: HandlerView,
    outbound: Map<Seq<char>, WebRtcOutboundEntry>,
    request: SipRequest,
) -> (ByeNext, HandlerView, Map<Seq<char>, WebRtcOutboundEntry>) {
    match call_id_of(request) {
        None => (ByeNext::Nothing, h, outbound),
        Some(id) => if outbound.contains_key(id) {
            (
                ByeNext::EndBrowserCall {
                    terminate: if h.bridged {
                        Some(outbound[id].bridge_call_id)
                    } else {
                        None
                    },
                    ws: outbound[id].ws,
                    dialog: outbound[id].ngn_dialog,
                },
                h,
                outbound.remove(id),
            )
        } else if h.forwards {
            (ByeNext::AskForwarder, h, outbound)
        } else {
            (ByeNext::End(call_end(h, id)), after_end(h, id), outbound)
        },
    }
}

fn call_id(request: &SipRequest) -> (r: Option<&str>)
    ensures
        r is Some <==> call_id_of(*request) is Some,
        r is Some ==> r->0@ == call_id_of(*request)->0,
{
    request.headers.get("call-id")
}

impl NgnInboundHandler {
    /// The parameters of the handler.
    pub closed spec fn parameters(&self) -> NgnInboundConfig {
        self.cfg
    }

    /// A handler that has seen nothing. Session descriptions go through it
    /// unchanged.
    pub fn new(cfg: NgnInboundConfig) -> (r: Self)
        ensures
            r@ == fresh_handler(false),
            r.parameters() == cfg,
    {
        let r = NgnInboundHandler {
            cfg,
            pending: Table::new(),
            active: Table::new(),
            webrtc_active: Table::new(),
            in_flight: Table::new(),
            bridged: false,
            forwards: false,
        };
        assert(r@ =~= fresh_handler(false));
        r
    }

    /// A handler that has seen nothing, with a call manager that keeps the
    /// bridges of calls.
    pub fn with_call_manager(cfg: NgnInboundConfig) -> (r: Self)
        ensures
            r@ == fresh_handler(true),
            r.parameters() == cfg,
    {
        let mut r: NgnInboundHandler = NgnInboundHandler::new(cfg);
        r.bridged = true;
        assert(r@ =~= fresh_handler(true));
        r
    }

    /// Has somebody asked from now on who knows of calls from extensions.
    pub fn set_outbound_forwarder(&mut self)
        ensures
            final(self)@ == (HandlerView { forwards: true, ..old(self)@ }),
            final(self).parameters() == old(self).parameters(),
    {
        self.forwards = true;
        assert(self@ =~= (HandlerView { forwards: true, ..old(self)@ }));
    }

    /// The parameters of the handler.
    pub fn config(&self) -> (r: &NgnInboundConfig)
        ensures
            *r == self.parameters(),
    {
        &self.cfg
    }

    /// Takes a request in. Methods that open or change no call are answered at
    /// once; each such answer lists the methods that are handled.
    pub fn handle_inbound(&mut self, request: &SipRequest) -> (r: InboundAction)
        ensures
            r@ == inbound_action(old(self)@, *request),
            final(self)@ == after_inbound(old(self)@, *request),
            final(self).parameters() == old(self).parameters(),
    {
        let plain: (u16, &str) = match &request.method {
            SipMethod::Invite => {
                return InboundAction::Invite;
            },
            SipMethod::Bye => {
                return InboundAction::Bye {
                    response: build_response_skeleton(request, 200, "OK"),
                };
            },
            SipMethod::Ack => {
                if let Some(id) = call_id(request) {
                    self.pending.remove(id);
                }
                assert(self@ =~= after_inbound(old(self)@, *request));
                return InboundAction::Acknowledged;
            },
            SipMethod::Cancel => {
                let stop: Option<NotifyId> = match call_id(request) {
                    Some(id) => match self.in_flight.get(id) {
                        Some(notify) => Some(*notify),
                        None => None,
                    },
                    None => None,
                };
                return InboundAction::Cancel {
                    response: build_response_skeleton(request, 200, "OK"),
                    stop,
                };
            },
            SipMethod::Options => (200, "OK"),
            SipMethod::Notify => (481, "Subscription Does Not Exist"),
            SipMethod::Subscribe => (489, "Bad Event"),
            SipMethod::Prack => (481, "Call/Transaction Does Not Exist"),
            SipMethod::Publish => (489, "Bad Event"),
            SipMethod::Update => (481, "Call/Transaction Does Not Exist"),
            SipMethod::Info => (481, "Call/Transaction Does Not Exist"),
            SipMethod::Message => (200, "OK"),
            SipMethod::Refer => (405, "Method Not Allowed"),
            SipMethod::Register => (405, "Method Not Allowed"),
            SipMethod::Other(_) => (405, "Method Not Allowed"),
        };
        InboundAction::Reply { response: response_with_allow(request, plain.0, plain.1) }
    }

    /// Takes an INVITE in whose transaction is `tx`. The first response is 100,
    /// which goes out at once; `tag` is for a final one.
    pub fn handle_invite(&mut self, request: &SipRequest, tx: TxId, tag: &str) -> (r: Result<
        (SipResponse, InviteNext),
        InboundError,
    >)
        ensures
            final(self).parameters() == old(self).parameters(),
            match (r, call_id_of(*request)) {
                (Err(e), None) => e == InboundError::NoCallId && final(self)@ == old(self)@,
                (Ok((trying, next)), Some(id)) => {
                    &&& final(self)@ == (HandlerView {
                        pending: old(self)@.pending.insert(id, tx),
                        ..old(self)@
                    })
                    &&& trying@ == skeleton(request.headers@, 100, "Trying"@)
                    &&& match next {
                        InviteNext::FindBindings => !in_dialog(*request),
                        InviteNext::AskForwarder => in_dialog(*request) && old(self)@.forwards,
                        InviteNext::Refuse(refusal) => {
                            &&& in_dialog(*request)
                            &&& !old(self)@.forwards
                            &&& refusal@ == no_such_dialog(*request, tag@)
                        },
                    }
                },
                _ => false,
            },
    {
        match call_id(request) {
            None => {
                return Err(InboundError::NoCallId);
            },
            Some(id) => {
                self.pending.insert(id.to_owned(), tx);
            },
        }
        proof {
            let id = call_id_of(*request)->0;
            assert(self@ =~= (HandlerView {
                pending: old(self)@.pending.insert(id, tx),
                ..old(self)@
            }));
        }
        let trying: SipResponse = build_response_skeleton(request, 100, "Trying");
        let tagged_to: bool = match request.headers.get("to") {
            Some(to) => has_to_tag(to),
            None => false,
        };
        if !tagged_to {
            return Ok((trying, InviteNext::FindBindings));
        }
        if self.forwards {
            return Ok((trying, InviteNext::AskForwarder));
        }
        let refusal: Refusal = refuse(
            request,
            481,
            "Call/Transaction Does Not Exist",
            tag,
            None,
            None,
        );
        Ok((trying, InviteNext::Refuse(refusal)))
    }

    /// Takes in whether an INVITE in a dialog went to the extension of that
    /// dialog. Where it did not, it is refused.
    pub fn reinvite_forwarded(&self, request: &SipRequest, forwarded: bool, tag: &str) -> (r: Option<
        Refusal,
    >)
        ensures
            r is None <==> forwarded,
            r is Some ==> r->0@ == no_such_dialog(*request, tag@),
    {
        if forwarded {
            return None;
        }
        Some(refuse(request, 481, "Call/Transaction Does Not Exist", tag, None, None))
    }

    /// Takes in that a refusal has gone out: nothing more is known of the INVITE.
    /// `cancelled` says whether it was the answer to a CANCEL while extensions
    /// were ringing.
    pub fn refusal_sent(&mut self, id: &str, cancelled: bool)
        ensures
            final(self)@ == (HandlerView {
                pending: old(self)@.pending.remove(id@),
                in_flight: if cancelled {
                    old(self)@.in_flight.remove(id@)
                } else {
                    old(self)@.in_flight
                },
                ..old(self)@
            }),
            final(self).parameters() == old(self).parameters(),
    {
        self.pending.remove(id);
        if cancelled {
            self.in_flight.remove(id);
        }
        assert(self@ =~= (HandlerView {
            pending: old(self)@.pending.remove(id@),
            in_flight: if cancelled {
                old(self)@.in_flight.remove(id@)
            } else {
                old(self)@.in_flight
            },
            ..old(self)@
        }));
    }

    /// Takes in where the extensions are, for the INVITE with the Call-ID `id`.
    /// They are rung; `stop` is what a CANCEL stops that with.
    pub fn bindings_found(
        &mut self,
        request: &SipRequest,
        id: &str,
        bindings: &Vec<(String, Binding)>,
        stop: NotifyId,
        tag: &str,
    ) -> (r: BindingsNext)
        ensures
            final(self).parameters() == old(self).parameters(),
            match r {
                BindingsNext::Refuse(refused) => {
                    &&& bindings@.len() == 0
                    &&& final(self)@ == old(self)@
                    &&& refused@ == refusal(
                        *request,
                        480,
                        "Temporarily Unavailable"@,
                        tag@,
                        None,
                        Some(InviteResult::Error),
                    )
                },
                BindingsNext::Ring { fork, legs } => {
                    &&& bindings@.len() > 0
                    &&& final(self)@ == (HandlerView {
                        in_flight: old(self)@.in_flight.insert(id@, stop),
                        ..old(self)@
                    })
                    &&& fork@ == fork_of(bindings@.len())
                    &&& fork@.well_formed()
                    &&& legs@.len() == bindings@.len()
                    &&& forall|i: int|
                        0 <= i < legs@.len() ==> (#[trigger] legs@[i])@ == leg_to(
                            bindings@[i].0@,
                            bindings@[i].1.contact_uri@,
                            bindings@[i].1.transport,
                            id@,
                        )
                },
            },
    {
        match fork_to_bindings(bindings, id) {
            ForkStart::Finished(_) => BindingsNext::Refuse(
                refuse(
                    request,
                    480,
                    "Temporarily Unavailable",
                    tag,
                    None,
                    Some(InviteResult::Error),
                ),
            ),
            ForkStart::Running { fork, legs } => {
                self.in_flight.insert(id.to_owned(), stop);
                assert(self@ =~= (HandlerView {
                    in_flight: old(self)@.in_flight.insert(id@, stop),
                    ..old(self)@
                }));
                BindingsNext::Ring { fork, legs }
            },
        }
    }

    /// The refusal of an INVITE that the carrier cancelled while extensions were
    /// ringing (RFC 3261 §9.2).
    pub fn cancelled(&self, request: &SipRequest, tag: &str) -> (r: Refusal)
        ensures
            r@ == refusal(
                *request,
                487,
                "Request Terminated"@,
                tag@,
                Some(InviteResult::Error),
                Some(InviteResult::Error),
            ),
    {
        refuse(
            request,
            487,
            "Request Terminated",
            tag,
            Some(InviteResult::Error),
            Some(InviteResult::Error),
        )
    }

    /// Takes in how the ringing for the INVITE with the Call-ID `id` ended. It can
    /// no longer be cancelled.
    pub fn fork_ended(
        &mut self,
        request: &SipRequest,
        id: &str,
        result: ForkResult,
        tag: &str,
    ) -> (r: ForkNext)
        ensures
            final(self).parameters() == old(self).parameters(),
            final(self)@ == (HandlerView {
                in_flight: old(self)@.in_flight.remove(id@),
                ..old(self)@
            }),
            match r {
                ForkNext::Bridge { winner_uri, response, webrtc_handle, webrtc_ws } => result@ == (
                ForkResultView::Answered {
                    winner_uri: winner_uri@,
                    response: response@,
                    webrtc_handle,
                    webrtc_ws,
                }),
                ForkNext::Refuse(refusal) => fork_refusal(*request, result@, tag@) == Some(
                    refusal@,
                ),
            },
    {
        self.in_flight.remove(id);
        assert(self@ =~= (HandlerView {
            in_flight: old(self)@.in_flight.remove(id@),
            ..old(self)@
        }));
        match result {
            ForkResult::Answered { winner_uri, response, webrtc_handle, webrtc_ws } =>
                ForkNext::Bridge { winner_uri, response, webrtc_handle, webrtc_ws },
            ForkResult::AllFailed { last_status } => {
                let status: u16 = match last_status {
                    Some(status) => status,
                    None => 486,
                };
                let counted: Option<InviteResult> = Some(count_status(status));
                ForkNext::Refuse(
                    refuse(
                        request,
                        status,
                        reason_phrase_for_status(status),
                        tag,
                        counted,
                        counted,
                    ),
                )
            },
            ForkResult::Timeout => {
                let counted: Option<InviteResult> = Some(InviteResult::Timeout);
                ForkNext::Refuse(refuse(request, 408, "Request Timeout", tag, counted, counted))
            },
        }
    }

    /// Where the bridge's socket towards the carrier is bound. `socket_ip` is where
    /// the SIP socket is bound, where that is known.
    pub fn bridge_ngn_ip(&self, socket_ip: Option<IpAddr>) -> (r: IpAddr)
        ensures
            r == ngn_bridge_ip(self.parameters().bridge_ngn_bind_ip, socket_ip),
    {
        if let Some(ip) = self.cfg.bridge_ngn_bind_ip {
            return ip;
        }
        match socket_ip {
            Some(ip) => if ip.is_unspecified() {
                IpAddr::V4(LOOPBACK)
            } else {
                ip
            },
            None => IpAddr::V4(LOOPBACK),
        }
    }

    /// Where the bridge's socket towards the extension is bound.
    pub fn bridge_ext_ip(&self, socket_ip: Option<IpAddr>) -> (r: IpAddr)
        ensures
            r == (match self.parameters().bridge_ext_bind_ip {
                Some(ip) => ip,
                None => ngn_bridge_ip(self.parameters().bridge_ngn_bind_ip, socket_ip),
            }),
    {
        match self.cfg.bridge_ext_bind_ip {
            Some(ip) => ip,
            None => self.bridge_ngn_ip(socket_ip),
        }
    }

    /// Begins to set up the bridge of a call that an extension answered with
    /// `ext_answer`.
    pub fn start_bridge_for_inbound(
        &self,
        socket_ip: Option<IpAddr>,
        ngn_offer: &[u8],
        ext_answer: &[u8],
        webrtc_handle: Option<WebRtcLegArtifacts>,
    ) -> (r: Result<InboundBridge, BridgeError>)
        ensures
            match r {
                Err(BridgeError::NoCallManager) => !self@.bridged,
                Err(BridgeError::EmptySdp) => self@.bridged && (ngn_offer@.len() == 0
                    || ext_answer@.len() == 0),
                Err(BridgeError::StepFailed) => false,
                Ok(b) => {
                    &&& self@.bridged
                    &&& ngn_offer@.len() > 0
                    &&& ext_answer@.len() > 0
                    &&& b@ == (InboundBridgeView {
                        ngn_bind_ip: ngn_bridge_ip(
                            self.parameters().bridge_ngn_bind_ip,
                            socket_ip,
                        ),
                        ext_bind_ip: match self.parameters().bridge_ext_bind_ip {
                            Some(ip) => ip,
                            None => ngn_bridge_ip(self.parameters().bridge_ngn_bind_ip, socket_ip),
                        },
                        ngn_offer: ngn_offer@,
                        ext_answer: ext_answer@,
                        webrtc: webrtc_handle,
                        stage: BridgeStageView::New,
                    })
                },
            },
    {
        InboundBridge::start(
            self.bridged,
            self.bridge_ngn_ip(socket_ip),
            self.bridge_ext_ip(socket_ip),
            ngn_offer,
            ext_answer,
            webrtc_handle,
        )
    }

    /// Takes in that the call `id` has a bridge.
    pub fn bridge_started(&mut self, id: &str, call: CallId)
        ensures
            final(self)@ == (HandlerView {
                active: old(self)@.active.insert(id@, Some(call)),
                ..old(self)@
            }),
            final(self).parameters() == old(self).parameters(),
    {
        self.active.insert(id.to_owned(), Some(call));
        assert(self@ =~= (HandlerView {
            active: old(self)@.active.insert(id@, Some(call)),
            ..old(self)@
        }));
    }

    /// Takes in what came of the bridge of a call that an extension answered with
    /// `ext_answer`: `bridge` is the session description for the carrier where
    /// there is a bridge. `socket_addr` is the address of the SIP socket, where it
    /// is known.
    ///
    /// Without a bridge the extension's own answer goes to the carrier, unless
    /// there should have been a bridge, or the answer names no place to send media
    /// to: then the call is given up with 502.
    pub fn bridge_settled(
        &self,
        request: &SipRequest,
        ext_answer: &[u8],
        bridge: Option<Vec<u8>>,
        webrtc_ws: Option<WsId>,
        socket_addr: Option<&str>,
        tag: &str,
    ) -> (r: Result<BridgeNext, InboundError>)
        ensures
            match r {
                Ok(BridgeNext::Abandon { cancel, refusal: refused }) => {
                    &&& bridge is None
                    &&& gives_up(self@.bridged, ext_answer@)
                    &&& cancel == webrtc_ws
                    &&& refused@ == refusal(
                        *request,
                        502,
                        "Bad Gateway"@,
                        tag@,
                        Some(InviteResult::Error),
                        Some(InviteResult::Error),
                    )
                },
                Ok(BridgeNext::Answer { response }) => {
                    &&& bridge is Some || !gives_up(self@.bridged, ext_answer@)
                    &&& local_addr(self.parameters(), socket_addr) is Some
                    &&& response@ == answer_to_ngn(
                        *request,
                        match bridge {
                            Some(sdp) => sdp@,
                            None => ext_answer@,
                        },
                        local_addr(self.parameters(), socket_addr)->0,
                        tag@,
                    )
                },
                Err(e) => {
                    &&& e == InboundError::NoLocalAddr
                    &&& bridge is Some || !gives_up(self@.bridged, ext_answer@)
                    &&& local_addr(self.parameters(), socket_addr) is None
                },
            },
    {
        let body: Vec<u8> = match bridge {
            Some(sdp) => sdp,
            None => {
                if self.bridged || is_undirected_or_webrtc_placeholder_sdp(ext_answer) {
                    let refusal: Refusal = refuse(
                        request,
                        502,
                        "Bad Gateway",
                        tag,
                        Some(InviteResult::Error),
                        Some(InviteResult::Error),
                    );
                    return Ok(BridgeNext::Abandon { cancel: webrtc_ws, refusal });
                }
                copy_bytes(ext_answer)
            },
        };
        let addr: &str = match &self.cfg.ngn_local_addr {
            Some(addr) => addr.as_str(),
            None => match socket_addr {
                Some(addr) => addr,
                None => {
                    return Err(InboundError::NoLocalAddr);
                },
            },
        };
        let mut response: SipResponse = build_response_skeleton(request, 200, "OK");
        set_sdp(&mut response, body.as_slice());
        ensure_to_tag_with(&mut response, tag);
        let contact: String = join(join("<sip:sabiden@", addr).as_str(), ">");
        response.headers.set("Contact", contact.as_str());
        Ok(BridgeNext::Answer { response })
    }

    /// Takes in that the answer to the INVITE with the Call-ID `id` has gone out, and
    /// says what the call is counted as.
    pub fn answer_sent(&mut self, id: &str, webrtc_ws: Option<WsId>) -> (r: Vec<Count>)
        ensures
            r@ == answer_counts(),
            final(self)@ == after_answer(old(self)@, id@, webrtc_ws),
            final(self).parameters() == old(self).parameters(),
    {
        if !self.active.contains_key(id) {
            self.active.insert(id.to_owned(), None);
        }
        if let Some(ws) = webrtc_ws {
            self.webrtc_active.insert(id.to_owned(), ws);
        }
        assert(self@ =~= after_answer(old(self)@, id@, webrtc_ws));
        count_answer()
    }

    /// Takes a BYE in, once it was answered.
    pub fn handle_bye(&mut self, outbound: &mut WebRtcOutboundActive, request: &SipRequest) -> (r:
        ByeNext)
        ensures
            final(self).parameters() == old(self).parameters(),
            (r, final(self)@, final(outbound)@) == bye_step(old(self)@, old(outbound)@, *request),
    {
        let id: &str = match call_id(request) {
            Some(id) => id,
            None => {
                return ByeNext::Nothing;
            },
        };
        if let Some(entry) = outbound.remove(id) {
            let terminate: Option<CallId> = if self.bridged {
                Some(entry.bridge_call_id)
            } else {
                None
            };
            return ByeNext::EndBrowserCall { terminate, ws: entry.ws, dialog: entry.ngn_dialog };
        }
        assert(outbound@ =~= old(outbound)@);
        if self.forwards {
            return ByeNext::AskForwarder;
        }
        ByeNext::End(self.end_call(id))
    }

    /// Takes in whether a BYE for the call `id` went to an extension that made the
    /// call. Where it did not, the call is one to an extension, and ends.
    pub fn bye_forwarded(&mut self, id: &str, forwarded: bool) -> (r: Option<CallEnd>)
        ensures
            final(self).parameters() == old(self).parameters(),
            forwarded ==> r is None && final(self)@ == old(self)@,
            !forwarded ==> r == Some(call_end(old(self)@, id@)) && final(self)@ == after_end(
                old(self)@,
                id@,
            ),
    {
        if forwarded {
            return None;
        }
        Some(self.end_call(id))
    }

    fn end_call(&mut self, id: &str) -> (r: CallEnd)
        ensures
            final(self).parameters() == old(self).parameters(),
            r == call_end(old(self)@, id@),
            final(self)@ == after_end(old(self)@, id@),
    {
        self.pending.remove(id);
        let removed: Option<Option<CallId>> = self.active.remove(id);
        let ws: Option<WsId> = self.webrtc_active.remove(id);
        assert(self@ =~= after_end(old(self)@, id@));
        let terminate: Option<CallId> = match removed {
            Some(call) => if self.bridged {
                call
            } else {
                None
            },
            None => None,
        };
        CallEnd { was_active: removed.is_some(), terminate, ws }
    }

    /// Forgets the browsers whose connections are among `closed`, and says how many
    /// calls those were.
    pub fn sweep_webrtc_active(&mut self, closed: &Vec<WsId>) -> (r: usize)
        ensures
            final(self).parameters() == old(self).parameters(),
            final(self)@ == (HandlerView {
                webrtc_active: dropped(
                    old(self)@.webrtc_active,
                    |ws: WsId| closed@.contains(ws),
                ),
                ..old(self)@
            }),
            r == old(self)@.webrtc_active.dom().len() - final(self)@.webrtc_active.dom().len(),
    {
        let ghost gone = |ws: WsId| closed@.contains(ws);
        let pick = |ws: &WsId| -> (b: bool)
            ensures
                b == gone(*ws),
            { among(closed, *ws) };
        let removed: Vec<(String, WsId)> = self.webrtc_active.extract_if(pick, Ghost(gone));
        assert(self@ =~= (HandlerView {
            webrtc_active: dropped(old(self)@.webrtc_active, gone),
            ..old(self)@
        }));
        removed.len()
    }

    /// Whether the call `id` is one that an extension answered.
    pub fn is_active(&self, id: &str) -> (r: bool)
        ensures
            r == self@.active.contains_key(id@),
    {
        self.active.contains_key(id)
    }

    /// The connection of the browser that answered the call `id`, where one did.
    pub fn webrtc_peer(&self, id: &str) -> (r: Option<WsId>)
        ensures
            r == entry(self@.webrtc_active, id@),
    {
        match self.webrtc_active.get(id) {
            Some(ws) => Some(*ws),
            None => None,
        }
    }

    /// Whether the INVITE with the Call-ID `id` was neither acknowledged nor
    /// refused.
    pub fn is_pending(&self, id: &str) -> (r: bool)
        ensures
            r == self@.pending.contains_key(id@),
    {
        self.pending.contains_key(id)
    }
}

fn among(closed: &Vec<WsId>, ws: WsId) -> (r: bool)
    ensures
        r == closed@.contains(ws),
{
    let mut i: usize = 0;
    while i < closed.len()
        invariant
            i <= closed.len(),
            forall|k: int| 0 <= k < i ==> closed@[k] != ws,
        decreases closed.len() - i,
    {
        if closed[i] == ws {
            assert(closed@[i as int] == ws);
            return true;
        }
        i = i + 1;
    }
    false
}

/// A handler that has seen nothing.
pub open spec fn fresh_handler(bridged: bool) -> HandlerView {
    HandlerView {
        pending: Map::empty(),
        active: Map::empty(),
        webrtc_active: Map::empty(),
        in_flight: Map::empty(),
        bridged,
        forwards: false,
    }
}

/// Where the bridge's socket towards the carrier is bound: where it is set to, or
/// else where the SIP socket is bound, unless that is everywhere.
pub open spec fn ngn_bridge_ip(set: Option<IpAddr>, socket_ip: Option<IpAddr>) -> IpAddr {
    match (set, socket_ip) {
        (Some(ip), _) => ip,
        (None, Some(ip)) if !ip.unspecified() => ip,
        _ => IpAddr::V4(LOOPBACK),
    }
}

/// The address at which the carrier reaches this end.
pub open spec fn local_addr(cfg: NgnInboundConfig, socket_addr: Option<&str>) -> Option<Seq<char>> {
    match (cfg.ngn_local_addr, socket_addr) {
        (Some(addr), _) => Some(addr@),
        (None, Some(addr)) => Some(addr@),
        (None, None) => None,
    }
}

/// What the handler knows after the answer to the INVITE `id` has gone out.
pub open spec fn after_answer(h: HandlerView, id: Seq<char>, ws: Option<WsId>) -> HandlerView {
    HandlerView {
        active: if h.active.contains_key(id) {
            h.active
        } else {
            h.active.insert(id, None)
        },
        webrtc_active: match ws {
            Some(ws) => h.webrtc_active.insert(id, ws),
            None => h.webrtc_active,
        },
        ..h
    }
}

/// Every answer to a request that opens or changes no call lists the methods that
/// are handled, under any spelling of the field's name (RFC 3261 §8.2.1).
pub proof fn law_plain_answers_list_the_methods(h: HandlerView, request: SipRequest)
    requires
        plain_answer(request.method) is Some,
    ensures
        inbound_action(h, request) is Reply,
        header(inbound_action(h, request)->Reply_response.headers, "allow"@) == Some(
            SUPPORTED_METHODS_ALLOW@,
        ),
        after_inbound(h, request) == h,
{
    reveal_strlit("allow");
    reveal_strlit("Allow");
    assert(crate::text::folded("Allow"@) =~= crate::text::folded("allow"@));
    let (status, reason) = plain_answer(request.method)->0;
    law_header_set_is_header_read(
        skeleton(request.headers@, status, reason).headers,
        "Allow"@,
        SUPPORTED_METHODS_ALLOW@,
        "allow"@,
    );
}

/// A call whose bridge could not be set up is either given up, or answered with a
/// session description that is no browser's placeholder; and where a call manager
/// should have kept the bridge, it is given up.
pub proof fn law_no_placeholder_goes_out_without_a_bridge(bridged: bool, answer: Seq<u8>)
    ensures
        !gives_up(bridged, answer) ==> !is_placeholder(answer) && !bridged,
        is_placeholder(answer) ==> gives_up(bridged, answer),
{
}

/// A second BYE for a call ends nothing: no call is counted less, no bridge is
/// ended and no browser is told. The same holds where both BYEs were offered to an
/// extension that did not know of the call.
pub proof fn law_second_bye_ends_nothing(
    h: HandlerView,
    outbound: Map<Seq<char>, WebRtcOutboundEntry>,
    request: SipRequest,
    id: Seq<char>,
)
    requires
        call_id_of(request) == Some(id),
    ensures
        ({
            let (first, h1, outbound1) = bye_step(h, outbound, request);
            let (second, h2, outbound2) = bye_step(h1, outbound1, request);
            let nothing = CallEnd { was_active: false, terminate: None, ws: None };
            &&& !(second is EndBrowserCall)
            &&& outbound2 == outbound1
            &&& first is End ==> second == ByeNext::End(nothing) && h2 == h1 && bye_counts(second)
                == Seq::<Count>::empty()
            &&& call_end(after_end(h, id), id) == nothing
            &&& after_end(after_end(h, id), id) == after_end(h, id)
        }),
{
    let h1 = after_end(h, id);
    assert(h1.pending.remove(id) =~= h1.pending);
    assert(h1.active.remove(id) =~= h1.active);
    assert(h1.webrtc_active.remove(id) =~= h1.webrtc_active);
    assert(outbound.remove(id).remove(id) =~= outbound.remove(id));
}

/// A call that was answered ends with one call less, its bridge ended and the
/// browser that answered it told; and nothing of it stays.
pub proof fn law_answered_call_is_undone_by_its_end(
    h: HandlerView,
    id: Seq<char>,
    call: Option<CallId>,
    ws: Option<WsId>,
)
    requires
        !h.active.contains_key(id),
        !h.webrtc_active.contains_key(id),
        call is Some ==> h.bridged,
    ensures
        ({
            let started = match call {
                Some(c) => HandlerView { active: h.active.insert(id, Some(c)), ..h },
                None => h,
            };
            let answered = after_answer(started, id, ws);
            &&& call_end(answered, id) == (CallEnd { was_active: true, terminate: call, ws })
            &&& call_end_counts(call_end(answered, id)) == seq![Count::CallEnded]
            &&& ws matches Some(ws) ==> call_end_message(call_end(answered, id)) == Some(
                (ws, MessageView::Bye),
            )
            &&& after_end(answered, id) == (HandlerView { pending: h.pending.remove(id), ..h })
        }),
{
    let started = match call {
        Some(c) => HandlerView { active: h.active.insert(id, Some(c)), ..h },
        None => h,
    };
    let answered = after_answer(started, id, ws);
    assert(answered.active.remove(id) =~= h.active);
    assert(answered.webrtc_active.remove(id) =~= h.webrtc_active);
}

/// A CANCEL stops the ringing for an INVITE exactly while extensions are ringing
/// for it.
pub proof fn law_cancel_stops_what_rings(h: HandlerView, request: SipRequest, id: Seq<char>)
    requires
        request.method is Cancel,
        call_id_of(request) == Some(id),
    ensures
        inbound_action(h, request) is Cancel,
        inbound_action(h, request)->stop == entry(h.in_flight, id),
        inbound_action(h, request)->Cancel_response.status == 200,
{
}

/// A sweep keeps exactly the browsers whose connections are open, and a second
/// sweep with the same connections finds nothing.
pub proof fn law_sweep_keeps_open_connections(
    m: Map<Seq<char>, WsId>,
    closed: Seq<WsId>,
    id: Seq<char>,
)
    ensures
        ({
            let gone = |ws: WsId| closed.contains(ws);
            let swept = dropped(m, gone);
            &&& swept.contains_key(id) <==> m.contains_key(id) && !closed.contains(m[id])
            &&& swept.contains_key(id) ==> swept[id] == m[id]
            &&& dropped(swept, gone) == swept
        }),
{
    let gone = |ws: WsId| closed.contains(ws);
    let swept = dropped(m, gone);
    assert(dropped(swept, gone) =~= swept);
}

/// Which status and reason phrase a request gets that opens or changes no call, in an
/// answer that names the request and lists the methods that are handled. Nothing is
/// remembered of it.
pub proof fn law_request_outside_a_call_is_answered(h: HandlerView, request: SipRequest)
    ensures
        after_inbound(h, request) == h || request.method is Ack,
        inbound_action(h, request) is Reply <==> !(request.method is Invite || request.method
            is Bye || request.method is Ack || request.method is Cancel),
        match inbound_action(h, request) {
            InboundActionView::Reply { response } => {
                let m = request.method;
                &&& response.body.len() == 0
                &&& header(response.headers, "allow"@) == Some(
                    "INVITE, ACK, BYE, CANCEL, OPTIONS"@,
                )
                &&& header(response.headers, "via"@) == header(request.headers@, "via"@)
                &&& header(response.headers, "from"@) == header(request.headers@, "from"@)
                &&& header(response.headers, "to"@) == header(request.headers@, "to"@)
                &&& header(response.headers, "call-id"@) == header(request.headers@, "call-id"@)
                &&& header(response.headers, "cseq"@) == header(request.headers@, "cseq"@)
                &&& response.status == 200 <==> m is Options || m is Message
                &&& response.status == 489 <==> m is Subscribe || m is Publish
                &&& response.status == 405 <==> m is Refer || m is Register || m is Other
                &&& response.status == 481 <==> m is Notify || m is Prack || m is Update || m
                    is Info
                &&& response.status == 200 ==> response.reason == "OK"@
                &&& response.status == 489 ==> response.reason == "Bad Event"@
                &&& response.status == 405 ==> response.reason == "Method Not Allowed"@
                &&& m is Notify ==> response.reason == "Subscription Does Not Exist"@
                &&& m is Prack || m is Update || m is Info ==> response.reason
                    == "Call/Transaction Does Not Exist"@
            },
            InboundActionView::Invite => request.method is Invite,
            InboundActionView::Acknowledged => request.method is Ack,
            InboundActionView::Bye { response } => {
                &&& request.method is Bye
                &&& response.status == 200
                &&& response.reason == "OK"@
                &&& response.body.len() == 0
                &&& names(request.headers@, response)
            },
            InboundActionView::Cancel { response, stop } => {
                &&& request.method is Cancel
                &&& response.status == 200
                &&& response.reason == "OK"@
                &&& response.body.len() == 0
                &&& names(request.headers@, response)
                &&& stop is Some <==> header(request.headers@, "call-id"@) is Some
                    && h.in_flight.contains_key(header(request.headers@, "call-id"@)->0)
                &&& stop is Some ==> stop->0 == h.in_flight[header(
                    request.headers@,
                    "call-id"@,
                )->0]
            },
        },
{
    lemma_skeleton_is_named(request, 200, "OK"@);
    law_response_takes_over_what_names_the_request(request.headers@, 200, "OK"@, "to"@);
    if let Some((status, reason)) = plain_answer(request.method) {
        law_listing_of_methods_answers_its_request(request, status, reason);
    }
}

/// An ACK ends the wait for it, of the call that it names and of no other; whatever else
/// is known stays.
pub proof fn law_ack_ends_the_wait_for_it(h: HandlerView, request: SipRequest, other: Seq<char>)
    requires
        request.method is Ack,
    ensures
        ({
            let after = after_inbound(h, request);
            let id = header(request.headers@, "call-id"@);
            &&& after.active == h.active
            &&& after.webrtc_active == h.webrtc_active
            &&& after.in_flight == h.in_flight
            &&& after.bridged == h.bridged
            &&& after.forwards == h.forwards
            &&& id is Some ==> !after.pending.contains_key(id->0)
            &&& id != Some(other) ==> entry(after.pending, other) == entry(h.pending, other)
        }),
{
}

/// A request belongs to a dialog exactly where its `To` field has a tag.
pub proof fn law_tagged_request_belongs_to_a_dialog(request: SipRequest)
    ensures
        header(request.headers@, "to"@) is None ==> !in_dialog(request),
        header(request.headers@, "to"@) is Some ==> (in_dialog(request) <==> has_tag(
            header(request.headers@, "to"@)->0,
        )),
        call_id_of(request) == header(request.headers@, "call-id"@),
{
}

/// What the carrier gets where nobody answered: 408 where the time was up, else the best
/// of the refusals, and 486 where there was none. Both sides are counted alike, and as
/// busy exactly where it is a 486. Where somebody answered nothing is refused.
pub proof fn law_carrier_learns_why_nobody_answered(
    request: SipRequest,
    result: ForkResultView,
    tag: Seq<char>,
)
    ensures
        fork_refusal(request, result, tag) is None <==> result is Answered,
        fork_refusal(request, result, tag) is Some ==> {
            let refused = fork_refusal(request, result, tag)->0;
            &&& answers(request, refused.response, tag)
            &&& refused.response.body.len() == 0
            &&& refused.extension is Some
            &&& refused.extension == refused.ngn
            &&& match result {
                ForkResultView::Timeout => {
                    &&& refused.response.status == 408
                    &&& refused.response.reason == "Request Timeout"@
                    &&& refused.ngn->0 is Timeout
                },
                ForkResultView::AllFailed { last_status } => {
                    &&& last_status is Some ==> refused.response.status == last_status->0
                    &&& last_status is None ==> refused.response.status == 486
                    &&& refused.response.status == 486 ==> refused.ngn->0 is Busy
                        && refused.response.reason == "Busy Here"@
                    &&& refused.response.status != 486 ==> refused.ngn->0 is Error
                    &&& refused.response.status == 487 ==> refused.response.reason
                        == "Request Terminated"@
                    &&& refused.response.status != 486 && refused.response.status != 487
                        ==> refused.response.reason == "Decline"@
                },
                _ => false,
            }
        },
{
    if let Some(refused) = fork_refusal(request, result, tag) {
        law_final_response_answers_its_request(
            request,
            refused.response.status,
            refused.response.reason,
            tag,
        );
        match result {
            ForkResultView::AllFailed { last_status } => {
                let status = match last_status {
                    Some(status) => status,
                    None => 486,
                };
                law_final_response_answers_its_request(
                    request,
                    status,
                    reason_phrase(status),
                    tag,
                );
            },
            _ => {
                law_final_response_answers_its_request(request, 408, "Request Timeout"@, tag);
            },
        }
    }
}

/// A refusal has the status and the reason phrase that it is given, names its request,
/// and is counted as given; one in a dialog that nobody knows of is a 481 and is not
/// counted.
pub proof fn law_refusal_is_the_given_one(
    request: SipRequest,
    status: u16,
    reason: Seq<char>,
    tag: Seq<char>,
    extension: Option<InviteResult>,
    ngn: Option<InviteResult>,
)
    ensures
        ({
            let refused = refusal(request, status, reason, tag, extension, ngn);
            &&& refused.response.status == status
            &&& refused.response.reason == reason
            &&& refused.response.body.len() == 0
            &&& answers(request, refused.response, tag)
            &&& refused.extension == extension
            &&& refused.ngn == ngn
        }),
        ({
            let refused = no_such_dialog(request, tag);
            &&& refused.response.status == 481
            &&& refused.response.reason == "Call/Transaction Does Not Exist"@
            &&& answers(request, refused.response, tag)
            &&& refusal_counts(refused).len() == 0
        }),
{
    law_final_response_answers_its_request(request, status, reason, tag);
    law_final_response_answers_its_request(
        request,
        481,
        "Call/Transaction Does Not Exist"@,
        tag,
    );
}

/// A refused INVITE is counted once on each side on which it is known how it ended, and
/// that is how it is counted there.
pub proof fn law_refused_invite_is_counted_on_each_side(refused: RefusalView)
    ensures
        ({
            let counts = refusal_counts(refused);
            &&& counts.len() == (if refused.extension is Some {
                1int
            } else {
                0
            }) + (if refused.ngn is Some {
                1int
            } else {
                0
            })
            &&& refused.extension is Some ==> counts.first() == Count::Extension(
                refused.extension->0,
            )
            &&& refused.ngn is Some ==> counts.last() == Count::Ngn(refused.ngn->0)
        }),
{
}

/// The carrier's INVITE is answered with a 200 that names it, whose body is exactly the
/// session description that is given, and whose `Contact` is this end at the given
/// address.
pub proof fn law_answer_to_the_carrier_is_the_given_one(
    request: SipRequest,
    body: Seq<u8>,
    addr: Seq<char>,
    tag: Seq<char>,
)
    ensures
        ({
            let out = answer_to_ngn(request, body, addr, tag);
            &&& out.status == 200
            &&& out.reason == "OK"@
            &&& out.body == body
            &&& answers(request, out, tag)
            &&& header(out.headers, "contact"@) == Some("<sip:sabiden@"@ + addr + ">"@)
            &&& header(out.headers, "content-type"@) == (if body.len() > 0 {
                Some("application/sdp"@)
            } else {
                None
            })
        }),
{
    lemma_field_names();
    let plain = with_sdp(skeleton(request.headers@, 200, "OK"@), body);
    lemma_sdp_is_named(request, body);
    lemma_named_is_answered(request, plain, tag);
    law_only_a_missing_tag_is_added(plain, tag, "content-type"@);
    lemma_contact_keeps_answers(
        request,
        tagged(plain, tag),
        tag,
        "<sip:sabiden@"@ + addr + ">"@,
    );
}

/// The socket towards the carrier is bound to the address that is set for it; failing
/// that, to the address of the SIP socket, where that is one address and not all of
/// them; failing that, to the loopback address.
pub proof fn law_bridge_is_bound_towards_the_carrier(
    set: Option<IpAddr>,
    socket_ip: Option<IpAddr>,
)
    ensures
        set is Some ==> ngn_bridge_ip(set, socket_ip) == set->0,
        set is None && socket_ip is Some && !socket_ip->0.unspecified() ==> ngn_bridge_ip(
            set,
            socket_ip,
        ) == socket_ip->0,
        set is None && (socket_ip is None || socket_ip->0.unspecified()) ==> ngn_bridge_ip(
            set,
            socket_ip,
        ) == IpAddr::V4(LOOPBACK),
{
}

/// The carrier reaches this end at the address that is set for it, or else at that of the
/// SIP socket.
pub proof fn law_carrier_reaches_the_address_that_is_set(
    cfg: NgnInboundConfig,
    socket_addr: Option<&str>,
)
    ensures
        cfg.ngn_local_addr is Some ==> local_addr(cfg, socket_addr) == Some(
            cfg.ngn_local_addr->0@,
        ),
        cfg.ngn_local_addr is None && socket_addr is Some ==> local_addr(cfg, socket_addr) == Some(
            socket_addr->0@,
        ),
        cfg.ngn_local_addr is None && socket_addr is None ==> local_addr(cfg, socket_addr) is None,
{
}

/// A BYE of the carrier ends one call, the one that it names. A call of a browser ends
/// with its own bridge, connection and dialog; of any other call somebody else is asked
/// first, where there is somebody; then it ends with its own bridge and browser.
pub proof fn law_bye_of_the_carrier_ends_its_call_alone(
    h: HandlerView,
    outbound: Map<Seq<char>, WebRtcOutboundEntry>,
    request: SipRequest,
    other: Seq<char>,
)
    ensures
        ({
            let (next, h1, outbound1) = bye_step(h, outbound, request);
            let id = header(request.headers@, "call-id"@);
            &&& next is Nothing <==> id is None
            &&& next is EndBrowserCall <==> id is Some && outbound.contains_key(id->0)
            &&& next is AskForwarder <==> id is Some && !outbound.contains_key(id->0)
                && h.forwards
            &&& next is End <==> id is Some && !outbound.contains_key(id->0) && !h.forwards
            &&& !(next is End) ==> h1 == h
            &&& !(next is EndBrowserCall) ==> outbound1 == outbound
            &&& match next {
                ByeNext::EndBrowserCall { terminate, ws, dialog } => {
                    &&& ws == outbound[id->0].ws
                    &&& dialog == outbound[id->0].ngn_dialog
                    &&& h.bridged ==> terminate == Some(outbound[id->0].bridge_call_id)
                    &&& !h.bridged ==> terminate is None
                    &&& !outbound1.contains_key(id->0)
                },
                ByeNext::End(end) => {
                    &&& end.was_active <==> h.active.contains_key(id->0)
                    &&& end.ws is Some <==> h.webrtc_active.contains_key(id->0)
                    &&& end.ws is Some ==> end.ws->0 == h.webrtc_active[id->0]
                    &&& h.bridged && h.active.contains_key(id->0) ==> end.terminate
                        == h.active[id->0]
                    &&& !h.bridged || !h.active.contains_key(id->0) ==> end.terminate is None
                    &&& !h1.active.contains_key(id->0)
                    &&& !h1.pending.contains_key(id->0)
                    &&& !h1.webrtc_active.contains_key(id->0)
                },
                _ => true,
            }
            &&& id != Some(other) ==> {
                &&& entry(outbound1, other) == entry(outbound, other)
                &&& entry(h1.active, other) == entry(h.active, other)
                &&& entry(h1.pending, other) == entry(h.pending, other)
                &&& entry(h1.webrtc_active, other) == entry(h.webrtc_active, other)
            }
            &&& h1.in_flight == h.in_flight
            &&& h1.bridged == h.bridged
            &&& h1.forwards == h.forwards
        }),
{
}

/// The end of a call takes out what is known of it and of no other, and says what there
/// is to end: its own bridge, where bridges are kept, and its own browser.
pub proof fn law_end_of_a_call_spares_the_others(h: HandlerView, id: Seq<char>, other: Seq<char>)
    ensures
        ({
            let end = call_end(h, id);
            let after = after_end(h, id);
            &&& end.was_active <==> h.active.contains_key(id)
            &&& end.ws is Some <==> h.webrtc_active.contains_key(id)
            &&& end.ws is Some ==> end.ws->0 == h.webrtc_active[id]
            &&& h.bridged && h.active.contains_key(id) ==> end.terminate == h.active[id]
            &&& !(h.bridged && h.active.contains_key(id)) ==> end.terminate is None
            &&& !after.active.contains_key(id)
            &&& !after.pending.contains_key(id)
            &&& !after.webrtc_active.contains_key(id)
            &&& after.in_flight == h.in_flight
            &&& after.bridged == h.bridged
            &&& after.forwards == h.forwards
            &&& other != id ==> {
                &&& entry(after.active, other) == entry(h.active, other)
                &&& entry(after.pending, other) == entry(h.pending, other)
                &&& entry(after.webrtc_active, other) == entry(h.webrtc_active, other)
            }
        }),
{
}

/// A call is counted as ended, and a browser is told BYE, exactly where there was a call
/// and a browser; the browser that is told is that of the call.
pub proof fn law_end_of_a_call_is_counted_and_told(next: ByeNext)
    ensures
        bye_counts(next) == (if next is EndBrowserCall || next is End && next->End_0.was_active {
            seq![Count::CallEnded]
        } else {
            Seq::<Count>::empty()
        }),
        match next {
            ByeNext::EndBrowserCall { ws, .. } => bye_message(next) == Some(
                (ws, MessageView::Bye),
            ),
            ByeNext::End(end) => {
                &&& bye_message(next) is Some <==> end.ws is Some
                &&& end.ws is Some ==> bye_message(next) == Some((end.ws->0, MessageView::Bye))
            },
            _ => bye_message(next) is None,
        },
        next is End ==> call_end_counts(next->End_0) == bye_counts(next) && call_end_message(
            next->End_0,
        ) == bye_message(next),
{
}

/// An answer keeps the bridge that the call has, and knows a call without one; the
/// browser that answered is known, and what is known of every other call stays.
pub proof fn law_answered_call_is_kept(
    h: HandlerView,
    id: Seq<char>,
    ws: Option<WsId>,
    other: Seq<char>,
)
    ensures
        ({
            let after = after_answer(h, id, ws);
            &&& after.active.contains_key(id)
            &&& h.active.contains_key(id) ==> after.active[id] == h.active[id]
            &&& !h.active.contains_key(id) ==> after.active[id] is None
            &&& ws is Some ==> entry(after.webrtc_active, id) == ws
            &&& ws is None ==> after.webrtc_active == h.webrtc_active
            &&& after.pending == h.pending
            &&& after.in_flight == h.in_flight
            &&& after.bridged == h.bridged
            &&& after.forwards == h.forwards
            &&& other != id ==> {
                &&& entry(after.active, other) == entry(h.active, other)
                &&& entry(after.webrtc_active, other) == entry(h.webrtc_active, other)
            }
        }),
{
}

/// A new handler knows of no call, and asks nobody about one.
pub proof fn law_new_handler_knows_of_no_call(bridged: bool, id: Seq<char>)
    ensures
        fresh_handler(bridged).bridged == bridged,
        !fresh_handler(bridged).forwards,
        !fresh_handler(bridged).pending.contains_key(id),
        !fresh_handler(bridged).active.contains_key(id),
        !fresh_handler(bridged).webrtc_active.contains_key(id),
        !fresh_handler(bridged).in_flight.contains_key(id),
{
}

/// A call whose bridge could not be set up is given up exactly where there should have
/// been one or the answer is a placeholder; and a refusal counts as busy exactly where it
/// is a 486.
pub proof fn law_call_without_its_bridge_is_given_up(bridged: bool, answer: Seq<u8>, status: u16)
    ensures
        gives_up(bridged, answer) <==> bridged || is_placeholder(answer),
        counted_as(status) is Busy <==> status == 486,
        counted_as(status) is Error <==> status != 486,
{
}

/// The answer to the carrier's INVITE has no other fields than those that it takes over,
/// its `Contact` and the type of its body.
pub proof fn law_answer_to_the_carrier_has_no_other_fields(
    request: SipRequest,
    body: Seq<u8>,
    addr: Seq<char>,
    tag: Seq<char>,
    name: Seq<char>,
)
    requires
        is_added(name),
        !same_ignoring_case("Contact"@, name),
        !same_ignoring_case("Content-Type"@, name),
    ensures
        header(answer_to_ngn(request, body, addr, tag).headers, name) is None,
{
    let bare = skeleton(request.headers@, 200, "OK"@);
    let plain = with_sdp(bare, body);
    let contact = "<sip:sabiden@"@ + addr + ">"@;
    law_response_takes_over_what_names_the_request(request.headers@, 200, "OK"@, name);
    law_session_description_is_the_body(bare, body, name);
    law_only_a_missing_tag_is_added(plain, tag, name);
    law_header_set_is_header_read(tagged(plain, tag).headers, "Contact"@, contact, name);
}

} // verus!
