//! Calls from browsers to the carrier.
//!
//! A browser has no SIP dialog. Its offer is answered by a peer connection, and
//! the carrier gets an INVITE with an offer of its own; a bridge carries the media
//! in between. The driver does these things as [`PwaCall::step`] says, and the
//! calls that come about are kept in a [`WebRtcOutboundActive`] table, from which
//! either side ends them.

use vstd::prelude::*;
use vstd::string::StringExecFns;

use crate::bridge::{bridge_to_browser, browser_bridge, BridgeSpec, NgnSide};
use crate::browser::{message_view, BrowserMessage, MessageView};
use crate::counts::{no_counts, one_count, two_counts, Count};
use crate::fork::WebRtcLegArtifacts;
use crate::ids::{CallId, DialogId, IpAddr, MediaId, SocketAddr, SocketId, WsId, LOOPBACK};
use crate::ngn_inbound::{
    count_status, counted_as, InviteResult, WebRtcOutboundActive, WebRtcOutboundEntry,
};
use crate::outbound_bridge::or_loopback;
use crate::rate_limiter::{
    after_check, after_failure, after_success, decision, AorState, RateLimitDecision,
};
use crate::sip::{ResponseView, SipResponse};
use crate::table::{dropped, lists};
use crate::text::{decimal, join, to_decimal};
use crate::time::{Instant, NANOS_PER_SEC};
use crate::uas::{
    interval_ms, interval_sample, retry_after_of, retry_after_secs, OutboundDirection, UasConfig,
    UasEventHandler, UasView,
};
use crate::uri::{
    account_key, is_dial_target, is_valid_pwa_dial_target, ngn_aor_from_uac,
    normalize_request_uri_for_ngn, request_uri_for_ngn,
};
use crate::webrtc_leg::DEFAULT_OPUS_PT;

verus! {

/// Why a browser's call does not begin.
#[derive(Debug)]
pub enum PwaRefusal {
    /// What it dials is no dial target.
    InvalidTarget,
    /// It comes too soon. The browser is told `message`, under the code `code`.
    RateLimited { retry_after_secs: u64, code: &'static str, message: String },
}

/// The code under which a browser is told of a call that comes too soon.
pub const RATE_LIMITED: &'static str = "rate_limited";

/// The code under which a browser is told of a call that failed.
pub const OUTBOUND_FAILED: &'static str = "outbound_failed";

/// What a browser's call is counted as that does not begin.
pub open spec fn pwa_refusal_counts(refused: PwaRefusal) -> Seq<Count> {
    match refused {
        PwaRefusal::InvalidTarget => seq![],
        PwaRefusal::RateLimited { .. } => seq![
            Count::Blocked(OutboundDirection::PwaOutbound),
            Count::PwaOutbound(InviteResult::Error),
        ],
    }
}

impl PwaRefusal {
    /// What the browser is told, beside that its call does not begin.
    pub fn message(&self) -> (r: Option<BrowserMessage>)
        ensures
            message_view(r) == (match *self {
                PwaRefusal::InvalidTarget => None,
                PwaRefusal::RateLimited { code, message, .. } => Some(
                    MessageView::Error { code: code@, message: message@ },
                ),
            }),
    {
        match self {
            PwaRefusal::InvalidTarget => None,
            PwaRefusal::RateLimited { code, message, .. } => Some(
                BrowserMessage::Error { code: *code, message: message.clone() },
            ),
        }
    }

    /// What the call is counted as.
    pub fn counts(&self) -> (r: Vec<Count>)
        ensures
            r@ == pwa_refusal_counts(*self),
    {
        match self {
            PwaRefusal::InvalidTarget => no_counts(),
            PwaRefusal::RateLimited { .. } => two_counts(
                Count::Blocked(OutboundDirection::PwaOutbound),
                Count::PwaOutbound(InviteResult::Error),
            ),
        }
    }
}

/// The message about a call that comes too soon.
pub open spec fn rate_limit_message(secs: u64) -> Seq<char> {
    "outbound INVITE rate-limited (TTC JJ-90.24 §5.7.1): retry after "@ + decimal(secs as nat)
        + " sec"@
}

/// How far a call has come.
#[derive(Debug)]
pub enum PwaStage {
    New { offer: String },
    HandlingOffer,
    TakingMedia { answer: String },
    Binding { answer: String, media: MediaId },
    Converting { answer: String, media: MediaId, socket: SocketId, addr: SocketAddr },
    Restricting { answer: String, media: MediaId, socket: SocketId, addr: SocketAddr },
    Rewriting { answer: String, media: MediaId, socket: SocketId, addr: SocketAddr },
    Inviting { answer: String, media: MediaId, socket: SocketId, addr: SocketAddr },
    FindingPeer {
        media: MediaId,
        socket: SocketId,
        addr: SocketAddr,
        dialog: DialogId,
        ngn_call_id: String,
    },
    Starting { dialog: DialogId, ngn_call_id: String },
    Finished,
}

/// The contents of a [`PwaStage`].
pub enum PwaStageView {
    New { offer: Seq<char> },
    HandlingOffer,
    TakingMedia { answer: Seq<char> },
    Binding { answer: Seq<char>, media: MediaId },
    Converting { answer: Seq<char>, media: MediaId, socket: SocketId, addr: SocketAddr },
    Restricting { answer: Seq<char>, media: MediaId, socket: SocketId, addr: SocketAddr },
    Rewriting { answer: Seq<char>, media: MediaId, socket: SocketId, addr: SocketAddr },
    Inviting { answer: Seq<char>, media: MediaId, socket: SocketId, addr: SocketAddr },
    FindingPeer {
        media: MediaId,
        socket: SocketId,
        addr: SocketAddr,
        dialog: DialogId,
        ngn_call_id: Seq<char>,
    },
    Starting { dialog: DialogId, ngn_call_id: Seq<char> },
    Finished,
}

impl View for PwaStage {
    type V = PwaStageView;

    open spec fn view(&self) -> PwaStageView {
        match self {
            PwaStage::New { offer } => PwaStageView::New { offer: offer@ },
            PwaStage::HandlingOffer => PwaStageView::HandlingOffer,
            PwaStage::TakingMedia { answer } => PwaStageView::TakingMedia { answer: answer@ },
            PwaStage::Binding { answer, media } => PwaStageView::Binding {
                answer: answer@,
                media: *media,
            },
            PwaStage::Converting { answer, media, socket, addr } => PwaStageView::Converting {
                answer: answer@,
                media: *media,
                socket: *socket,
                addr: *addr,
            },
            PwaStage::Restricting { answer, media, socket, addr } => PwaStageView::Restricting {
                answer: answer@,
                media: *media,
                socket: *socket,
                addr: *addr,
            },
            PwaStage::Rewriting { answer, media, socket, addr } => PwaStageView::Rewriting {
                answer: answer@,
                media: *media,
                socket: *socket,
                addr: *addr,
            },
            PwaStage::Inviting { answer, media, socket, addr } => PwaStageView::Inviting {
                answer: answer@,
                media: *media,
                socket: *socket,
                addr: *addr,
            },
            PwaStage::FindingPeer { media, socket, addr, dialog, ngn_call_id } =>
                PwaStageView::FindingPeer {
                media: *media,
                socket: *socket,
                addr: *addr,
                dialog: *dialog,
                ngn_call_id: ngn_call_id@,
            },
            PwaStage::Starting { dialog, ngn_call_id } => PwaStageView::Starting {
                dialog: *dialog,
                ngn_call_id: ngn_call_id@,
            },
            PwaStage::Finished => PwaStageView::Finished,
        }
    }
}

/// What can happen to a call.
#[derive(Debug)]
pub enum PwaEvent {
    /// The call is begun.
    Begin,
    /// The peer connection answered the browser's offer.
    OfferHandled { answer: String },
    /// The peer connection's media were taken.
    MediaTaken { media: MediaId },
    /// The socket towards the carrier was bound.
    Bound { socket: SocketId, addr: SocketAddr },
    /// The answer for the browser was converted.
    Converted { sdp: Vec<u8> },
    /// What was converted was restricted.
    Restricted { sdp: Vec<u8> },
    /// What was restricted was made to point at the socket: it is the offer for the
    /// carrier.
    Rewritten { sdp: Vec<u8> },
    /// What was asked for failed, before an INVITE went out.
    Failed,
    /// The carrier answered, with the session description `sdp`.
    Established { dialog: DialogId, ngn_call_id: String, sdp: Vec<u8> },
    /// The carrier refused.
    Refused { response: SipResponse },
    /// The carrier gave no final response.
    TransportFailed { error: String },
    /// The media address in the carrier's answer was found, and the payload type of
    /// Opus in the peer connection's answer, where it names one.
    PeerFound { addr: SocketAddr, opus_pt: Option<u8> },
    /// There is no media address in the carrier's answer.
    NoPeer { error: String },
    /// The bridge is running as part of `call`.
    Attached { call: CallId },
    /// The bridge could not be made part of the new call `call`.
    NotAttached { call: CallId, error: String },
}

/// The contents of a [`PwaEvent`].
pub enum PwaEventView {
    Begin,
    OfferHandled { answer: Seq<char> },
    MediaTaken { media: MediaId },
    Bound { socket: SocketId, addr: SocketAddr },
    Converted { sdp: Seq<u8> },
    Restricted { sdp: Seq<u8> },
    Rewritten { sdp: Seq<u8> },
    Failed,
    Established { dialog: DialogId, ngn_call_id: Seq<char>, sdp: Seq<u8> },
    Refused { response: ResponseView },
    TransportFailed { error: Seq<char> },
    PeerFound { addr: SocketAddr, opus_pt: Option<u8> },
    NoPeer { error: Seq<char> },
    Attached { call: CallId },
    NotAttached { call: CallId, error: Seq<char> },
}

impl View for PwaEvent {
    type V = PwaEventView;

    open spec fn view(&self) -> PwaEventView {
        match self {
            PwaEvent::Begin => PwaEventView::Begin,
            PwaEvent::OfferHandled { answer } => PwaEventView::OfferHandled { answer: answer@ },
            PwaEvent::MediaTaken { media } => PwaEventView::MediaTaken { media: *media },
            PwaEvent::Bound { socket, addr } => PwaEventView::Bound {
                socket: *socket,
                addr: *addr,
            },
            PwaEvent::Converted { sdp } => PwaEventView::Converted { sdp: sdp@ },
            PwaEvent::Restricted { sdp } => PwaEventView::Restricted { sdp: sdp@ },
            PwaEvent::Rewritten { sdp } => PwaEventView::Rewritten { sdp: sdp@ },
            PwaEvent::Failed => PwaEventView::Failed,
            PwaEvent::Established { dialog, ngn_call_id, sdp } => PwaEventView::Established {
                dialog: *dialog,
                ngn_call_id: ngn_call_id@,
                sdp: sdp@,
            },
            PwaEvent::Refused { response } => PwaEventView::Refused { response: response@ },
            PwaEvent::TransportFailed { error } => PwaEventView::TransportFailed { error: error@ },
            PwaEvent::PeerFound { addr, opus_pt } => PwaEventView::PeerFound {
                addr: *addr,
                opus_pt: *opus_pt,
            },
            PwaEvent::NoPeer { error } => PwaEventView::NoPeer { error: error@ },
            PwaEvent::Attached { call } => PwaEventView::Attached { call: *call },
            PwaEvent::NotAttached { call, error } => PwaEventView::NotAttached {
                call: *call,
                error: error@,
            },
        }
    }
}

/// What a driver does for a call.
#[derive(Debug)]
pub enum PwaAction {
    /// The event has no place at this stage: do nothing.
    Ignore,
    /// Have the peer connection answer `sdp`, the browser's offer.
    HandleOffer { sdp: String },
    /// Take the peer connection's media.
    TakeMedia,
    /// Bind the socket towards the carrier.
    Bind { ip: IpAddr },
    /// Take what belongs to secured media out of `answer`.
    Convert { answer: String },
    /// Restrict this to the carrier's codec.
    Restrict { sdp: Vec<u8> },
    /// Make this point at `addr`.
    Rewrite { sdp: Vec<u8>, addr: SocketAddr },
    /// Send the browser `answer`, and the carrier an INVITE with the offer `sdp`.
    Invite { answer: String, target_uri: String, sdp: Vec<u8> },
    /// Give up. The browser gets no answer.
    GiveUp,
    /// Find the media address in `sdp`, the carrier's answer, and the payload type of
    /// Opus in `answer`, the browser's.
    FindPeer { sdp: Vec<u8>, answer: String },
    /// Start the bridge as part of a new call.
    Start { bridge: BridgeSpec },
    /// The call has come about.
    Done,
    /// Tell the browser `detail`, under the code `code`; end the call `terminate`; send a
    /// BYE in the dialog `bye`. The INVITE ended as `ngn` on the carrier's side, and the
    /// browser's call as `pwa`.
    Fail {
        code: &'static str,
        detail: String,
        terminate: Option<CallId>,
        bye: Option<DialogId>,
        ngn: Option<InviteResult>,
        pwa: InviteResult,
    },
}

/// What a browser's call is counted as when an action is taken.
pub open spec fn pwa_counts(action: PwaActionView) -> Seq<Count> {
    match action {
        PwaActionView::FindPeer { .. } => seq![Count::Ngn(InviteResult::Answered)],
        PwaActionView::Done => seq![
            Count::PwaOutbound(InviteResult::Answered),
            Count::CallBegun,
        ],
        PwaActionView::Fail { ngn: Some(ngn), pwa, .. } => seq![
            Count::Ngn(ngn),
            Count::PwaOutbound(pwa),
        ],
        PwaActionView::Fail { ngn: None, pwa, .. } => seq![Count::PwaOutbound(pwa)],
        _ => seq![],
    }
}

impl PwaAction {
    /// What the browser is told when the action is taken.
    pub fn message(&self) -> (r: Option<BrowserMessage>)
        ensures
            message_view(r) == (match self@ {
                PwaActionView::Fail { code, detail, .. } => Some(
                    MessageView::Error { code, message: detail },
                ),
                _ => None,
            }),
    {
        match self {
            PwaAction::Fail { code, detail, .. } => Some(
                BrowserMessage::Error { code: *code, message: detail.clone() },
            ),
            _ => None,
        }
    }

    /// What the call is counted as when the action is taken.
    pub fn counts(&self) -> (r: Vec<Count>)
        ensures
            r@ == pwa_counts(self@),
    {
        match self {
            PwaAction::FindPeer { .. } => one_count(Count::Ngn(InviteResult::Answered)),
            PwaAction::Done => two_counts(
                Count::PwaOutbound(InviteResult::Answered),
                Count::CallBegun,
            ),
            PwaAction::Fail { ngn, pwa, .. } => match ngn {
                Some(ngn) => two_counts(Count::Ngn(*ngn), Count::PwaOutbound(*pwa)),
                None => one_count(Count::PwaOutbound(*pwa)),
            },
            _ => no_counts(),
        }
    }
}

/// The contents of a [`PwaAction`].
pub enum PwaActionView {
    Ignore,
    HandleOffer { sdp: Seq<char> },
    TakeMedia,
    Bind { ip: IpAddr },
    Convert { answer: Seq<char> },
    Restrict { sdp: Seq<u8> },
    Rewrite { sdp: Seq<u8>, addr: SocketAddr },
    Invite { answer: Seq<char>, target_uri: Seq<char>, sdp: Seq<u8> },
    GiveUp,
    FindPeer { sdp: Seq<u8>, answer: Seq<char> },
    Start { bridge: BridgeSpec },
    Done,
    Fail {
        code: Seq<char>,
        detail: Seq<char>,
        terminate: Option<CallId>,
        bye: Option<DialogId>,
        ngn: Option<InviteResult>,
        pwa: InviteResult,
    },
}

impl View for PwaAction {
    type V = PwaActionView;

    open spec fn view(&self) -> PwaActionView {
        match self {
            PwaAction::Ignore => PwaActionView::Ignore,
            PwaAction::HandleOffer { sdp } => PwaActionView::HandleOffer { sdp: sdp@ },
            PwaAction::TakeMedia => PwaActionView::TakeMedia,
            PwaAction::Bind { ip } => PwaActionView::Bind { ip: *ip },
            PwaAction::Convert { answer } => PwaActionView::Convert { answer: answer@ },
            PwaAction::Restrict { sdp } => PwaActionView::Restrict { sdp: sdp@ },
            PwaAction::Rewrite { sdp, addr } => PwaActionView::Rewrite { sdp: sdp@, addr: *addr },
            PwaAction::Invite { answer, target_uri, sdp } => PwaActionView::Invite {
                answer: answer@,
                target_uri: target_uri@,
                sdp: sdp@,
            },
            PwaAction::GiveUp => PwaActionView::GiveUp,
            PwaAction::FindPeer { sdp, answer } => PwaActionView::FindPeer {
                sdp: sdp@,
                answer: answer@,
            },
            PwaAction::Start { bridge } => PwaActionView::Start { bridge: *bridge },
            PwaAction::Done => PwaActionView::Done,
            PwaAction::Fail { code, detail, terminate, bye, ngn, pwa } => PwaActionView::Fail {
                code: code@,
                detail: detail@,
                terminate: *terminate,
                bye: *bye,
                ngn: *ngn,
                pwa: *pwa,
            },
        }
    }
}

/// A call from a browser to `target`.
#[derive(Debug)]
pub struct PwaCall {
    /// The key under which the call is counted by the limiter.
    pub aor: String,
    pub target: String,
    pub ws: WsId,
    pub stage: PwaStage,
}

/// The contents of a [`PwaCall`].
#[verifier::ext_equal]
pub struct PwaCallView {
    pub aor: Seq<char>,
    pub target: Seq<char>,
    pub ws: WsId,
    pub stage: PwaStageView,
}

impl View for PwaCall {
    type V = PwaCallView;

    open spec fn view(&self) -> PwaCallView {
        PwaCallView {
            aor: self.aor@,
            target: self.target@,
            ws: self.ws,
            stage: self.stage@,
        }
    }
}

/// The URI that a browser dials.
pub open spec fn dialled_uri(config: UasConfig, target: Seq<char>) -> Seq<char> {
    request_uri_for_ngn(
        "sip:"@ + target + "@"@ + config.uac.server_host@ + ":"@ + decimal(
            config.uac.server_port as nat,
        ),
        config.uac.server_host@,
        config.uac.server_port,
    )
}

fn uri_to_dial(config: &UasConfig, target: &str) -> (r: String)
    ensures
        r@ == dialled_uri(*config, target@),
{
    let mut uri: String = join("sip:", target);
    uri.append("@");
    uri.append(config.uac.server_host.as_str());
    uri.append(":");
    uri.append(to_decimal(config.uac.server_port as u64).as_str());
    normalize_request_uri_for_ngn(
        uri.as_str(),
        config.uac.server_host.as_str(),
        config.uac.server_port,
    )
}

/// The message about a refusal by the carrier.
pub open spec fn refusal_detail(response: ResponseView) -> Seq<char> {
    let head = "NGN INVITE 失敗: "@ + decimal(response.status as nat) + " "@ + response.reason;
    match retry_after_of(response) {
        Some(secs) => head + " (retry_after="@ + decimal(secs as nat) + "s)"@,
        None => head,
    }
}

fn refusal_message(response: &SipResponse) -> (r: String)
    ensures
        r@ == refusal_detail(response@),
{
    let mut r: String = join("NGN INVITE 失敗: ", to_decimal(response.status_code as u64).as_str());
    r.append(" ");
    r.append(response.reason.as_str());
    if let Some(secs) = retry_after_secs(response) {
        r.append(" (retry_after=");
        r.append(to_decimal(secs as u64).as_str());
        r.append("s)");
    }
    r
}

/// A failure after the carrier answered: the carrier's dialog is closed.
pub open spec fn broken_off(detail: Seq<char>, terminate: Option<CallId>, dialog: DialogId) -> (
    PwaStageView,
    PwaActionView,
) {
    (
        PwaStageView::Finished,
        PwaActionView::Fail {
            code: OUTBOUND_FAILED@,
            detail,
            terminate,
            bye: Some(dialog),
            ngn: None,
            pwa: InviteResult::Error,
        },
    )
}

/// The stage that an event leads to, and what is to be done.
pub open spec fn pwa_step(config: UasConfig, call: PwaCallView, event: PwaEventView) -> (
    PwaStageView,
    PwaActionView,
) {
    match (call.stage, event) {
        (PwaStageView::New { offer }, PwaEventView::Begin) => (
            PwaStageView::HandlingOffer,
            PwaActionView::HandleOffer { sdp: offer },
        ),
        (PwaStageView::HandlingOffer, PwaEventView::OfferHandled { answer }) => (
            PwaStageView::TakingMedia { answer },
            PwaActionView::TakeMedia,
        ),
        (PwaStageView::TakingMedia { answer }, PwaEventView::MediaTaken { media }) => (
            PwaStageView::Binding { answer, media },
            PwaActionView::Bind { ip: or_loopback(config.bridge_ngn_bind_ip) },
        ),
        (PwaStageView::Binding { answer, media }, PwaEventView::Bound { socket, addr }) => (
            PwaStageView::Converting { answer, media, socket, addr },
            PwaActionView::Convert { answer },
        ),
        (
            PwaStageView::Converting { answer, media, socket, addr },
            PwaEventView::Converted { sdp },
        ) => (
            PwaStageView::Restricting { answer, media, socket, addr },
            PwaActionView::Restrict { sdp },
        ),
        (
            PwaStageView::Restricting { answer, media, socket, addr },
            PwaEventView::Restricted { sdp },
        ) => (
            PwaStageView::Rewriting { answer, media, socket, addr },
            PwaActionView::Rewrite { sdp, addr },
        ),
        (
            PwaStageView::Rewriting { answer, media, socket, addr },
            PwaEventView::Rewritten { sdp },
        ) => (
            PwaStageView::Inviting { answer, media, socket, addr },
            PwaActionView::Invite { answer, target_uri: dialled_uri(config, call.target), sdp },
        ),
        (
            PwaStageView::New { .. }
            | PwaStageView::HandlingOffer
            | PwaStageView::TakingMedia { .. }
            | PwaStageView::Binding { .. }
            | PwaStageView::Converting { .. }
            | PwaStageView::Restricting { .. }
            | PwaStageView::Rewriting { .. },
            PwaEventView::Failed,
        ) => (PwaStageView::Finished, PwaActionView::GiveUp),
        (
            PwaStageView::Inviting { answer, media, socket, addr },
            PwaEventView::Established { dialog, ngn_call_id, sdp },
        ) => (
            PwaStageView::FindingPeer { media, socket, addr, dialog, ngn_call_id },
            PwaActionView::FindPeer { sdp, answer },
        ),
        (PwaStageView::Inviting { .. }, PwaEventView::Refused { response }) => (
            PwaStageView::Finished,
            PwaActionView::Fail {
                code: OUTBOUND_FAILED@,
                detail: refusal_detail(response),
                terminate: None,
                bye: None,
                ngn: Some(counted_as(response.status)),
                pwa: counted_as(response.status),
            },
        ),
        (PwaStageView::Inviting { .. }, PwaEventView::TransportFailed { error }) => (
            PwaStageView::Finished,
            PwaActionView::Fail {
                code: OUTBOUND_FAILED@,
                detail: "NGN INVITE 失敗: "@ + error,
                terminate: None,
                bye: None,
                ngn: Some(InviteResult::Timeout),
                pwa: InviteResult::Timeout,
            },
        ),
        (
            PwaStageView::FindingPeer { media, socket, addr, dialog, ngn_call_id },
            PwaEventView::PeerFound { addr: peer, opus_pt },
        ) => if config.has_call_manager {
            (
                PwaStageView::Starting { dialog, ngn_call_id },
                PwaActionView::Start {
                    bridge: browser_bridge(
                        NgnSide { socket, addr, peer },
                        WebRtcLegArtifacts {
                            media,
                            opus_payload_type: match opus_pt {
                                Some(pt) => pt,
                                None => DEFAULT_OPUS_PT,
                            },
                        },
                    ),
                },
            )
        } else {
            broken_off("CallManager 未注入"@, None, dialog)
        },
        (
            PwaStageView::FindingPeer { media, socket, addr, dialog, ngn_call_id },
            PwaEventView::NoPeer { error },
        ) => broken_off("NGN 200 OK SDP 解析失敗: "@ + error, None, dialog),
        (PwaStageView::Starting { dialog, ngn_call_id }, PwaEventView::Attached { call }) => (
            PwaStageView::Finished,
            PwaActionView::Done,
        ),
        (
            PwaStageView::Starting { dialog, ngn_call_id },
            PwaEventView::NotAttached { call, error },
        ) => broken_off("CallManager attach 失敗: "@ + error, Some(call), dialog),
        _ => (call.stage, PwaActionView::Ignore),
    }
}

/// What the limiter remembers after an event.
pub open spec fn limiter_after(
    limiter: Map<Seq<char>, AorState>,
    call: PwaCallView,
    event: PwaEventView,
    now: Instant,
) -> Map<Seq<char>, AorState> {
    match (call.stage, event) {
        (PwaStageView::Inviting { .. }, PwaEventView::Established { .. }) => after_success(
            limiter,
            call.aor,
        ),
        (PwaStageView::Inviting { .. }, PwaEventView::Refused { response }) => after_failure(
            limiter,
            call.aor,
            response.status,
            retry_after_of(response),
            now,
        ),
        (PwaStageView::Inviting { .. }, PwaEventView::TransportFailed { .. }) => after_failure(
            limiter,
            call.aor,
            503,
            None,
            now,
        ),
        _ => limiter,
    }
}

/// The calls of browsers after an event.
pub open spec fn calls_after(
    calls: Map<Seq<char>, WebRtcOutboundEntry>,
    call: PwaCallView,
    event: PwaEventView,
) -> Map<Seq<char>, WebRtcOutboundEntry> {
    match (call.stage, event) {
        (
            PwaStageView::Starting { dialog, ngn_call_id },
            PwaEventView::Attached { call: bridge },
        ) => calls.insert(
            ngn_call_id,
            WebRtcOutboundEntry { ngn_dialog: dialog, ws: call.ws, bridge_call_id: bridge },
        ),
        _ => calls,
    }
}

/// Begins a call of the browser at `ws` to `target` at `now`, with the browser's offer
/// `browser_offer`. [`PwaEvent::Begin`] is its first event. With the call comes the time
/// since the last INVITE, for the statistics.
pub fn handle_pwa_outbound_offer_at(
    uas: &mut UasEventHandler,
    target: &str,
    browser_offer: &str,
    ws: WsId,
    now: Instant,
) -> (r: Result<(PwaCall, Option<u64>), PwaRefusal>)
    ensures
        final(uas).settings() == old(uas).settings(),
        final(uas).limiter_parameters() == old(uas).limiter_parameters(),
        final(uas).limiter_clock() == old(uas).limiter_clock(),
        ({
            let aor = account_key(old(uas).settings().uac.local_uri@);
            let d = decision(old(uas).limiter_parameters(), old(uas)@.limiter, aor, now);
            let checked = UasView {
                limiter: after_check(
                    old(uas).limiter_parameters(),
                    old(uas)@.limiter,
                    aor,
                    now,
                ),
                ..old(uas)@
            };
            match r {
                Err(PwaRefusal::InvalidTarget) => !is_dial_target(target@) && final(uas)@ == old(
                    uas,
                )@,
                Err(PwaRefusal::RateLimited { retry_after_secs, code, message }) => {
                    &&& is_dial_target(target@)
                    &&& final(uas)@ == checked
                    &&& d is Deny
                    &&& retry_after_secs == d->retry_after / NANOS_PER_SEC as nat
                    &&& code@ == RATE_LIMITED@
                    &&& message@ == rate_limit_message(retry_after_secs)
                },
                Ok((call, sample)) => {
                    &&& is_dial_target(target@)
                    &&& final(uas)@ == checked
                    &&& d is Allow
                    &&& sample == interval_sample(d->previous_interval)
                    &&& call@ == (PwaCallView {
                        aor,
                        target: target@,
                        ws,
                        stage: PwaStageView::New { offer: browser_offer@ },
                    })
                },
            }
        }),
{
    if !is_valid_pwa_dial_target(target) {
        return Err(PwaRefusal::InvalidTarget);
    }
    let aor: String = ngn_aor_from_uac(uas.config().uac.local_uri.as_str());
    match uas.check_at(aor.as_str(), now) {
        RateLimitDecision::Deny { retry_after } => {
            let secs: u64 = retry_after.as_secs();
            let mut message: String = join(
                "outbound INVITE rate-limited (TTC JJ-90.24 §5.7.1): retry after ",
                to_decimal(secs).as_str(),
            );
            message.append(" sec");
            Err(PwaRefusal::RateLimited { retry_after_secs: secs, code: RATE_LIMITED, message })
        },
        RateLimitDecision::Allow { previous_interval } => {
            let call = PwaCall {
                aor,
                target: target.to_owned(),
                ws,
                stage: PwaStage::New { offer: browser_offer.to_owned() },
            };
            Ok((call, interval_ms(previous_interval)))
        },
    }
}

/// Begins a call of a browser at the time on the limiter's clock. When the clock is
/// read is not said: see [`handle_pwa_outbound_offer_at`] for what each time gives.
pub fn handle_pwa_outbound_offer(
    uas: &mut UasEventHandler,
    target: &str,
    browser_offer: &str,
    ws: WsId,
) -> (r: Result<(PwaCall, Option<u64>), PwaRefusal>)
    ensures
        final(uas).settings() == old(uas).settings(),
        final(uas).limiter_parameters() == old(uas).limiter_parameters(),
        final(uas).limiter_clock() == old(uas).limiter_clock(),
        (r is Err && r->Err_0 is InvalidTarget) <==> !is_dial_target(target@),
        !is_dial_target(target@) ==> final(uas)@ == old(uas)@,
        is_dial_target(target@) ==> {
            let aor = account_key(old(uas).settings().uac.local_uri@);
            exists|now: Instant|
                {
                    let d = #[trigger] decision(
                        old(uas).limiter_parameters(),
                        old(uas)@.limiter,
                        aor,
                        now,
                    );
                    &&& old(uas).limiter_clock().shows(now)
                    &&& final(uas)@ == (UasView {
                        limiter: after_check(
                            old(uas).limiter_parameters(),
                            old(uas)@.limiter,
                            aor,
                            now,
                        ),
                        ..old(uas)@
                    })
                    &&& match r {
                        Ok((call, sample)) => {
                            &&& d is Allow
                            &&& sample == interval_sample(d->previous_interval)
                            &&& call@ == (PwaCallView {
                                aor,
                                target: target@,
                                ws,
                                stage: PwaStageView::New { offer: browser_offer@ },
                            })
                        },
                        Err(PwaRefusal::RateLimited { retry_after_secs, code, message }) => {
                            &&& d is Deny
                            &&& retry_after_secs == d->retry_after / NANOS_PER_SEC as nat
                            &&& code@ == RATE_LIMITED@
                            &&& message@ == rate_limit_message(retry_after_secs)
                        },
                        Err(PwaRefusal::InvalidTarget) => false,
                    }
                }
        },
{
    let now: Instant = uas.outbound_rate_limiter().now();
    handle_pwa_outbound_offer_at(uas, target, browser_offer, ws, now)
}

fn break_off(detail: String, terminate: Option<CallId>, dialog: DialogId) -> (r: PwaAction)
    ensures
        r@ == broken_off(detail@, terminate, dialog).1,
{
    PwaAction::Fail {
        code: OUTBOUND_FAILED,
        detail,
        terminate,
        bye: Some(dialog),
        ngn: None,
        pwa: InviteResult::Error,
    }
}

impl PwaCall {
    /// Takes an event in at `now` and says what is to be done. The limiter learns how
    /// the INVITE ended, and a call that comes about is added to `calls`.
    pub fn step(
        &mut self,
        uas: &mut UasEventHandler,
        calls: &mut WebRtcOutboundActive,
        event: PwaEvent,
        now: Instant,
    ) -> (r: PwaAction)
        ensures
            final(uas).settings() == old(uas).settings(),
            final(uas).limiter_parameters() == old(uas).limiter_parameters(),
            final(uas).limiter_clock() == old(uas).limiter_clock(),
            final(self)@ == (PwaCallView {
                stage: pwa_step(old(uas).settings(), old(self)@, event@).0,
                ..old(self)@
            }),
            r@ == pwa_step(old(uas).settings(), old(self)@, event@).1,
            final(uas)@ == (UasView {
                limiter: limiter_after(old(uas)@.limiter, old(self)@, event@, now),
                ..old(uas)@
            }),
            final(calls)@ == calls_after(old(calls)@, old(self)@, event@),
    {
        let mut stage: PwaStage = PwaStage::Finished;
        std::mem::swap(&mut stage, &mut self.stage);
        match (stage, event) {
            (PwaStage::New { offer }, PwaEvent::Begin) => {
                self.stage = PwaStage::HandlingOffer;
                PwaAction::HandleOffer { sdp: offer }
            },
            (PwaStage::HandlingOffer, PwaEvent::OfferHandled { answer }) => {
                self.stage = PwaStage::TakingMedia { answer };
                PwaAction::TakeMedia
            },
            (PwaStage::TakingMedia { answer }, PwaEvent::MediaTaken { media }) => {
                self.stage = PwaStage::Binding { answer, media };
                let ip: IpAddr = match uas.config().bridge_ngn_bind_ip {
                    Some(ip) => ip,
                    None => IpAddr::V4(LOOPBACK),
                };
                PwaAction::Bind { ip }
            },
            (PwaStage::Binding { answer, media }, PwaEvent::Bound { socket, addr }) => {
                self.stage = PwaStage::Converting { answer: answer.clone(), media, socket, addr };
                PwaAction::Convert { answer }
            },
            (
                PwaStage::Converting { answer, media, socket, addr },
                PwaEvent::Converted { sdp },
            ) => {
                self.stage = PwaStage::Restricting { answer, media, socket, addr };
                PwaAction::Restrict { sdp }
            },
            (
                PwaStage::Restricting { answer, media, socket, addr },
                PwaEvent::Restricted { sdp },
            ) => {
                self.stage = PwaStage::Rewriting { answer, media, socket, addr };
                PwaAction::Rewrite { sdp, addr }
            },
            (
                PwaStage::Rewriting { answer, media, socket, addr },
                PwaEvent::Rewritten { sdp },
            ) => {
                self.stage = PwaStage::Inviting { answer: answer.clone(), media, socket, addr };
                let target_uri: String = uri_to_dial(uas.config(), self.target.as_str());
                PwaAction::Invite { answer, target_uri, sdp }
            },
            (PwaStage::New { .. }, PwaEvent::Failed) => PwaAction::GiveUp,
            (PwaStage::HandlingOffer, PwaEvent::Failed) => PwaAction::GiveUp,
            (PwaStage::TakingMedia { .. }, PwaEvent::Failed) => PwaAction::GiveUp,
            (PwaStage::Binding { .. }, PwaEvent::Failed) => PwaAction::GiveUp,
            (PwaStage::Converting { .. }, PwaEvent::Failed) => PwaAction::GiveUp,
            (PwaStage::Restricting { .. }, PwaEvent::Failed) => PwaAction::GiveUp,
            (PwaStage::Rewriting { .. }, PwaEvent::Failed) => PwaAction::GiveUp,
            (
                PwaStage::Inviting { answer, media, socket, addr },
                PwaEvent::Established { dialog, ngn_call_id, sdp },
            ) => {
                uas.record_end_at(self.aor.as_str(), None, now);
                self.stage = PwaStage::FindingPeer { media, socket, addr, dialog, ngn_call_id };
                PwaAction::FindPeer { sdp, answer }
            },
            (PwaStage::Inviting { .. }, PwaEvent::Refused { response }) => {
                let status: u16 = response.status_code;
                uas.record_end_at(
                    self.aor.as_str(),
                    Some((status, retry_after_secs(&response))),
                    now,
                );
                PwaAction::Fail {
                    code: OUTBOUND_FAILED,
                    detail: refusal_message(&response),
                    terminate: None,
                    bye: None,
                    ngn: Some(count_status(status)),
                    pwa: count_status(status),
                }
            },
            (PwaStage::Inviting { .. }, PwaEvent::TransportFailed { error }) => {
                uas.record_end_at(self.aor.as_str(), Some((503, None)), now);
                PwaAction::Fail {
                    code: OUTBOUND_FAILED,
                    detail: join("NGN INVITE 失敗: ", error.as_str()),
                    terminate: None,
                    bye: None,
                    ngn: Some(InviteResult::Timeout),
                    pwa: InviteResult::Timeout,
                }
            },
            (
                PwaStage::FindingPeer { media, socket, addr, dialog, ngn_call_id },
                PwaEvent::PeerFound { addr: peer, opus_pt },
            ) => {
                if uas.config().has_call_manager {
                    let opus_payload_type: u8 = match opus_pt {
                        Some(pt) => pt,
                        None => DEFAULT_OPUS_PT,
                    };
                    self.stage = PwaStage::Starting { dialog, ngn_call_id };
                    PwaAction::Start {
                        bridge: bridge_to_browser(
                            NgnSide { socket, addr, peer },
                            WebRtcLegArtifacts { media, opus_payload_type },
                        ),
                    }
                } else {
                    break_off("CallManager 未注入".to_owned(), None, dialog)
                }
            },
            (PwaStage::FindingPeer { dialog, .. }, PwaEvent::NoPeer { error }) => break_off(
                join("NGN 200 OK SDP 解析失敗: ", error.as_str()),
                None,
                dialog,
            ),
            (PwaStage::Starting { dialog, ngn_call_id }, PwaEvent::Attached { call }) => {
                calls.insert(
                    ngn_call_id,
                    WebRtcOutboundEntry { ngn_dialog: dialog, ws: self.ws, bridge_call_id: call },
                );
                PwaAction::Done
            },
            (PwaStage::Starting { dialog, .. }, PwaEvent::NotAttached { call, error }) => break_off(
                join("CallManager attach 失敗: ", error.as_str()),
                Some(call),
                dialog,
            ),
            (stage, _) => {
                self.stage = stage;
                PwaAction::Ignore
            },
        }
    }
}

/// Whether a call of a browser is over the connection `ws`.
pub open spec fn over(ws: WsId) -> spec_fn(WebRtcOutboundEntry) -> bool {
    |e: WebRtcOutboundEntry| e.ws == ws
}

/// Takes out the calls of the browser at `ws`, each with its Call-ID, in no stated
/// order. Each of them ends: send a BYE in its dialog, and end its bridge. Each is
/// counted as [`count_end`](crate::counts::count_end) says.
pub fn close_pwa_outbound_for_ws(calls: &mut WebRtcOutboundActive, ws: WsId) -> (r: Vec<
    (String, WebRtcOutboundEntry),
>)
    ensures
        final(calls)@ == dropped(old(calls)@, over(ws)),
        lists(r@, old(calls)@, over(ws)),
        r@.len() + final(calls)@.dom().len() == old(calls)@.dom().len(),
{
    let ghost gone = over(ws);
    let pick = |e: &WebRtcOutboundEntry| -> (b: bool)
        ensures
            b == gone(*e),
        { e.ws == ws };
    calls.extract_if(pick, Ghost(gone))
}

/// Once the carrier has answered, the call either comes about and is kept, or the
/// carrier's dialog is closed with a BYE: no dialog is left behind.
pub proof fn law_answered_call_is_kept_or_closed(
    config: UasConfig,
    call: PwaCallView,
    event: PwaEventView,
    calls: Map<Seq<char>, WebRtcOutboundEntry>,
)
    requires
        call.stage is FindingPeer || call.stage is Starting,
        pwa_step(config, call, event).0 is Finished,
    ensures
        ({
            let dialog = if call.stage is FindingPeer {
                call.stage->FindingPeer_dialog
            } else {
                call.stage->Starting_dialog
            };
            let action = pwa_step(config, call, event).1;
            ||| action is Fail && action->bye == Some(dialog) && calls_after(calls, call, event)
                == calls
            ||| action is Done && call.stage is Starting && {
                let id = call.stage->Starting_ngn_call_id;
                let after = calls_after(calls, call, event);
                after.contains_key(id) && after[id].ngn_dialog == dialog && after[id].ws == call.ws
            }
        }),
{
}

/// A call that fails adds nothing to the calls that are kept.
pub proof fn law_failed_call_is_not_kept(
    config: UasConfig,
    call: PwaCallView,
    event: PwaEventView,
    calls: Map<Seq<char>, WebRtcOutboundEntry>,
)
    requires
        !(pwa_step(config, call, event).1 is Done),
    ensures
        calls_after(calls, call, event) == calls,
{
}

/// An INVITE goes out to a dial target only, and to the carrier's server: its URI is
/// `sip:<target>@<host>:<port>`.
pub proof fn law_dialled_uri_is_canonical(config: UasConfig, target: Seq<char>)
    requires
        is_dial_target(target),
        !config.uac.server_host@.contains('@'),
    ensures
        dialled_uri(config, target) == "sip:"@ + target + "@"@ + config.uac.server_host@ + ":"@
            + decimal(config.uac.server_port as nat),
{
    let host = config.uac.server_host@;
    let port = config.uac.server_port;
    crate::uri::lemma_plain_uri(target, host, port);
}

/// The carrier is offered what was converted, restricted and then made to point at the
/// socket towards the carrier, in this order; the browser gets the answer itself.
pub proof fn law_carrier_gets_a_restricted_browser_offer(
    config: UasConfig,
    call: PwaCallView,
    converted: Seq<u8>,
    restricted: Seq<u8>,
    rewritten: Seq<u8>,
)
    requires
        call.stage is Converting,
    ensures
        ({
            let answer = call.stage->Converting_answer;
            let addr = call.stage->Converting_addr;
            let (s1, a1) = pwa_step(config, call, PwaEventView::Converted { sdp: converted });
            let c1 = PwaCallView { stage: s1, ..call };
            let (s2, a2) = pwa_step(config, c1, PwaEventView::Restricted { sdp: restricted });
            let c2 = PwaCallView { stage: s2, ..call };
            let (s3, a3) = pwa_step(config, c2, PwaEventView::Rewritten { sdp: rewritten });
            &&& a1 == (PwaActionView::Restrict { sdp: converted })
            &&& a2 == (PwaActionView::Rewrite { sdp: restricted, addr })
            &&& a3 == (PwaActionView::Invite {
                answer,
                target_uri: dialled_uri(config, call.target),
                sdp: rewritten,
            })
        }),
{
}

/// Closing the calls of a browser twice closes nothing the second time, and spares
/// the calls of every other browser.
pub proof fn law_closing_a_browser_is_idempotent(
    calls: Map<Seq<char>, WebRtcOutboundEntry>,
    ws: WsId,
    id: Seq<char>,
)
    ensures
        dropped(dropped(calls, over(ws)), over(ws)) == dropped(calls, over(ws)),
        calls.contains_key(id) && calls[id].ws != ws ==> dropped(calls, over(ws)).contains_key(id)
            && dropped(calls, over(ws))[id] == calls[id],
        dropped(calls, over(ws)).contains_key(id) ==> calls[id].ws != ws,
{
    assert(dropped(dropped(calls, over(ws)), over(ws)) =~= dropped(calls, over(ws)));
}

/// The call after an event.
pub open spec fn pwa_after(config: UasConfig, call: PwaCallView, event: PwaEventView) -> PwaCallView {
    PwaCallView { stage: pwa_step(config, call, event).0, ..call }
}

/// A socket is bound once the media are there, and only then. It is the one towards the
/// carrier, so it is bound to the address that is set for that side, whatever else is
/// set, and to the loopback address where none is set for it.
pub proof fn law_socket_towards_the_carrier_is_bound_where_it_is_set_to(
    config: UasConfig,
    call: PwaCallView,
    event: PwaEventView,
)
    ensures
        ({
            let action = pwa_step(config, call, event).1;
            &&& action is Bind <==> call.stage is TakingMedia && event is MediaTaken
            &&& action is Bind && config.bridge_ngn_bind_ip is Some ==> action->Bind_ip
                == config.bridge_ngn_bind_ip->0
            &&& action is Bind && config.bridge_ngn_bind_ip is None ==> action->Bind_ip
                == IpAddr::V4(LOOPBACK)
        }),
{
}

/// The whole way of a call of a browser that comes about. The peer connection answers
/// the browser's own offer; the carrier is offered what was made of that answer, at the
/// dialled URI; and the bridge receives from the carrier on the socket that was bound,
/// sends to the address in the carrier's answer, and has the media that were taken. In
/// the end the call is kept under the carrier's Call-ID, and no other call is touched.
pub proof fn law_browser_is_connected_to_the_carrier(
    config: UasConfig,
    call: PwaCallView,
    offer: Seq<char>,
    answer: Seq<char>,
    media: MediaId,
    socket: SocketId,
    addr: SocketAddr,
    converted: Seq<u8>,
    restricted: Seq<u8>,
    rewritten: Seq<u8>,
    dialog: DialogId,
    ngn_call_id: Seq<char>,
    sdp: Seq<u8>,
    peer: SocketAddr,
    opus_pt: Option<u8>,
    bridge: CallId,
    calls: Map<Seq<char>, WebRtcOutboundEntry>,
)
    requires
        call.stage == (PwaStageView::New { offer }),
        config.has_call_manager,
    ensures
        ({
            let e1 = PwaEventView::OfferHandled { answer };
            let e2 = PwaEventView::MediaTaken { media };
            let e3 = PwaEventView::Bound { socket, addr };
            let e4 = PwaEventView::Converted { sdp: converted };
            let e5 = PwaEventView::Restricted { sdp: restricted };
            let e6 = PwaEventView::Rewritten { sdp: rewritten };
            let e7 = PwaEventView::Established { dialog, ngn_call_id, sdp };
            let e8 = PwaEventView::PeerFound { addr: peer, opus_pt };
            let e9 = PwaEventView::Attached { call: bridge };
            let c1 = pwa_after(config, call, PwaEventView::Begin);
            let c2 = pwa_after(config, c1, e1);
            let c3 = pwa_after(config, c2, e2);
            let c4 = pwa_after(config, c3, e3);
            let c5 = pwa_after(config, c4, e4);
            let c6 = pwa_after(config, c5, e5);
            let c7 = pwa_after(config, c6, e6);
            let c8 = pwa_after(config, c7, e7);
            let c9 = pwa_after(config, c8, e8);
            let kept = calls_after(calls, c9, e9);
            &&& pwa_step(config, call, PwaEventView::Begin).1 == PwaActionView::HandleOffer {
                sdp: offer,
            }
            &&& pwa_step(config, c1, e1).1 is TakeMedia
            &&& pwa_step(config, c2, e2).1 is Bind
            &&& pwa_step(config, c3, e3).1 == PwaActionView::Convert { answer }
            &&& pwa_step(config, c4, e4).1 == PwaActionView::Restrict { sdp: converted }
            &&& pwa_step(config, c5, e5).1 == PwaActionView::Rewrite { sdp: restricted, addr }
            &&& pwa_step(config, c6, e6).1 == PwaActionView::Invite {
                answer,
                target_uri: dialled_uri(config, call.target),
                sdp: rewritten,
            }
            &&& pwa_step(config, c7, e7).1 == PwaActionView::FindPeer { sdp, answer }
            &&& match pwa_step(config, c8, e8).1 {
                PwaActionView::Start {
                    bridge: BridgeSpec::WebRtcAudio {
                        ngn,
                        media: joined,
                        opus_payload_type,
                        direct_pcmu_passthrough,
                    },
                } => {
                    &&& ngn.peer == peer
                    &&& ngn.socket == socket
                    &&& ngn.addr == addr
                    &&& joined == media
                    &&& opus_pt is Some ==> opus_payload_type == opus_pt->0
                    &&& opus_pt is None ==> opus_payload_type == 111
                    &&& direct_pcmu_passthrough
                },
                _ => false,
            }
            &&& pwa_step(config, c9, e9).1 is Done
            &&& pwa_step(config, c9, e9).0 is Finished
            &&& kept.contains_key(ngn_call_id)
            &&& kept[ngn_call_id].ngn_dialog == dialog
            &&& kept[ngn_call_id].ws == call.ws
            &&& kept[ngn_call_id].bridge_call_id == bridge
            &&& forall|id: Seq<char>|
                id != ngn_call_id ==> (#[trigger] kept.contains_key(id) <==> calls.contains_key(id))
                    && (calls.contains_key(id) ==> kept[id] == calls[id])
        }),
{
}

/// A call that the carrier refuses or does not answer ends there: there is nothing to
/// close, and both sides are counted alike. A refusal counts as busy exactly where it is
/// a 486; a call without a final response counts as one that ran out of time.
pub proof fn law_unanswered_call_fails_on_both_sides(
    config: UasConfig,
    call: PwaCallView,
    event: PwaEventView,
)
    requires
        call.stage is Inviting,
        event is Refused || event is TransportFailed,
    ensures
        ({
            let (stage, action) = pwa_step(config, call, event);
            &&& stage is Finished
            &&& match action {
                PwaActionView::Fail { code, detail, terminate, bye, ngn, pwa } => {
                    &&& code == "outbound_failed"@
                    &&& terminate is None
                    &&& bye is None
                    &&& ngn == Some(pwa)
                    &&& match event {
                        PwaEventView::Refused { response } => {
                            let told = "NGN INVITE 失敗: "@ + decimal(response.status as nat)
                                + " "@ + response.reason;
                            &&& response.status == 486 ==> pwa is Busy
                            &&& response.status != 486 ==> pwa is Error
                            &&& retry_after_of(response) is None ==> detail == told
                            &&& retry_after_of(response) is Some ==> detail == told
                                + " (retry_after="@ + decimal(
                                retry_after_of(response)->0 as nat,
                            ) + "s)"@
                        },
                        PwaEventView::TransportFailed { error } => {
                            &&& pwa is Timeout
                            &&& detail == "NGN INVITE 失敗: "@ + error
                        },
                        _ => false,
                    }
                },
                _ => false,
            }
        }),
{
}

/// A call that fails after the carrier answered is closed on the carrier's side, with a
/// BYE in its own dialog; a call that was made for the bridge is ended with it, and no
/// other. Only the browser's side is counted, as an error.
pub proof fn law_answered_call_that_fails_is_closed(
    config: UasConfig,
    call: PwaCallView,
    event: PwaEventView,
    dialog: DialogId,
)
    requires
        call.stage is FindingPeer && call.stage->FindingPeer_dialog == dialog || call.stage
            is Starting && call.stage->Starting_dialog == dialog,
    ensures
        ({
            let (stage, action) = pwa_step(config, call, event);
            &&& action is Fail <==> {
                ||| call.stage is FindingPeer && event is NoPeer
                ||| call.stage is FindingPeer && event is PeerFound && !config.has_call_manager
                ||| call.stage is Starting && event is NotAttached
            }
            &&& action is Fail ==> {
                &&& stage is Finished
                &&& action->code == "outbound_failed"@
                &&& action->bye == Some(dialog)
                &&& action->ngn is None
                &&& action->pwa is Error
                &&& action->terminate == (if event is NotAttached {
                    Some(event->NotAttached_call)
                } else {
                    None
                })
                &&& event is NoPeer ==> action->detail == "NGN 200 OK SDP 解析失敗: "@
                    + event->NoPeer_error
                &&& event is NotAttached ==> action->detail == "CallManager attach 失敗: "@
                    + event->NotAttached_error
                &&& event is PeerFound ==> action->detail == "CallManager 未注入"@
            }
        }),
{
}

/// Whether a call at `stage` asked for what `event` brings.
pub open spec fn call_awaits(stage: PwaStageView, event: PwaEventView) -> bool {
    match event {
        PwaEventView::Begin => stage is New,
        PwaEventView::OfferHandled { .. } => stage is HandlingOffer,
        PwaEventView::MediaTaken { .. } => stage is TakingMedia,
        PwaEventView::Bound { .. } => stage is Binding,
        PwaEventView::Converted { .. } => stage is Converting,
        PwaEventView::Restricted { .. } => stage is Restricting,
        PwaEventView::Rewritten { .. } => stage is Rewriting,
        PwaEventView::Failed => !(stage is Inviting || stage is FindingPeer || stage is Starting
            || stage is Finished),
        PwaEventView::Established { .. } => stage is Inviting,
        PwaEventView::Refused { .. } => stage is Inviting,
        PwaEventView::TransportFailed { .. } => stage is Inviting,
        PwaEventView::PeerFound { .. } => stage is FindingPeer,
        PwaEventView::NoPeer { .. } => stage is FindingPeer,
        PwaEventView::Attached { .. } => stage is Starting,
        PwaEventView::NotAttached { .. } => stage is Starting,
    }
}

/// A call takes in what it asked for and nothing else. Before an INVITE has gone out, a
/// step that fails is the end of it, without a word to the carrier.
pub proof fn law_call_of_a_browser_takes_in_what_it_asked_for(
    config: UasConfig,
    call: PwaCallView,
    event: PwaEventView,
)
    ensures
        !call_awaits(call.stage, event) ==> pwa_step(config, call, event) == (
            call.stage,
            PwaActionView::Ignore,
        ),
        call_awaits(call.stage, event) ==> !(pwa_step(config, call, event).1 is Ignore),
        pwa_step(config, call, event).1 is GiveUp <==> event is Failed && call_awaits(
            call.stage,
            event,
        ),
        pwa_step(config, call, event).1 is GiveUp ==> pwa_step(config, call, event).0 is Finished,
{
}

/// The limiter learns how the INVITE of a call ended, and nothing else of it: an answer
/// counts as a success; a refusal counts with its status and the wait that it asks for;
/// a call without a final response counts as an unavailable server. All of it counts for
/// the account of the call, and for no other.
pub proof fn law_limiter_learns_how_the_invite_ended(
    limiter: Map<Seq<char>, AorState>,
    call: PwaCallView,
    event: PwaEventView,
    now: Instant,
    other: Seq<char>,
)
    ensures
        ({
            let after = limiter_after(limiter, call, event, now);
            &&& !(call.stage is Inviting) ==> after == limiter
            &&& call.stage is Inviting ==> match event {
                PwaEventView::Established { .. } => after == after_success(limiter, call.aor),
                PwaEventView::Refused { response } => after == after_failure(
                    limiter,
                    call.aor,
                    response.status,
                    retry_after_of(response),
                    now,
                ),
                PwaEventView::TransportFailed { .. } => after == after_failure(
                    limiter,
                    call.aor,
                    503,
                    None,
                    now,
                ),
                _ => after == limiter,
            }
            &&& other != call.aor ==> {
                &&& after.contains_key(other) <==> limiter.contains_key(other)
                &&& limiter.contains_key(other) ==> after[other] == limiter[other]
            }
        }),
{
}

/// A call of a browser is counted once on the carrier's side, when the carrier's part is
/// over, and once on the browser's side, when it has come about or failed. A call begins
/// exactly where it comes about.
pub proof fn law_call_of_a_browser_is_counted(
    config: UasConfig,
    call: PwaCallView,
    event: PwaEventView,
)
    ensures
        ({
            let action = pwa_step(config, call, event).1;
            let counts = pwa_counts(action);
            &&& counts.contains(Count::CallBegun) <==> call.stage is Starting && event is Attached
            &&& call.stage is Starting && event is Attached ==> counts == seq![
                Count::PwaOutbound(InviteResult::Answered),
                Count::CallBegun,
            ]
            &&& call.stage is Inviting && event is Established ==> counts == seq![
                Count::Ngn(InviteResult::Answered),
            ]
            &&& call.stage is Inviting && event is TransportFailed ==> counts == seq![
                Count::Ngn(InviteResult::Timeout),
                Count::PwaOutbound(InviteResult::Timeout),
            ]
            &&& call.stage is Inviting && event is Refused ==> {
                let result = if event->Refused_response.status == 486 {
                    InviteResult::Busy
                } else {
                    InviteResult::Error
                };
                counts == seq![Count::Ngn(result), Count::PwaOutbound(result)]
            }
            &&& (call.stage is FindingPeer || call.stage is Starting) && action is Fail ==> counts
                == seq![Count::PwaOutbound(InviteResult::Error)]
            &&& !(call.stage is Inviting || call.stage is FindingPeer || call.stage is Starting)
                ==> counts.len() == 0
        }),
{
    let action = pwa_step(config, call, event).1;
    let counts = pwa_counts(action);
    if call.stage is Starting && event is Attached {
        assert(counts[1] == Count::CallBegun);
    }
}

/// A call that comes too soon is counted as held back and as an error; one that dials no
/// dial target is not counted. The browser is told how long to wait, in decimal.
pub proof fn law_held_back_call_is_counted(refused: PwaRefusal, secs: u64)
    ensures
        refused is InvalidTarget ==> pwa_refusal_counts(refused).len() == 0,
        refused is RateLimited ==> pwa_refusal_counts(refused) == seq![
            Count::Blocked(OutboundDirection::PwaOutbound),
            Count::PwaOutbound(InviteResult::Error),
        ],
        rate_limit_message(secs)
            == "outbound INVITE rate-limited (TTC JJ-90.24 §5.7.1): retry after "@ + decimal(
            secs as nat,
        ) + " sec"@,
{
}

/// A browser is told of a call that does not come about under one of two codes: one for a
/// call that comes too soon, one for a call that failed.
pub proof fn law_browser_is_told_under_a_code()
    ensures
        RATE_LIMITED@ == "rate_limited"@,
        OUTBOUND_FAILED@ == "outbound_failed"@,
        RATE_LIMITED@ != OUTBOUND_FAILED@,
{
    reveal_strlit("rate_limited");
    reveal_strlit("outbound_failed");
    assert("rate_limited"@.len() == 12);
    assert("outbound_failed"@.len() == 15);
}

} // verus!
