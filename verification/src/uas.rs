//! Requests from extensions, and the calls that they make to the carrier.
//!
//! The driver owns the transactions, dialogs and bridges. It hands each request to
//! a [`UasEventHandler`], does what that says, and reports back what came of it.

use vstd::prelude::*;

use crate::counts::{
    answer_counts, count_answer, count_end, count_interval, interval_counts, no_counts,
    one_count, two_counts, Count,
};
use crate::dtmf::field_or_empty;
use crate::ids::{CallId, DialogId, IpAddr, PlanId, ResponderId, SocketAddr, LOOPBACK};
use crate::ngn_inbound::{call_id_of, count_status, counted_as, InviteResult};
use crate::outbound_bridge::{
    bridge_end, finalize_outbound_bridge, preparation, preparation_view,
    prepare_outbound_bridge, BridgePreparation, FinalizeBridge, OutboundBridgeCtx,
    PreparationView,
};
use crate::rate_limiter::{
    after_check, after_failure, after_success, allowed_from, decision, held_back,
    is_server_failure, law_refusal_asks_for_a_wait, law_retry_after_holds_back,
    law_retry_after_is_read_back, parse_retry_after, retry_after_value, whole_secs, AorState,
    DecisionView, OutboundRateLimiter, RateLimitDecision, RateLimiterConfig,
};
use crate::registry::{
    holds_calls_of, law_removed_call_is_gone, OutboundCallEntry, OutboundCallRegistry,
    PendingOutbound, RegistryView,
};
use crate::relay::{quick, reinvite_reply_to_ext, relay_reinvite_to_ext, Reply, ReplyView};
use crate::response::{
    answer_to_ext, answers, build_2xx_to_ext_with, copy_bytes,
    build_503_with_retry_after_and_tag, ensure_to_tag_with, final_response, final_response_view,
    is_added, is_tag, law_only_a_missing_tag_is_added, law_too_soon_asks_for_the_given_wait,
    lemma_field_keeps_names, lemma_field_names, lemma_named_is_answered,
    lemma_skeleton_is_named, new_tag, tagged, too_soon,
};
use crate::sdp::{bytes, CarrierOffer, CarrierOfferView, OfferStageView};
use crate::sip::{
    build_response_skeleton, header, law_header_set_is_header_read,
    law_response_takes_over_what_names_the_request, skeleton, ResponseView, SipRequest,
    SipResponse,
};
use crate::text::{decimal, join, same, same_ignoring_case, to_decimal};
use crate::time::{Clock, Duration, Instant, MAX_NANOS, NANOS_PER_SEC};
use crate::uri::{
    extract_uri_from_addr, normalize_request_uri_for_ngn, request_uri_for_ngn, uri_in_addr,
};

verus! {

/// How the carrier is reached.
#[derive(Debug)]
pub struct UacConfig {
    /// The address of record at the carrier.
    pub local_uri: String,
    /// The host of the carrier's server.
    pub server_host: String,
    /// The port of the carrier's server.
    pub server_port: u16,
    /// The host and port at which the carrier reaches this end.
    pub local_addr: String,
    /// The IP address in `local_addr`.
    pub local_ip: IpAddr,
}

/// What the handler works with.
#[derive(Debug)]
pub struct UasConfig {
    /// How the carrier is reached.
    pub uac: UacConfig,
    /// Whether there is a call manager that can keep bridges.
    pub has_call_manager: bool,
    /// Where the bridge's socket towards the carrier is bound; loopback if `None`.
    pub bridge_ngn_bind_ip: Option<IpAddr>,
    /// Where the bridge's socket towards the extension is bound; loopback if `None`.
    pub bridge_ext_bind_ip: Option<IpAddr>,
    /// Whether requests can be sent to extensions.
    pub has_ext_layer: bool,
    /// The host and port at which extensions reach this end, where it is set.
    pub ext_local_addr: Option<String>,
    /// The host and port of the socket towards extensions, where there is one.
    pub ext_layer_addr: Option<String>,
}

/// What the handler knows.
#[verifier::ext_equal]
pub struct UasView {
    /// The calls.
    pub registry: RegistryView,
    /// What is remembered of each AOR's INVITEs.
    pub limiter: Map<Seq<char>, AorState>,
    /// The INVITEs that were cancelled before they were answered.
    pub cancelled: Set<PlanId>,
}

/// The handler of requests from extensions.
#[derive(Debug)]
pub struct UasEventHandler {
    config: UasConfig,
    registry: OutboundCallRegistry,
    outbound_rate_limiter: OutboundRateLimiter,
    cancelled: Vec<PlanId>,
}

impl View for UasEventHandler {
    type V = UasView;

    closed spec fn view(&self) -> UasView {
        UasView {
            registry: self.registry@,
            limiter: self.outbound_rate_limiter@,
            cancelled: Set::new(|p: PlanId| self.cancelled@.contains(p)),
        }
    }
}

/// Which way an INVITE was held back.
#[derive(Clone, Copy, Debug, PartialEq, Eq, Structural)]
pub enum OutboundDirection {
    Extension,
    PwaOutbound,
}

/// What is done about an extension's INVITE.
#[derive(Debug)]
pub enum InviteStart {
    /// It comes too soon: send the response.
    Refuse { response: SipResponse },
    /// It goes on to `target`. `interval_ms` is the time since the last INVITE, for
    /// the statistics; `bridge` is its bridge, where it has one, which is to be
    /// prepared first. What the carrier is offered,
    /// [`UasEventHandler::offer_for_carrier`] says.
    Proceed { interval_ms: Option<u64>, target: String, bridge: Option<BridgePreparation> },
}

/// The contents of an [`InviteStart`].
pub enum InviteStartView {
    Refuse { response: ResponseView },
    Proceed {
        interval_ms: Option<u64>,
        target: Seq<char>,
        bridge: Option<PreparationView>,
    },
}

impl View for InviteStart {
    type V = InviteStartView;

    open spec fn view(&self) -> InviteStartView {
        match self {
            InviteStart::Refuse { response } => InviteStartView::Refuse { response: response@ },
            InviteStart::Proceed { interval_ms, target, bridge } => InviteStartView::Proceed {
                interval_ms: *interval_ms,
                target: target@,
                bridge: preparation_view(*bridge),
            },
        }
    }
}

/// What an INVITE of an extension is counted as at its start.
pub open spec fn start_counts(start: InviteStartView) -> Seq<Count> {
    match start {
        InviteStartView::Refuse { .. } => seq![
            Count::Blocked(OutboundDirection::Extension),
            Count::Extension(InviteResult::Error),
        ],
        InviteStartView::Proceed { interval_ms, .. } => interval_counts(interval_ms),
    }
}

impl InviteStart {
    /// What the INVITE is counted as at its start.
    pub fn counts(&self) -> (r: Vec<Count>)
        ensures
            r@ == start_counts(self@),
    {
        match self {
            InviteStart::Refuse { .. } => two_counts(
                Count::Blocked(OutboundDirection::Extension),
                Count::Extension(InviteResult::Error),
            ),
            InviteStart::Proceed { interval_ms, .. } => count_interval(*interval_ms),
        }
    }
}

/// A span of `nanos` nanoseconds in whole milliseconds, as far as 64 bits go.
pub open spec fn in_millis(nanos: nat) -> u64 {
    if nanos / 1_000_000 <= u64::MAX {
        (nanos / 1_000_000) as u64
    } else {
        u64::MAX
    }
}

/// What an interval between two INVITEs adds to the statistics.
pub open spec fn interval_sample(previous: Option<nat>) -> Option<u64> {
    match previous {
        Some(nanos) => Some(in_millis(nanos)),
        None => None,
    }
}

/// What an interval between two INVITEs adds to the statistics, in milliseconds.
pub fn interval_ms(previous: Option<Duration>) -> (r: Option<u64>)
    ensures
        r == interval_sample(
            match previous {
                Some(d) => Some(d@),
                None => None,
            },
        ),
{
    match previous {
        Some(d) => {
            let ms: u128 = d.as_millis();
            if ms <= u64::MAX as u128 {
                Some(ms as u64)
            } else {
                Some(u64::MAX)
            }
        },
        None => None,
    }
}

/// What is done about an INVITE of an extension that the limiter decides on with
/// `d`.
pub open spec fn invite_start(
    config: UasConfig,
    d: DecisionView,
    request: SipRequest,
    tag: Seq<char>,
) -> InviteStartView {
    match d {
        DecisionView::Deny { retry_after } => InviteStartView::Refuse {
            response: too_soon(request, (retry_after / NANOS_PER_SEC as nat) as u64, tag),
        },
        DecisionView::Allow { previous_interval } => InviteStartView::Proceed {
            interval_ms: interval_sample(previous_interval),
            target: request_uri_for_ngn(
                request.uri@,
                config.uac.server_host@,
                config.uac.server_port,
            ),
            bridge: preparation(
                config.has_call_manager,
                config.bridge_ngn_bind_ip,
                config.bridge_ext_bind_ip,
                request.body@,
            ),
        },
    }
}

/// The Call-ID under which an INVITE of an extension is kept until it is answered:
/// none where it has none, or one that cannot be told from that.
pub open spec fn pending_key(request: SipRequest) -> Option<Seq<char>> {
    match call_id_of(request) {
        Some(id) if id.len() > 0 && id != "<no-call-id>"@ => Some(id),
        _ => None,
    }
}

fn pending_id(request: &SipRequest) -> (r: Option<&str>)
    ensures
        r is Some <==> pending_key(*request) is Some,
        r is Some ==> r->0@ == pending_key(*request)->0,
{
    match request.headers.get("call-id") {
        Some(id) => if id.is_empty() || same(id, "<no-call-id>") {
            None
        } else {
            Some(id)
        },
        None => None,
    }
}

/// How an INVITE to the carrier ended.
#[derive(Debug)]
pub enum InviteOutcome {
    /// It was answered.
    Established,
    /// It was refused.
    Failed { response: SipResponse },
    /// There was no final response.
    TransportFailed,
}

/// The contents of an [`InviteOutcome`].
pub enum OutcomeView {
    Established,
    Failed { response: ResponseView },
    TransportFailed,
}

impl View for InviteOutcome {
    type V = OutcomeView;

    open spec fn view(&self) -> OutcomeView {
        match self {
            InviteOutcome::Established => OutcomeView::Established,
            InviteOutcome::Failed { response } => OutcomeView::Failed { response: response@ },
            InviteOutcome::TransportFailed => OutcomeView::TransportFailed,
        }
    }
}

/// What is done once an INVITE to the carrier has ended.
#[derive(Debug)]
pub enum InviteEnd {
    /// The extension has gone: send the carrier a BYE.
    HangUp,
    /// Finish the bridge, and answer the extension.
    Answer,
    /// Answer the extension with `reply`. `ngn` is how the INVITE ended on the
    /// carrier's side.
    Refuse { reply: Reply, ngn: InviteResult },
    /// Nothing: the extension has gone, and was told so.
    Nothing,
}

/// The contents of an [`InviteEnd`].
pub enum InviteEndView {
    HangUp,
    Answer,
    Refuse { reply: ReplyView, ngn: InviteResult },
    Nothing,
}

impl View for InviteEnd {
    type V = InviteEndView;

    open spec fn view(&self) -> InviteEndView {
        match self {
            InviteEnd::HangUp => InviteEndView::HangUp,
            InviteEnd::Answer => InviteEndView::Answer,
            InviteEnd::Refuse { reply, ngn } => InviteEndView::Refuse { reply: reply@, ngn: *ngn },
            InviteEnd::Nothing => InviteEndView::Nothing,
        }
    }
}

/// What an INVITE of an extension is counted as at its end: where it was answered,
/// once the extension has got the answer.
pub open spec fn end_counts(end: InviteEndView) -> Seq<Count> {
    match end {
        InviteEndView::HangUp => seq![Count::Ngn(InviteResult::Error)],
        InviteEndView::Answer => answer_counts(),
        InviteEndView::Refuse { ngn, .. } => seq![Count::Ngn(ngn)],
        InviteEndView::Nothing => seq![],
    }
}

impl InviteEnd {
    /// What the INVITE is counted as at its end: where it was answered, once the
    /// extension has got the answer.
    pub fn counts(&self) -> (r: Vec<Count>)
        ensures
            r@ == end_counts(self@),
    {
        match self {
            InviteEnd::HangUp => one_count(Count::Ngn(InviteResult::Error)),
            InviteEnd::Answer => count_answer(),
            InviteEnd::Refuse { ngn, .. } => one_count(Count::Ngn(*ngn)),
            InviteEnd::Nothing => no_counts(),
        }
    }
}

/// The `Retry-After` of a response, in seconds, where it has one that can be read.
pub open spec fn retry_after_of(resp: ResponseView) -> Option<u32> {
    match header(resp.headers, "retry-after"@) {
        Some(value) => retry_after_value(value),
        None => None,
    }
}

/// The `Retry-After` of a response, in seconds, where it has one that can be read.
pub fn retry_after_secs(resp: &SipResponse) -> (r: Option<u32>)
    ensures
        r == retry_after_of(resp@),
{
    match resp.headers.get("retry-after") {
        Some(value) => parse_retry_after(value),
        None => None,
    }
}

/// The carrier's refusal `resp`, as the extension gets it: with the seconds to wait,
/// where the carrier named them.
pub open spec fn carrier_refusal(request: SipRequest, resp: ResponseView, tag: Seq<char>) -> ReplyView {
    match retry_after_of(resp) {
        Some(secs) => ReplyView::Full(
            tagged(
                skeleton(request.headers@, resp.status, resp.reason).with(
                    "Retry-After"@,
                    decimal(secs as nat),
                ),
                tag,
            ),
        ),
        None => ReplyView::Quick { status: resp.status, reason: resp.reason },
    }
}

fn pass_refusal_on(request: &SipRequest, resp: &SipResponse, tag: &str) -> (r: Reply)
    ensures
        r@ == carrier_refusal(*request, resp@, tag@),
{
    match retry_after_secs(resp) {
        Some(secs) => {
            let mut reply: SipResponse = build_response_skeleton(
                request,
                resp.status_code,
                resp.reason.as_str(),
            );
            reply.headers.set("Retry-After", to_decimal(secs as u64).as_str());
            ensure_to_tag_with(&mut reply, tag);
            Reply::Full(reply)
        },
        None => quick(resp.status_code, resp.reason.as_str()),
    }
}

/// What is done once an INVITE to the carrier has ended with `outcome`.
pub open spec fn invite_end(
    request: SipRequest,
    cancelled: bool,
    outcome: OutcomeView,
    tag: Seq<char>,
) -> InviteEndView {
    match outcome {
        OutcomeView::Established => if cancelled {
            InviteEndView::HangUp
        } else {
            InviteEndView::Answer
        },
        OutcomeView::Failed { response } => InviteEndView::Refuse {
            reply: carrier_refusal(request, response, tag),
            ngn: counted_as(response.status),
        },
        OutcomeView::TransportFailed => if cancelled {
            InviteEndView::Nothing
        } else {
            InviteEndView::Refuse {
                reply: ReplyView::Quick { status: 503, reason: "Service Unavailable"@ },
                ngn: InviteResult::Timeout,
            }
        },
    }
}

/// What the limiter remembers once an INVITE of `aor` has ended at `now`. An INVITE
/// without a final response counts as a server failure, unless it was cancelled.
pub open spec fn limiter_after_end(
    limiter: Map<Seq<char>, AorState>,
    aor: Seq<char>,
    cancelled: bool,
    outcome: OutcomeView,
    now: Instant,
) -> Map<Seq<char>, AorState> {
    match outcome {
        OutcomeView::Established => after_success(limiter, aor),
        OutcomeView::Failed { response } => after_failure(
            limiter,
            aor,
            response.status,
            retry_after_of(response),
            now,
        ),
        OutcomeView::TransportFailed => if cancelled {
            limiter
        } else {
            after_failure(limiter, aor, 503, None, now)
        },
    }
}

/// Where extensions reach this end.
pub open spec fn ext_host(config: UasConfig) -> Option<Seq<char>> {
    match (config.ext_local_addr, config.ext_layer_addr) {
        (Some(addr), _) => Some(addr@),
        (None, Some(addr)) => Some(addr@),
        (None, None) => None,
    }
}

/// The URI at which extensions reach this end.
pub open spec fn ext_contact(config: UasConfig) -> Seq<char> {
    "sip:sabiden@"@ + match ext_host(config) {
        Some(host) => host,
        None => config.uac.local_addr@,
    }
}

/// The parties of a dialog with an extension.
#[derive(Debug)]
pub struct DialogConfig {
    pub local_uri: String,
    pub remote_uri: String,
    pub local_contact: String,
    pub sent_by: String,
}

/// The URI in the field `name` of a request, `otherwise` where there is none.
pub open spec fn party(request: SipRequest, name: Seq<char>, otherwise: Seq<char>) -> Seq<char> {
    match header(request.headers@, name) {
        Some(value) => uri_in_addr(value),
        None => otherwise,
    }
}

fn party_of(request: &SipRequest, name: &str, otherwise: &str) -> (r: String)
    ensures
        r@ == party(*request, name@, otherwise@),
{
    match request.headers.get(name) {
        Some(value) => extract_uri_from_addr(value),
        None => otherwise.to_owned(),
    }
}

/// What is done about a call that has ended: send a BYE in the dialog with the
/// carrier, and end the bridge where `terminate` names it.
#[derive(Clone, Copy, Debug, PartialEq, Eq, Structural)]
pub struct CarrierBye {
    pub ngn_dialog: DialogId,
    pub ext_dialog: DialogId,
    pub terminate: Option<CallId>,
}

impl CarrierBye {
    /// What the call is counted as at its end.
    pub fn counts(&self) -> (r: Vec<Count>)
        ensures
            r@ == seq![Count::CallEnded],
    {
        count_end()
    }
}

/// What is done about a call that the extension has ended.
pub open spec fn carrier_bye(config: UasConfig, entry: OutboundCallEntry) -> CarrierBye {
    CarrierBye {
        ngn_dialog: entry.ngn_dialog,
        ext_dialog: entry.ext_dialog,
        terminate: if config.has_call_manager {
            entry.bridge_call_id
        } else {
            None
        },
    }
}

/// What is done about a call that the carrier has ended: send a BYE in the dialog
/// with the extension, which is at `ext_remote`, and end the bridge where `terminate`
/// names it.
#[derive(Clone, Copy, Debug, PartialEq, Eq, Structural)]
pub struct ExtensionBye {
    pub ext_dialog: DialogId,
    pub ext_remote: SocketAddr,
    pub terminate: Option<CallId>,
}

impl ExtensionBye {
    /// What the call is counted as at its end.
    pub fn counts(&self) -> (r: Vec<Count>)
        ensures
            r@ == seq![Count::CallEnded],
    {
        count_end()
    }
}

/// What is done about a call that the carrier has ended.
pub open spec fn extension_bye(config: UasConfig, entry: OutboundCallEntry) -> ExtensionBye {
    ExtensionBye {
        ext_dialog: entry.ext_dialog,
        ext_remote: entry.ext_remote,
        terminate: if config.has_call_manager {
            entry.bridge_call_id
        } else {
            None
        },
    }
}

/// What is done about an extension's Re-INVITE.
#[derive(Debug)]
pub enum ExtReinvite {
    /// Answer it.
    Refuse(Reply),
    /// Send one in the dialog with the carrier, with what comes of `offer`.
    Forward { ngn_dialog: DialogId, offer: CarrierOffer },
}

/// The contents of an [`ExtReinvite`].
pub enum ExtReinviteView {
    Refuse(ReplyView),
    Forward { ngn_dialog: DialogId, offer: CarrierOfferView },
}

impl View for ExtReinvite {
    type V = ExtReinviteView;

    open spec fn view(&self) -> ExtReinviteView {
        match self {
            ExtReinvite::Refuse(reply) => ExtReinviteView::Refuse(reply@),
            ExtReinvite::Forward { ngn_dialog, offer } => ExtReinviteView::Forward {
                ngn_dialog: *ngn_dialog,
                offer: offer@,
            },
        }
    }
}

/// The offer for the carrier, to be made of the session description `ext_offer` of an
/// extension, or of what was prepared for a bridge.
pub open spec fn carrier_offer(
    config: UasConfig,
    prepared: Option<Seq<u8>>,
    ext_offer: Seq<u8>,
) -> CarrierOfferView {
    CarrierOfferView {
        ngn_local_ip: config.uac.local_ip,
        ext_offer,
        stage: OfferStageView::New { prepared },
    }
}

/// What is done about the Re-INVITE `request` of an extension.
pub open spec fn ext_reinvite(config: UasConfig, reg: RegistryView, request: SipRequest) ->
    ExtReinviteView {
    let id = field_or_empty(request, "call-id"@);
    match reg.found_by_ext(id) {
        Some(entry) => ExtReinviteView::Forward {
            ngn_dialog: entry.ngn_dialog,
            offer: carrier_offer(config, None, request.body@),
        },
        None => ExtReinviteView::Refuse(
            if reg.pending.contains_key(id) {
                ReplyView::Quick { status: 491, reason: "Request Pending"@ }
            } else {
                ReplyView::Quick { status: 481, reason: "Call/Transaction Does Not Exist"@ }
            },
        ),
    }
}

/// What is done about the carrier's Re-INVITE.
#[derive(Debug)]
pub enum NgnReinvite {
    /// Answer it.
    Refuse(SipResponse),
    /// Send one in the dialog with the extension, which is at `ext_remote`, with the
    /// carrier's session description `offer`, where there is one, and with this session
    /// timer.
    Forward {
        ext_dialog: DialogId,
        ngn_dialog: DialogId,
        ext_remote: SocketAddr,
        offer: Option<Vec<u8>>,
        session_expires: u32,
        min_se: u32,
    },
}

/// The contents of an [`NgnReinvite`].
pub enum NgnReinviteView {
    Refuse(ResponseView),
    Forward {
        ext_dialog: DialogId,
        ngn_dialog: DialogId,
        ext_remote: SocketAddr,
        offer: Option<Seq<u8>>,
        session_expires: u32,
        min_se: u32,
    },
}

impl View for NgnReinvite {
    type V = NgnReinviteView;

    open spec fn view(&self) -> NgnReinviteView {
        match self {
            NgnReinvite::Refuse(response) => NgnReinviteView::Refuse(response@),
            NgnReinvite::Forward {
                ext_dialog,
                ngn_dialog,
                ext_remote,
                offer,
                session_expires,
                min_se,
            } => NgnReinviteView::Forward {
                ext_dialog: *ext_dialog,
                ngn_dialog: *ngn_dialog,
                ext_remote: *ext_remote,
                offer: bytes(*offer),
                session_expires: *session_expires,
                min_se: *min_se,
            },
        }
    }
}

/// What is done about the Re-INVITE `request` of the carrier in the call `entry`: the
/// carrier's session description goes on as it is.
pub open spec fn reinvite_to_ext(entry: OutboundCallEntry, request: SipRequest) -> NgnReinviteView {
    NgnReinviteView::Forward {
        ext_dialog: entry.ext_dialog,
        ngn_dialog: entry.ngn_dialog,
        ext_remote: entry.ext_remote,
        offer: if request.body@.len() > 0 {
            Some(request.body@)
        } else {
            None
        },
        session_expires: SESSION_EXPIRES,
        min_se: MIN_SE,
    }
}

/// The session timer of a Re-INVITE to an extension, in seconds.
pub const SESSION_EXPIRES: u32 = 300;

/// The shortest session timer that is accepted, in seconds.
pub const MIN_SE: u32 = 90;

/// What is done about an extension's CANCEL: cancel the INVITE `invite_plan` to the
/// carrier, then, whatever came of that, answer the extension's INVITE through
/// `ext_responder` with `reply`.
#[derive(Debug)]
pub struct CancelInvite {
    pub invite_plan: PlanId,
    pub ext_responder: ResponderId,
    pub reply: Reply,
}

/// The contents of a [`CancelInvite`].
pub struct CancelView {
    pub invite_plan: PlanId,
    pub ext_responder: ResponderId,
    pub reply: ReplyView,
}

impl View for CancelInvite {
    type V = CancelView;

    open spec fn view(&self) -> CancelView {
        CancelView {
            invite_plan: self.invite_plan,
            ext_responder: self.ext_responder,
            reply: self.reply@,
        }
    }
}

impl CancelInvite {
    /// What the INVITE is counted as once it was cancelled.
    pub fn counts(&self) -> (r: Vec<Count>)
        ensures
            r@ == seq![Count::Ngn(InviteResult::Error)],
    {
        one_count(Count::Ngn(InviteResult::Error))
    }
}

fn has_plan(plans: &Vec<PlanId>, plan: PlanId) -> (r: bool)
    ensures
        r == plans@.contains(plan),
{
    let mut i: usize = 0;
    while i < plans.len()
        invariant
            i <= plans.len(),
            forall|k: int| 0 <= k < i ==> plans@[k] != plan,
        decreases plans.len() - i,
    {
        if plans[i] == plan {
            assert(plans@[i as int] == plan);
            return true;
        }
        i = i + 1;
    }
    false
}

fn without_plan(plans: &Vec<PlanId>, plan: PlanId) -> (r: Vec<PlanId>)
    ensures
        forall|p: PlanId| #[trigger] r@.contains(p) <==> plans@.contains(p) && p != plan,
{
    let mut out: Vec<PlanId> = Vec::new();
    let mut i: usize = 0;
    while i < plans.len()
        invariant
            i <= plans.len(),
            forall|p: PlanId| #[trigger]
                out@.contains(p) <==> plans@.take(i as int).contains(p) && p != plan,
        decreases plans.len() - i,
    {
        let ghost before = out@;
        let ghost now = plans@.take(i + 1);
        let p0: PlanId = plans[i];
        if p0 != plan {
            out.push(p0);
        }
        proof {
            assert(now[i as int] == p0);
            assert forall|p: PlanId| #[trigger]
                out@.contains(p) <==> now.contains(p) && p != plan by {
                if now.contains(p) && p != p0 {
                    let k = choose|k: int| 0 <= k < now.len() && now[k] == p;
                    assert(plans@.take(i as int)[k] == p);
                }
                if plans@.take(i as int).contains(p) {
                    let k = choose|k: int|
                        0 <= k < plans@.take(i as int).len() && plans@.take(i as int)[k] == p;
                    assert(now[k] == p);
                }
                if before.contains(p) {
                    let k = choose|k: int| 0 <= k < before.len() && before[k] == p;
                    assert(out@[k] == p);
                }
                if out@.contains(p) && p != p0 {
                    let k = choose|k: int| 0 <= k < out@.len() && out@[k] == p;
                    assert(before[k] == p);
                }
                if p == p0 && p != plan {
                    assert(out@[before.len() as int] == p);
                }
            }
        }
        i = i + 1;
    }
    assert(plans@.take(i as int) =~= plans@);
    out
}

impl UasEventHandler {
    /// What the handler works with.
    pub closed spec fn settings(&self) -> UasConfig {
        self.config
    }

    /// The parameters of the limiter.
    pub closed spec fn limiter_parameters(&self) -> RateLimiterConfig {
        self.outbound_rate_limiter.parameters()
    }

    /// The clock of the limiter.
    pub closed spec fn limiter_clock(&self) -> Clock {
        self.outbound_rate_limiter.clock()
    }

    /// A handler that has seen nothing, with a limiter of the default parameters.
    /// There are no bridges, and no requests go to extensions.
    pub fn new(uac: UacConfig) -> (r: Self)
        ensures
            r.settings() == plain_config(uac),
            r@ == fresh_uas(),
            r.limiter_parameters().min_interval@ == 3 * NANOS_PER_SEC,
            r.limiter_parameters().failure_backoff_steps@.map_values(|d: Duration| d@) == seq![
                (5 * NANOS_PER_SEC) as nat,
                (10 * NANOS_PER_SEC) as nat,
                (30 * NANOS_PER_SEC) as nat,
            ],
    {
        let config = UasConfig {
            uac,
            has_call_manager: false,
            bridge_ngn_bind_ip: None,
            bridge_ext_bind_ip: None,
            has_ext_layer: false,
            ext_local_addr: None,
            ext_layer_addr: None,
        };
        let r = UasEventHandler {
            config,
            registry: OutboundCallRegistry::new(),
            outbound_rate_limiter: OutboundRateLimiter::new(),
            cancelled: Vec::new(),
        };
        assert(r@ =~= fresh_uas());
        r
    }

    /// As [`UasEventHandler::new`], with a call manager that keeps the bridges of
    /// calls, and the addresses to which their sockets are bound.
    pub fn with_call_manager(
        uac: UacConfig,
        bridge_ngn_bind_ip: Option<IpAddr>,
        bridge_ext_bind_ip: Option<IpAddr>,
    ) -> (r: Self)
        ensures
            r.settings() == (UasConfig {
                has_call_manager: true,
                bridge_ngn_bind_ip,
                bridge_ext_bind_ip,
                ..plain_config(uac)
            }),
            r@ == fresh_uas(),
            r.limiter_parameters().min_interval@ == 3 * NANOS_PER_SEC,
            r.limiter_parameters().failure_backoff_steps@.map_values(|d: Duration| d@) == seq![
                (5 * NANOS_PER_SEC) as nat,
                (10 * NANOS_PER_SEC) as nat,
                (30 * NANOS_PER_SEC) as nat,
            ],
    {
        let mut r: UasEventHandler = UasEventHandler::new(uac);
        r.config.has_call_manager = true;
        r.config.bridge_ngn_bind_ip = bridge_ngn_bind_ip;
        r.config.bridge_ext_bind_ip = bridge_ext_bind_ip;
        assert(r@ =~= fresh_uas());
        r
    }

    /// A handler that takes over the calls in `registry`.
    pub fn with_shared_registry(
        uac: UacConfig,
        has_call_manager: bool,
        bridge_ngn_bind_ip: Option<IpAddr>,
        bridge_ext_bind_ip: Option<IpAddr>,
        registry: OutboundCallRegistry,
    ) -> (r: Self)
        ensures
            r.settings() == (UasConfig {
                has_call_manager,
                bridge_ngn_bind_ip,
                bridge_ext_bind_ip,
                ..plain_config(uac)
            }),
            r@ == (UasView { registry: registry@, ..fresh_uas() }),
            r.limiter_parameters().min_interval@ == 3 * NANOS_PER_SEC,
            r.limiter_parameters().failure_backoff_steps@.map_values(|d: Duration| d@) == seq![
                (5 * NANOS_PER_SEC) as nat,
                (10 * NANOS_PER_SEC) as nat,
                (30 * NANOS_PER_SEC) as nat,
            ],
    {
        let mut r: UasEventHandler = UasEventHandler::new(uac);
        r.config.has_call_manager = has_call_manager;
        r.config.bridge_ngn_bind_ip = bridge_ngn_bind_ip;
        r.config.bridge_ext_bind_ip = bridge_ext_bind_ip;
        r.registry = registry;
        assert(r@ =~= (UasView { registry: registry@, ..fresh_uas() }));
        r
    }

    /// Has requests sent to extensions from now on, through a socket whose address
    /// is `layer_addr` where it is known. `ext_local_addr` is the address at which
    /// extensions reach this end, where it is another.
    pub fn attach_ext_layer(&mut self, layer_addr: Option<String>, ext_local_addr: Option<String>)
        ensures
            final(self).settings() == (UasConfig {
                has_ext_layer: true,
                ext_local_addr,
                ext_layer_addr: layer_addr,
                ..old(self).settings()
            }),
            final(self).limiter_parameters() == old(self).limiter_parameters(),
            final(self).limiter_clock() == old(self).limiter_clock(),
            final(self)@ == old(self)@,
    {
        self.config.has_ext_layer = true;
        self.config.ext_local_addr = ext_local_addr;
        self.config.ext_layer_addr = layer_addr;
        assert(self@ =~= old(self)@);
    }

    /// Replaces the limiter.
    pub fn set_outbound_rate_limiter(&mut self, limiter: OutboundRateLimiter)
        ensures
            final(self).settings() == old(self).settings(),
            final(self).limiter_parameters() == limiter.parameters(),
            final(self).limiter_clock() == limiter.clock(),
            final(self)@ == (UasView { limiter: limiter@, ..old(self)@ }),
    {
        self.outbound_rate_limiter = limiter;
        assert(self@ =~= (UasView { limiter: limiter@, ..old(self)@ }));
    }

    /// The limiter.
    pub fn outbound_rate_limiter(&self) -> (r: &OutboundRateLimiter)
        ensures
            r@ == self@.limiter,
            r.parameters() == self.limiter_parameters(),
            r.clock() == self.limiter_clock(),
    {
        &self.outbound_rate_limiter
    }

    /// The calls.
    pub fn registry(&self) -> (r: &OutboundCallRegistry)
        ensures
            r@ == self@.registry,
    {
        &self.registry
    }

    /// What the handler works with.
    pub fn config(&self) -> (r: &UasConfig)
        ensures
            *r == self.settings(),
    {
        &self.config
    }

    /// Decides on an INVITE of `aor` at `now`.
    pub(crate) fn check_at(&mut self, aor: &str, now: Instant) -> (r: RateLimitDecision)
        ensures
            final(self).settings() == old(self).settings(),
            final(self).limiter_parameters() == old(self).limiter_parameters(),
            final(self).limiter_clock() == old(self).limiter_clock(),
            r@ == decision(old(self).limiter_parameters(), old(self)@.limiter, aor@, now),
            final(self)@ == (UasView {
                limiter: after_check(
                    old(self).limiter_parameters(),
                    old(self)@.limiter,
                    aor@,
                    now,
                ),
                ..old(self)@
            }),
    {
        let r: RateLimitDecision = self.outbound_rate_limiter.check_and_record_at(aor, now);
        assert(self@ =~= (UasView {
            limiter: after_check(old(self).limiter_parameters(), old(self)@.limiter, aor@, now),
            ..old(self)@
        }));
        r
    }

    /// Reports to the limiter how an INVITE of `aor` ended at `now`: with success, or
    /// with a status and a `Retry-After`.
    pub(crate) fn record_end_at(
        &mut self,
        aor: &str,
        failure: Option<(u16, Option<u32>)>,
        now: Instant,
    )
        ensures
            final(self).settings() == old(self).settings(),
            final(self).limiter_parameters() == old(self).limiter_parameters(),
            final(self).limiter_clock() == old(self).limiter_clock(),
            final(self)@ == (UasView {
                limiter: match failure {
                    None => after_success(old(self)@.limiter, aor@),
                    Some((status, retry_after)) => after_failure(
                        old(self)@.limiter,
                        aor@,
                        status,
                        retry_after,
                        now,
                    ),
                },
                ..old(self)@
            }),
    {
        match failure {
            None => {
                self.outbound_rate_limiter.record_success(aor);
            },
            Some((status, retry_after)) => {
                self.outbound_rate_limiter.record_failure_at(aor, status, retry_after, now);
            },
        }
        assert(self@ =~= (UasView {
            limiter: match failure {
                None => after_success(old(self)@.limiter, aor@),
                Some((status, retry_after)) => after_failure(
                    old(self)@.limiter,
                    aor@,
                    status,
                    retry_after,
                    now,
                ),
            },
            ..old(self)@
        }));
    }

    /// Takes an INVITE of the extension `from_aor` in at `now`. `tag` is for a
    /// refusal.
    pub fn handle_invite_at(
        &mut self,
        from_aor: &str,
        request: &SipRequest,
        now: Instant,
        tag: &str,
    ) -> (r: InviteStart)
        ensures
            final(self).settings() == old(self).settings(),
            final(self).limiter_parameters() == old(self).limiter_parameters(),
            final(self).limiter_clock() == old(self).limiter_clock(),
            r@ == invite_start(
                old(self).settings(),
                decision(old(self).limiter_parameters(), old(self)@.limiter, from_aor@, now),
                *request,
                tag@,
            ),
            final(self)@ == (UasView {
                limiter: after_check(
                    old(self).limiter_parameters(),
                    old(self)@.limiter,
                    from_aor@,
                    now,
                ),
                ..old(self)@
            }),
    {
        let d: RateLimitDecision = self.outbound_rate_limiter.check_and_record_at(from_aor, now);
        assert(self@ =~= (UasView {
            limiter: after_check(
                old(self).limiter_parameters(),
                old(self)@.limiter,
                from_aor@,
                now,
            ),
            ..old(self)@
        }));
        match d {
            RateLimitDecision::Deny { retry_after } => InviteStart::Refuse {
                response: build_503_with_retry_after_and_tag(request, retry_after.as_secs(), tag),
            },
            RateLimitDecision::Allow { previous_interval } => {
                let target: String = normalize_request_uri_for_ngn(
                    request.uri.as_str(),
                    self.config.uac.server_host.as_str(),
                    self.config.uac.server_port,
                );
                let bridge: Option<BridgePreparation> = prepare_outbound_bridge(
                    self.config.has_call_manager,
                    self.config.bridge_ngn_bind_ip,
                    self.config.bridge_ext_bind_ip,
                    request.body.as_slice(),
                );
                InviteStart::Proceed { interval_ms: interval_ms(previous_interval), target, bridge }
            },
        }
    }

    /// Takes an INVITE of the extension `from_aor` in, at the time on the limiter's
    /// clock. When the clock is read is not said: see
    /// [`UasEventHandler::handle_invite_at`] for what each time gives.
    pub fn handle_invite(&mut self, from_aor: &str, request: &SipRequest) -> (r: InviteStart)
        ensures
            final(self).settings() == old(self).settings(),
            final(self).limiter_parameters() == old(self).limiter_parameters(),
            final(self).limiter_clock() == old(self).limiter_clock(),
            exists|now: Instant, tag: Seq<char>|
                #![trigger is_tag(tag), decision(
                    old(self).limiter_parameters(),
                    old(self)@.limiter,
                    from_aor@,
                    now,
                )]
                {
                    &&& is_tag(tag)
                    &&& old(self).limiter_clock().shows(now)
                    &&& r@ == invite_start(
                        old(self).settings(),
                        decision(
                            old(self).limiter_parameters(),
                            old(self)@.limiter,
                            from_aor@,
                            now,
                        ),
                        *request,
                        tag,
                    )
                    &&& final(self)@ == (UasView {
                        limiter: after_check(
                            old(self).limiter_parameters(),
                            old(self)@.limiter,
                            from_aor@,
                            now,
                        ),
                        ..old(self)@
                    })
                },
    {
        let now: Instant = self.outbound_rate_limiter.now();
        let tag: String = new_tag();
        self.handle_invite_at(from_aor, request, now, tag.as_str())
    }

    /// Takes in that the INVITE to the carrier is ready. Until it is answered it is
    /// kept under the Call-ID of the extension's INVITE, so that it can be
    /// cancelled.
    pub fn invite_planned(
        &mut self,
        request: &SipRequest,
        invite_plan: PlanId,
        ext_responder: ResponderId,
    )
        ensures
            final(self).settings() == old(self).settings(),
            final(self).limiter_parameters() == old(self).limiter_parameters(),
            final(self).limiter_clock() == old(self).limiter_clock(),
            pending_key(*request) is None ==> final(self)@ == old(self)@,
            pending_key(*request) matches Some(id) ==> {
                let reg = final(self)@.registry;
                &&& final(self)@ == (UasView { registry: reg, ..old(self)@ })
                &&& reg == (RegistryView { pending: reg.pending, ..old(self)@.registry })
                &&& reg.pending == old(self)@.registry.pending.insert(id, reg.pending[id])
                &&& reg.pending[id].ext_call_id@ == id
                &&& reg.pending[id].invite_plan == invite_plan
                &&& reg.pending[id].ext_responder == ext_responder
            },
    {
        if let Some(id) = pending_id(request) {
            let p = PendingOutbound { ext_call_id: id.to_owned(), invite_plan, ext_responder };
            self.registry.insert_pending(p);
            proof {
                let reg = self@.registry;
                assert(reg.pending[id@] == p);
                assert(self@ =~= (UasView { registry: reg, ..old(self)@ }));
            }
        }
    }

    /// Takes in how the INVITE `invite_plan` to the carrier, for the INVITE `request`
    /// of the extension `from_aor`, ended at `now`.
    pub fn invite_ended_at(
        &mut self,
        from_aor: &str,
        request: &SipRequest,
        invite_plan: PlanId,
        outcome: &InviteOutcome,
        now: Instant,
        tag: &str,
    ) -> (r: InviteEnd)
        ensures
            final(self).settings() == old(self).settings(),
            final(self).limiter_parameters() == old(self).limiter_parameters(),
            final(self).limiter_clock() == old(self).limiter_clock(),
            r@ == invite_end(
                *request,
                old(self)@.cancelled.contains(invite_plan),
                outcome@,
                tag@,
            ),
            final(self)@ == after_invite_end(
                old(self)@,
                from_aor@,
                *request,
                invite_plan,
                outcome@,
                now,
            ),
    {
        let was_cancelled: bool = has_plan(&self.cancelled, invite_plan);
        self.cancelled = without_plan(&self.cancelled, invite_plan);
        if let Some(id) = pending_id(request) {
            self.registry.take_pending(id);
        }
        let end: InviteEnd = match outcome {
            InviteOutcome::Established => {
                self.outbound_rate_limiter.record_success(from_aor);
                if was_cancelled {
                    InviteEnd::HangUp
                } else {
                    InviteEnd::Answer
                }
            },
            InviteOutcome::Failed { response } => {
                self.outbound_rate_limiter.record_failure_at(
                    from_aor,
                    response.status_code,
                    retry_after_secs(response),
                    now,
                );
                InviteEnd::Refuse {
                    reply: pass_refusal_on(request, response, tag),
                    ngn: count_status(response.status_code),
                }
            },
            InviteOutcome::TransportFailed => {
                if was_cancelled {
                    InviteEnd::Nothing
                } else {
                    self.outbound_rate_limiter.record_failure_at(from_aor, 503, None, now);
                    InviteEnd::Refuse {
                        reply: quick(503, "Service Unavailable"),
                        ngn: InviteResult::Timeout,
                    }
                }
            },
        };
        proof {
            let want = after_invite_end(
                old(self)@,
                from_aor@,
                *request,
                invite_plan,
                outcome@,
                now,
            );
            assert(self@.cancelled =~= want.cancelled);
            assert(self@ =~= want);
        }
        end
    }

    /// Takes in how an INVITE to the carrier ended, at the time on the limiter's
    /// clock. When the clock is read is not said: see
    /// [`UasEventHandler::invite_ended_at`] for what each time gives.
    pub fn invite_ended(
        &mut self,
        from_aor: &str,
        request: &SipRequest,
        invite_plan: PlanId,
        outcome: &InviteOutcome,
    ) -> (r: InviteEnd)
        ensures
            final(self).settings() == old(self).settings(),
            final(self).limiter_parameters() == old(self).limiter_parameters(),
            final(self).limiter_clock() == old(self).limiter_clock(),
            exists|tag: Seq<char>|
                is_tag(tag) && r@ == #[trigger] invite_end(
                    *request,
                    old(self)@.cancelled.contains(invite_plan),
                    outcome@,
                    tag,
                ),
            exists|now: Instant|
                old(self).limiter_clock().shows(now) && final(self)@ == #[trigger] after_invite_end(
                    old(self)@,
                    from_aor@,
                    *request,
                    invite_plan,
                    outcome@,
                    now,
                ),
    {
        let now: Instant = self.outbound_rate_limiter.now();
        let tag: String = new_tag();
        self.invite_ended_at(from_aor, request, invite_plan, outcome, now, tag.as_str())
    }

    /// The offer for the carrier, to be made of that in the extension's INVITE
    /// `request`, or of `prepared`, which points at the call's bridge, where there is
    /// one.
    pub fn offer_for_carrier(&self, request: &SipRequest, prepared: Option<Vec<u8>>) -> (r:
        CarrierOffer)
        ensures
            r@ == carrier_offer(self.settings(), bytes(prepared), request.body@),
    {
        CarrierOffer::new(prepared, request.body.as_slice(), self.config.uac.local_ip)
    }

    /// What is done about the bridge of a call that the carrier answered with
    /// `ngn_answer`, where `request` is the extension's INVITE.
    pub fn finalize_bridge(
        &self,
        request: &SipRequest,
        bridge: Option<OutboundBridgeCtx>,
        ngn_answer: &[u8],
    ) -> (r: FinalizeBridge)
        ensures
            r@ == bridge_end(
                self.settings().has_call_manager,
                bridge,
                request.body@,
                ngn_answer@,
            ),
    {
        finalize_outbound_bridge(
            self.config.has_call_manager,
            bridge,
            request.body.as_slice(),
            ngn_answer,
        )
    }

    /// The answer to an extension's INVITE. `bridged` is the session description for
    /// the extension where there is a bridge; without one the carrier's own goes to
    /// the extension.
    pub fn answer_extension(
        &self,
        request: &SipRequest,
        ngn_answer: &[u8],
        bridged: Option<Vec<u8>>,
        tag: &str,
    ) -> (r: SipResponse)
        ensures
            r@ == answer_to_ext(
                *request,
                match bridged {
                    Some(sdp) => sdp@,
                    None => ngn_answer@,
                },
                ext_contact(self.settings()),
                tag@,
            ),
    {
        let contact: String = self.ext_contact_uri();
        match bridged {
            Some(sdp) => build_2xx_to_ext_with(request, sdp.as_slice(), contact.as_str(), tag),
            None => build_2xx_to_ext_with(request, ngn_answer, contact.as_str(), tag),
        }
    }

    /// Takes in that an extension's INVITE was answered. The call is kept, so that
    /// either side can end it, where requests can be sent to extensions and there is
    /// a dialog with this one. Says whether it is.
    pub fn call_answered(
        &mut self,
        request: &SipRequest,
        from_aor: &str,
        ngn_call_id: &str,
        ext_dialog: Option<DialogId>,
        ngn_dialog: DialogId,
        ext_responder: ResponderId,
        ext_remote: SocketAddr,
        bridge_call_id: Option<CallId>,
    ) -> (r: bool)
        ensures
            final(self).settings() == old(self).settings(),
            final(self).limiter_parameters() == old(self).limiter_parameters(),
            final(self).limiter_clock() == old(self).limiter_clock(),
            r == (ext_dialog is Some && old(self).settings().has_ext_layer),
            !r ==> final(self)@ == old(self)@,
            r ==> exists|e: OutboundCallEntry|
                {
                    &&& final(self)@ == (UasView {
                        registry: #[trigger] old(self)@.registry.with_call(e),
                        ..old(self)@
                    })
                    &&& e.ext_call_id@ == ext_id(*request)
                    &&& e.ngn_call_id@ == ngn_call_id@
                    &&& e.from_aor@ == from_aor@
                    &&& Some(e.ext_dialog) == ext_dialog
                    &&& e.ngn_dialog == ngn_dialog
                    &&& e.ext_responder == ext_responder
                    &&& e.ext_remote == ext_remote
                    &&& e.bridge_call_id == bridge_call_id
                },
    {
        if !self.config.has_ext_layer {
            return false;
        }
        match ext_dialog {
            None => false,
            Some(ext_dialog) => {
                let ext_call_id: String = match request.headers.get("call-id") {
                    Some(id) => id.to_owned(),
                    None => "<no-call-id>".to_owned(),
                };
                let e = OutboundCallEntry {
                    ext_call_id,
                    ngn_call_id: ngn_call_id.to_owned(),
                    from_aor: from_aor.to_owned(),
                    ext_dialog,
                    ngn_dialog,
                    ext_responder,
                    ext_remote,
                    bridge_call_id,
                };
                self.registry.insert_confirmed(e);
                assert(self@ =~= (UasView {
                    registry: old(self)@.registry.with_call(e),
                    ..old(self)@
                }));
                true
            },
        }
    }

    /// The URI at which extensions reach this end: the address that is set for
    /// them, or that of the socket towards them, or else that towards the carrier.
    pub fn ext_contact_uri(&self) -> (r: String)
        ensures
            r@ == ext_contact(self.settings()),
    {
        let host: &str = match (&self.config.ext_local_addr, &self.config.ext_layer_addr) {
            (Some(addr), _) => addr.as_str(),
            (None, Some(addr)) => addr.as_str(),
            (None, None) => self.config.uac.local_addr.as_str(),
        };
        join("sip:sabiden@", host)
    }

    /// The parties of the dialog that an extension's INVITE opens.
    pub fn build_ext_dialog_cfg(&self, invite: &SipRequest) -> (r: DialogConfig)
        ensures
            r.local_uri@ == party(*invite, "to"@, "sip:sabiden"@),
            r.remote_uri@ == party(*invite, "from"@, "sip:unknown@sabiden"@),
            r.sent_by@ == (match ext_host(self.settings()) {
                Some(host) => host,
                None => "0.0.0.0:0"@,
            }),
            r.local_contact@ == "sip:sabiden@"@ + r.sent_by@,
    {
        let sent_by: String = match (&self.config.ext_local_addr, &self.config.ext_layer_addr) {
            (Some(addr), _) => addr.clone(),
            (None, Some(addr)) => addr.clone(),
            (None, None) => "0.0.0.0:0".to_owned(),
        };
        let local_contact: String = join("sip:sabiden@", sent_by.as_str());
        DialogConfig {
            local_uri: party_of(invite, "to", "sip:sabiden"),
            remote_uri: party_of(invite, "from", "sip:unknown@sabiden"),
            local_contact,
            sent_by,
        }
    }

    /// Takes a BYE of an extension in. It is answered first, whether or not it belongs
    /// to a call (RFC 3261 §15.1.2); then its call ends, where it has one.
    pub fn handle_ext_bye(&mut self, request: &SipRequest) -> (r: (Reply, Option<CarrierBye>))
        ensures
            final(self).settings() == old(self).settings(),
            final(self).limiter_parameters() == old(self).limiter_parameters(),
            final(self).limiter_clock() == old(self).limiter_clock(),
            r.0@ == (ReplyView::Quick { status: 200, reason: "OK"@ }),
            (r.1, final(self)@) == ext_bye_step(old(self).settings(), old(self)@, *request),
    {
        (quick(200, "OK"), self.end_by_extension(request))
    }

    fn end_by_extension(&mut self, request: &SipRequest) -> (r: Option<CarrierBye>)
        ensures
            final(self).settings() == old(self).settings(),
            final(self).limiter_parameters() == old(self).limiter_parameters(),
            final(self).limiter_clock() == old(self).limiter_clock(),
            (r, final(self)@) == ext_bye_step(old(self).settings(), old(self)@, *request),
    {
        match request.headers.get("call-id") {
            None => None,
            Some(id) => {
                let removed: Option<OutboundCallEntry> = self.registry.remove_by_ext(id);
                assert(self@ =~= (UasView {
                    registry: old(self)@.registry.without_ext(id@),
                    ..old(self)@
                }));
                match removed {
                    Some(entry) => Some(self.bye_to_carrier(&entry)),
                    None => None,
                }
            },
        }
    }

    fn bye_to_carrier(&self, entry: &OutboundCallEntry) -> (r: CarrierBye)
        ensures
            r == carrier_bye(self.settings(), *entry),
    {
        CarrierBye {
            ngn_dialog: entry.ngn_dialog,
            ext_dialog: entry.ext_dialog,
            terminate: if self.config.has_call_manager {
                entry.bridge_call_id
            } else {
                None
            },
        }
    }

    /// Takes in that the extension `aor` is no longer registered: each of its calls
    /// ends.
    pub fn handle_ext_unregister(&mut self, aor: &str) -> (r: Vec<CarrierBye>)
        ensures
            final(self).settings() == old(self).settings(),
            final(self).limiter_parameters() == old(self).limiter_parameters(),
            final(self).limiter_clock() == old(self).limiter_clock(),
            final(self)@ == (UasView {
                registry: old(self)@.registry.without_aor(aor@),
                ..old(self)@
            }),
            exists|calls: Seq<OutboundCallEntry>|
                {
                    &&& #[trigger] holds_calls_of(calls, old(self)@.registry, aor@)
                    &&& r@ == calls.map_values(
                        |e: OutboundCallEntry| carrier_bye(old(self).settings(), e),
                    )
                },
    {
        let calls: Vec<OutboundCallEntry> = self.registry.drain_by_aor(aor);
        assert(self@ =~= (UasView {
            registry: old(self)@.registry.without_aor(aor@),
            ..old(self)@
        }));
        let ghost byes = calls@.map_values(
            |e: OutboundCallEntry| carrier_bye(self.settings(), e),
        );
        let mut out: Vec<CarrierBye> = Vec::new();
        let mut i: usize = 0;
        while i < calls.len()
            invariant
                i <= calls.len(),
                byes == calls@.map_values(
                    |e: OutboundCallEntry| carrier_bye(self.settings(), e),
                ),
                out@ == byes.take(i as int),
            decreases calls.len() - i,
        {
            out.push(self.bye_to_carrier(&calls[i]));
            assert(byes.take(i + 1) =~= byes.take(i as int).push(byes[i as int]));
            i = i + 1;
        }
        assert(byes.take(i as int) =~= byes);
        out
    }

    /// Takes a BYE of the carrier in for the call `ngn_call_id`. `None` where the
    /// call is none that an extension made: then it is somebody else's.
    pub fn handle_ngn_bye(&mut self, ngn_call_id: &str) -> (r: Option<ExtensionBye>)
        ensures
            final(self).settings() == old(self).settings(),
            final(self).limiter_parameters() == old(self).limiter_parameters(),
            final(self).limiter_clock() == old(self).limiter_clock(),
            final(self)@ == (UasView {
                registry: old(self)@.registry.without_ngn(ngn_call_id@),
                ..old(self)@
            }),
            r == (match old(self)@.registry.found_by_ngn(ngn_call_id@) {
                Some(entry) => Some(extension_bye(old(self).settings(), entry)),
                None => None,
            }),
    {
        let removed: Option<OutboundCallEntry> = self.registry.remove_by_ngn(ngn_call_id);
        assert(self@ =~= (UasView {
            registry: old(self)@.registry.without_ngn(ngn_call_id@),
            ..old(self)@
        }));
        match removed {
            Some(entry) => Some(
                ExtensionBye {
                    ext_dialog: entry.ext_dialog,
                    ext_remote: entry.ext_remote,
                    terminate: if self.config.has_call_manager {
                        entry.bridge_call_id
                    } else {
                        None
                    },
                },
            ),
            None => None,
        }
    }

    /// Takes a Re-INVITE of an extension in. It is refused with 491 while the first
    /// INVITE of the call was not answered (RFC 3261 §14.2), and with 481 where there
    /// is no such call (§12.2.2).
    pub fn handle_ext_reinvite(&self, request: &SipRequest) -> (r: ExtReinvite)
        ensures
            r@ == ext_reinvite(self.settings(), self@.registry, *request),
    {
        let id: &str = match request.headers.get("call-id") {
            Some(id) => id,
            None => "",
        };
        proof {
            reveal_strlit("");
            assert(id@ =~= field_or_empty(*request, "call-id"@));
        }
        match self.registry.lookup_by_ext(id) {
            Some(entry) => ExtReinvite::Forward {
                ngn_dialog: entry.ngn_dialog,
                offer: self.offer_for_carrier(request, None),
            },
            None => {
                if self.registry.get_pending(id).is_some() {
                    ExtReinvite::Refuse(quick(491, "Request Pending"))
                } else {
                    ExtReinvite::Refuse(quick(481, "Call/Transaction Does Not Exist"))
                }
            },
        }
    }

    /// The answer to an extension's Re-INVITE that the carrier answered with
    /// `answer`; `None` means that the carrier could not be asked.
    pub fn reinvite_answered(
        &self,
        request: &SipRequest,
        answer: Option<&SipResponse>,
        tag: &str,
    ) -> (r: Reply)
        ensures
            r@ == reinvite_reply_to_ext(
                *request,
                match answer {
                    Some(resp) => Some(resp@),
                    None => None,
                },
                ext_contact(self.settings()),
                tag@,
            ),
    {
        let contact: String = self.ext_contact_uri();
        relay_reinvite_to_ext(request, answer, contact.as_str(), tag)
    }

    /// Takes a Re-INVITE of the carrier in. It is refused with 481 where it belongs
    /// to no call that an extension made.
    pub fn handle_ngn_reinvite(&self, request: &SipRequest, tag: &str) -> (r: NgnReinvite)
        ensures
            r@ == (match self@.registry.found_by_ngn(field_or_empty(*request, "call-id"@)) {
                Some(entry) => reinvite_to_ext(entry, *request),
                None => NgnReinviteView::Refuse(
                    final_response_view(*request, 481, "Call/Transaction Does Not Exist"@, tag@),
                ),
            }),
    {
        let id: &str = match request.headers.get("call-id") {
            Some(id) => id,
            None => "",
        };
        proof {
            reveal_strlit("");
            assert(id@ =~= field_or_empty(*request, "call-id"@));
        }
        match self.registry.lookup_by_ngn(id) {
            Some(entry) => NgnReinvite::Forward {
                ext_dialog: entry.ext_dialog,
                ngn_dialog: entry.ngn_dialog,
                ext_remote: entry.ext_remote,
                offer: if request.body.len() > 0 {
                    Some(copy_bytes(request.body.as_slice()))
                } else {
                    None
                },
                session_expires: SESSION_EXPIRES,
                min_se: MIN_SE,
            },
            None => NgnReinvite::Refuse(
                final_response(request, 481, "Call/Transaction Does Not Exist", tag),
            ),
        }
    }

    /// Takes a CANCEL of an extension in. Where its INVITE was not answered yet, that
    /// is marked as cancelled: an answer that comes all the same is hung up on.
    pub fn handle_ext_cancel(&mut self, request: &SipRequest) -> (r: Option<CancelInvite>)
        ensures
            final(self).settings() == old(self).settings(),
            final(self).limiter_parameters() == old(self).limiter_parameters(),
            final(self).limiter_clock() == old(self).limiter_clock(),
            (cancel_view(r), final(self)@) == ext_cancel_step(old(self)@, *request),
    {
        let pending: Option<CancelInvite> = match request.headers.get("call-id") {
            None => None,
            Some(id) => match self.registry.get_pending(id) {
                Some(p) => Some(
                    CancelInvite {
                        invite_plan: p.invite_plan,
                        ext_responder: p.ext_responder,
                        reply: quick(487, "Request Terminated"),
                    },
                ),
                None => None,
            },
        };
        if let Some(cancel) = &pending {
            let ghost before = self.cancelled@;
            self.cancelled.push(cancel.invite_plan);
            proof {
                let plan = cancel.invite_plan;
                assert forall|p: PlanId| #[trigger]
                    self.cancelled@.contains(p) <==> before.contains(p) || p == plan by {
                    assert(self.cancelled@[before.len() as int] == plan);
                    if before.contains(p) {
                        let k = choose|k: int| 0 <= k < before.len() && before[k] == p;
                        assert(self.cancelled@[k] == p);
                    }
                }
                assert(self@.cancelled =~= old(self)@.cancelled.insert(plan));
                assert(self@ =~= (UasView {
                    cancelled: old(self)@.cancelled.insert(plan),
                    ..old(self)@
                }));
            }
        }
        pending
    }
}

/// Somebody who knows of calls from extensions, and whom the handler of the
/// carrier's requests has asked about requests that belong to none of its own.
pub trait OutboundDialogForwarder {
    /// What is done about a BYE of the carrier for the call `ngn_call_id`; `None`
    /// where that is no call of an extension.
    fn try_forward_bye(&mut self, ngn_call_id: &str) -> (r: Option<ExtensionBye>);

    /// What is done about a Re-INVITE of the carrier; `None` where it belongs to no
    /// call of an extension.
    fn try_forward_ngn_reinvite(&self, request: &SipRequest, tag: &str) -> (r: Option<NgnReinvite>);
}

impl OutboundDialogForwarder for UasEventHandler {
    fn try_forward_bye(&mut self, ngn_call_id: &str) -> (r: Option<ExtensionBye>)
        ensures
            final(self).settings() == old(self).settings(),
            final(self).limiter_parameters() == old(self).limiter_parameters(),
            final(self).limiter_clock() == old(self).limiter_clock(),
            final(self)@ == (UasView {
                registry: old(self)@.registry.without_ngn(ngn_call_id@),
                ..old(self)@
            }),
            r == (match old(self)@.registry.found_by_ngn(ngn_call_id@) {
                Some(entry) => Some(extension_bye(old(self).settings(), entry)),
                None => None,
            }),
    {
        self.handle_ngn_bye(ngn_call_id)
    }

    fn try_forward_ngn_reinvite(&self, request: &SipRequest, tag: &str) -> (r: Option<NgnReinvite>)
        ensures
            r is Some <==> call_id_of(*request) is Some && self@.registry.found_by_ngn(
                call_id_of(*request)->0,
            ) is Some,
            r is Some ==> {
                let entry = self@.registry.found_by_ngn(call_id_of(*request)->0)->0;
                r->0@ == reinvite_to_ext(entry, *request)
            },
    {
        match request.headers.get("call-id") {
            None => None,
            Some(id) => {
                if self.registry.lookup_by_ngn(id).is_none() {
                    return None;
                }
                Some(self.handle_ngn_reinvite(request, tag))
            },
        }
    }
}

/// No bridges, and no requests to extensions.
pub open spec fn plain_config(uac: UacConfig) -> UasConfig {
    UasConfig {
        uac,
        has_call_manager: false,
        bridge_ngn_bind_ip: None,
        bridge_ext_bind_ip: None,
        has_ext_layer: false,
        ext_local_addr: None,
        ext_layer_addr: None,
    }
}

/// A handler that has seen nothing.
pub open spec fn fresh_uas() -> UasView {
    UasView {
        registry: RegistryView::empty(),
        limiter: Map::empty(),
        cancelled: Set::empty(),
    }
}

/// The Call-ID under which a call of an extension is kept.
pub open spec fn ext_id(request: SipRequest) -> Seq<char> {
    match call_id_of(request) {
        Some(id) => id,
        None => "<no-call-id>"@,
    }
}

/// What the handler knows once the INVITE `invite_plan` to the carrier has ended.
pub open spec fn after_invite_end(
    u: UasView,
    from_aor: Seq<char>,
    request: SipRequest,
    invite_plan: PlanId,
    outcome: OutcomeView,
    now: Instant,
) -> UasView {
    UasView {
        registry: RegistryView {
            pending: match pending_key(request) {
                Some(id) => u.registry.pending.remove(id),
                None => u.registry.pending,
            },
            ..u.registry
        },
        limiter: limiter_after_end(
            u.limiter,
            from_aor,
            u.cancelled.contains(invite_plan),
            outcome,
            now,
        ),
        cancelled: u.cancelled.remove(invite_plan),
    }
}

/// What is done about a BYE of an extension, and what the handler knows afterwards.
pub open spec fn ext_bye_step(config: UasConfig, u: UasView, request: SipRequest) -> (
    Option<CarrierBye>,
    UasView,
) {
    match call_id_of(request) {
        None => (None, u),
        Some(id) => (
            match u.registry.found_by_ext(id) {
                Some(entry) => Some(carrier_bye(config, entry)),
                None => None,
            },
            UasView { registry: u.registry.without_ext(id), ..u },
        ),
    }
}

/// The contents of what is done about a CANCEL, where there is anything to do.
pub open spec fn cancel_view(c: Option<CancelInvite>) -> Option<CancelView> {
    match c {
        Some(c) => Some(c@),
        None => None,
    }
}

/// What is done about a CANCEL of an extension, and what the handler knows
/// afterwards. The extension's INVITE is answered with 487 (RFC 3261 §9.2).
pub open spec fn ext_cancel_step(u: UasView, request: SipRequest) -> (
    Option<CancelView>,
    UasView,
) {
    match call_id_of(request) {
        Some(id) if u.registry.pending.contains_key(id) => {
            let p = u.registry.pending[id];
            (
                Some(
                    CancelView {
                        invite_plan: p.invite_plan,
                        ext_responder: p.ext_responder,
                        reply: ReplyView::Quick { status: 487, reason: "Request Terminated"@ },
                    },
                ),
                UasView { cancelled: u.cancelled.insert(p.invite_plan), ..u },
            )
        },
        _ => (None, u),
    }
}

/// An INVITE that comes too soon goes nowhere: it is refused with 503, the refusal
/// asks for a wait of at least a second, and the limiter remembers nothing of it.
pub proof fn law_invite_too_soon_is_refused(
    config: UasConfig,
    parameters: RateLimiterConfig,
    limiter: Map<Seq<char>, AorState>,
    aor: Seq<char>,
    now: Instant,
    request: SipRequest,
    tag: Seq<char>,
)
    requires
        held_back(parameters, limiter, aor, now),
    ensures
        ({
            let d = decision(parameters, limiter, aor, now);
            let secs = (d->retry_after / NANOS_PER_SEC as nat) as u64;
            &&& invite_start(config, d, request, tag) == (InviteStartView::Refuse {
                response: too_soon(request, secs, tag),
            })
            &&& too_soon(request, secs, tag).status == 503
            &&& secs >= 1
            &&& secs * NANOS_PER_SEC == d->retry_after
            &&& after_check(parameters, limiter, aor, now) == limiter
        }),
{
    law_refusal_asks_for_a_wait(parameters, limiter, aor, now);
    let wait = (allowed_from(parameters, limiter[aor]) - now@) as nat;
    let n = whole_secs(wait);
    assert(n <= u64::MAX);
    assert((n * NANOS_PER_SEC) / NANOS_PER_SEC as int == n) by (nonlinear_arith);
}

/// An INVITE that is let through goes to the carrier's server.
pub proof fn law_invite_in_time_proceeds(
    config: UasConfig,
    parameters: RateLimiterConfig,
    limiter: Map<Seq<char>, AorState>,
    aor: Seq<char>,
    now: Instant,
    request: SipRequest,
    tag: Seq<char>,
)
    requires
        !held_back(parameters, limiter, aor, now),
    ensures
        ({
            let start = invite_start(
                config,
                decision(parameters, limiter, aor, now),
                request,
                tag,
            );
            &&& start is Proceed
            &&& start->target == request_uri_for_ngn(
                request.uri@,
                config.uac.server_host@,
                config.uac.server_port,
            )
        }),
{
}

/// Once an extension has cancelled its INVITE, that is answered with 487, and the call
/// does not come about: where the carrier answers all the same it is hung up on, and where it gives no answer
/// nothing more is done. The mark is gone afterwards.
pub proof fn law_cancelled_call_does_not_come_about(
    u: UasView,
    cancel: SipRequest,
    invite: SipRequest,
    aor: Seq<char>,
    now: Instant,
    tag: Seq<char>,
)
    requires
        ext_cancel_step(u, cancel).0 is Some,
    ensures
        ({
            let plan = ext_cancel_step(u, cancel).0->0.invite_plan;
            let after = ext_cancel_step(u, cancel).1;
            &&& ext_cancel_step(u, cancel).0->0.reply == (ReplyView::Quick {
                status: 487,
                reason: "Request Terminated"@,
            })
            &&& after.cancelled.contains(plan)
            &&& invite_end(invite, true, OutcomeView::Established, tag) is HangUp
            &&& invite_end(invite, true, OutcomeView::TransportFailed, tag) is Nothing
            &&& !after_invite_end(
                after,
                aor,
                invite,
                plan,
                OutcomeView::Established,
                now,
            ).cancelled.contains(plan)
            &&& after_invite_end(
                after,
                aor,
                invite,
                plan,
                OutcomeView::Established,
                now,
            ).registry.by_ext == u.registry.by_ext
        }),
{
}

/// When the carrier refuses an INVITE with a server failure and names a time to
/// wait, every INVITE of that AOR is held back until the time has passed.
pub proof fn law_carrier_wait_is_kept(
    parameters: RateLimiterConfig,
    u: UasView,
    aor: Seq<char>,
    invite: SipRequest,
    plan: PlanId,
    response: ResponseView,
    at: Instant,
    now: Instant,
)
    requires
        is_server_failure(response.status),
        retry_after_of(response) is Some,
        at@ <= MAX_NANOS,
        now@ < at@ + retry_after_of(response)->0 * NANOS_PER_SEC,
    ensures
        held_back(
            parameters,
            after_invite_end(
                u,
                aor,
                invite,
                plan,
                OutcomeView::Failed { response },
                at,
            ).limiter,
            aor,
            now,
        ),
{
    law_retry_after_holds_back(
        parameters,
        u.limiter,
        aor,
        response.status,
        retry_after_of(response)->0,
        at,
        now,
    );
}

/// A call ends once. After a BYE of the extension neither a second one nor one of
/// the carrier finds it, and after one of the carrier none of the extension does.
pub proof fn law_call_ends_once(config: UasConfig, u: UasView, bye: SipRequest)
    requires
        u.registry.well_formed(),
        call_id_of(bye) is Some,
        u.registry.found_by_ext(call_id_of(bye)->0) is Some,
    ensures
        ({
            let id = call_id_of(bye)->0;
            let entry = u.registry.found_by_ext(id)->0;
            let (end, after) = ext_bye_step(config, u, bye);
            let by_carrier = UasView {
                registry: u.registry.without_ngn(entry.ngn_call_id@),
                ..u
            };
            &&& end == Some(carrier_bye(config, entry))
            &&& ext_bye_step(config, after, bye) == (None::<CarrierBye>, after)
            &&& after.registry.found_by_ngn(entry.ngn_call_id@) is None
            &&& by_carrier == after
            &&& ext_bye_step(config, by_carrier, bye).0 is None
        }),
{
    let id = call_id_of(bye)->0;
    assert(u.registry.by_ext.contains_key(id));
    law_removed_call_is_gone(u.registry, u.registry.found_by_ext(id)->0);
}

/// Whatever refusal the carrier sends, the extension gets its status and its reason
/// phrase. Where the carrier named a time to wait the reply names the same time, as a
/// response that answers the extension's INVITE; else it has no fields of its own.
pub proof fn law_refusal_of_the_carrier_is_passed_on(
    request: SipRequest,
    cancelled: bool,
    response: ResponseView,
    tag: Seq<char>,
)
    ensures
        match invite_end(request, cancelled, OutcomeView::Failed { response }, tag) {
            InviteEndView::Refuse { reply: ReplyView::Full(out), ngn } => {
                &&& out.status == response.status
                &&& out.reason == response.reason
                &&& out.body.len() == 0
                &&& answers(request, out, tag)
                &&& header(response.headers, "retry-after"@) is Some
                &&& retry_after_of(response) is Some
                &&& header(out.headers, "retry-after"@) == Some(
                    decimal(retry_after_of(response)->0 as nat),
                )
                &&& ngn is Busy <==> response.status == 486
                &&& ngn is Error <==> response.status != 486
            },
            InviteEndView::Refuse { reply: ReplyView::Quick { status, reason }, ngn } => {
                &&& status == response.status
                &&& reason == response.reason
                &&& retry_after_of(response) is None
                &&& ngn is Busy <==> response.status == 486
                &&& ngn is Error <==> response.status != 486
            },
            _ => false,
        },
{
    lemma_field_names();
    if let Some(secs) = retry_after_of(response) {
        let value = decimal(secs as nat);
        let plain = skeleton(request.headers@, response.status, response.reason);
        lemma_skeleton_is_named(request, response.status, response.reason);
        lemma_field_keeps_names(request, plain, "Retry-After"@, value);
        law_header_set_is_header_read(plain.headers, "Retry-After"@, value, "retry-after"@);
        let full = plain.with("Retry-After"@, value);
        lemma_named_is_answered(request, full, tag);
        law_only_a_missing_tag_is_added(full, tag, "retry-after"@);
    }
}

/// A time to wait that the carrier named is read from its `Retry-After`, in any case of
/// that name, and there is none where that is missing or cannot be read.
pub proof fn law_wait_is_read_from_the_response(resp: ResponseView, name: Seq<char>, secs: u32)
    requires
        same_ignoring_case(name, "retry-after"@),
    ensures
        retry_after_of(resp.with(name, decimal(secs as nat))) == Some(secs),
        header(resp.headers, "retry-after"@) is None ==> retry_after_of(resp) is None,
        header(resp.headers, "retry-after"@) is Some && retry_after_value(
            header(resp.headers, "retry-after"@)->0,
        ) is None ==> retry_after_of(resp) is None,
{
    law_header_set_is_header_read(resp.headers, name, decimal(secs as nat), "retry-after"@);
    law_retry_after_is_read_back(secs);
}

/// What becomes of an INVITE is told by how it ended and by whether it was cancelled
/// before: an answer is passed on, or hung up on where nobody waits for it any more; no
/// answer at all is a 503 to an extension that still waits. A refusal is passed on
/// either way.
pub proof fn law_extension_learns_how_its_invite_ended(
    request: SipRequest,
    outcome: OutcomeView,
    tag: Seq<char>,
)
    ensures
        invite_end(request, false, outcome, tag) is Answer <==> outcome is Established,
        invite_end(request, true, outcome, tag) is HangUp <==> outcome is Established,
        invite_end(request, true, outcome, tag) is Nothing <==> outcome is TransportFailed,
        !(invite_end(request, true, outcome, tag) is Answer),
        !(invite_end(request, false, outcome, tag) is HangUp),
        !(invite_end(request, false, outcome, tag) is Nothing),
        outcome is Failed ==> invite_end(request, true, outcome, tag) == invite_end(
            request,
            false,
            outcome,
            tag,
        ),
        outcome is TransportFailed ==> invite_end(request, false, outcome, tag) == (
        InviteEndView::Refuse {
            reply: ReplyView::Quick { status: 503, reason: "Service Unavailable"@ },
            ngn: InviteResult::Timeout,
        }),
{
}

/// What an INVITE of an extension is counted as: one that is held back as an error on
/// the extension's side; any other once on the carrier's side, by how it ended there,
/// and on the extension's side and as a call where it was answered. A cancelled one that
/// the carrier never answered is not counted here again.
pub proof fn law_invite_of_an_extension_is_counted(
    start: InviteStartView,
    request: SipRequest,
    cancelled: bool,
    outcome: OutcomeView,
    tag: Seq<char>,
)
    ensures
        start is Refuse ==> start_counts(start) == seq![
            Count::Blocked(OutboundDirection::Extension),
            Count::Extension(InviteResult::Error),
        ],
        start is Proceed && start->interval_ms is None ==> start_counts(start).len() == 0,
        start is Proceed && start->interval_ms is Some ==> start_counts(start) == seq![
            Count::Interval(start->interval_ms->0),
        ],
        ({
            let counts = end_counts(invite_end(request, cancelled, outcome, tag));
            match outcome {
                OutcomeView::Established => counts == (if cancelled {
                    seq![Count::Ngn(InviteResult::Error)]
                } else {
                    seq![
                        Count::Ngn(InviteResult::Answered),
                        Count::Extension(InviteResult::Answered),
                        Count::CallBegun,
                    ]
                }),
                OutcomeView::Failed { response } => counts == (if response.status == 486 {
                    seq![Count::Ngn(InviteResult::Busy)]
                } else {
                    seq![Count::Ngn(InviteResult::Error)]
                }),
                OutcomeView::TransportFailed => counts == (if cancelled {
                    Seq::<Count>::empty()
                } else {
                    seq![Count::Ngn(InviteResult::Timeout)]
                }),
            }
        }),
{
}

/// The time between two INVITEs is counted in whole milliseconds: the greatest number
/// of them that fits into the time, as far as 64 bits go.
pub proof fn law_interval_is_counted_in_milliseconds(nanos: nat)
    ensures
        interval_sample(None) is None,
        interval_sample(Some(nanos)) is Some,
        ({
            let ms = interval_sample(Some(nanos))->0;
            &&& ms * 1_000_000 <= nanos
            &&& ms < u64::MAX ==> nanos < (ms + 1) * 1_000_000
        }),
{
}

/// An INVITE that is let through is prepared for a bridge from the extension's own
/// session description: the socket of each side is bound to the address that is set for
/// that side, and to the loopback address where none is set.
pub proof fn law_invite_in_time_prepares_a_bridge(
    config: UasConfig,
    previous_interval: Option<nat>,
    request: SipRequest,
    tag: Seq<char>,
)
    ensures
        match invite_start(config, DecisionView::Allow { previous_interval }, request, tag) {
            InviteStartView::Proceed { interval_ms, target, bridge } => {
                &&& interval_ms == interval_sample(previous_interval)
                &&& bridge is Some <==> config.has_call_manager && request.body@.len() > 0
                &&& bridge is Some ==> {
                    &&& bridge->0.ext_offer == request.body@
                    &&& config.bridge_ngn_bind_ip is Some ==> bridge->0.ngn_bind_ip
                        == config.bridge_ngn_bind_ip->0
                    &&& config.bridge_ngn_bind_ip is None ==> bridge->0.ngn_bind_ip == IpAddr::V4(
                        LOOPBACK,
                    )
                    &&& config.bridge_ext_bind_ip is Some ==> bridge->0.ext_bind_ip
                        == config.bridge_ext_bind_ip->0
                    &&& config.bridge_ext_bind_ip is None ==> bridge->0.ext_bind_ip == IpAddr::V4(
                        LOOPBACK,
                    )
                    &&& bridge->0.stage is New
                }
            },
            _ => false,
        },
{
}

/// An INVITE that is held back is answered with a 503 that names the INVITE and the
/// whole seconds of the wait.
pub proof fn law_held_back_invite_is_told_the_wait(
    config: UasConfig,
    secs: u64,
    request: SipRequest,
    tag: Seq<char>,
)
    ensures
        match invite_start(
            config,
            DecisionView::Deny { retry_after: (secs * NANOS_PER_SEC) as nat },
            request,
            tag,
        ) {
            InviteStartView::Refuse { response } => {
                &&& response.status == 503
                &&& response.reason == "Service Unavailable"@
                &&& header(response.headers, "retry-after"@) == Some(decimal(secs as nat))
                &&& answers(request, response, tag)
            },
            _ => false,
        },
{
    assert((secs * NANOS_PER_SEC) / NANOS_PER_SEC as int == secs) by (nonlinear_arith);
    law_too_soon_asks_for_the_given_wait(request, secs, tag);
}

/// The end of an INVITE changes nothing but what it is about: the limiter's memory of
/// the extension, the mark of the INVITE and its place among those that await an answer.
/// No answered call is touched, and no other extension and no other INVITE.
pub proof fn law_end_of_an_invite_spares_the_rest(
    u: UasView,
    aor: Seq<char>,
    request: SipRequest,
    plan: PlanId,
    outcome: OutcomeView,
    now: Instant,
    other_aor: Seq<char>,
    other_plan: PlanId,
    other_id: Seq<char>,
)
    ensures
        ({
            let after = after_invite_end(u, aor, request, plan, outcome, now);
            &&& after.registry.by_ext == u.registry.by_ext
            &&& after.registry.ngn_to_ext == u.registry.ngn_to_ext
            &&& !after.cancelled.contains(plan)
            &&& other_plan != plan ==> (after.cancelled.contains(other_plan)
                <==> u.cancelled.contains(other_plan))
            &&& pending_key(request) is Some ==> !after.registry.pending.contains_key(
                pending_key(request)->0,
            )
            &&& pending_key(request) != Some(other_id) ==> {
                &&& after.registry.pending.contains_key(other_id)
                    <==> u.registry.pending.contains_key(other_id)
                &&& u.registry.pending.contains_key(other_id) ==> after.registry.pending[other_id]
                    == u.registry.pending[other_id]
            }
            &&& other_aor != aor ==> {
                &&& after.limiter.contains_key(other_aor) <==> u.limiter.contains_key(other_aor)
                &&& u.limiter.contains_key(other_aor) ==> after.limiter[other_aor]
                    == u.limiter[other_aor]
            }
        }),
{
}

/// The limiter learns how an INVITE ended, cancelled or not: a success from an answer, a
/// failure with its status and the wait that it asks for from a refusal, and an
/// unavailable server where there was no answer and the extension still waited.
pub proof fn law_limiter_learns_how_an_invite_ended(
    u: UasView,
    aor: Seq<char>,
    request: SipRequest,
    plan: PlanId,
    outcome: OutcomeView,
    now: Instant,
)
    ensures
        ({
            let after = after_invite_end(u, aor, request, plan, outcome, now).limiter;
            match outcome {
                OutcomeView::Established => after == after_success(u.limiter, aor),
                OutcomeView::Failed { response } => after == after_failure(
                    u.limiter,
                    aor,
                    response.status,
                    retry_after_of(response),
                    now,
                ),
                OutcomeView::TransportFailed => {
                    &&& u.cancelled.contains(plan) ==> after == u.limiter
                    &&& !u.cancelled.contains(plan) ==> after == after_failure(
                        u.limiter,
                        aor,
                        503,
                        None,
                        now,
                    )
                },
            }
        }),
{
}

/// Which INVITEs await an answer under their Call-ID: those that have one, but for an
/// empty one and for the stand-in for a missing one.
pub proof fn law_invite_awaits_its_answer_under_its_call_id(request: SipRequest)
    ensures
        pending_key(request) is Some ==> pending_key(request) == header(
            request.headers@,
            "call-id"@,
        ),
        pending_key(request) is Some <==> {
            &&& header(request.headers@, "call-id"@) is Some
            &&& header(request.headers@, "call-id"@)->0.len() > 0
            &&& header(request.headers@, "call-id"@)->0 != "<no-call-id>"@
        },
        header(request.headers@, "call-id"@) is Some ==> ext_id(request) == header(
            request.headers@,
            "call-id"@,
        )->0,
        header(request.headers@, "call-id"@) is None ==> ext_id(request) == "<no-call-id>"@,
{
}

/// Extensions reach this end at the address that is set for them; failing that, at that
/// of the socket towards them; failing that, at that towards the carrier.
pub proof fn law_contact_is_the_nearest_address(config: UasConfig)
    ensures
        config.ext_local_addr is Some ==> ext_contact(config) == "sip:sabiden@"@
            + config.ext_local_addr->0@ && ext_host(config) == Some(config.ext_local_addr->0@),
        config.ext_local_addr is None && config.ext_layer_addr is Some ==> ext_contact(config)
            == "sip:sabiden@"@ + config.ext_layer_addr->0@ && ext_host(config) == Some(
            config.ext_layer_addr->0@,
        ),
        config.ext_local_addr is None && config.ext_layer_addr is None ==> ext_contact(config)
            == "sip:sabiden@"@ + config.uac.local_addr@ && ext_host(config) is None,
{
}

/// A party of a dialog is the URI in the field that names it, in brackets or not; what
/// follows the URI is no part of it.
pub proof fn law_party_is_the_uri_in_its_field(
    request: SipRequest,
    name: Seq<char>,
    otherwise: Seq<char>,
)
    ensures
        header(request.headers@, name) is Some ==> party(request, name, otherwise) == uri_in_addr(
            header(request.headers@, name)->0,
        ),
        header(request.headers@, name) is None ==> party(request, name, otherwise) == otherwise,
{
}

/// When one side of a call ends it, the other side is told in its own dialog, and the
/// bridge ends with it: the bridge that the call has, where something keeps bridges.
pub proof fn law_end_of_a_call_is_told_to_the_other_side(
    config: UasConfig,
    entry: OutboundCallEntry,
)
    ensures
        carrier_bye(config, entry).ngn_dialog == entry.ngn_dialog,
        carrier_bye(config, entry).ext_dialog == entry.ext_dialog,
        extension_bye(config, entry).ext_dialog == entry.ext_dialog,
        extension_bye(config, entry).ext_remote == entry.ext_remote,
        config.has_call_manager ==> carrier_bye(config, entry).terminate == entry.bridge_call_id,
        config.has_call_manager ==> extension_bye(config, entry).terminate
            == entry.bridge_call_id,
        !config.has_call_manager ==> carrier_bye(config, entry).terminate is None,
        !config.has_call_manager ==> extension_bye(config, entry).terminate is None,
{
}

/// A BYE of an extension ends the call that it names and no other. One that names no
/// call ends nothing. INVITEs that await an answer, the limiter and the marks stay.
pub proof fn law_bye_of_an_extension_ends_its_call_alone(
    config: UasConfig,
    u: UasView,
    bye: SipRequest,
    other: Seq<char>,
)
    ensures
        ({
            let (end, after) = ext_bye_step(config, u, bye);
            let id = header(bye.headers@, "call-id"@);
            &&& after.limiter == u.limiter
            &&& after.cancelled == u.cancelled
            &&& after.registry.pending == u.registry.pending
            &&& end is Some <==> id is Some && u.registry.by_ext.contains_key(id->0)
            &&& end is None ==> after == u
            &&& end is Some ==> {
                &&& end->0.ngn_dialog == u.registry.by_ext[id->0].ngn_dialog
                &&& end->0.ext_dialog == u.registry.by_ext[id->0].ext_dialog
                &&& !after.registry.by_ext.contains_key(id->0)
            }
            &&& id != Some(other) ==> {
                &&& after.registry.by_ext.contains_key(other)
                    <==> u.registry.by_ext.contains_key(other)
                &&& u.registry.by_ext.contains_key(other) ==> after.registry.by_ext[other]
                    == u.registry.by_ext[other]
            }
        }),
{
}

/// A CANCEL of an extension stops the INVITE under its own Call-ID and no other, through
/// the way by which that INVITE is answered. One that names no INVITE that awaits an
/// answer stops nothing.
pub proof fn law_cancel_stops_its_invite_alone(u: UasView, cancel: SipRequest, other: PlanId)
    ensures
        ({
            let (stop, after) = ext_cancel_step(u, cancel);
            let id = header(cancel.headers@, "call-id"@);
            &&& after.registry == u.registry
            &&& after.limiter == u.limiter
            &&& stop is Some <==> id is Some && u.registry.pending.contains_key(id->0)
            &&& stop is None ==> after == u
            &&& stop is Some ==> {
                &&& stop->0.invite_plan == u.registry.pending[id->0].invite_plan
                &&& stop->0.ext_responder == u.registry.pending[id->0].ext_responder
                &&& stop->0.reply == (ReplyView::Quick {
                    status: 487,
                    reason: "Request Terminated"@,
                })
                &&& after.cancelled.contains(other) <==> u.cancelled.contains(other) || other
                    == stop->0.invite_plan
            }
        }),
{
}

/// A Re-INVITE of an extension goes to the carrier in the dialog of its own call, with an
/// offer made of its own session description. It is refused with 491 while the call is
/// not answered, and with 481 where there is no such call.
pub proof fn law_reinvite_of_an_extension_goes_to_the_carrier(
    config: UasConfig,
    reg: RegistryView,
    request: SipRequest,
)
    ensures
        ({
            let id = match header(request.headers@, "call-id"@) {
                Some(value) => value,
                None => Seq::empty(),
            };
            match ext_reinvite(config, reg, request) {
                ExtReinviteView::Forward { ngn_dialog, offer } => {
                    &&& reg.by_ext.contains_key(id)
                    &&& ngn_dialog == reg.by_ext[id].ngn_dialog
                    &&& offer.ext_offer == request.body@
                    &&& offer.ngn_local_ip == config.uac.local_ip
                    &&& offer.stage == (OfferStageView::New { prepared: None })
                },
                ExtReinviteView::Refuse(ReplyView::Quick { status, reason }) => {
                    &&& !reg.by_ext.contains_key(id)
                    &&& reg.pending.contains_key(id) ==> status == 491 && reason
                        == "Request Pending"@
                    &&& !reg.pending.contains_key(id) ==> status == 481 && reason
                        == "Call/Transaction Does Not Exist"@
                },
                _ => false,
            }
        }),
{
}

/// A Re-INVITE of the carrier goes to the extension of its call, in the dialog with that
/// extension and with the carrier's own session description, and asks for a session timer
/// of five minutes, of which a minute and a half is the least.
pub proof fn law_reinvite_of_the_carrier_goes_to_the_extension(
    entry: OutboundCallEntry,
    request: SipRequest,
)
    ensures
        match reinvite_to_ext(entry, request) {
            NgnReinviteView::Forward {
                ext_dialog,
                ngn_dialog,
                ext_remote,
                offer,
                session_expires,
                min_se,
            } => {
                &&& ext_dialog == entry.ext_dialog
                &&& ngn_dialog == entry.ngn_dialog
                &&& ext_remote == entry.ext_remote
                &&& offer is Some <==> request.body@.len() > 0
                &&& offer is Some ==> offer->0 == request.body@
                &&& session_expires == 5 * 60
                &&& min_se == 60 + 30
            },
            NgnReinviteView::Refuse(_) => false,
        },
{
}

/// The offer for the carrier is made of the extension's own session description and of
/// what was prepared for a bridge, at the address of the socket towards the carrier.
pub proof fn law_offer_for_the_carrier_is_made_of_the_extensions(
    config: UasConfig,
    prepared: Option<Seq<u8>>,
    ext_offer: Seq<u8>,
)
    ensures
        carrier_offer(config, prepared, ext_offer).ngn_local_ip == config.uac.local_ip,
        carrier_offer(config, prepared, ext_offer).ext_offer == ext_offer,
        carrier_offer(config, prepared, ext_offer).stage == (OfferStageView::New { prepared }),
{
}

/// A new handler knows of no call, no INVITE and no extension, and has neither bridges
/// nor a way to extensions until it is given them.
pub proof fn law_new_handler_knows_nothing(uac: UacConfig, id: Seq<char>, plan: PlanId)
    ensures
        fresh_uas().registry.found_by_ext(id) is None,
        fresh_uas().registry.found_by_ngn(id) is None,
        !fresh_uas().registry.pending.contains_key(id),
        !fresh_uas().limiter.contains_key(id),
        !fresh_uas().cancelled.contains(plan),
        plain_config(uac).uac == uac,
        !plain_config(uac).has_call_manager,
        !plain_config(uac).has_ext_layer,
        plain_config(uac).bridge_ngn_bind_ip is None,
        plain_config(uac).bridge_ext_bind_ip is None,
        plain_config(uac).ext_local_addr is None,
        plain_config(uac).ext_layer_addr is None,
{
}

/// A refusal that is passed on with the time to wait has no other fields than those that
/// it takes over and that time.
pub proof fn law_refusal_that_is_passed_on_has_no_other_fields(
    request: SipRequest,
    response: ResponseView,
    tag: Seq<char>,
    name: Seq<char>,
)
    requires
        is_added(name),
        !same_ignoring_case("Retry-After"@, name),
    ensures
        match carrier_refusal(request, response, tag) {
            ReplyView::Full(out) => header(out.headers, name) is None,
            ReplyView::Quick { .. } => true,
        },
{
    if let Some(secs) = retry_after_of(response) {
        let value = decimal(secs as nat);
        let plain = skeleton(request.headers@, response.status, response.reason);
        law_response_takes_over_what_names_the_request(
            request.headers@,
            response.status,
            response.reason,
            name,
        );
        law_header_set_is_header_read(plain.headers, "Retry-After"@, value, name);
        law_only_a_missing_tag_is_added(plain.with("Retry-After"@, value), tag, name);
    }
}

} // verus!
