//! Ringing several extensions at once and settling on one outcome (RFC 3261
//! §16.7).
//!
//! A [`Fork`] collects the results of its legs. The driver starts the legs, hands
//! each result in with [`Fork::on_event`], and cancels the legs that the last
//! step names.

use vstd::prelude::*;

use crate::browser::{BrowserMessage, MessageView};
use crate::ids::{MediaId, PendingId, WsId};
use crate::sip::{ResponseView, SipResponse};
use crate::table::Table;
use crate::webrtc_leg::{LegView, StageView, WebRtcLeg};

verus! {

/// How an extension is reached.
#[derive(Clone, Copy, Debug, PartialEq, Eq, Structural)]
pub enum ExtTransport {
    Sip,
    WebRtc { ws: WsId, pending: PendingId },
}

/// Where a registered extension is reached.
#[derive(Debug)]
pub struct Binding {
    pub contact_uri: String,
    pub transport: ExtTransport,
}

/// The media of a browser leg that answered.
#[derive(Clone, Copy, Debug, PartialEq, Eq, Structural)]
pub struct WebRtcLegArtifacts {
    pub media: MediaId,
    /// The payload type of Opus that was agreed on.
    pub opus_payload_type: u8,
}

/// How one leg ended.
#[derive(Debug)]
pub enum LegResult {
    Established {
        aor: String,
        winner_uri: String,
        response: SipResponse,
        webrtc_handle: Option<WebRtcLegArtifacts>,
        webrtc_ws: Option<WsId>,
    },
    Failed { aor: String, status: u16 },
    Errored { aor: String },
}

/// The contents of a [`LegResult`].
pub enum LegResultView {
    Established {
        aor: Seq<char>,
        winner_uri: Seq<char>,
        response: ResponseView,
        webrtc_handle: Option<WebRtcLegArtifacts>,
        webrtc_ws: Option<WsId>,
    },
    Failed { aor: Seq<char>, status: u16 },
    Errored { aor: Seq<char> },
}

impl View for LegResult {
    type V = LegResultView;

    open spec fn view(&self) -> LegResultView {
        match self {
            LegResult::Established { aor, winner_uri, response, webrtc_handle, webrtc_ws } =>
                LegResultView::Established {
                aor: aor@,
                winner_uri: winner_uri@,
                response: response@,
                webrtc_handle: *webrtc_handle,
                webrtc_ws: *webrtc_ws,
            },
            LegResult::Failed { aor, status } => LegResultView::Failed {
                aor: aor@,
                status: *status,
            },
            LegResult::Errored { aor } => LegResultView::Errored { aor: aor@ },
        }
    }
}

/// How a fork ended.
#[derive(Debug)]
pub enum ForkResult {
    /// An extension answered first.
    Answered {
        winner_uri: String,
        response: SipResponse,
        webrtc_handle: Option<WebRtcLegArtifacts>,
        webrtc_ws: Option<WsId>,
    },
    /// No extension answered; `last_status` is the best of the refusals.
    AllFailed { last_status: Option<u16> },
    /// The time was up.
    Timeout,
}

/// The contents of a [`ForkResult`].
pub enum ForkResultView {
    Answered {
        winner_uri: Seq<char>,
        response: ResponseView,
        webrtc_handle: Option<WebRtcLegArtifacts>,
        webrtc_ws: Option<WsId>,
    },
    AllFailed { last_status: Option<u16> },
    Timeout,
}

impl View for ForkResult {
    type V = ForkResultView;

    open spec fn view(&self) -> ForkResultView {
        match self {
            ForkResult::Answered { winner_uri, response, webrtc_handle, webrtc_ws } =>
                ForkResultView::Answered {
                winner_uri: winner_uri@,
                response: response@,
                webrtc_handle: *webrtc_handle,
                webrtc_ws: *webrtc_ws,
            },
            ForkResult::AllFailed { last_status } => ForkResultView::AllFailed {
                last_status: *last_status,
            },
            ForkResult::Timeout => ForkResultView::Timeout,
        }
    }
}

/// What can happen to a fork.
#[derive(Debug)]
pub enum ForkEvent {
    /// A leg ended.
    Leg(LegResult),
    /// Every leg is gone, and none reported.
    NoMoreLegs,
    /// The time is up.
    TimedOut,
}

/// The contents of a [`ForkEvent`].
pub enum ForkEventView {
    Leg(LegResultView),
    NoMoreLegs,
    TimedOut,
}

impl View for ForkEvent {
    type V = ForkEventView;

    open spec fn view(&self) -> ForkEventView {
        match self {
            ForkEvent::Leg(leg) => ForkEventView::Leg(leg@),
            ForkEvent::NoMoreLegs => ForkEventView::NoMoreLegs,
            ForkEvent::TimedOut => ForkEventView::TimedOut,
        }
    }
}

/// A browser leg to which an offer goes out.
#[derive(Debug)]
pub struct WebRtcLegHandle {
    pub ws: WsId,
    pub pending: PendingId,
    pub call_id: String,
}

/// The contents of a [`WebRtcLegHandle`].
#[verifier::ext_equal]
pub struct HandleView {
    pub ws: WsId,
    pub pending: PendingId,
    pub call_id: Seq<char>,
}

impl View for WebRtcLegHandle {
    type V = HandleView;

    open spec fn view(&self) -> HandleView {
        HandleView { ws: self.ws, pending: self.pending, call_id: self.call_id@ }
    }
}

impl WebRtcLegHandle {
    /// What the browser is told where the leg is cancelled.
    pub fn message(&self) -> (r: BrowserMessage)
        ensures
            r@ == (MessageView::Cancel { call_id: self@.call_id }),
    {
        BrowserMessage::Cancel { call_id: self.call_id.clone() }
    }
}

/// The contents of some handles.
pub open spec fn handles(legs: Seq<WebRtcLegHandle>) -> Seq<HandleView> {
    legs.map_values(|l: WebRtcLegHandle| l@)
}

/// The browser legs of a fork. Once it is closed no leg can join.
#[derive(Debug)]
pub struct WebRtcLegRegistry {
    legs: Vec<WebRtcLegHandle>,
    closed: bool,
}

impl WebRtcLegRegistry {
    /// The legs that joined and were not drained, in order.
    pub closed spec fn legs(&self) -> Seq<HandleView> {
        handles(self.legs@)
    }

    /// Whether the registry is closed.
    pub closed spec fn is_closed(&self) -> bool {
        self.closed
    }

    /// An open registry without legs.
    pub fn new() -> (r: Self)
        ensures
            r.legs() == Seq::<HandleView>::empty(),
            !r.is_closed(),
    {
        let r = WebRtcLegRegistry { legs: Vec::new(), closed: false };
        assert(r.legs() =~= Seq::<HandleView>::empty());
        r
    }
}

/// Lets a leg join, unless the registry is closed, and says whether it did.
pub fn try_register_webrtc_leg(registry: &mut WebRtcLegRegistry, handle: WebRtcLegHandle) -> (r:
    bool)
    ensures
        r == !old(registry).is_closed(),
        final(registry).is_closed() == old(registry).is_closed(),
        final(registry).legs() == (if r {
            old(registry).legs().push(handle@)
        } else {
            old(registry).legs()
        }),
{
    if registry.closed {
        return false;
    }
    registry.legs.push(handle);
    assert(registry.legs() =~= old(registry).legs().push(handle@));
    true
}

/// Closes the registry and hands out the legs in it.
pub fn close_and_drain_webrtc_legs(registry: &mut WebRtcLegRegistry) -> (r: Vec<WebRtcLegHandle>)
    ensures
        final(registry).is_closed(),
        final(registry).legs() == Seq::<HandleView>::empty(),
        handles(r@) == old(registry).legs(),
{
    registry.closed = true;
    let mut legs: Vec<WebRtcLegHandle> = Vec::new();
    std::mem::swap(&mut legs, &mut registry.legs);
    assert(registry.legs() =~= Seq::<HandleView>::empty());
    legs
}

/// How far a final response goes when several are at hand: 6xx before 4xx before
/// 5xx before 3xx, and anything else last.
pub open spec fn class_rank(code: u16) -> int {
    if 600 <= code <= 699 {
        4
    } else if 400 <= code <= 499 {
        3
    } else if 500 <= code <= 599 {
        2
    } else if 300 <= code <= 399 {
        1
    } else {
        0
    }
}

/// How far a final response goes when several are at hand (RFC 3261 §16.7 step
/// 6): 6xx before 4xx before 5xx before 3xx, and anything else last.
pub fn final_response_class_rank(code: u16) -> (r: u8)
    ensures
        r == class_rank(code),
{
    match code {
        600..=699 => 4,
        400..=499 => 3,
        500..=599 => 2,
        300..=399 => 1,
        _ => 0,
    }
}

/// Whether `new` takes the place of the best refusal so far.
pub open spec fn replaces(current: Option<u16>, new: u16) -> bool {
    match current {
        None => true,
        Some(code) => class_rank(new) > class_rank(code),
    }
}

/// Whether the refusal `new` takes the place of the best one so far: the first
/// one does, and one of a higher class does. Within a class the first one stays.
pub fn should_replace_status(current: Option<u16>, new: u16) -> (r: bool)
    ensures
        r == replaces(current, new),
{
    match current {
        None => true,
        Some(code) => final_response_class_rank(new) > final_response_class_rank(code),
    }
}

/// The reason phrase of a refusal.
pub open spec fn reason_phrase(code: u16) -> Seq<char> {
    if code == 486 {
        "Busy Here"@
    } else if code == 487 {
        "Request Terminated"@
    } else {
        "Decline"@
    }
}

/// The reason phrase of a refusal (RFC 3261 §21.4 and §21.6): that of 603 where
/// the status has none of its own here.
pub fn reason_phrase_for_status(code: u16) -> (r: &'static str)
    ensures
        r@ == reason_phrase(code),
{
    match code {
        486 => "Busy Here",
        487 => "Request Terminated",
        603 => "Decline",
        _ => "Decline",
    }
}

/// The state of a fork.
#[verifier::ext_equal]
pub struct ForkView {
    /// How many legs were started.
    pub total: nat,
    /// How many of them ended.
    pub received: nat,
    /// The best refusal so far.
    pub last_status: Option<u16>,
    /// The browser legs to which offers went out.
    pub legs: Seq<HandleView>,
    /// Whether the fork has ended.
    pub closed: bool,
}

/// Whether `status` is a global failure (6xx).
pub open spec fn is_global_failure(status: u16) -> bool {
    600 <= status <= 699
}

/// The best refusal once `status` has come in too.
pub open spec fn better(current: Option<u16>, status: u16) -> Option<u16> {
    if replaces(current, status) {
        Some(status)
    } else {
        current
    }
}

impl ForkView {
    /// A fork that goes on awaits at least one leg and has met no global failure.
    pub open spec fn well_formed(self) -> bool {
        !self.closed ==> {
            &&& self.received < self.total
            &&& self.last_status is Some ==> !is_global_failure(self.last_status->0)
        }
    }

    /// The fork once it has ended.
    pub open spec fn ended(self) -> ForkView {
        ForkView { legs: Seq::empty(), closed: true, ..self }
    }
}

/// What becomes of a fork that goes on, and how it ends where it ends.
pub open spec fn fork_step(s: ForkView, e: ForkEventView) -> (ForkView, Option<ForkResultView>) {
    match e {
        ForkEventView::TimedOut => (s.ended(), Some(ForkResultView::Timeout)),
        ForkEventView::NoMoreLegs => (
            s.ended(),
            Some(ForkResultView::AllFailed { last_status: s.last_status }),
        ),
        ForkEventView::Leg(
            LegResultView::Established { aor: _, winner_uri, response, webrtc_handle, webrtc_ws },
        ) => (
            ForkView { received: s.received + 1, ..s }.ended(),
            Some(ForkResultView::Answered { winner_uri, response, webrtc_handle, webrtc_ws }),
        ),
        ForkEventView::Leg(LegResultView::Failed { aor: _, status }) => {
            let last_status = better(s.last_status, status);
            let next = ForkView { received: s.received + 1, last_status, ..s };
            if is_global_failure(status) || next.received >= next.total {
                (next.ended(), Some(ForkResultView::AllFailed { last_status }))
            } else {
                (next, None)
            }
        },
        ForkEventView::Leg(LegResultView::Errored { aor: _ }) => {
            let next = ForkView { received: s.received + 1, ..s };
            if next.received >= next.total {
                (next.ended(), Some(ForkResultView::AllFailed { last_status: s.last_status }))
            } else {
                (next, None)
            }
        },
    }
}

/// The connection of the browser that answered, where one did.
pub open spec fn winner_of(result: ForkResultView) -> Option<WsId> {
    match result {
        ForkResultView::Answered { webrtc_ws, .. } => webrtc_ws,
        _ => None,
    }
}

/// The legs that are to be cancelled: all but that of the winner.
pub open spec fn losers(legs: Seq<HandleView>, winner: Option<WsId>) -> Seq<HandleView> {
    legs.filter(|l: HandleView| winner != Some(l.ws))
}

/// What a driver does after an event.
#[derive(Debug)]
pub enum ForkStep {
    /// Await the next event.
    Wait,
    /// Cancel the legs and go on with the result.
    Done { result: ForkResult, cancel: Vec<WebRtcLegHandle> },
}

/// A fork. Its view is its state.
#[derive(Debug)]
pub struct Fork {
    total: usize,
    received: usize,
    last_status: Option<u16>,
    legs: WebRtcLegRegistry,
}

impl View for Fork {
    type V = ForkView;

    closed spec fn view(&self) -> ForkView {
        ForkView {
            total: self.total as nat,
            received: self.received as nat,
            last_status: self.last_status,
            legs: self.legs.legs(),
            closed: self.legs.is_closed(),
        }
    }
}

fn without_winner(legs: Vec<WebRtcLegHandle>, winner: Option<WsId>) -> (r: Vec<WebRtcLegHandle>)
    ensures
        handles(r@) == losers(handles(legs@), winner),
{
    let mut legs: Vec<WebRtcLegHandle> = legs;
    let ghost all = handles(legs@);
    let ghost keep = |l: HandleView| winner != Some(l.ws);
    let mut out: Vec<WebRtcLegHandle> = Vec::new();
    let mut rest: Vec<WebRtcLegHandle> = Vec::new();
    // Turned round first, so that legs are taken from the end and keep their order.
    while legs.len() > 0
        invariant
            handles(legs@) + handles(rest@).reverse() == all,
        decreases legs.len(),
    {
        let ghost before = handles(legs@);
        let ghost turned = handles(rest@);
        if let Some(leg) = legs.pop() {
            rest.push(leg);
            proof {
                assert(handles(legs@) =~= before.drop_last());
                assert(handles(rest@) =~= turned.push(before.last()));
                assert(handles(legs@) + handles(rest@).reverse() =~= before + turned.reverse());
            }
        }
    }
    proof {
        assert(handles(legs@) =~= Seq::<HandleView>::empty());
        assert(handles(rest@).reverse() =~= all);
        reveal(Seq::filter);
        assert(handles(out@) =~= Seq::<HandleView>::empty());
        assert(all.take(0).filter(keep) =~= Seq::<HandleView>::empty());
        assert(handles(rest@) =~= all.skip(0).reverse());
    }
    while rest.len() > 0
        invariant
            rest.len() <= all.len(),
            handles(rest@) == all.skip(all.len() - rest.len()).reverse(),
            handles(out@) == all.take(all.len() - rest.len()).filter(keep),
            keep == (|l: HandleView| winner != Some(l.ws)),
        decreases rest.len(),
    {
        let ghost at = all.len() - rest.len();
        let ghost kept = handles(out@);
        let ghost before = handles(rest@);
        if let Some(leg) = rest.pop() {
            let ws: WsId = leg.ws;
            let drop_it: bool = match winner {
                Some(w) => w == ws,
                None => false,
            };
            proof {
                assert(leg@ == before.last());
                assert(before.last() == all[at]);
                assert(handles(rest@) =~= before.drop_last());
                assert(before.drop_last() =~= all.skip(at + 1).reverse());
                assert(all.take(at + 1).drop_last() =~= all.take(at));
                assert(all.take(at + 1).last() == all[at]);
                reveal(Seq::filter);
            }
            if !drop_it {
                out.push(leg);
                assert(handles(out@) =~= kept.push(leg@));
            }
        }
    }
    assert(all.take(all.len() as int) =~= all);
    out
}

impl Fork {
    /// A fork of `total` legs.
    fn new(total: usize) -> (r: Self)
        requires
            total > 0,
        ensures
            r@ == fork_of(total as nat),
    {
        let r = Fork { total, received: 0, last_status: None, legs: WebRtcLegRegistry::new() };
        assert(r@ =~= fork_of(total as nat));
        r
    }

    /// Whether the fork has ended.
    pub fn has_ended(&self) -> (r: bool)
        ensures
            r == self@.closed,
    {
        self.legs.closed
    }

    /// Lets a browser leg join, unless the fork has ended, and says whether it
    /// did.
    pub fn try_register(&mut self, handle: WebRtcLegHandle) -> (r: bool)
        ensures
            r == !old(self)@.closed,
            final(self)@ == (if r {
                (ForkView { legs: old(self)@.legs.push(handle@), ..old(self)@ })
            } else {
                old(self)@
            }),
            old(self)@.well_formed() ==> final(self)@.well_formed(),
    {
        try_register_webrtc_leg(&mut self.legs, handle)
    }

    /// Takes an event in. What comes after the fork has ended changes nothing.
    pub fn on_event(&mut self, event: ForkEvent) -> (r: ForkStep)
        requires
            old(self)@.well_formed(),
        ensures
            final(self)@.well_formed(),
            old(self)@.closed ==> r is Wait && final(self)@ == old(self)@,
            !old(self)@.closed ==> {
                let (next, result) = fork_step(old(self)@, event@);
                &&& final(self)@ == next
                &&& match r {
                    ForkStep::Wait => result is None,
                    ForkStep::Done { result: res, cancel } => {
                        &&& result == Some(res@)
                        &&& handles(cancel@) == losers(old(self)@.legs, winner_of(res@))
                    },
                }
            },
    {
        if self.legs.closed {
            return ForkStep::Wait;
        }
        let result: ForkResult = match event {
            ForkEvent::TimedOut => ForkResult::Timeout,
            ForkEvent::NoMoreLegs => ForkResult::AllFailed { last_status: self.last_status },
            ForkEvent::Leg(leg) => {
                self.received = self.received + 1;
                match leg {
                    LegResult::Established {
                        aor: _,
                        winner_uri,
                        response,
                        webrtc_handle,
                        webrtc_ws,
                    } => ForkResult::Answered { winner_uri, response, webrtc_handle, webrtc_ws },
                    LegResult::Failed { aor: _, status } => {
                        if should_replace_status(self.last_status, status) {
                            self.last_status = Some(status);
                        }
                        let global: bool = 600 <= status && status <= 699;
                        if !global && self.received < self.total {
                            return ForkStep::Wait;
                        }
                        ForkResult::AllFailed { last_status: self.last_status }
                    },
                    LegResult::Errored { aor: _ } => {
                        if self.received < self.total {
                            return ForkStep::Wait;
                        }
                        ForkResult::AllFailed { last_status: self.last_status }
                    },
                }
            },
        };
        let winner: Option<WsId> = match &result {
            ForkResult::Answered { webrtc_ws, .. } => *webrtc_ws,
            _ => None,
        };
        let legs: Vec<WebRtcLegHandle> = close_and_drain_webrtc_legs(&mut self.legs);
        let cancel: Vec<WebRtcLegHandle> = without_winner(legs, winner);
        ForkStep::Done { result, cancel }
    }
}

/// A fork of `total` legs, none of which has ended.
pub open spec fn fork_of(total: nat) -> ForkView {
    ForkView { total, received: 0, last_status: None, legs: Seq::empty(), closed: false }
}

/// A leg to be started.
#[derive(Debug)]
pub enum LegStart {
    /// Send an INVITE with the caller's offer to `target_uri`.
    Sip { aor: String, target_uri: String },
    /// Run a leg to a browser.
    WebRtc(WebRtcLeg),
}

/// The contents of a [`LegStart`].
pub enum LegStartView {
    Sip { aor: Seq<char>, target_uri: Seq<char> },
    WebRtc(LegView),
}

impl View for LegStart {
    type V = LegStartView;

    open spec fn view(&self) -> LegStartView {
        match self {
            LegStart::Sip { aor, target_uri } => LegStartView::Sip {
                aor: aor@,
                target_uri: target_uri@,
            },
            LegStart::WebRtc(leg) => LegStartView::WebRtc(leg@),
        }
    }
}

/// The leg of the call `call_id` to the extension `aor`.
pub open spec fn leg_to(
    aor: Seq<char>,
    contact_uri: Seq<char>,
    transport: ExtTransport,
    call_id: Seq<char>,
) -> LegStartView {
    match transport {
        ExtTransport::Sip => LegStartView::Sip { aor, target_uri: contact_uri },
        ExtTransport::WebRtc { ws, pending } => LegStartView::WebRtc(
            LegView {
                aor,
                target_uri: contact_uri,
                ws,
                pending,
                call_id,
                stage: StageView::CreatingOffer,
            },
        ),
    }
}

/// How a fork begins.
#[derive(Debug)]
pub enum ForkStart {
    /// There is nobody to ring.
    Finished(ForkResult),
    /// The legs are to be started.
    Running { fork: Fork, legs: Vec<LegStart> },
}

/// Begins to ring `bindings`, each given with its AOR, for the call `call_id`:
/// one leg for each of them, by SIP or to a browser.
pub fn fork_to_bindings(bindings: &Vec<(String, Binding)>, call_id: &str) -> (r: ForkStart)
    ensures
        match r {
            ForkStart::Finished(result) => {
                &&& bindings@.len() == 0
                &&& result@ == ForkResultView::AllFailed { last_status: None }
            },
            ForkStart::Running { fork, legs } => {
                &&& bindings@.len() > 0
                &&& fork@ == fork_of(bindings@.len())
                &&& fork@.well_formed()
                &&& legs@.len() == bindings@.len()
                &&& forall|i: int|
                    0 <= i < legs@.len() ==> (#[trigger] legs@[i])@ == leg_to(
                        bindings@[i].0@,
                        bindings@[i].1.contact_uri@,
                        bindings@[i].1.transport,
                        call_id@,
                    )
            },
        },
{
    if bindings.len() == 0 {
        return ForkStart::Finished(ForkResult::AllFailed { last_status: None });
    }
    let mut legs: Vec<LegStart> = Vec::new();
    let mut i: usize = 0;
    while i < bindings.len()
        invariant
            i <= bindings.len(),
            legs@.len() == i,
            forall|k: int|
                0 <= k < i ==> (#[trigger] legs@[k])@ == leg_to(
                    bindings@[k].0@,
                    bindings@[k].1.contact_uri@,
                    bindings@[k].1.transport,
                    call_id@,
                ),
        decreases bindings.len() - i,
    {
        let aor: String = bindings[i].0.clone();
        let target_uri: String = bindings[i].1.contact_uri.clone();
        let leg: LegStart = match bindings[i].1.transport {
            ExtTransport::Sip => LegStart::Sip { aor, target_uri },
            ExtTransport::WebRtc { ws, pending } => LegStart::WebRtc(
                WebRtcLeg::new(aor, target_uri, ws, pending, call_id.to_owned()),
            ),
        };
        legs.push(leg);
        i = i + 1;
    }
    ForkStart::Running { fork: Fork::new(bindings.len()), legs }
}

/// What sends INVITEs to extensions: a user agent, and where it has been told that
/// targets are.
#[derive(Debug)]
pub struct UacForker<U> {
    pub uac: U,
    pub targets: Table<String>,
}

/// A [`UacForker`] around `uac` that has been told of no target.
pub fn make_forker<U>(uac: U) -> (r: UacForker<U>)
    ensures
        r.uac == uac,
        r.targets@ == Map::<Seq<char>, String>::empty(),
{
    UacForker { uac, targets: Table::new() }
}

/// How an INVITE to an extension ended.
#[derive(Debug)]
pub enum SipLegOutcome {
    Established { response: SipResponse },
    Failed { status: u16 },
    /// There was no final response.
    Errored,
}

/// The result of a leg to the SIP extension `aor` at `target_uri`.
pub fn sip_leg_result(aor: String, target_uri: String, outcome: SipLegOutcome) -> (r: LegResult)
    ensures
        r@ == (match outcome {
            SipLegOutcome::Established { response } => LegResultView::Established {
                aor: aor@,
                winner_uri: target_uri@,
                response: response@,
                webrtc_handle: None,
                webrtc_ws: None,
            },
            SipLegOutcome::Failed { status } => LegResultView::Failed { aor: aor@, status },
            SipLegOutcome::Errored => LegResultView::Errored { aor: aor@ },
        }),
{
    match outcome {
        SipLegOutcome::Established { response } => LegResult::Established {
            aor,
            winner_uri: target_uri,
            response,
            webrtc_handle: None,
            webrtc_ws: None,
        },
        SipLegOutcome::Failed { status } => LegResult::Failed { aor, status },
        SipLegOutcome::Errored => LegResult::Errored { aor },
    }
}

/// The state of a fork of `total` legs after `events`, and how it has ended where
/// it has. Browser legs that join in between change neither.
pub open spec fn fork_run(total: nat, events: Seq<ForkEventView>) -> (
    ForkView,
    Option<ForkResultView>,
)
    decreases events.len(),
{
    if events.len() == 0 {
        (fork_of(total), None)
    } else {
        let (s, result) = fork_run(total, events.drop_last());
        if s.closed {
            (s, result)
        } else {
            fork_step(s, events.last())
        }
    }
}

/// The statuses with which legs failed, in order.
pub open spec fn refusals(events: Seq<ForkEventView>) -> Seq<u16>
    decreases events.len(),
{
    if events.len() == 0 {
        Seq::empty()
    } else {
        match events.last() {
            ForkEventView::Leg(LegResultView::Failed { aor: _, status }) => refusals(
                events.drop_last(),
            ).push(status),
            _ => refusals(events.drop_last()),
        }
    }
}

/// Whether `best` is the first of those of the highest class among `statuses`.
pub open spec fn is_best(statuses: Seq<u16>, best: Option<u16>) -> bool {
    match best {
        None => statuses.len() == 0,
        Some(status) => exists|i: int|
            {
                &&& 0 <= i < statuses.len()
                &&& #[trigger] statuses[i] == status
                &&& forall|j: int|
                    0 <= j < statuses.len() ==> class_rank(#[trigger] statuses[j]) <= class_rank(
                        status,
                    )
                &&& forall|j: int|
                    0 <= j < i ==> class_rank(#[trigger] statuses[j]) < class_rank(status)
            },
    }
}

/// A fork keeps its invariant; it goes on exactly as long as it has no result;
/// while it goes on, fewer legs have ended than were started, and the best
/// refusal is the first of the highest class among those that came in.
pub proof fn law_fork_keeps_the_best_refusal(total: nat, events: Seq<ForkEventView>)
    requires
        total > 0,
    ensures
        ({
            let (s, result) = fork_run(total, events);
            &&& s.well_formed()
            &&& s.total == total
            &&& s.closed <==> result is Some
            &&& !s.closed ==> is_best(refusals(events), s.last_status)
            &&& !s.closed ==> events.len() == s.received
        }),
    decreases events.len(),
{
    if events.len() > 0 {
        let front = events.drop_last();
        law_fork_keeps_the_best_refusal(total, front);
        let (s, result) = fork_run(total, front);
        if !s.closed {
            if let ForkEventView::Leg(LegResultView::Failed { aor: _, status }) = events.last() {
                lemma_better_is_best(refusals(front), s.last_status, status);
            }
        }
    }
}

proof fn lemma_better_is_best(statuses: Seq<u16>, best: Option<u16>, status: u16)
    requires
        is_best(statuses, best),
    ensures
        is_best(statuses.push(status), better(best, status)),
{
    let all = statuses.push(status);
    assert(forall|j: int| 0 <= j < statuses.len() ==> all[j] == statuses[j]);
    let n = statuses.len() as int;
    assert(all[n] == status);
    if !replaces(best, status) {
        let i = choose|i: int|
            {
                &&& 0 <= i < statuses.len()
                &&& #[trigger] statuses[i] == best->0
                &&& forall|j: int|
                    0 <= j < statuses.len() ==> class_rank(#[trigger] statuses[j]) <= class_rank(
                        best->0,
                    )
                &&& forall|j: int|
                    0 <= j < i ==> class_rank(#[trigger] statuses[j]) < class_rank(best->0)
            };
        assert(all[i] == best->0);
    }
}

/// A fork that ends without an answer and with time left names the best refusal
/// among those that came in.
pub proof fn law_failed_fork_reports_the_best_refusal(total: nat, events: Seq<ForkEventView>)
    requires
        total > 0,
        events.len() > 0,
        !fork_run(total, events.drop_last()).0.closed,
        fork_run(total, events).1 is Some,
        fork_run(total, events).1->0 is AllFailed,
    ensures
        is_best(refusals(events), fork_run(total, events).1->0->last_status),
{
    let front = events.drop_last();
    law_fork_keeps_the_best_refusal(total, front);
    let (s, result) = fork_run(total, front);
    if let ForkEventView::Leg(LegResultView::Failed { aor: _, status }) = events.last() {
        lemma_better_is_best(refusals(front), s.last_status, status);
    }
}

/// A global failure (6xx) ends a fork at once, and is what the fork reports,
/// however many legs are still ringing (RFC 3261 §16.7 steps 5 and 6).
pub proof fn law_global_failure_ends_the_fork(
    total: nat,
    events: Seq<ForkEventView>,
    aor: Seq<char>,
    status: u16,
)
    requires
        total > 0,
        !fork_run(total, events).0.closed,
        is_global_failure(status),
    ensures
        fork_run(
            total,
            events.push(ForkEventView::Leg(LegResultView::Failed { aor, status })),
        ).1 == Some(ForkResultView::AllFailed { last_status: Some(status) }),
{
    let e = ForkEventView::Leg(LegResultView::Failed { aor, status });
    law_fork_keeps_the_best_refusal(total, events);
    assert(events.push(e).drop_last() =~= events);
    assert(events.push(e).last() == e);
}

/// A fork ends by the time that as many events came in as legs were started, and
/// what comes later does not change its result.
pub proof fn law_fork_ends(total: nat, events: Seq<ForkEventView>, more: ForkEventView)
    requires
        total > 0,
    ensures
        events.len() >= total ==> fork_run(total, events).1 is Some,
        fork_run(total, events).1 is Some ==> fork_run(total, events.push(more)) == fork_run(
            total,
            events,
        ),
{
    law_fork_keeps_the_best_refusal(total, events);
    assert(events.push(more).drop_last() =~= events);
}

/// The winner of a fork is not cancelled, and every other browser leg is.
pub proof fn law_all_but_the_winner_are_cancelled(
    legs: Seq<HandleView>,
    winner: Option<WsId>,
    leg: HandleView,
)
    ensures
        losers(legs, winner).contains(leg) <==> legs.contains(leg) && winner != Some(leg.ws),
    decreases legs.len(),
{
    reveal(Seq::filter);
    if legs.len() > 0 {
        let front = legs.drop_last();
        law_all_but_the_winner_are_cancelled(front, winner, leg);
        let kept = losers(front, winner);
        if losers(legs, winner).contains(leg) {
            let i = choose|i: int|
                0 <= i < losers(legs, winner).len() && losers(legs, winner)[i] == leg;
            if i < kept.len() {
                assert(kept[i] == leg);
            }
        }
        if kept.contains(leg) {
            let i = choose|i: int| 0 <= i < kept.len() && kept[i] == leg;
            assert(losers(legs, winner)[i] == leg);
        }
        if front.contains(leg) {
            let i = choose|i: int| 0 <= i < front.len() && front[i] == leg;
            assert(legs[i] == leg);
        }
        if legs.contains(leg) && leg != legs.last() {
            let i = choose|i: int| 0 <= i < legs.len() && legs[i] == leg;
            assert(front[i] == leg);
        }
        if legs.last() == leg {
            assert(legs[legs.len() - 1] == leg);
            if winner != Some(leg.ws) {
                assert(losers(legs, winner)[kept.len() as int] == leg);
            }
        }
    }
}

/// An extension that picks up is connected: whatever refusals and errors came before,
/// it ends the fork with its own answer, media and connection.
pub proof fn law_leg_that_answers_is_the_answer(
    s: ForkView,
    aor: Seq<char>,
    winner_uri: Seq<char>,
    response: ResponseView,
    webrtc_handle: Option<WebRtcLegArtifacts>,
    webrtc_ws: Option<WsId>,
)
    ensures
        ({
            let leg = LegResultView::Established {
                aor,
                winner_uri,
                response,
                webrtc_handle,
                webrtc_ws,
            };
            let (next, result) = fork_step(s, ForkEventView::Leg(leg));
            &&& next.closed
            &&& result is Some
            &&& match result->0 {
                ForkResultView::Answered {
                    winner_uri: uri,
                    response: resp,
                    webrtc_handle: handle,
                    webrtc_ws: ws,
                } => {
                    &&& uri == winner_uri
                    &&& resp == response
                    &&& handle == webrtc_handle
                    &&& ws == webrtc_ws
                },
                _ => false,
            }
        }),
{
}

/// The first extension of a run that picks up while the fork goes on is what the run
/// ends with, whatever came before and whatever comes later.
pub proof fn law_first_answer_wins(total: nat, events: Seq<ForkEventView>, k: int)
    requires
        total > 0,
        0 <= k < events.len(),
        fork_run(total, events.take(k)).1 is None,
        events[k] is Leg,
        events[k]->Leg_0 is Established,
    ensures
        fork_run(total, events).1 == Some(
            ForkResultView::Answered {
                winner_uri: events[k]->Leg_0->winner_uri,
                response: events[k]->Leg_0->response,
                webrtc_handle: events[k]->Leg_0->webrtc_handle,
                webrtc_ws: events[k]->Leg_0->webrtc_ws,
            },
        ),
    decreases events.len(),
{
    if k == events.len() - 1 {
        assert(events.drop_last() =~= events.take(k));
        law_fork_keeps_the_best_refusal(total, events.take(k));
    } else {
        let front = events.drop_last();
        assert(front.take(k) =~= events.take(k));
        law_first_answer_wins(total, front, k);
        law_fork_ends(total, front, events.last());
        assert(front.push(events.last()) =~= events);
    }
}

/// How a run ends is told by what ended it: an answer by the leg that picked up, a
/// timeout by the time that was up. A run fails only where none of its legs picked up,
/// and then a global failure came in, or every leg has ended, or all are gone.
pub proof fn law_result_is_told_by_what_ended_the_run(total: nat, events: Seq<ForkEventView>)
    requires
        total > 0,
        events.len() > 0,
        fork_run(total, events.drop_last()).1 is None,
    ensures
        ({
            let last = events.last();
            let result = fork_run(total, events).1;
            &&& result is Some && result->0 is Answered <==> last is Leg
                && last->Leg_0 is Established
            &&& result is Some && result->0 is Timeout <==> last is TimedOut
            &&& result is Some && result->0 is AllFailed ==> forall|i: int|
                0 <= i < events.len() ==> !(events[i] is Leg && (
                #[trigger] events[i])->Leg_0 is Established)
            &&& result is Some && result->0 is AllFailed <==> {
                ||| last is NoMoreLegs
                ||| last is Leg && last->Leg_0 is Failed && 600 <= last->Leg_0->status <= 699
                ||| last is Leg && !(last->Leg_0 is Established) && events.len() == total
            }
            &&& result is None <==> last is Leg && events.len() < total && !(last->Leg_0
                is Established) && !(last->Leg_0 is Failed && 600 <= last->Leg_0->status <= 699)
        }),
{
    let front = events.drop_last();
    law_fork_keeps_the_best_refusal(total, front);
    lemma_running_fork_had_refusals_only(total, front);
    assert forall|i: int| 0 <= i < front.len() implies #[trigger] events[i] == front[i] by {}
}

proof fn lemma_running_fork_had_refusals_only(total: nat, events: Seq<ForkEventView>)
    requires
        total > 0,
        fork_run(total, events).1 is None,
    ensures
        forall|i: int|
            0 <= i < events.len() ==> (#[trigger] events[i]) is Leg && !(events[i]->Leg_0
                is Established),
    decreases events.len(),
{
    if events.len() > 0 {
        let front = events.drop_last();
        law_fork_keeps_the_best_refusal(total, front);
        lemma_running_fork_had_refusals_only(total, front);
        assert forall|i: int| 0 <= i < front.len() implies #[trigger] events[i] == front[i] by {}
    }
}

/// While a fork goes on it counts each leg that ended and keeps its browser legs; once
/// it has ended it keeps none. The number of its legs stays.
pub proof fn law_browser_legs_stay_until_the_end(s: ForkView, e: ForkEventView)
    requires
        !s.closed,
    ensures
        ({
            let (next, result) = fork_step(s, e);
            &&& next.total == s.total
            &&& next.received == s.received + (if e is Leg {
                1nat
            } else {
                0nat
            })
            &&& next.closed <==> result is Some
            &&& next.closed ==> next.legs.len() == 0
            &&& !next.closed ==> next.legs == s.legs
        }),
{
}

/// What a fork cancels when it ends: each browser that was rung, but for the one that
/// picked up.
pub proof fn law_end_of_a_fork_cancels_the_others(s: ForkView, e: ForkEventView, leg: HandleView)
    requires
        fork_step(s, e).1 is Some,
    ensures
        losers(s.legs, winner_of(fork_step(s, e).1->0)).contains(leg) <==> s.legs.contains(leg)
            && !(e is Leg && e->Leg_0 is Established && e->Leg_0->webrtc_ws == Some(leg.ws)),
{
    law_all_but_the_winner_are_cancelled(s.legs, winner_of(fork_step(s, e).1->0), leg);
}

/// The legs to be cancelled come in the order in which they joined.
pub proof fn law_cancelled_legs_keep_their_order(
    first: Seq<HandleView>,
    rest: Seq<HandleView>,
    winner: Option<WsId>,
)
    ensures
        losers(first + rest, winner) == losers(first, winner) + losers(rest, winner),
{
    Seq::filter_distributes_over_add(first, rest, |l: HandleView| winner != Some(l.ws));
}

/// Which refusal gives way to which: the first one to come in is kept until one of a
/// higher class does, 6xx being the highest, before 4xx, 5xx and 3xx.
pub proof fn law_refusal_gives_way_to_a_higher_class(kept: u16, new: u16)
    ensures
        replaces(None, new),
        600 <= new <= 699 ==> (replaces(Some(kept), new) <==> !(600 <= kept <= 699)),
        400 <= new <= 499 ==> (replaces(Some(kept), new) <==> !(600 <= kept <= 699) && !(400
            <= kept <= 499)),
        500 <= new <= 599 ==> (replaces(Some(kept), new) <==> !(400 <= kept <= 699)),
        300 <= new <= 399 ==> (replaces(Some(kept), new) <==> !(300 <= kept <= 699)),
        new < 300 || new > 699 ==> !replaces(Some(kept), new),
        new / 100 == kept / 100 ==> !replaces(Some(kept), new),
        replaces(Some(kept), new) ==> !replaces(Some(new), kept),
{
}

/// The best refusal is one of the two at hand.
pub proof fn law_best_refusal_is_one_that_came(kept: Option<u16>, new: u16)
    ensures
        replaces(kept, new) ==> better(kept, new) == Some(new),
        !replaces(kept, new) ==> better(kept, new) == kept,
        is_global_failure(new) <==> 600 <= new <= 699,
{
}

/// Which refusals have a reason phrase of their own.
pub proof fn law_reason_phrase_tells_the_refusal(code: u16)
    ensures
        reason_phrase(code) == "Busy Here"@ <==> code == 486,
        reason_phrase(code) == "Request Terminated"@ <==> code == 487,
        code != 486 && code != 487 ==> reason_phrase(code) == "Decline"@,
{
    reveal_strlit("Busy Here");
    reveal_strlit("Request Terminated");
    reveal_strlit("Decline");
    assert("Busy Here"@.len() == 9);
    assert("Request Terminated"@.len() == 18);
    assert("Decline"@.len() == 7);
}

/// An extension is rung the way that it registered, at the address that it registered:
/// a browser on its own connection, for the call that rings.
pub proof fn law_leg_goes_where_the_extension_registered(
    aor: Seq<char>,
    contact_uri: Seq<char>,
    transport: ExtTransport,
    call_id: Seq<char>,
)
    ensures
        match leg_to(aor, contact_uri, transport, call_id) {
            LegStartView::Sip { aor: rung, target_uri } => {
                &&& transport is Sip
                &&& rung == aor
                &&& target_uri == contact_uri
            },
            LegStartView::WebRtc(leg) => {
                &&& transport == ExtTransport::WebRtc { ws: leg.ws, pending: leg.pending }
                &&& leg.aor == aor
                &&& leg.target_uri == contact_uri
                &&& leg.call_id == call_id
                &&& leg.stage is CreatingOffer
            },
        },
{
}

/// The rank of a final response goes by its class: 6xx is 4, 4xx is 3, 5xx is 2, 3xx is 1,
/// and anything else is 0.
pub proof fn law_rank_goes_by_the_class(code: u16)
    ensures
        class_rank(code) == 4 <==> code / 100 == 6,
        class_rank(code) == 3 <==> code / 100 == 4,
        class_rank(code) == 2 <==> code / 100 == 5,
        class_rank(code) == 1 <==> code / 100 == 3,
        class_rank(code) == 0 <==> code < 300 || code >= 700,
{
}

/// A single leg is cancelled unless it is the winner's, and once.
pub proof fn law_leg_is_cancelled_once(leg: HandleView, winner: Option<WsId>)
    ensures
        winner == Some(leg.ws) ==> losers(seq![leg], winner).len() == 0,
        winner != Some(leg.ws) ==> losers(seq![leg], winner) == seq![leg],
{
    reveal(Seq::filter);
    let one = seq![leg];
    let none = Seq::<HandleView>::empty();
    assert(one.drop_last() =~= none);
    assert(losers(none, winner) =~= none);
    assert(one.last() == leg);
    assert(none.push(leg) =~= one);
}

/// A fork of some legs has them all before it, and has heard of none.
pub proof fn law_new_fork_awaits_all_its_legs(total: nat)
    requires
        total > 0,
    ensures
        fork_of(total).well_formed(),
        fork_of(total).total == total,
        fork_of(total).received == 0,
        fork_of(total).last_status is None,
        fork_of(total).legs.len() == 0,
        !fork_of(total).closed,
{
}

} // verus!
