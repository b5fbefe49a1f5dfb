//! One leg of a fork to a browser.
//!
//! The library makes the offer, so the driver first has the browser's peer
//! connection create one. It then hands each outcome in with
//! [`WebRtcLeg::step`] and does what that says.

use vstd::prelude::*;
use vstd::string::StrSliceExecFns;
use vstd::utf8::encode_utf8;

use crate::browser::{message_view, BrowserMessage, MessageView};
use crate::fork::{
    Fork, ForkView, HandleView, LegResult, LegResultView, WebRtcLegArtifacts, WebRtcLegHandle,
};
use crate::ids::{MediaId, PendingId, WsId};
use crate::sip::{
    header, law_header_set_is_header_read, with_header, Field, ResponseView, SipHeaders,
    SipResponse,
};
use crate::text::{folded, join};

verus! {

/// The payload type of Opus where the browser names none.
pub const DEFAULT_OPUS_PT: u8 = 111;

/// How far a leg has come.
#[derive(Debug)]
pub enum LegStage {
    /// The peer connection is creating an offer.
    CreatingOffer,
    /// The offer `sdp` is there, and a place for the answer is being set up.
    Registering { sdp: String },
    /// The offer is on its way to the browser.
    SendingOffer,
    /// The browser is ringing.
    AwaitingAnswer,
    /// The peer connection is taking the answer `sdp` in.
    AcceptingAnswer { sdp: String },
    /// The leg has ended.
    Finished,
}

/// The contents of a [`LegStage`].
pub enum StageView {
    CreatingOffer,
    Registering { sdp: Seq<char> },
    SendingOffer,
    AwaitingAnswer,
    AcceptingAnswer { sdp: Seq<char> },
    Finished,
}

impl View for LegStage {
    type V = StageView;

    open spec fn view(&self) -> StageView {
        match self {
            LegStage::CreatingOffer => StageView::CreatingOffer,
            LegStage::Registering { sdp } => StageView::Registering { sdp: sdp@ },
            LegStage::SendingOffer => StageView::SendingOffer,
            LegStage::AwaitingAnswer => StageView::AwaitingAnswer,
            LegStage::AcceptingAnswer { sdp } => StageView::AcceptingAnswer { sdp: sdp@ },
            LegStage::Finished => StageView::Finished,
        }
    }
}

/// What can happen to a leg.
#[derive(Debug)]
pub enum LegEvent {
    /// The peer connection created the offer `sdp`.
    OfferCreated { sdp: String },
    /// The peer connection could not create an offer.
    OfferFailed,
    /// The answer to this call is awaited.
    WaiterRegistered,
    /// The offer went out.
    OfferSent,
    /// The offer could not be sent.
    OfferNotSent,
    /// The browser answered with `sdp`.
    Answered { sdp: String },
    /// The browser declined.
    Declined { status: u16 },
    /// The answer is no longer awaited.
    WaiterDropped,
    /// The time is up.
    TimedOut,
    /// The peer connection took the answer in. `converted` is the answer without
    /// what belongs to secured media, where it could be made; `opus_pt` is the
    /// payload type of Opus in the answer, where it names one; `media` is the
    /// connection's media, where it was still there to be taken.
    AnswerAccepted { converted: Option<Vec<u8>>, opus_pt: Option<u8>, media: Option<MediaId> },
    /// The peer connection refused the answer.
    AnswerRejected,
}

/// The contents of a [`LegEvent`].
pub enum LegEventView {
    OfferCreated { sdp: Seq<char> },
    OfferFailed,
    WaiterRegistered,
    OfferSent,
    OfferNotSent,
    Answered { sdp: Seq<char> },
    Declined { status: u16 },
    WaiterDropped,
    TimedOut,
    AnswerAccepted { converted: Option<Seq<u8>>, opus_pt: Option<u8>, media: Option<MediaId> },
    AnswerRejected,
}

impl View for LegEvent {
    type V = LegEventView;

    open spec fn view(&self) -> LegEventView {
        match self {
            LegEvent::OfferCreated { sdp } => LegEventView::OfferCreated { sdp: sdp@ },
            LegEvent::OfferFailed => LegEventView::OfferFailed,
            LegEvent::WaiterRegistered => LegEventView::WaiterRegistered,
            LegEvent::OfferSent => LegEventView::OfferSent,
            LegEvent::OfferNotSent => LegEventView::OfferNotSent,
            LegEvent::Answered { sdp } => LegEventView::Answered { sdp: sdp@ },
            LegEvent::Declined { status } => LegEventView::Declined { status: *status },
            LegEvent::WaiterDropped => LegEventView::WaiterDropped,
            LegEvent::TimedOut => LegEventView::TimedOut,
            LegEvent::AnswerAccepted { converted, opus_pt, media } =>
                LegEventView::AnswerAccepted {
                converted: match converted {
                    Some(bytes) => Some(bytes@),
                    None => None,
                },
                opus_pt: *opus_pt,
                media: *media,
            },
            LegEvent::AnswerRejected => LegEventView::AnswerRejected,
        }
    }
}

/// What a driver does for a leg.
#[derive(Debug)]
pub enum LegAction {
    /// The event has no place at this stage: do nothing.
    Ignore,
    /// Begin to await the answer to this call.
    RegisterWaiter,
    /// Send the browser the offer `sdp`, in the message that [`WebRtcLeg::message`]
    /// gives.
    SendOffer { sdp: String },
    /// Await the answer.
    AwaitAnswer,
    /// Have the peer connection take the answer `sdp` in.
    AcceptAnswer { sdp: String },
    /// Clean up and report the result. The answer is no longer awaited where
    /// `drop_waiter` says so, the browser is told to stop ringing where
    /// `cancel` says so, in the message that [`WebRtcLeg::message`] gives, and the
    /// peer connection is closed where `close_peer` says so.
    Finish { drop_waiter: bool, cancel: bool, close_peer: bool, result: LegResult },
}

/// The contents of a [`LegAction`].
pub enum LegActionView {
    Ignore,
    RegisterWaiter,
    SendOffer { sdp: Seq<char> },
    AwaitAnswer,
    AcceptAnswer { sdp: Seq<char> },
    Finish { drop_waiter: bool, cancel: bool, close_peer: bool, result: LegResultView },
}

impl View for LegAction {
    type V = LegActionView;

    open spec fn view(&self) -> LegActionView {
        match self {
            LegAction::Ignore => LegActionView::Ignore,
            LegAction::RegisterWaiter => LegActionView::RegisterWaiter,
            LegAction::SendOffer { sdp } => LegActionView::SendOffer { sdp: sdp@ },
            LegAction::AwaitAnswer => LegActionView::AwaitAnswer,
            LegAction::AcceptAnswer { sdp } => LegActionView::AcceptAnswer { sdp: sdp@ },
            LegAction::Finish { drop_waiter, cancel, close_peer, result } =>
                LegActionView::Finish {
                drop_waiter: *drop_waiter,
                cancel: *cancel,
                close_peer: *close_peer,
                result: result@,
            },
        }
    }
}

/// A leg to the browser of the extension `aor`.
#[derive(Debug)]
pub struct WebRtcLeg {
    pub aor: String,
    pub target_uri: String,
    pub ws: WsId,
    pub pending: PendingId,
    pub call_id: String,
    pub stage: LegStage,
}

/// The contents of a [`WebRtcLeg`].
#[verifier::ext_equal]
pub struct LegView {
    pub aor: Seq<char>,
    pub target_uri: Seq<char>,
    pub ws: WsId,
    pub pending: PendingId,
    pub call_id: Seq<char>,
    pub stage: StageView,
}

impl View for WebRtcLeg {
    type V = LegView;

    open spec fn view(&self) -> LegView {
        LegView {
            aor: self.aor@,
            target_uri: self.target_uri@,
            ws: self.ws,
            pending: self.pending,
            call_id: self.call_id@,
            stage: self.stage@,
        }
    }
}

/// The header fields of the response that stands for a browser's answer.
pub open spec fn answer_fields(leg: LegView) -> Seq<Field> {
    let f = with_header(
        Seq::empty(),
        "Via"@,
        "SIP/2.0/WS webrtc.peer;branch=z9hG4bKwebrtc"@,
    );
    let f = with_header(f, "From"@, "<sip:webrtc>;tag=webrtc"@);
    let f = with_header(f, "To"@, "<"@ + leg.target_uri + ">;tag=webrtc-"@ + leg.aor);
    let f = with_header(f, "Call-ID"@, leg.call_id);
    let f = with_header(f, "CSeq"@, "1 INVITE"@);
    with_header(f, "Content-Type"@, "application/sdp"@)
}

/// The result of a leg whose answer `sdp` was accepted.
pub open spec fn established(
    leg: LegView,
    sdp: Seq<char>,
    converted: Option<Seq<u8>>,
    opus_pt: Option<u8>,
    media: Option<MediaId>,
) -> LegResultView {
    LegResultView::Established {
        aor: leg.aor,
        winner_uri: leg.target_uri,
        response: ResponseView {
            status: 200,
            reason: "OK"@,
            headers: answer_fields(leg),
            body: match converted {
                Some(bytes) => bytes,
                None => encode_utf8(sdp),
            },
        },
        webrtc_handle: match media {
            Some(media) => Some(
                WebRtcLegArtifacts {
                    media,
                    opus_payload_type: match opus_pt {
                        Some(pt) => pt,
                        None => DEFAULT_OPUS_PT,
                    },
                },
            ),
            None => None,
        },
        webrtc_ws: Some(leg.ws),
    }
}

/// An end of a leg without an answer.
pub open spec fn ends(drop_waiter: bool, cancel: bool, close_peer: bool, result: LegResultView) -> (
    StageView,
    LegActionView,
) {
    (
        StageView::Finished,
        LegActionView::Finish { drop_waiter, cancel, close_peer, result },
    )
}

/// The stage that an event leads to, and what is to be done. `fork_ended` says
/// whether the fork has ended.
pub open spec fn leg_step(leg: LegView, fork_ended: bool, event: LegEventView) -> (
    StageView,
    LegActionView,
) {
    let errored = LegResultView::Errored { aor: leg.aor };
    match (leg.stage, event) {
        (StageView::CreatingOffer, LegEventView::OfferCreated { sdp }) => (
            StageView::Registering { sdp },
            LegActionView::RegisterWaiter,
        ),
        (StageView::CreatingOffer, LegEventView::OfferFailed) => ends(false, false, false, errored),
        (StageView::Registering { sdp }, LegEventView::WaiterRegistered) => if fork_ended {
            ends(true, true, false, errored)
        } else {
            (StageView::SendingOffer, LegActionView::SendOffer { sdp })
        },
        (StageView::SendingOffer, LegEventView::OfferSent) => (
            StageView::AwaitingAnswer,
            LegActionView::AwaitAnswer,
        ),
        (StageView::SendingOffer, LegEventView::OfferNotSent) => ends(true, false, false, errored),
        (StageView::AwaitingAnswer, LegEventView::Answered { sdp }) => (
            StageView::AcceptingAnswer { sdp },
            LegActionView::AcceptAnswer { sdp },
        ),
        (StageView::AwaitingAnswer, LegEventView::Declined { status }) => ends(
            false,
            false,
            false,
            LegResultView::Failed { aor: leg.aor, status },
        ),
        (StageView::AwaitingAnswer, LegEventView::WaiterDropped) => ends(
            false,
            false,
            false,
            errored,
        ),
        (StageView::AwaitingAnswer, LegEventView::TimedOut) => ends(
            true,
            false,
            false,
            LegResultView::Failed { aor: leg.aor, status: 408 },
        ),
        (
            StageView::AcceptingAnswer { sdp },
            LegEventView::AnswerAccepted { converted, opus_pt, media },
        ) => ends(false, false, false, established(leg, sdp, converted, opus_pt, media)),
        (StageView::AcceptingAnswer { sdp }, LegEventView::AnswerRejected) => ends(
            false,
            false,
            true,
            errored,
        ),
        _ => (leg.stage, LegActionView::Ignore),
    }
}

/// The fork after an event at a leg: the leg joins it before its offer goes out.
pub open spec fn fork_after(fork: ForkView, leg: LegView, event: LegEventView) -> ForkView {
    if leg.stage is Registering && event is WaiterRegistered && !fork.closed {
        ForkView {
            legs: fork.legs.push(
                HandleView { ws: leg.ws, pending: leg.pending, call_id: leg.call_id },
            ),
            ..fork
        }
    } else {
        fork
    }
}

/// What the browser of a leg is told when an action is taken.
pub open spec fn leg_message(leg: LegView, action: LegActionView) -> Option<MessageView> {
    match action {
        LegActionView::SendOffer { sdp } => Some(
            MessageView::Offer { call_id: leg.call_id, sdp },
        ),
        LegActionView::Finish { cancel: true, .. } => Some(
            MessageView::Cancel { call_id: leg.call_id },
        ),
        _ => None,
    }
}

impl WebRtcLeg {
    /// What the browser is told when `action` is taken.
    pub fn message(&self, action: &LegAction) -> (r: Option<BrowserMessage>)
        ensures
            message_view(r) == leg_message(self@, action@),
    {
        match action {
            LegAction::SendOffer { sdp } => Some(
                BrowserMessage::Offer { call_id: self.call_id.clone(), sdp: sdp.clone() },
            ),
            LegAction::Finish { cancel, .. } => if *cancel {
                Some(BrowserMessage::Cancel { call_id: self.call_id.clone() })
            } else {
                None
            },
            _ => None,
        }
    }

    /// A leg to the browser of `aor`, whose offer is being created.
    pub fn new(aor: String, target_uri: String, ws: WsId, pending: PendingId, call_id: String) -> (r:
        Self)
        ensures
            r@ == (LegView {
                aor: aor@,
                target_uri: target_uri@,
                ws,
                pending,
                call_id: call_id@,
                stage: StageView::CreatingOffer,
            }),
    {
        WebRtcLeg { aor, target_uri, ws, pending, call_id, stage: LegStage::CreatingOffer }
    }

    fn errored(&self) -> (r: LegResult)
        ensures
            r@ == (LegResultView::Errored { aor: self.aor@ }),
    {
        LegResult::Errored { aor: self.aor.clone() }
    }

    fn failed(&self, status: u16) -> (r: LegResult)
        ensures
            r@ == (LegResultView::Failed { aor: self.aor@, status }),
    {
        LegResult::Failed { aor: self.aor.clone(), status }
    }

    fn answer(
        &self,
        sdp: &str,
        converted: Option<Vec<u8>>,
        opus_pt: Option<u8>,
        media: Option<MediaId>,
    ) -> (r: LegResult)
        ensures
            r@ == established(
                self@,
                sdp@,
                match converted {
                    Some(bytes) => Some(bytes@),
                    None => None,
                },
                opus_pt,
                media,
            ),
    {
        let mut headers: SipHeaders = SipHeaders::new();
        headers.set("Via", "SIP/2.0/WS webrtc.peer;branch=z9hG4bKwebrtc");
        headers.set("From", "<sip:webrtc>;tag=webrtc");
        let to: String = join(
            join(join("<", self.target_uri.as_str()).as_str(), ">;tag=webrtc-").as_str(),
            self.aor.as_str(),
        );
        headers.set("To", to.as_str());
        headers.set("Call-ID", self.call_id.as_str());
        headers.set("CSeq", "1 INVITE");
        headers.set("Content-Type", "application/sdp");
        let body: Vec<u8> = match converted {
            Some(bytes) => bytes,
            None => sdp.as_bytes_vec(),
        };
        let opus_payload_type: u8 = match opus_pt {
            Some(pt) => pt,
            None => DEFAULT_OPUS_PT,
        };
        let webrtc_handle: Option<WebRtcLegArtifacts> = match media {
            Some(media) => Some(WebRtcLegArtifacts { media, opus_payload_type }),
            None => None,
        };
        LegResult::Established {
            aor: self.aor.clone(),
            winner_uri: self.target_uri.clone(),
            response: SipResponse { status_code: 200, reason: "OK".to_owned(), headers, body },
            webrtc_handle,
            webrtc_ws: Some(self.ws),
        }
    }

    /// Takes an event in and says what is to be done. An offer goes out only
    /// while the fork goes on, and only once the leg has joined it.
    pub fn step(&mut self, fork: &mut Fork, event: LegEvent) -> (r: LegAction)
        ensures
            final(self)@ == (LegView {
                stage: leg_step(old(self)@, old(fork)@.closed, event@).0,
                ..old(self)@
            }),
            r@ == leg_step(old(self)@, old(fork)@.closed, event@).1,
            final(fork)@ == fork_after(old(fork)@, old(self)@, event@),
            old(fork)@.well_formed() ==> final(fork)@.well_formed(),
    {
        let mut stage: LegStage = LegStage::Finished;
        std::mem::swap(&mut stage, &mut self.stage);
        match (stage, event) {
            (LegStage::CreatingOffer, LegEvent::OfferCreated { sdp }) => {
                self.stage = LegStage::Registering { sdp };
                LegAction::RegisterWaiter
            },
            (LegStage::CreatingOffer, LegEvent::OfferFailed) => LegAction::Finish {
                drop_waiter: false,
                cancel: false,
                close_peer: false,
                result: self.errored(),
            },
            (LegStage::Registering { sdp }, LegEvent::WaiterRegistered) => {
                let handle = WebRtcLegHandle {
                    ws: self.ws,
                    pending: self.pending,
                    call_id: self.call_id.clone(),
                };
                if fork.try_register(handle) {
                    self.stage = LegStage::SendingOffer;
                    LegAction::SendOffer { sdp }
                } else {
                    LegAction::Finish {
                        drop_waiter: true,
                        cancel: true,
                        close_peer: false,
                        result: self.errored(),
                    }
                }
            },
            (LegStage::SendingOffer, LegEvent::OfferSent) => {
                self.stage = LegStage::AwaitingAnswer;
                LegAction::AwaitAnswer
            },
            (LegStage::SendingOffer, LegEvent::OfferNotSent) => LegAction::Finish {
                drop_waiter: true,
                cancel: false,
                close_peer: false,
                result: self.errored(),
            },
            (LegStage::AwaitingAnswer, LegEvent::Answered { sdp }) => {
                self.stage = LegStage::AcceptingAnswer { sdp: sdp.clone() };
                LegAction::AcceptAnswer { sdp }
            },
            (LegStage::AwaitingAnswer, LegEvent::Declined { status }) => LegAction::Finish {
                drop_waiter: false,
                cancel: false,
                close_peer: false,
                result: self.failed(status),
            },
            (LegStage::AwaitingAnswer, LegEvent::WaiterDropped) => LegAction::Finish {
                drop_waiter: false,
                cancel: false,
                close_peer: false,
                result: self.errored(),
            },
            (LegStage::AwaitingAnswer, LegEvent::TimedOut) => LegAction::Finish {
                drop_waiter: true,
                cancel: false,
                close_peer: false,
                result: self.failed(408),
            },
            (
                LegStage::AcceptingAnswer { sdp },
                LegEvent::AnswerAccepted { converted, opus_pt, media },
            ) => {
                let result: LegResult = self.answer(sdp.as_str(), converted, opus_pt, media);
                LegAction::Finish { drop_waiter: false, cancel: false, close_peer: false, result }
            },
            (LegStage::AcceptingAnswer { sdp: _ }, LegEvent::AnswerRejected) => LegAction::Finish {
                drop_waiter: false,
                cancel: false,
                close_peer: true,
                result: self.errored(),
            },
            (stage, _) => {
                self.stage = stage;
                LegAction::Ignore
            },
        }
    }
}

/// Once a fork has ended, no leg sends an offer: a leg whose offer was created too
/// late tells the browser to stop ringing instead.
pub proof fn law_no_offer_after_the_fork_ended(leg: LegView, event: LegEventView)
    ensures
        !(leg_step(leg, true, event).1 is SendOffer),
        leg.stage is Registering && event is WaiterRegistered ==> {
            let action = leg_step(leg, true, event).1;
            &&& action is Finish && action->drop_waiter && action->cancel
            &&& leg_message(leg, action) == Some(MessageView::Cancel { call_id: leg.call_id })
        },
{
}

/// Every leg to which an offer goes out is one that its fork knows of, so the end
/// of the fork cancels it unless it is the winner.
pub proof fn law_offered_leg_is_known_to_the_fork(
    leg: LegView,
    fork: ForkView,
    event: LegEventView,
)
    requires
        leg_step(leg, fork.closed, event).1 is SendOffer,
    ensures
        fork_after(fork, leg, event).legs.contains(
            HandleView { ws: leg.ws, pending: leg.pending, call_id: leg.call_id },
        ),
{
    let legs = fork_after(fork, leg, event).legs;
    assert(legs[fork.legs.len() as int] == HandleView {
        ws: leg.ws,
        pending: leg.pending,
        call_id: leg.call_id,
    });
}

/// A leg that has ended stays ended, and does nothing more.
pub proof fn law_ended_leg_does_nothing(leg: LegView, fork_ended: bool, event: LegEventView)
    requires
        leg.stage is Finished,
    ensures
        leg_step(leg, fork_ended, event) == (leg.stage, LegActionView::Ignore),
{
}

/// The leg after an event.
pub open spec fn leg_after(leg: LegView, fork_ended: bool, event: LegEventView) -> LegView {
    LegView { stage: leg_step(leg, fork_ended, event).0, ..leg }
}

/// The whole way of a leg whose browser answers while the fork goes on: the browser gets
/// the offer that was created, its own answer is accepted, and the leg ends with a 200
/// whose body is what the answer was converted to, or else the answer itself, and with
/// the media and the connection of that browser.
pub proof fn law_browser_that_answers_is_connected(
    leg: LegView,
    offer: Seq<char>,
    answer: Seq<char>,
    converted: Option<Seq<u8>>,
    opus_pt: Option<u8>,
    media: Option<MediaId>,
)
    requires
        leg.stage is CreatingOffer,
    ensures
        ({
            let e0 = LegEventView::OfferCreated { sdp: offer };
            let e1 = LegEventView::WaiterRegistered;
            let e2 = LegEventView::OfferSent;
            let e3 = LegEventView::Answered { sdp: answer };
            let e4 = LegEventView::AnswerAccepted { converted, opus_pt, media };
            let l1 = leg_after(leg, false, e0);
            let l2 = leg_after(l1, false, e1);
            let l3 = leg_after(l2, false, e2);
            let l4 = leg_after(l3, false, e3);
            &&& leg_step(leg, false, e0).1 is RegisterWaiter
            &&& leg_step(l1, false, e1).1 == LegActionView::SendOffer { sdp: offer }
            &&& leg_message(l1, leg_step(l1, false, e1).1) == Some(
                MessageView::Offer { call_id: leg.call_id, sdp: offer },
            )
            &&& leg_step(l2, false, e2).1 is AwaitAnswer
            &&& leg_step(l3, false, e3).1 == LegActionView::AcceptAnswer { sdp: answer }
            &&& leg_step(l4, false, e4).0 is Finished
            &&& match leg_step(l4, false, e4).1 {
                LegActionView::Finish {
                    drop_waiter,
                    cancel,
                    close_peer,
                    result: LegResultView::Established {
                        aor,
                        winner_uri,
                        response,
                        webrtc_handle,
                        webrtc_ws,
                    },
                } => {
                    &&& !drop_waiter && !cancel && !close_peer
                    &&& aor == leg.aor
                    &&& winner_uri == leg.target_uri
                    &&& webrtc_ws == Some(leg.ws)
                    &&& response.status == 200
                    &&& response.reason == "OK"@
                    &&& converted is Some ==> response.body == converted->0
                    &&& converted is None ==> response.body == encode_utf8(answer)
                    &&& webrtc_handle is Some <==> media is Some
                    &&& media is Some ==> webrtc_handle->0.media == media->0
                    &&& media is Some && opus_pt is Some ==> webrtc_handle->0.opus_payload_type
                        == opus_pt->0
                    &&& media is Some && opus_pt is None ==> webrtc_handle->0.opus_payload_type
                        == 111
                },
                _ => false,
            }
        }),
{
}

/// The response that stands for a browser's answer names the call and both parties: the
/// browser's own URI with a tag of its account.
pub proof fn law_answer_of_a_browser_names_the_call(leg: LegView)
    ensures
        header(answer_fields(leg), "via"@) == Some(
            "SIP/2.0/WS webrtc.peer;branch=z9hG4bKwebrtc"@,
        ),
        header(answer_fields(leg), "from"@) == Some("<sip:webrtc>;tag=webrtc"@),
        header(answer_fields(leg), "to"@) == Some(
            "<"@ + leg.target_uri + ">;tag=webrtc-"@ + leg.aor,
        ),
        header(answer_fields(leg), "call-id"@) == Some(leg.call_id),
        header(answer_fields(leg), "cseq"@) == Some("1 INVITE"@),
        header(answer_fields(leg), "content-type"@) == Some("application/sdp"@),
{
    reveal_strlit("Via");
    reveal_strlit("From");
    reveal_strlit("To");
    reveal_strlit("Call-ID");
    reveal_strlit("CSeq");
    reveal_strlit("Content-Type");
    reveal_strlit("via");
    reveal_strlit("from");
    reveal_strlit("to");
    reveal_strlit("call-id");
    reveal_strlit("cseq");
    reveal_strlit("content-type");
    assert(folded("Via"@) =~= folded("via"@));
    assert(folded("Via"@).len() != folded("from"@).len());
    assert(folded("Via"@).len() != folded("to"@).len());
    assert(folded("Via"@).len() != folded("call-id"@).len());
    assert(folded("Via"@).len() != folded("cseq"@).len());
    assert(folded("Via"@).len() != folded("content-type"@).len());
    assert(folded("From"@).len() != folded("via"@).len());
    assert(folded("From"@) =~= folded("from"@));
    assert(folded("From"@).len() != folded("to"@).len());
    assert(folded("From"@).len() != folded("call-id"@).len());
    assert(folded("From"@)[0] != folded("cseq"@)[0]);
    assert(folded("From"@).len() != folded("content-type"@).len());
    assert(folded("To"@).len() != folded("via"@).len());
    assert(folded("To"@).len() != folded("from"@).len());
    assert(folded("To"@) =~= folded("to"@));
    assert(folded("To"@).len() != folded("call-id"@).len());
    assert(folded("To"@).len() != folded("cseq"@).len());
    assert(folded("To"@).len() != folded("content-type"@).len());
    assert(folded("Call-ID"@).len() != folded("via"@).len());
    assert(folded("Call-ID"@).len() != folded("from"@).len());
    assert(folded("Call-ID"@).len() != folded("to"@).len());
    assert(folded("Call-ID"@) =~= folded("call-id"@));
    assert(folded("Call-ID"@).len() != folded("cseq"@).len());
    assert(folded("Call-ID"@).len() != folded("content-type"@).len());
    assert(folded("CSeq"@).len() != folded("via"@).len());
    assert(folded("CSeq"@)[0] != folded("from"@)[0]);
    assert(folded("CSeq"@).len() != folded("to"@).len());
    assert(folded("CSeq"@).len() != folded("call-id"@).len());
    assert(folded("CSeq"@) =~= folded("cseq"@));
    assert(folded("CSeq"@).len() != folded("content-type"@).len());
    assert(folded("Content-Type"@).len() != folded("via"@).len());
    assert(folded("Content-Type"@).len() != folded("from"@).len());
    assert(folded("Content-Type"@).len() != folded("to"@).len());
    assert(folded("Content-Type"@).len() != folded("call-id"@).len());
    assert(folded("Content-Type"@).len() != folded("cseq"@).len());
    assert(folded("Content-Type"@) =~= folded("content-type"@));
    let to = "<"@ + leg.target_uri + ">;tag=webrtc-"@ + leg.aor;
    let f0 = Seq::<Field>::empty();
    let f1 = with_header(f0, "Via"@, "SIP/2.0/WS webrtc.peer;branch=z9hG4bKwebrtc"@);
    law_header_set_is_header_read(f0, "Via"@, "SIP/2.0/WS webrtc.peer;branch=z9hG4bKwebrtc"@, "via"@);
    let f2 = with_header(f1, "From"@, "<sip:webrtc>;tag=webrtc"@);
    law_header_set_is_header_read(f1, "From"@, "<sip:webrtc>;tag=webrtc"@, "via"@);
    law_header_set_is_header_read(f1, "From"@, "<sip:webrtc>;tag=webrtc"@, "from"@);
    let f3 = with_header(f2, "To"@, to);
    law_header_set_is_header_read(f2, "To"@, to, "via"@);
    law_header_set_is_header_read(f2, "To"@, to, "from"@);
    law_header_set_is_header_read(f2, "To"@, to, "to"@);
    let f4 = with_header(f3, "Call-ID"@, leg.call_id);
    law_header_set_is_header_read(f3, "Call-ID"@, leg.call_id, "via"@);
    law_header_set_is_header_read(f3, "Call-ID"@, leg.call_id, "from"@);
    law_header_set_is_header_read(f3, "Call-ID"@, leg.call_id, "to"@);
    law_header_set_is_header_read(f3, "Call-ID"@, leg.call_id, "call-id"@);
    let f5 = with_header(f4, "CSeq"@, "1 INVITE"@);
    law_header_set_is_header_read(f4, "CSeq"@, "1 INVITE"@, "via"@);
    law_header_set_is_header_read(f4, "CSeq"@, "1 INVITE"@, "from"@);
    law_header_set_is_header_read(f4, "CSeq"@, "1 INVITE"@, "to"@);
    law_header_set_is_header_read(f4, "CSeq"@, "1 INVITE"@, "call-id"@);
    law_header_set_is_header_read(f4, "CSeq"@, "1 INVITE"@, "cseq"@);
    let f6 = with_header(f5, "Content-Type"@, "application/sdp"@);
    law_header_set_is_header_read(f5, "Content-Type"@, "application/sdp"@, "via"@);
    law_header_set_is_header_read(f5, "Content-Type"@, "application/sdp"@, "from"@);
    law_header_set_is_header_read(f5, "Content-Type"@, "application/sdp"@, "to"@);
    law_header_set_is_header_read(f5, "Content-Type"@, "application/sdp"@, "call-id"@);
    law_header_set_is_header_read(f5, "Content-Type"@, "application/sdp"@, "cseq"@);
    law_header_set_is_header_read(f5, "Content-Type"@, "application/sdp"@, "content-type"@);
}

/// How a leg ends whose browser does not answer: as refused with the browser's own
/// status, or with 408 where the time was up, and as an error in any other case. A waiter
/// is taken back where it still waits, a peer connection is closed where its answer was
/// rejected, and the browser is told to stop ringing where the fork ended first.
pub proof fn law_leg_without_an_answer_fails(
    leg: LegView,
    fork_ended: bool,
    event: LegEventView,
)
    ensures
        ({
            let (stage, action) = leg_step(leg, fork_ended, event);
            &&& action is Finish ==> stage is Finished
            &&& action is Finish && !(event is AnswerAccepted) ==> {
                &&& action->result is Failed <==> event is Declined || event is TimedOut
                &&& action->result is Errored <==> !(event is Declined || event is TimedOut)
                &&& action->result is Errored ==> action->result->Errored_aor == leg.aor
                &&& action->result is Failed ==> action->result->Failed_aor == leg.aor
                &&& event is Declined ==> action->result->status == event->status
                &&& event is TimedOut ==> action->result->status == 408
                &&& action->drop_waiter <==> event is WaiterRegistered || event is OfferNotSent
                    || event is TimedOut
                &&& action->cancel <==> event is WaiterRegistered
                &&& action->close_peer <==> event is AnswerRejected
            }
            &&& action is Finish && event is AnswerAccepted ==> action->result is Established
            &&& action is Finish <==> {
                ||| leg.stage is CreatingOffer && event is OfferFailed
                ||| leg.stage is Registering && event is WaiterRegistered && fork_ended
                ||| leg.stage is SendingOffer && event is OfferNotSent
                ||| leg.stage is AwaitingAnswer && (event is Declined || event is WaiterDropped
                    || event is TimedOut)
                ||| leg.stage is AcceptingAnswer && (event is AnswerAccepted || event
                    is AnswerRejected)
            }
            &&& action is Ignore ==> stage == leg.stage
            &&& leg_message(leg, action) is Some <==> leg.stage is Registering && event
                is WaiterRegistered
        }),
{
}

/// A leg takes in what it asked for, and nothing else.
pub proof fn law_leg_takes_in_what_it_asked_for(
    leg: LegView,
    fork_ended: bool,
    event: LegEventView,
)
    ensures
        leg_step(leg, fork_ended, event).1 is Ignore <==> !(match event {
            LegEventView::OfferCreated { .. } => leg.stage is CreatingOffer,
            LegEventView::OfferFailed => leg.stage is CreatingOffer,
            LegEventView::WaiterRegistered => leg.stage is Registering,
            LegEventView::OfferSent => leg.stage is SendingOffer,
            LegEventView::OfferNotSent => leg.stage is SendingOffer,
            LegEventView::Answered { .. } => leg.stage is AwaitingAnswer,
            LegEventView::Declined { .. } => leg.stage is AwaitingAnswer,
            LegEventView::WaiterDropped => leg.stage is AwaitingAnswer,
            LegEventView::TimedOut => leg.stage is AwaitingAnswer,
            LegEventView::AnswerAccepted { .. } => leg.stage is AcceptingAnswer,
            LegEventView::AnswerRejected => leg.stage is AcceptingAnswer,
        }),
{
}

/// A leg joins its fork exactly when its offer goes out, behind those that joined before
/// it; nothing else of the fork changes.
pub proof fn law_leg_joins_its_fork_with_its_offer(
    leg: LegView,
    fork: ForkView,
    event: LegEventView,
)
    ensures
        ({
            let after = fork_after(fork, leg, event);
            &&& after.total == fork.total
            &&& after.received == fork.received
            &&& after.last_status == fork.last_status
            &&& after.closed == fork.closed
            &&& leg_step(leg, fork.closed, event).1 is SendOffer ==> {
                &&& after.legs.len() == fork.legs.len() + 1
                &&& after.legs.drop_last() == fork.legs
                &&& after.legs.last().ws == leg.ws
                &&& after.legs.last().pending == leg.pending
                &&& after.legs.last().call_id == leg.call_id
            }
            &&& !(leg_step(leg, fork.closed, event).1 is SendOffer) ==> after == fork
        }),
{
    if leg_step(leg, fork.closed, event).1 is SendOffer {
        assert(fork_after(fork, leg, event).legs.drop_last() =~= fork.legs);
    }
}

} // verus!
