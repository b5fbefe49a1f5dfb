//! Bridges between the carrier and extensions, and setting up that of a call from
//! the carrier.
//!
//! The driver binds sockets, reads and rewrites session descriptions and starts
//! bridges. Which of these it does, in what order and with what, is decided here.

use vstd::prelude::*;

use crate::fork::WebRtcLegArtifacts;
use crate::ids::{CallId, IpAddr, MediaId, SocketAddr, SocketId};
use crate::response::copy_bytes;

verus! {

/// How the media of the two sides go together.
#[derive(Clone, Copy, Debug, PartialEq, Eq, Structural)]
pub enum MediaPlan {
    /// Both sides use the same codec.
    Relay,
    /// The extension uses Opus under the payload type `opus_pt`.
    Transcode { opus_pt: u8 },
}

/// The carrier's side of a bridge: the socket, its address, and where the media
/// go.
#[derive(Clone, Copy, Debug, PartialEq, Eq, Structural)]
pub struct NgnSide {
    pub socket: SocketId,
    pub addr: SocketAddr,
    pub peer: SocketAddr,
}

/// A SIP extension's side of a bridge: the socket, and where the media go.
#[derive(Clone, Copy, Debug, PartialEq, Eq, Structural)]
pub struct ExtSide {
    pub socket: SocketId,
    pub peer: SocketAddr,
}

/// A bridge to be started.
#[derive(Clone, Copy, Debug, PartialEq, Eq, Structural)]
pub enum BridgeSpec {
    /// To a browser. Its media are of the carrier's codec and are passed on as
    /// they are where `direct_pcmu_passthrough` says so.
    WebRtcAudio {
        ngn: NgnSide,
        media: MediaId,
        opus_payload_type: u8,
        direct_pcmu_passthrough: bool,
    },
    /// To a SIP extension, without change.
    Relay { ngn: NgnSide, ext: ExtSide },
    /// To a SIP extension that uses Opus.
    Transcode { ngn: NgnSide, ext: ExtSide, opus_payload_type: u8 },
}

/// The bridge between the carrier and a SIP extension.
pub open spec fn sip_bridge(ngn: NgnSide, ext: ExtSide, plan: MediaPlan) -> BridgeSpec {
    match plan {
        MediaPlan::Relay => BridgeSpec::Relay { ngn, ext },
        MediaPlan::Transcode { opus_pt } => BridgeSpec::Transcode {
            ngn,
            ext,
            opus_payload_type: opus_pt,
        },
    }
}

/// The bridge between the carrier and a SIP extension.
pub fn bridge_to_extension(ngn: NgnSide, ext: ExtSide, plan: MediaPlan) -> (r: BridgeSpec)
    ensures
        r == sip_bridge(ngn, ext, plan),
{
    match plan {
        MediaPlan::Relay => BridgeSpec::Relay { ngn, ext },
        MediaPlan::Transcode { opus_pt } => BridgeSpec::Transcode {
            ngn,
            ext,
            opus_payload_type: opus_pt,
        },
    }
}

/// The bridge between the carrier and a browser.
pub open spec fn browser_bridge(ngn: NgnSide, leg: WebRtcLegArtifacts) -> BridgeSpec {
    BridgeSpec::WebRtcAudio {
        ngn,
        media: leg.media,
        opus_payload_type: leg.opus_payload_type,
        direct_pcmu_passthrough: true,
    }
}

/// The bridge between the carrier and a browser. The browser agreed on the
/// carrier's codec, so its media are passed on as they are.
pub fn bridge_to_browser(ngn: NgnSide, leg: WebRtcLegArtifacts) -> (r: BridgeSpec)
    ensures
        r == browser_bridge(ngn, leg),
{
    BridgeSpec::WebRtcAudio {
        ngn,
        media: leg.media,
        opus_payload_type: leg.opus_payload_type,
        direct_pcmu_passthrough: true,
    }
}

/// Why no bridge is set up.
#[derive(Clone, Copy, Debug, PartialEq, Eq, Structural)]
pub enum BridgeError {
    /// There is nothing that could keep it.
    NoCallManager,
    /// One of the session descriptions is missing.
    EmptySdp,
    /// A step failed.
    StepFailed,
}

/// How far the bridge of an incoming call has come.
#[derive(Debug)]
pub enum BridgeStage {
    New,
    FindingNgnPeer,
    BindingNgn { ngn_peer: SocketAddr },
    FindingExtPeer { ngn: NgnSide },
    BindingExt { ngn: NgnSide, ext_peer: SocketAddr },
    Restricting { ngn: NgnSide, ext: Option<ExtSide> },
    Rewriting { ngn: NgnSide, ext: Option<ExtSide> },
    Planning { ngn: NgnSide, ext: ExtSide, sdp: Vec<u8> },
    Starting { sdp: Vec<u8> },
    Finished,
}

/// The contents of a [`BridgeStage`].
pub enum BridgeStageView {
    New,
    FindingNgnPeer,
    BindingNgn { ngn_peer: SocketAddr },
    FindingExtPeer { ngn: NgnSide },
    BindingExt { ngn: NgnSide, ext_peer: SocketAddr },
    Restricting { ngn: NgnSide, ext: Option<ExtSide> },
    Rewriting { ngn: NgnSide, ext: Option<ExtSide> },
    Planning { ngn: NgnSide, ext: ExtSide, sdp: Seq<u8> },
    Starting { sdp: Seq<u8> },
    Finished,
}

impl View for BridgeStage {
    type V = BridgeStageView;

    open spec fn view(&self) -> BridgeStageView {
        match self {
            BridgeStage::New => BridgeStageView::New,
            BridgeStage::FindingNgnPeer => BridgeStageView::FindingNgnPeer,
            BridgeStage::BindingNgn { ngn_peer } => BridgeStageView::BindingNgn {
                ngn_peer: *ngn_peer,
            },
            BridgeStage::FindingExtPeer { ngn } => BridgeStageView::FindingExtPeer { ngn: *ngn },
            BridgeStage::BindingExt { ngn, ext_peer } => BridgeStageView::BindingExt {
                ngn: *ngn,
                ext_peer: *ext_peer,
            },
            BridgeStage::Restricting { ngn, ext } => BridgeStageView::Restricting {
                ngn: *ngn,
                ext: *ext,
            },
            BridgeStage::Rewriting { ngn, ext } => BridgeStageView::Rewriting {
                ngn: *ngn,
                ext: *ext,
            },
            BridgeStage::Planning { ngn, ext, sdp } => BridgeStageView::Planning {
                ngn: *ngn,
                ext: *ext,
                sdp: sdp@,
            },
            BridgeStage::Starting { sdp } => BridgeStageView::Starting { sdp: sdp@ },
            BridgeStage::Finished => BridgeStageView::Finished,
        }
    }
}

/// What can happen while a bridge is set up.
#[derive(Debug)]
pub enum BridgeEvent {
    /// The bridge is begun.
    Begin,
    /// The media address that was asked for was found.
    PeerFound { addr: SocketAddr },
    /// The socket that was asked for was bound, to `addr`.
    Bound { socket: SocketId, addr: SocketAddr },
    /// The answer was restricted to what the carrier offered.
    Restricted { sdp: Vec<u8> },
    /// The session description was rewritten.
    Rewritten { sdp: Vec<u8> },
    /// How the media go together is known.
    Planned { plan: MediaPlan },
    /// The bridge is running as part of `call`.
    Started { call: CallId },
    /// What was asked for failed.
    Failed,
}

/// The contents of a [`BridgeEvent`].
pub enum BridgeEventView {
    Begin,
    PeerFound { addr: SocketAddr },
    Bound { socket: SocketId, addr: SocketAddr },
    Restricted { sdp: Seq<u8> },
    Rewritten { sdp: Seq<u8> },
    Planned { plan: MediaPlan },
    Started { call: CallId },
    Failed,
}

impl View for BridgeEvent {
    type V = BridgeEventView;

    open spec fn view(&self) -> BridgeEventView {
        match self {
            BridgeEvent::Begin => BridgeEventView::Begin,
            BridgeEvent::PeerFound { addr } => BridgeEventView::PeerFound { addr: *addr },
            BridgeEvent::Bound { socket, addr } => BridgeEventView::Bound {
                socket: *socket,
                addr: *addr,
            },
            BridgeEvent::Restricted { sdp } => BridgeEventView::Restricted { sdp: sdp@ },
            BridgeEvent::Rewritten { sdp } => BridgeEventView::Rewritten { sdp: sdp@ },
            BridgeEvent::Planned { plan } => BridgeEventView::Planned { plan: *plan },
            BridgeEvent::Started { call } => BridgeEventView::Started { call: *call },
            BridgeEvent::Failed => BridgeEventView::Failed,
        }
    }
}

/// What a driver does for a bridge.
#[derive(Debug)]
pub enum BridgeAction {
    /// The event has no place at this stage: do nothing.
    Ignore,
    /// Find the media address in `sdp`, the carrier's offer.
    FindNgnPeer { sdp: Vec<u8> },
    /// Bind the socket towards the carrier.
    BindNgn { ip: IpAddr },
    /// Find the media address in `sdp`, the extension's answer.
    FindExtPeer { sdp: Vec<u8> },
    /// Bind the socket towards the extension.
    BindExt { ip: IpAddr },
    /// Restrict the extension's `answer` to what the carrier's `offer` offers (RFC
    /// 3264 §6.1).
    RestrictAnswer { offer: Vec<u8>, answer: Vec<u8> },
    /// Make `sdp` point at `addr`.
    Rewrite { sdp: Vec<u8>, addr: SocketAddr },
    /// Find out how the media of the carrier's `offer` and the extension's `answer`
    /// go together.
    SelectPlan { offer: Vec<u8>, answer: Vec<u8> },
    /// Start the bridge as part of a new call.
    Start { bridge: BridgeSpec },
    /// The bridge is running as part of `call`, and `sdp` goes to the carrier.
    Done { sdp: Vec<u8>, call: CallId },
    /// There is no bridge.
    GiveUp { error: BridgeError },
}

/// The contents of a [`BridgeAction`].
pub enum BridgeActionView {
    Ignore,
    FindNgnPeer { sdp: Seq<u8> },
    BindNgn { ip: IpAddr },
    FindExtPeer { sdp: Seq<u8> },
    BindExt { ip: IpAddr },
    RestrictAnswer { offer: Seq<u8>, answer: Seq<u8> },
    Rewrite { sdp: Seq<u8>, addr: SocketAddr },
    SelectPlan { offer: Seq<u8>, answer: Seq<u8> },
    Start { bridge: BridgeSpec },
    Done { sdp: Seq<u8>, call: CallId },
    GiveUp { error: BridgeError },
}

impl View for BridgeAction {
    type V = BridgeActionView;

    open spec fn view(&self) -> BridgeActionView {
        match self {
            BridgeAction::Ignore => BridgeActionView::Ignore,
            BridgeAction::FindNgnPeer { sdp } => BridgeActionView::FindNgnPeer { sdp: sdp@ },
            BridgeAction::BindNgn { ip } => BridgeActionView::BindNgn { ip: *ip },
            BridgeAction::FindExtPeer { sdp } => BridgeActionView::FindExtPeer { sdp: sdp@ },
            BridgeAction::BindExt { ip } => BridgeActionView::BindExt { ip: *ip },
            BridgeAction::RestrictAnswer { offer, answer } => BridgeActionView::RestrictAnswer {
                offer: offer@,
                answer: answer@,
            },
            BridgeAction::Rewrite { sdp, addr } => BridgeActionView::Rewrite {
                sdp: sdp@,
                addr: *addr,
            },
            BridgeAction::SelectPlan { offer, answer } => BridgeActionView::SelectPlan {
                offer: offer@,
                answer: answer@,
            },
            BridgeAction::Start { bridge } => BridgeActionView::Start { bridge: *bridge },
            BridgeAction::Done { sdp, call } => BridgeActionView::Done { sdp: sdp@, call: *call },
            BridgeAction::GiveUp { error } => BridgeActionView::GiveUp { error: *error },
        }
    }
}

/// The bridge of an incoming call, while it is set up.
#[derive(Debug)]
pub struct InboundBridge {
    pub ngn_bind_ip: IpAddr,
    pub ext_bind_ip: IpAddr,
    /// The carrier's offer.
    pub ngn_offer: Vec<u8>,
    /// The answer of the extension.
    pub ext_answer: Vec<u8>,
    /// The media of the browser that answered, where it was one.
    pub webrtc: Option<WebRtcLegArtifacts>,
    pub stage: BridgeStage,
}

/// The contents of an [`InboundBridge`].
#[verifier::ext_equal]
pub struct InboundBridgeView {
    pub ngn_bind_ip: IpAddr,
    pub ext_bind_ip: IpAddr,
    pub ngn_offer: Seq<u8>,
    pub ext_answer: Seq<u8>,
    pub webrtc: Option<WebRtcLegArtifacts>,
    pub stage: BridgeStageView,
}

impl View for InboundBridge {
    type V = InboundBridgeView;

    open spec fn view(&self) -> InboundBridgeView {
        InboundBridgeView {
            ngn_bind_ip: self.ngn_bind_ip,
            ext_bind_ip: self.ext_bind_ip,
            ngn_offer: self.ngn_offer@,
            ext_answer: self.ext_answer@,
            webrtc: self.webrtc,
            stage: self.stage@,
        }
    }
}

/// The stage that an event leads to, and what is to be done.
pub open spec fn bridge_step(b: InboundBridgeView, event: BridgeEventView) -> (
    BridgeStageView,
    BridgeActionView,
) {
    match (b.stage, event) {
        (BridgeStageView::Finished, _) => (b.stage, BridgeActionView::Ignore),
        (_, BridgeEventView::Failed) => (
            BridgeStageView::Finished,
            BridgeActionView::GiveUp { error: BridgeError::StepFailed },
        ),
        (BridgeStageView::New, BridgeEventView::Begin) => (
            BridgeStageView::FindingNgnPeer,
            BridgeActionView::FindNgnPeer { sdp: b.ngn_offer },
        ),
        (BridgeStageView::FindingNgnPeer, BridgeEventView::PeerFound { addr }) => (
            BridgeStageView::BindingNgn { ngn_peer: addr },
            BridgeActionView::BindNgn { ip: b.ngn_bind_ip },
        ),
        (BridgeStageView::BindingNgn { ngn_peer }, BridgeEventView::Bound { socket, addr }) => {
            let ngn = NgnSide { socket, addr, peer: ngn_peer };
            if b.webrtc is Some {
                (
                    BridgeStageView::Restricting { ngn, ext: None },
                    BridgeActionView::RestrictAnswer { offer: b.ngn_offer, answer: b.ext_answer },
                )
            } else {
                (
                    BridgeStageView::FindingExtPeer { ngn },
                    BridgeActionView::FindExtPeer { sdp: b.ext_answer },
                )
            }
        },
        (BridgeStageView::FindingExtPeer { ngn }, BridgeEventView::PeerFound { addr }) => (
            BridgeStageView::BindingExt { ngn, ext_peer: addr },
            BridgeActionView::BindExt { ip: b.ext_bind_ip },
        ),
        (
            BridgeStageView::BindingExt { ngn, ext_peer },
            BridgeEventView::Bound { socket, addr: _ },
        ) => (
            BridgeStageView::Restricting { ngn, ext: Some(ExtSide { socket, peer: ext_peer }) },
            BridgeActionView::RestrictAnswer { offer: b.ngn_offer, answer: b.ext_answer },
        ),
        (BridgeStageView::Restricting { ngn, ext }, BridgeEventView::Restricted { sdp }) => (
            BridgeStageView::Rewriting { ngn, ext },
            BridgeActionView::Rewrite { sdp, addr: ngn.addr },
        ),
        (
            BridgeStageView::Rewriting { ngn, ext: Some(ext) },
            BridgeEventView::Rewritten { sdp },
        ) => (
            BridgeStageView::Planning { ngn, ext, sdp },
            BridgeActionView::SelectPlan { offer: b.ngn_offer, answer: b.ext_answer },
        ),
        (BridgeStageView::Rewriting { ngn, ext: None }, BridgeEventView::Rewritten { sdp }) => {
            match b.webrtc {
                Some(leg) => (
                    BridgeStageView::Starting { sdp },
                    BridgeActionView::Start { bridge: browser_bridge(ngn, leg) },
                ),
                None => (b.stage, BridgeActionView::Ignore),
            }
        },
        (BridgeStageView::Planning { ngn, ext, sdp }, BridgeEventView::Planned { plan }) => (
            BridgeStageView::Starting { sdp },
            BridgeActionView::Start { bridge: sip_bridge(ngn, ext, plan) },
        ),
        (BridgeStageView::Starting { sdp }, BridgeEventView::Started { call }) => (
            BridgeStageView::Finished,
            BridgeActionView::Done { sdp, call },
        ),
        _ => (b.stage, BridgeActionView::Ignore),
    }
}

impl InboundBridge {
    /// Begins to set up the bridge of an incoming call with the carrier's offer
    /// and the answer of the extension, which is a browser where `webrtc` is
    /// there. [`BridgeEvent::Begin`] is its first event.
    pub fn start(
        has_call_manager: bool,
        ngn_bind_ip: IpAddr,
        ext_bind_ip: IpAddr,
        ngn_offer: &[u8],
        ext_answer: &[u8],
        webrtc: Option<WebRtcLegArtifacts>,
    ) -> (r: Result<Self, BridgeError>)
        ensures
            match r {
                Err(BridgeError::NoCallManager) => !has_call_manager,
                Err(BridgeError::EmptySdp) => has_call_manager && (ngn_offer@.len() == 0
                    || ext_answer@.len() == 0),
                Err(BridgeError::StepFailed) => false,
                Ok(b) => {
                    &&& has_call_manager
                    &&& ngn_offer@.len() > 0
                    &&& ext_answer@.len() > 0
                    &&& b@ == (InboundBridgeView {
                        ngn_bind_ip,
                        ext_bind_ip,
                        ngn_offer: ngn_offer@,
                        ext_answer: ext_answer@,
                        webrtc,
                        stage: BridgeStageView::New,
                    })
                },
            },
    {
        if !has_call_manager {
            return Err(BridgeError::NoCallManager);
        }
        if ngn_offer.len() == 0 || ext_answer.len() == 0 {
            return Err(BridgeError::EmptySdp);
        }
        Ok(
            InboundBridge {
                ngn_bind_ip,
                ext_bind_ip,
                ngn_offer: copy_bytes(ngn_offer),
                ext_answer: copy_bytes(ext_answer),
                webrtc,
                stage: BridgeStage::New,
            },
        )
    }

    fn restrict_answer(&self) -> (r: BridgeAction)
        ensures
            r@ == (BridgeActionView::RestrictAnswer {
                offer: self@.ngn_offer,
                answer: self@.ext_answer,
            }),
    {
        BridgeAction::RestrictAnswer {
            offer: copy_bytes(self.ngn_offer.as_slice()),
            answer: copy_bytes(self.ext_answer.as_slice()),
        }
    }

    /// Takes an event in and says what is to be done.
    pub fn step(&mut self, event: BridgeEvent) -> (r: BridgeAction)
        ensures
            final(self)@ == (InboundBridgeView {
                stage: bridge_step(old(self)@, event@).0,
                ..old(self)@
            }),
            r@ == bridge_step(old(self)@, event@).1,
    {
        let mut stage: BridgeStage = BridgeStage::Finished;
        std::mem::swap(&mut stage, &mut self.stage);
        match (stage, event) {
            (BridgeStage::Finished, _) => BridgeAction::Ignore,
            (_, BridgeEvent::Failed) => BridgeAction::GiveUp { error: BridgeError::StepFailed },
            (BridgeStage::New, BridgeEvent::Begin) => {
                self.stage = BridgeStage::FindingNgnPeer;
                BridgeAction::FindNgnPeer { sdp: copy_bytes(self.ngn_offer.as_slice()) }
            },
            (BridgeStage::FindingNgnPeer, BridgeEvent::PeerFound { addr }) => {
                self.stage = BridgeStage::BindingNgn { ngn_peer: addr };
                BridgeAction::BindNgn { ip: self.ngn_bind_ip }
            },
            (BridgeStage::BindingNgn { ngn_peer }, BridgeEvent::Bound { socket, addr }) => {
                let ngn = NgnSide { socket, addr, peer: ngn_peer };
                if self.webrtc.is_some() {
                    self.stage = BridgeStage::Restricting { ngn, ext: None };
                    self.restrict_answer()
                } else {
                    self.stage = BridgeStage::FindingExtPeer { ngn };
                    BridgeAction::FindExtPeer { sdp: copy_bytes(self.ext_answer.as_slice()) }
                }
            },
            (BridgeStage::FindingExtPeer { ngn }, BridgeEvent::PeerFound { addr }) => {
                self.stage = BridgeStage::BindingExt { ngn, ext_peer: addr };
                BridgeAction::BindExt { ip: self.ext_bind_ip }
            },
            (BridgeStage::BindingExt { ngn, ext_peer }, BridgeEvent::Bound { socket, addr: _ }) => {
                self.stage = BridgeStage::Restricting {
                    ngn,
                    ext: Some(ExtSide { socket, peer: ext_peer }),
                };
                self.restrict_answer()
            },
            (BridgeStage::Restricting { ngn, ext }, BridgeEvent::Restricted { sdp }) => {
                self.stage = BridgeStage::Rewriting { ngn, ext };
                BridgeAction::Rewrite { sdp, addr: ngn.addr }
            },
            (BridgeStage::Rewriting { ngn, ext }, BridgeEvent::Rewritten { sdp }) => match ext {
                Some(ext) => {
                    self.stage = BridgeStage::Planning { ngn, ext, sdp };
                    BridgeAction::SelectPlan {
                        offer: copy_bytes(self.ngn_offer.as_slice()),
                        answer: copy_bytes(self.ext_answer.as_slice()),
                    }
                },
                None => match self.webrtc {
                    Some(leg) => {
                        self.stage = BridgeStage::Starting { sdp };
                        BridgeAction::Start { bridge: bridge_to_browser(ngn, leg) }
                    },
                    None => {
                        self.stage = BridgeStage::Rewriting { ngn, ext: None };
                        BridgeAction::Ignore
                    },
                },
            },
            (BridgeStage::Planning { ngn, ext, sdp }, BridgeEvent::Planned { plan }) => {
                self.stage = BridgeStage::Starting { sdp };
                BridgeAction::Start { bridge: bridge_to_extension(ngn, ext, plan) }
            },
            (BridgeStage::Starting { sdp }, BridgeEvent::Started { call }) => BridgeAction::Done {
                sdp,
                call,
            },
            (stage, _) => {
                self.stage = stage;
                BridgeAction::Ignore
            },
        }
    }
}

/// What goes to the carrier once a bridge is running is the extension's answer,
/// restricted to what the carrier offered and then made to point at the bridge's own
/// socket.
pub proof fn law_carrier_is_told_the_bridge_address(
    b: InboundBridgeView,
    socket: SocketId,
    addr: SocketAddr,
    restricted: Seq<u8>,
    rewritten: Seq<u8>,
    plan: MediaPlan,
    call: CallId,
)
    requires
        if b.webrtc is Some {
            b.stage is BindingNgn
        } else {
            b.stage is BindingExt
        },
    ensures
        ({
            let ngn_addr = if b.webrtc is Some {
                addr
            } else {
                b.stage->BindingExt_ngn.addr
            };
            let (s0, a0) = bridge_step(b, BridgeEventView::Bound { socket, addr });
            let b0 = InboundBridgeView { stage: s0, ..b };
            let (s1, a1) = bridge_step(b0, BridgeEventView::Restricted { sdp: restricted });
            let b1 = InboundBridgeView { stage: s1, ..b };
            let (s2, a2) = bridge_step(b1, BridgeEventView::Rewritten { sdp: rewritten });
            let b2 = InboundBridgeView { stage: s2, ..b };
            let (s3, a3) = if b.webrtc is Some {
                (s2, a2)
            } else {
                bridge_step(b2, BridgeEventView::Planned { plan })
            };
            let b3 = InboundBridgeView { stage: s3, ..b };
            let (s4, a4) = bridge_step(b3, BridgeEventView::Started { call });
            &&& a0 == (BridgeActionView::RestrictAnswer {
                offer: b.ngn_offer,
                answer: b.ext_answer,
            })
            &&& a1 == (BridgeActionView::Rewrite { sdp: restricted, addr: ngn_addr })
            &&& a3 is Start
            &&& a4 == (BridgeActionView::Done { sdp: rewritten, call })
            &&& s4 is Finished
        }),
{
}

/// The bridge after an event.
pub open spec fn bridge_after(b: InboundBridgeView, event: BridgeEventView) -> InboundBridgeView {
    InboundBridgeView { stage: bridge_step(b, event).0, ..b }
}

/// The whole way to a bridge with a browser. Its side towards the carrier receives on
/// the socket that was bound and sends to the address that was found in the carrier's
/// offer; its other side has the browser's media and payload type, with the carrier's
/// codec passed on as it is.
pub proof fn law_browser_bridge_joins_the_carrier_and_the_browser(
    b: InboundBridgeView,
    ngn_peer: SocketAddr,
    socket: SocketId,
    addr: SocketAddr,
    restricted: Seq<u8>,
    rewritten: Seq<u8>,
    call: CallId,
)
    requires
        b.stage is New,
        b.webrtc is Some,
    ensures
        ({
            let a0 = bridge_step(b, BridgeEventView::Begin).1;
            let b1 = bridge_after(b, BridgeEventView::Begin);
            let a1 = bridge_step(b1, BridgeEventView::PeerFound { addr: ngn_peer }).1;
            let b2 = bridge_after(b1, BridgeEventView::PeerFound { addr: ngn_peer });
            let a2 = bridge_step(b2, BridgeEventView::Bound { socket, addr }).1;
            let b3 = bridge_after(b2, BridgeEventView::Bound { socket, addr });
            let a3 = bridge_step(b3, BridgeEventView::Restricted { sdp: restricted }).1;
            let b4 = bridge_after(b3, BridgeEventView::Restricted { sdp: restricted });
            let a4 = bridge_step(b4, BridgeEventView::Rewritten { sdp: rewritten }).1;
            let b5 = bridge_after(b4, BridgeEventView::Rewritten { sdp: rewritten });
            let a5 = bridge_step(b5, BridgeEventView::Started { call }).1;
            let b6 = bridge_after(b5, BridgeEventView::Started { call });
            &&& a0 == BridgeActionView::FindNgnPeer { sdp: b.ngn_offer }
            &&& a1 == BridgeActionView::BindNgn { ip: b.ngn_bind_ip }
            &&& a2 == BridgeActionView::RestrictAnswer { offer: b.ngn_offer, answer: b.ext_answer }
            &&& a3 == BridgeActionView::Rewrite { sdp: restricted, addr }
            &&& match a4 {
                BridgeActionView::Start {
                    bridge: BridgeSpec::WebRtcAudio {
                        ngn,
                        media,
                        opus_payload_type,
                        direct_pcmu_passthrough,
                    },
                } => {
                    &&& ngn.peer == ngn_peer
                    &&& ngn.socket == socket
                    &&& ngn.addr == addr
                    &&& media == b.webrtc->0.media
                    &&& opus_payload_type == b.webrtc->0.opus_payload_type
                    &&& direct_pcmu_passthrough
                },
                _ => false,
            }
            &&& a5 == BridgeActionView::Done { sdp: rewritten, call }
            &&& b6.stage is Finished
        }),
{
}

/// The whole way to a bridge with a SIP extension. Its side towards the carrier receives
/// on the socket that was bound first and sends to the address in the carrier's offer;
/// its side towards the extension receives on the socket that was bound second and sends
/// to the address in the extension's answer.
pub proof fn law_sip_bridge_joins_the_carrier_and_the_extension(
    b: InboundBridgeView,
    ngn_peer: SocketAddr,
    ngn_socket: SocketId,
    ngn_addr: SocketAddr,
    ext_peer: SocketAddr,
    ext_socket: SocketId,
    ext_addr: SocketAddr,
    restricted: Seq<u8>,
    rewritten: Seq<u8>,
    plan: MediaPlan,
    call: CallId,
)
    requires
        b.stage is New,
        b.webrtc is None,
    ensures
        ({
            let e1 = BridgeEventView::PeerFound { addr: ngn_peer };
            let e2 = BridgeEventView::Bound { socket: ngn_socket, addr: ngn_addr };
            let e3 = BridgeEventView::PeerFound { addr: ext_peer };
            let e4 = BridgeEventView::Bound { socket: ext_socket, addr: ext_addr };
            let e5 = BridgeEventView::Restricted { sdp: restricted };
            let e6 = BridgeEventView::Rewritten { sdp: rewritten };
            let e7 = BridgeEventView::Planned { plan };
            let e8 = BridgeEventView::Started { call };
            let b1 = bridge_after(b, BridgeEventView::Begin);
            let b2 = bridge_after(b1, e1);
            let b3 = bridge_after(b2, e2);
            let b4 = bridge_after(b3, e3);
            let b5 = bridge_after(b4, e4);
            let b6 = bridge_after(b5, e5);
            let b7 = bridge_after(b6, e6);
            let b8 = bridge_after(b7, e7);
            let b9 = bridge_after(b8, e8);
            &&& bridge_step(b, BridgeEventView::Begin).1 == BridgeActionView::FindNgnPeer {
                sdp: b.ngn_offer,
            }
            &&& bridge_step(b1, e1).1 == BridgeActionView::BindNgn { ip: b.ngn_bind_ip }
            &&& bridge_step(b2, e2).1 == BridgeActionView::FindExtPeer { sdp: b.ext_answer }
            &&& bridge_step(b3, e3).1 == BridgeActionView::BindExt { ip: b.ext_bind_ip }
            &&& bridge_step(b4, e4).1 == BridgeActionView::RestrictAnswer {
                offer: b.ngn_offer,
                answer: b.ext_answer,
            }
            &&& bridge_step(b5, e5).1 == BridgeActionView::Rewrite {
                sdp: restricted,
                addr: ngn_addr,
            }
            &&& bridge_step(b6, e6).1 == BridgeActionView::SelectPlan {
                offer: b.ngn_offer,
                answer: b.ext_answer,
            }
            &&& match (plan, bridge_step(b7, e7).1) {
                (
                    MediaPlan::Relay,
                    BridgeActionView::Start { bridge: BridgeSpec::Relay { ngn, ext } },
                ) => {
                    &&& ngn.peer == ngn_peer && ngn.socket == ngn_socket && ngn.addr == ngn_addr
                    &&& ext.peer == ext_peer && ext.socket == ext_socket
                },
                (
                    MediaPlan::Transcode { opus_pt },
                    BridgeActionView::Start {
                        bridge: BridgeSpec::Transcode { ngn, ext, opus_payload_type },
                    },
                ) => {
                    &&& ngn.peer == ngn_peer && ngn.socket == ngn_socket && ngn.addr == ngn_addr
                    &&& ext.peer == ext_peer && ext.socket == ext_socket
                    &&& opus_payload_type == opus_pt
                },
                _ => false,
            }
            &&& bridge_step(b8, e8).1 == BridgeActionView::Done { sdp: rewritten, call }
            &&& b9.stage is Finished
        }),
{
}

/// Whether a bridge at `stage` asked for what `event` brings.
pub open spec fn is_awaited(stage: BridgeStageView, event: BridgeEventView) -> bool {
    match event {
        BridgeEventView::Begin => stage is New,
        BridgeEventView::PeerFound { .. } => stage is FindingNgnPeer || stage is FindingExtPeer,
        BridgeEventView::Bound { .. } => stage is BindingNgn || stage is BindingExt,
        BridgeEventView::Restricted { .. } => stage is Restricting,
        BridgeEventView::Rewritten { .. } => stage is Rewriting,
        BridgeEventView::Planned { .. } => stage is Planning,
        BridgeEventView::Started { .. } => stage is Starting,
        BridgeEventView::Failed => !(stage is Finished),
    }
}

/// A bridge takes in what it asked for and nothing else: what was not awaited changes
/// nothing. A step that fails is the end of it, and so is nothing else but the start.
pub proof fn law_bridge_takes_in_what_it_asked_for(b: InboundBridgeView, event: BridgeEventView)
    ensures
        !is_awaited(b.stage, event) ==> bridge_step(b, event) == (
            b.stage,
            BridgeActionView::Ignore,
        ),
        is_awaited(b.stage, event) && !(event is Rewritten) ==> !(bridge_step(b, event).1
            is Ignore),
        bridge_step(b, event).1 is GiveUp <==> event is Failed && !(b.stage is Finished),
        event is Failed ==> bridge_step(b, event).0 is Finished,
        event is Failed && !(b.stage is Finished) ==> bridge_step(b, event).1
            == (BridgeActionView::GiveUp { error: BridgeError::StepFailed }),
        bridge_step(b, event).0 is Finished <==> b.stage is Finished || event is Failed || (
        b.stage is Starting && event is Started),
{
}

} // verus!
