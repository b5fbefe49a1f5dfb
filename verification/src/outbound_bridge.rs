//! Setting up the media bridge of a call to the carrier.
//!
//! The bridge is prepared before the INVITE goes out, so that the carrier is offered
//! the bridge's own socket, and completed once the carrier has answered.

use vstd::prelude::*;

use crate::bridge::{
    bridge_to_extension, sip_bridge, BridgeEvent, BridgeEventView, BridgeSpec, ExtSide, MediaPlan,
    NgnSide,
};
use crate::ids::{CallId, IpAddr, SocketAddr, SocketId, LOOPBACK};
use crate::response::copy_bytes;

verus! {

/// The sockets of the bridge of an outgoing call, with their addresses, and where
/// the extension's media go.
#[derive(Clone, Copy, Debug, PartialEq, Eq, Structural)]
pub struct OutboundBridgeCtx {
    pub ngn_socket: SocketId,
    pub ngn_addr: SocketAddr,
    pub ext_socket: SocketId,
    pub ext_addr: SocketAddr,
    pub ext_peer: SocketAddr,
}

/// The IP address to which a socket is bound, where `ip` is what it is set to.
pub open spec fn or_loopback(ip: Option<IpAddr>) -> IpAddr {
    match ip {
        Some(ip) => ip,
        None => IpAddr::V4(LOOPBACK),
    }
}

/// How far the preparation of a bridge is.
#[derive(Clone, Copy, Debug, PartialEq, Eq, Structural)]
pub enum PrepareStage {
    New,
    FindingExtPeer,
    BindingNgn { ext_peer: SocketAddr },
    BindingExt { ext_peer: SocketAddr, ngn_socket: SocketId, ngn_addr: SocketAddr },
    Rewriting { ctx: OutboundBridgeCtx },
    Finished,
}

/// What a driver does to prepare a bridge.
#[derive(Debug)]
pub enum PrepareAction {
    /// The event has no place at this stage: do nothing.
    Ignore,
    /// Find the media address in `sdp`, the extension's offer.
    FindExtPeer { sdp: Vec<u8> },
    /// Bind the socket towards the carrier.
    BindNgn { ip: IpAddr },
    /// Bind the socket towards the extension.
    BindExt { ip: IpAddr },
    /// Make `sdp`, the extension's offer, point at `addr`.
    RewriteOffer { sdp: Vec<u8>, addr: SocketAddr },
    /// The sockets are there, and the carrier is to be offered `sdp`.
    Ready { ctx: OutboundBridgeCtx, sdp: Vec<u8> },
    /// There is no bridge.
    GiveUp,
}

/// The contents of a [`PrepareAction`].
pub enum PrepareActionView {
    Ignore,
    FindExtPeer { sdp: Seq<u8> },
    BindNgn { ip: IpAddr },
    BindExt { ip: IpAddr },
    RewriteOffer { sdp: Seq<u8>, addr: SocketAddr },
    Ready { ctx: OutboundBridgeCtx, sdp: Seq<u8> },
    GiveUp,
}

impl View for PrepareAction {
    type V = PrepareActionView;

    open spec fn view(&self) -> PrepareActionView {
        match self {
            PrepareAction::Ignore => PrepareActionView::Ignore,
            PrepareAction::FindExtPeer { sdp } => PrepareActionView::FindExtPeer { sdp: sdp@ },
            PrepareAction::BindNgn { ip } => PrepareActionView::BindNgn { ip: *ip },
            PrepareAction::BindExt { ip } => PrepareActionView::BindExt { ip: *ip },
            PrepareAction::RewriteOffer { sdp, addr } => PrepareActionView::RewriteOffer {
                sdp: sdp@,
                addr: *addr,
            },
            PrepareAction::Ready { ctx, sdp } => PrepareActionView::Ready { ctx: *ctx, sdp: sdp@ },
            PrepareAction::GiveUp => PrepareActionView::GiveUp,
        }
    }
}

/// The bridge of an outgoing call, while it is prepared. [`BridgeEvent::Begin`] is its
/// first event.
#[derive(Debug)]
pub struct BridgePreparation {
    pub ngn_bind_ip: IpAddr,
    pub ext_bind_ip: IpAddr,
    /// The extension's offer.
    pub ext_offer: Vec<u8>,
    pub stage: PrepareStage,
}

/// The contents of a [`BridgePreparation`].
#[verifier::ext_equal]
pub struct PreparationView {
    pub ngn_bind_ip: IpAddr,
    pub ext_bind_ip: IpAddr,
    pub ext_offer: Seq<u8>,
    pub stage: PrepareStage,
}

impl View for BridgePreparation {
    type V = PreparationView;

    open spec fn view(&self) -> PreparationView {
        PreparationView {
            ngn_bind_ip: self.ngn_bind_ip,
            ext_bind_ip: self.ext_bind_ip,
            ext_offer: self.ext_offer@,
            stage: self.stage,
        }
    }
}

/// The preparation that an outgoing call with `ext_offer` begins with, where its
/// sockets are set to be bound to `ngn` and `ext`: none without a call manager, and
/// none without an offer. A socket for which nothing is set is bound to the loopback
/// address.
pub open spec fn preparation(
    has_call_manager: bool,
    ngn: Option<IpAddr>,
    ext: Option<IpAddr>,
    ext_offer: Seq<u8>,
) -> Option<PreparationView> {
    if has_call_manager && ext_offer.len() > 0 {
        Some(
            PreparationView {
                ngn_bind_ip: or_loopback(ngn),
                ext_bind_ip: or_loopback(ext),
                ext_offer,
                stage: PrepareStage::New,
            },
        )
    } else {
        None
    }
}

/// The contents of a preparation that may be missing.
pub open spec fn preparation_view(p: Option<BridgePreparation>) -> Option<PreparationView> {
    match p {
        Some(p) => Some(p@),
        None => None,
    }
}

/// The preparation of the bridge of an outgoing call, where there is one: without a
/// call manager, or without an offer, there is none.
pub fn prepare_outbound_bridge(
    has_call_manager: bool,
    bridge_ngn_bind_ip: Option<IpAddr>,
    bridge_ext_bind_ip: Option<IpAddr>,
    ext_offer: &[u8],
) -> (r: Option<BridgePreparation>)
    ensures
        preparation_view(r) == preparation(
            has_call_manager,
            bridge_ngn_bind_ip,
            bridge_ext_bind_ip,
            ext_offer@,
        ),
{
    if !has_call_manager || ext_offer.len() == 0 {
        return None;
    }
    let ngn_bind_ip: IpAddr = match bridge_ngn_bind_ip {
        Some(ip) => ip,
        None => IpAddr::V4(LOOPBACK),
    };
    let ext_bind_ip: IpAddr = match bridge_ext_bind_ip {
        Some(ip) => ip,
        None => IpAddr::V4(LOOPBACK),
    };
    Some(
        BridgePreparation {
            ngn_bind_ip,
            ext_bind_ip,
            ext_offer: copy_bytes(ext_offer),
            stage: PrepareStage::New,
        },
    )
}

/// The stage that an event leads to, and what is to be done.
pub open spec fn prepare_step(p: PreparationView, event: BridgeEventView) -> (
    PrepareStage,
    PrepareActionView,
) {
    match (p.stage, event) {
        (PrepareStage::Finished, _) => (p.stage, PrepareActionView::Ignore),
        (_, BridgeEventView::Failed) => (PrepareStage::Finished, PrepareActionView::GiveUp),
        (PrepareStage::New, BridgeEventView::Begin) => (
            PrepareStage::FindingExtPeer,
            PrepareActionView::FindExtPeer { sdp: p.ext_offer },
        ),
        (PrepareStage::FindingExtPeer, BridgeEventView::PeerFound { addr }) => (
            PrepareStage::BindingNgn { ext_peer: addr },
            PrepareActionView::BindNgn { ip: p.ngn_bind_ip },
        ),
        (PrepareStage::BindingNgn { ext_peer }, BridgeEventView::Bound { socket, addr }) => (
            PrepareStage::BindingExt { ext_peer, ngn_socket: socket, ngn_addr: addr },
            PrepareActionView::BindExt { ip: p.ext_bind_ip },
        ),
        (
            PrepareStage::BindingExt { ext_peer, ngn_socket, ngn_addr },
            BridgeEventView::Bound { socket, addr },
        ) => (
            PrepareStage::Rewriting {
                ctx: OutboundBridgeCtx {
                    ngn_socket,
                    ngn_addr,
                    ext_socket: socket,
                    ext_addr: addr,
                    ext_peer,
                },
            },
            PrepareActionView::RewriteOffer { sdp: p.ext_offer, addr: ngn_addr },
        ),
        (PrepareStage::Rewriting { ctx }, BridgeEventView::Rewritten { sdp }) => (
            PrepareStage::Finished,
            PrepareActionView::Ready { ctx, sdp },
        ),
        _ => (p.stage, PrepareActionView::Ignore),
    }
}

impl BridgePreparation {
    /// Takes an event in and says what is to be done.
    pub fn step(&mut self, event: BridgeEvent) -> (r: PrepareAction)
        ensures
            final(self)@ == (PreparationView {
                stage: prepare_step(old(self)@, event@).0,
                ..old(self)@
            }),
            r@ == prepare_step(old(self)@, event@).1,
    {
        match (self.stage, event) {
            (PrepareStage::Finished, _) => PrepareAction::Ignore,
            (_, BridgeEvent::Failed) => {
                self.stage = PrepareStage::Finished;
                PrepareAction::GiveUp
            },
            (PrepareStage::New, BridgeEvent::Begin) => {
                self.stage = PrepareStage::FindingExtPeer;
                PrepareAction::FindExtPeer { sdp: copy_bytes(self.ext_offer.as_slice()) }
            },
            (PrepareStage::FindingExtPeer, BridgeEvent::PeerFound { addr }) => {
                self.stage = PrepareStage::BindingNgn { ext_peer: addr };
                PrepareAction::BindNgn { ip: self.ngn_bind_ip }
            },
            (PrepareStage::BindingNgn { ext_peer }, BridgeEvent::Bound { socket, addr }) => {
                self.stage = PrepareStage::BindingExt {
                    ext_peer,
                    ngn_socket: socket,
                    ngn_addr: addr,
                };
                PrepareAction::BindExt { ip: self.ext_bind_ip }
            },
            (
                PrepareStage::BindingExt { ext_peer, ngn_socket, ngn_addr },
                BridgeEvent::Bound { socket, addr },
            ) => {
                let ctx = OutboundBridgeCtx {
                    ngn_socket,
                    ngn_addr,
                    ext_socket: socket,
                    ext_addr: addr,
                    ext_peer,
                };
                self.stage = PrepareStage::Rewriting { ctx };
                PrepareAction::RewriteOffer {
                    sdp: copy_bytes(self.ext_offer.as_slice()),
                    addr: ngn_addr,
                }
            },
            (PrepareStage::Rewriting { ctx }, BridgeEvent::Rewritten { sdp }) => {
                self.stage = PrepareStage::Finished;
                PrepareAction::Ready { ctx, sdp }
            },
            _ => PrepareAction::Ignore,
        }
    }
}

/// How far the completion of a bridge is.
#[derive(Debug)]
pub enum FinalizeStage {
    New,
    FindingNgnPeer,
    Rewriting { ngn_peer: SocketAddr },
    Planning { ngn_peer: SocketAddr, sdp: Vec<u8> },
    Starting { sdp: Vec<u8> },
    Finished,
}

/// The contents of a [`FinalizeStage`].
pub enum FinalizeStageView {
    New,
    FindingNgnPeer,
    Rewriting { ngn_peer: SocketAddr },
    Planning { ngn_peer: SocketAddr, sdp: Seq<u8> },
    Starting { sdp: Seq<u8> },
    Finished,
}

impl View for FinalizeStage {
    type V = FinalizeStageView;

    open spec fn view(&self) -> FinalizeStageView {
        match self {
            FinalizeStage::New => FinalizeStageView::New,
            FinalizeStage::FindingNgnPeer => FinalizeStageView::FindingNgnPeer,
            FinalizeStage::Rewriting { ngn_peer } => FinalizeStageView::Rewriting {
                ngn_peer: *ngn_peer,
            },
            FinalizeStage::Planning { ngn_peer, sdp } => FinalizeStageView::Planning {
                ngn_peer: *ngn_peer,
                sdp: sdp@,
            },
            FinalizeStage::Starting { sdp } => FinalizeStageView::Starting { sdp: sdp@ },
            FinalizeStage::Finished => FinalizeStageView::Finished,
        }
    }
}

/// What a driver does to complete a bridge.
#[derive(Debug)]
pub enum FinalizeAction {
    /// The event has no place at this stage: do nothing.
    Ignore,
    /// Find the media address in `sdp`, the carrier's answer.
    FindNgnPeer { sdp: Vec<u8> },
    /// Make `sdp`, the extension's offer, point at `addr`.
    RewriteOffer { sdp: Vec<u8>, addr: SocketAddr },
    /// Find out how the media of the carrier's `answer` and the extension's `offer` go
    /// together.
    SelectPlan { answer: Vec<u8>, offer: Vec<u8> },
    /// Start the bridge as part of a new call.
    Start { bridge: BridgeSpec },
    /// The bridge is running as part of `call`, and `sdp` goes to the extension.
    Done { sdp: Vec<u8>, call: CallId },
    /// There is no bridge.
    GiveUp,
}

/// The contents of a [`FinalizeAction`].
pub enum FinalizeActionView {
    Ignore,
    FindNgnPeer { sdp: Seq<u8> },
    RewriteOffer { sdp: Seq<u8>, addr: SocketAddr },
    SelectPlan { answer: Seq<u8>, offer: Seq<u8> },
    Start { bridge: BridgeSpec },
    Done { sdp: Seq<u8>, call: CallId },
    GiveUp,
}

impl View for FinalizeAction {
    type V = FinalizeActionView;

    open spec fn view(&self) -> FinalizeActionView {
        match self {
            FinalizeAction::Ignore => FinalizeActionView::Ignore,
            FinalizeAction::FindNgnPeer { sdp } => FinalizeActionView::FindNgnPeer { sdp: sdp@ },
            FinalizeAction::RewriteOffer { sdp, addr } => FinalizeActionView::RewriteOffer {
                sdp: sdp@,
                addr: *addr,
            },
            FinalizeAction::SelectPlan { answer, offer } => FinalizeActionView::SelectPlan {
                answer: answer@,
                offer: offer@,
            },
            FinalizeAction::Start { bridge } => FinalizeActionView::Start { bridge: *bridge },
            FinalizeAction::Done { sdp, call } => FinalizeActionView::Done {
                sdp: sdp@,
                call: *call,
            },
            FinalizeAction::GiveUp => FinalizeActionView::GiveUp,
        }
    }
}

/// The bridge of an outgoing call, while it is completed. [`BridgeEvent::Begin`] is its
/// first event.
#[derive(Debug)]
pub struct BridgeCompletion {
    pub ctx: OutboundBridgeCtx,
    /// The extension's offer.
    pub ext_offer: Vec<u8>,
    /// The carrier's answer.
    pub ngn_answer: Vec<u8>,
    pub stage: FinalizeStage,
}

/// The contents of a [`BridgeCompletion`].
#[verifier::ext_equal]
pub struct CompletionView {
    pub ctx: OutboundBridgeCtx,
    pub ext_offer: Seq<u8>,
    pub ngn_answer: Seq<u8>,
    pub stage: FinalizeStageView,
}

impl View for BridgeCompletion {
    type V = CompletionView;

    open spec fn view(&self) -> CompletionView {
        CompletionView {
            ctx: self.ctx,
            ext_offer: self.ext_offer@,
            ngn_answer: self.ngn_answer@,
            stage: self.stage@,
        }
    }
}

/// What is done about the bridge of an outgoing call that was answered.
#[derive(Debug)]
pub enum FinalizeBridge {
    /// There is no bridge: the carrier's answer goes to the extension as it is.
    PassThrough,
    /// The carrier's answer has no session description.
    EmptyAnswer,
    /// Complete the bridge.
    Build(BridgeCompletion),
}

/// The contents of a [`FinalizeBridge`].
pub enum FinalizeBridgeView {
    PassThrough,
    EmptyAnswer,
    Build(CompletionView),
}

impl View for FinalizeBridge {
    type V = FinalizeBridgeView;

    open spec fn view(&self) -> FinalizeBridgeView {
        match self {
            FinalizeBridge::PassThrough => FinalizeBridgeView::PassThrough,
            FinalizeBridge::EmptyAnswer => FinalizeBridgeView::EmptyAnswer,
            FinalizeBridge::Build(completion) => FinalizeBridgeView::Build(completion@),
        }
    }
}

/// What is done about the bridge `bridge` of an outgoing call with `ext_offer` that was
/// answered with `ngn_answer`.
pub open spec fn bridge_end(
    has_call_manager: bool,
    bridge: Option<OutboundBridgeCtx>,
    ext_offer: Seq<u8>,
    ngn_answer: Seq<u8>,
) -> FinalizeBridgeView {
    match bridge {
        Some(ctx) if has_call_manager => if ngn_answer.len() == 0 {
            FinalizeBridgeView::EmptyAnswer
        } else {
            FinalizeBridgeView::Build(
                CompletionView { ctx, ext_offer, ngn_answer, stage: FinalizeStageView::New },
            )
        },
        _ => FinalizeBridgeView::PassThrough,
    }
}

/// What is done about the bridge of an outgoing call with `ext_offer` that was answered
/// with `ngn_answer`.
pub fn finalize_outbound_bridge(
    has_call_manager: bool,
    bridge: Option<OutboundBridgeCtx>,
    ext_offer: &[u8],
    ngn_answer: &[u8],
) -> (r: FinalizeBridge)
    ensures
        r@ == bridge_end(has_call_manager, bridge, ext_offer@, ngn_answer@),
{
    match bridge {
        Some(ctx) => if !has_call_manager {
            FinalizeBridge::PassThrough
        } else if ngn_answer.len() == 0 {
            FinalizeBridge::EmptyAnswer
        } else {
            FinalizeBridge::Build(
                BridgeCompletion {
                    ctx,
                    ext_offer: copy_bytes(ext_offer),
                    ngn_answer: copy_bytes(ngn_answer),
                    stage: FinalizeStage::New,
                },
            )
        },
        None => FinalizeBridge::PassThrough,
    }
}

/// The bridge of an outgoing call, with the carrier's media going to `ngn_peer`.
pub open spec fn outbound_bridge(
    ctx: OutboundBridgeCtx,
    ngn_peer: SocketAddr,
    plan: MediaPlan,
) -> BridgeSpec {
    sip_bridge(
        NgnSide { socket: ctx.ngn_socket, addr: ctx.ngn_addr, peer: ngn_peer },
        ExtSide { socket: ctx.ext_socket, peer: ctx.ext_peer },
        plan,
    )
}

/// The stage that an event leads to, and what is to be done.
pub open spec fn finalize_step(b: CompletionView, event: BridgeEventView) -> (
    FinalizeStageView,
    FinalizeActionView,
) {
    match (b.stage, event) {
        (FinalizeStageView::Finished, _) => (b.stage, FinalizeActionView::Ignore),
        (_, BridgeEventView::Failed) => (FinalizeStageView::Finished, FinalizeActionView::GiveUp),
        (FinalizeStageView::New, BridgeEventView::Begin) => (
            FinalizeStageView::FindingNgnPeer,
            FinalizeActionView::FindNgnPeer { sdp: b.ngn_answer },
        ),
        (FinalizeStageView::FindingNgnPeer, BridgeEventView::PeerFound { addr }) => (
            FinalizeStageView::Rewriting { ngn_peer: addr },
            FinalizeActionView::RewriteOffer { sdp: b.ext_offer, addr: b.ctx.ext_addr },
        ),
        (FinalizeStageView::Rewriting { ngn_peer }, BridgeEventView::Rewritten { sdp }) => (
            FinalizeStageView::Planning { ngn_peer, sdp },
            FinalizeActionView::SelectPlan { answer: b.ngn_answer, offer: b.ext_offer },
        ),
        (FinalizeStageView::Planning { ngn_peer, sdp }, BridgeEventView::Planned { plan }) => (
            FinalizeStageView::Starting { sdp },
            FinalizeActionView::Start { bridge: outbound_bridge(b.ctx, ngn_peer, plan) },
        ),
        (FinalizeStageView::Starting { sdp }, BridgeEventView::Started { call }) => (
            FinalizeStageView::Finished,
            FinalizeActionView::Done { sdp, call },
        ),
        _ => (b.stage, FinalizeActionView::Ignore),
    }
}

impl BridgeCompletion {
    /// Takes an event in and says what is to be done.
    pub fn step(&mut self, event: BridgeEvent) -> (r: FinalizeAction)
        ensures
            final(self)@ == (CompletionView {
                stage: finalize_step(old(self)@, event@).0,
                ..old(self)@
            }),
            r@ == finalize_step(old(self)@, event@).1,
    {
        let ctx: OutboundBridgeCtx = self.ctx;
        let mut stage: FinalizeStage = FinalizeStage::Finished;
        std::mem::swap(&mut stage, &mut self.stage);
        match (stage, event) {
            (FinalizeStage::Finished, _) => FinalizeAction::Ignore,
            (_, BridgeEvent::Failed) => FinalizeAction::GiveUp,
            (FinalizeStage::New, BridgeEvent::Begin) => {
                self.stage = FinalizeStage::FindingNgnPeer;
                FinalizeAction::FindNgnPeer { sdp: copy_bytes(self.ngn_answer.as_slice()) }
            },
            (FinalizeStage::FindingNgnPeer, BridgeEvent::PeerFound { addr }) => {
                self.stage = FinalizeStage::Rewriting { ngn_peer: addr };
                FinalizeAction::RewriteOffer {
                    sdp: copy_bytes(self.ext_offer.as_slice()),
                    addr: ctx.ext_addr,
                }
            },
            (FinalizeStage::Rewriting { ngn_peer }, BridgeEvent::Rewritten { sdp }) => {
                self.stage = FinalizeStage::Planning { ngn_peer, sdp };
                FinalizeAction::SelectPlan {
                    answer: copy_bytes(self.ngn_answer.as_slice()),
                    offer: copy_bytes(self.ext_offer.as_slice()),
                }
            },
            (FinalizeStage::Planning { ngn_peer, sdp }, BridgeEvent::Planned { plan }) => {
                self.stage = FinalizeStage::Starting { sdp };
                FinalizeAction::Start {
                    bridge: bridge_to_extension(
                        NgnSide { socket: ctx.ngn_socket, addr: ctx.ngn_addr, peer: ngn_peer },
                        ExtSide { socket: ctx.ext_socket, peer: ctx.ext_peer },
                        plan,
                    ),
                }
            },
            (FinalizeStage::Starting { sdp }, BridgeEvent::Started { call }) => {
                FinalizeAction::Done { sdp, call }
            },
            (stage, _) => {
                self.stage = stage;
                FinalizeAction::Ignore
            },
        }
    }
}

/// The carrier is offered the bridge's socket towards the carrier: what goes out once
/// a bridge is prepared is the extension's offer, made to point there.
pub proof fn law_carrier_is_offered_the_bridge_address(
    p: PreparationView,
    ext_peer: SocketAddr,
    ngn_socket: SocketId,
    ngn_addr: SocketAddr,
    ext_socket: SocketId,
    ext_addr: SocketAddr,
    rewritten: Seq<u8>,
)
    requires
        p.stage is New,
    ensures
        ({
            let (s0, a0) = prepare_step(p, BridgeEventView::Begin);
            let p0 = PreparationView { stage: s0, ..p };
            let (s1, a1) = prepare_step(p0, BridgeEventView::PeerFound { addr: ext_peer });
            let p1 = PreparationView { stage: s1, ..p };
            let (s2, a2) = prepare_step(
                p1,
                BridgeEventView::Bound { socket: ngn_socket, addr: ngn_addr },
            );
            let p2 = PreparationView { stage: s2, ..p };
            let (s3, a3) = prepare_step(
                p2,
                BridgeEventView::Bound { socket: ext_socket, addr: ext_addr },
            );
            let p3 = PreparationView { stage: s3, ..p };
            let (s4, a4) = prepare_step(p3, BridgeEventView::Rewritten { sdp: rewritten });
            let ctx = OutboundBridgeCtx { ngn_socket, ngn_addr, ext_socket, ext_addr, ext_peer };
            &&& a0 == (PrepareActionView::FindExtPeer { sdp: p.ext_offer })
            &&& a1 == (PrepareActionView::BindNgn { ip: p.ngn_bind_ip })
            &&& a2 == (PrepareActionView::BindExt { ip: p.ext_bind_ip })
            &&& a3 == (PrepareActionView::RewriteOffer { sdp: p.ext_offer, addr: ngn_addr })
            &&& a4 == (PrepareActionView::Ready { ctx, sdp: rewritten })
            &&& s4 is Finished
        }),
{
}

/// The extension is told the bridge's socket towards the extension, never that towards
/// the carrier: what goes to it once the bridge is running is its own offer, made to
/// point there. The bridge runs between the two sockets that were prepared.
pub proof fn law_extension_is_told_the_bridge_address(
    b: CompletionView,
    ngn_peer: SocketAddr,
    rewritten: Seq<u8>,
    plan: MediaPlan,
    call: CallId,
)
    requires
        b.stage is New,
    ensures
        ({
            let (s0, a0) = finalize_step(b, BridgeEventView::Begin);
            let b0 = CompletionView { stage: s0, ..b };
            let (s1, a1) = finalize_step(b0, BridgeEventView::PeerFound { addr: ngn_peer });
            let b1 = CompletionView { stage: s1, ..b };
            let (s2, a2) = finalize_step(b1, BridgeEventView::Rewritten { sdp: rewritten });
            let b2 = CompletionView { stage: s2, ..b };
            let (s3, a3) = finalize_step(b2, BridgeEventView::Planned { plan });
            let b3 = CompletionView { stage: s3, ..b };
            let (s4, a4) = finalize_step(b3, BridgeEventView::Started { call });
            &&& a0 == (FinalizeActionView::FindNgnPeer { sdp: b.ngn_answer })
            &&& a1 == (FinalizeActionView::RewriteOffer {
                sdp: b.ext_offer,
                addr: b.ctx.ext_addr,
            })
            &&& a2 == (FinalizeActionView::SelectPlan { answer: b.ngn_answer, offer: b.ext_offer })
            &&& a3 == (FinalizeActionView::Start {
                bridge: outbound_bridge(b.ctx, ngn_peer, plan),
            })
            &&& a4 == (FinalizeActionView::Done { sdp: rewritten, call })
            &&& s4 is Finished
        }),
{
}

/// The bridge of an outgoing call runs between the carrier's address and the prepared
/// socket towards it, and between the extension's address and the prepared socket
/// towards that. It changes the codec exactly where the plan says so.
pub proof fn law_outbound_bridge_joins_the_prepared_sockets(
    b: CompletionView,
    ngn_peer: SocketAddr,
    rewritten: Seq<u8>,
    plan: MediaPlan,
)
    requires
        b.stage is New,
    ensures
        ({
            let s0 = finalize_step(b, BridgeEventView::Begin).0;
            let b0 = CompletionView { stage: s0, ..b };
            let s1 = finalize_step(b0, BridgeEventView::PeerFound { addr: ngn_peer }).0;
            let b1 = CompletionView { stage: s1, ..b };
            let s2 = finalize_step(b1, BridgeEventView::Rewritten { sdp: rewritten }).0;
            let b2 = CompletionView { stage: s2, ..b };
            match (plan, finalize_step(b2, BridgeEventView::Planned { plan }).1) {
                (
                    MediaPlan::Relay,
                    FinalizeActionView::Start { bridge: BridgeSpec::Relay { ngn, ext } },
                ) => {
                    &&& ngn.peer == ngn_peer
                    &&& ngn.socket == b.ctx.ngn_socket
                    &&& ngn.addr == b.ctx.ngn_addr
                    &&& ext.peer == b.ctx.ext_peer
                    &&& ext.socket == b.ctx.ext_socket
                },
                (
                    MediaPlan::Transcode { opus_pt },
                    FinalizeActionView::Start {
                        bridge: BridgeSpec::Transcode { ngn, ext, opus_payload_type },
                    },
                ) => {
                    &&& ngn.peer == ngn_peer
                    &&& ngn.socket == b.ctx.ngn_socket
                    &&& ngn.addr == b.ctx.ngn_addr
                    &&& ext.peer == b.ctx.ext_peer
                    &&& ext.socket == b.ctx.ext_socket
                    &&& opus_payload_type == opus_pt
                },
                _ => false,
            }
        }),
{
}

/// A bridge is prepared exactly where something can keep it and the extension offered
/// something. Each of its sockets is bound to the address that is set for that side,
/// whatever is set for the other, and to the loopback address where none is set.
pub proof fn law_each_socket_is_bound_where_it_is_set_to(
    has_call_manager: bool,
    ngn: Option<IpAddr>,
    ext: Option<IpAddr>,
    ext_offer: Seq<u8>,
)
    ensures
        ({
            let p = preparation(has_call_manager, ngn, ext, ext_offer);
            &&& p is Some <==> has_call_manager && ext_offer.len() > 0
            &&& p is Some ==> {
                &&& ngn is Some ==> p->0.ngn_bind_ip == ngn->0
                &&& ngn is None ==> p->0.ngn_bind_ip == IpAddr::V4(LOOPBACK)
                &&& ext is Some ==> p->0.ext_bind_ip == ext->0
                &&& ext is None ==> p->0.ext_bind_ip == IpAddr::V4(LOOPBACK)
                &&& p->0.ext_offer == ext_offer
                &&& p->0.stage is New
            }
        }),
{
}

/// The carrier's answer goes to the extension as it is exactly where no bridge was
/// prepared or nothing can keep one; a bridge whose answer is empty is not completed;
/// any other is completed from both session descriptions.
pub proof fn law_prepared_bridge_is_completed(
    has_call_manager: bool,
    bridge: Option<OutboundBridgeCtx>,
    ext_offer: Seq<u8>,
    ngn_answer: Seq<u8>,
)
    ensures
        match bridge_end(has_call_manager, bridge, ext_offer, ngn_answer) {
            FinalizeBridgeView::PassThrough => bridge is None || !has_call_manager,
            FinalizeBridgeView::EmptyAnswer => {
                &&& bridge is Some
                &&& has_call_manager
                &&& ngn_answer.len() == 0
            },
            FinalizeBridgeView::Build(b) => {
                &&& has_call_manager
                &&& ngn_answer.len() > 0
                &&& bridge == Some(b.ctx)
                &&& b.ext_offer == ext_offer
                &&& b.ngn_answer == ngn_answer
                &&& b.stage is New
            },
        },
{
}

/// A step that fails is the end of a preparation and of a completion, at any stage; one
/// that has ended ignores everything.
pub proof fn law_failed_step_ends_the_bridge(
    p: PreparationView,
    b: CompletionView,
    event: BridgeEventView,
)
    ensures
        p.stage is Finished ==> prepare_step(p, event) == (p.stage, PrepareActionView::Ignore),
        b.stage is Finished ==> finalize_step(b, event) == (b.stage, FinalizeActionView::Ignore),
        event is Failed ==> prepare_step(p, event).0 is Finished,
        event is Failed ==> finalize_step(b, event).0 is Finished,
        prepare_step(p, event).1 is GiveUp <==> event is Failed && !(p.stage is Finished),
        finalize_step(b, event).1 is GiveUp <==> event is Failed && !(b.stage is Finished),
        prepare_step(p, event).1 is Ignore ==> prepare_step(p, event).0 == p.stage,
        finalize_step(b, event).1 is Ignore ==> finalize_step(b, event).0 == b.stage,
{
}

/// A preparation and a completion take in what they asked for, and nothing else.
pub proof fn law_outbound_bridge_takes_in_what_it_asked_for(
    p: PreparationView,
    b: CompletionView,
    event: BridgeEventView,
)
    ensures
        !(prepare_step(p, event).1 is Ignore) <==> match event {
            BridgeEventView::Begin => p.stage is New,
            BridgeEventView::PeerFound { .. } => p.stage is FindingExtPeer,
            BridgeEventView::Bound { .. } => p.stage is BindingNgn || p.stage is BindingExt,
            BridgeEventView::Rewritten { .. } => p.stage is Rewriting,
            BridgeEventView::Failed => !(p.stage is Finished),
            _ => false,
        },
        !(finalize_step(b, event).1 is Ignore) <==> match event {
            BridgeEventView::Begin => b.stage is New,
            BridgeEventView::PeerFound { .. } => b.stage is FindingNgnPeer,
            BridgeEventView::Rewritten { .. } => b.stage is Rewriting,
            BridgeEventView::Planned { .. } => b.stage is Planning,
            BridgeEventView::Started { .. } => b.stage is Starting,
            BridgeEventView::Failed => !(b.stage is Finished),
            _ => false,
        },
{
}

} // verus!
