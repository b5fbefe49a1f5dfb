use sabiden::bridge::{
    bridge_to_browser, bridge_to_extension, BridgeEvent, BridgeSpec, ExtSide, MediaPlan, NgnSide,
};
use sabiden::fork::WebRtcLegArtifacts;
use sabiden::ids::{CallId, IpAddr, MediaId, SocketAddr, SocketId};
use sabiden::outbound_bridge::{
    finalize_outbound_bridge, prepare_outbound_bridge, BridgeCompletion, FinalizeAction,
    FinalizeBridge, OutboundBridgeCtx, PrepareAction,
};

const OFFER: &[u8] = b"v=0\r\nc=IN IP4 192.168.20.10\r\nm=audio 4000 RTP/AVP 0\r\n";
const ANSWER: &[u8] = b"v=0\r\nc=IN IP4 118.177.125.1\r\nm=audio 20000 RTP/AVP 0\r\n";
const LOOPBACK: IpAddr = IpAddr::V4(0x7f00_0001);

fn addr(ip: u32, port: u16) -> SocketAddr {
    SocketAddr {
        ip: IpAddr::V4(ip),
        port,
    }
}

fn ctx() -> OutboundBridgeCtx {
    OutboundBridgeCtx {
        ngn_socket: SocketId(1),
        ngn_addr: addr(0x7f00_0001, 40000),
        ext_socket: SocketId(2),
        ext_addr: addr(0x7f00_0002, 40002),
        ext_peer: addr(0xc0a8_140a, 4000),
    }
}

fn completion() -> BridgeCompletion {
    match finalize_outbound_bridge(true, Some(ctx()), OFFER, ANSWER) {
        FinalizeBridge::Build(completion) => completion,
        other => panic!("expected a bridge, got {:?}", other),
    }
}

#[test]
fn bridges_need_a_manager_and_an_offer() {
    assert!(prepare_outbound_bridge(false, None, None, OFFER).is_none());
    assert!(prepare_outbound_bridge(true, None, None, b"").is_none());
    let p = prepare_outbound_bridge(true, None, Some(IpAddr::V6(1)), OFFER).unwrap();
    assert_eq!((p.ngn_bind_ip, p.ext_bind_ip), (LOOPBACK, IpAddr::V6(1)));
    let p = prepare_outbound_bridge(true, Some(IpAddr::V6(2)), None, OFFER).unwrap();
    assert_eq!((p.ngn_bind_ip, p.ext_bind_ip), (IpAddr::V6(2), LOOPBACK));
}

#[test]
fn carrier_is_offered_the_socket_towards_it() {
    let mut p =
        prepare_outbound_bridge(true, None, Some(IpAddr::V4(0x7f00_0002)), OFFER).unwrap();
    assert!(matches!(
        p.step(BridgeEvent::Begin),
        PrepareAction::FindExtPeer { sdp } if sdp == OFFER
    ));
    let found = BridgeEvent::PeerFound {
        addr: ctx().ext_peer,
    };
    assert!(matches!(p.step(found), PrepareAction::BindNgn { ip } if ip == LOOPBACK));
    assert!(matches!(
        p.step(BridgeEvent::Rewritten { sdp: vec![] }),
        PrepareAction::Ignore
    ));
    let bound = BridgeEvent::Bound {
        socket: SocketId(1),
        addr: ctx().ngn_addr,
    };
    assert!(matches!(
        p.step(bound),
        PrepareAction::BindExt {
            ip: IpAddr::V4(0x7f00_0002)
        }
    ));
    let bound = BridgeEvent::Bound {
        socket: SocketId(2),
        addr: ctx().ext_addr,
    };
    assert!(matches!(
        p.step(bound),
        PrepareAction::RewriteOffer { sdp, addr } if sdp == OFFER && addr == ctx().ngn_addr
    ));
    match p.step(BridgeEvent::Rewritten { sdp: b"w".to_vec() }) {
        PrepareAction::Ready { ctx: made, sdp } => {
            assert_eq!(made, ctx());
            assert_eq!(sdp, b"w");
        }
        other => panic!("expected the sockets, got {:?}", other),
    }
    assert!(matches!(p.step(BridgeEvent::Failed), PrepareAction::Ignore));

    let mut p = prepare_outbound_bridge(true, None, None, OFFER).unwrap();
    assert!(matches!(p.step(BridgeEvent::Failed), PrepareAction::GiveUp));
}

#[test]
fn bridges_are_completed_when_the_carrier_has_answered() {
    assert!(matches!(
        finalize_outbound_bridge(true, Some(ctx()), OFFER, b""),
        FinalizeBridge::EmptyAnswer
    ));
    assert!(matches!(
        finalize_outbound_bridge(false, Some(ctx()), OFFER, b""),
        FinalizeBridge::PassThrough
    ));
    assert!(matches!(
        finalize_outbound_bridge(true, None, OFFER, ANSWER),
        FinalizeBridge::PassThrough
    ));
    let mut b = completion();
    assert!(matches!(
        b.step(BridgeEvent::Begin),
        FinalizeAction::FindNgnPeer { sdp } if sdp == ANSWER
    ));
    let peer = addr(0x76b1_7d01, 20000);
    assert!(matches!(
        b.step(BridgeEvent::PeerFound { addr: peer }),
        FinalizeAction::RewriteOffer { sdp, addr } if sdp == OFFER && addr == ctx().ext_addr
    ));
    assert!(matches!(
        b.step(BridgeEvent::Rewritten { sdp: b"w".to_vec() }),
        FinalizeAction::SelectPlan { answer, offer } if answer == ANSWER && offer == OFFER
    ));
    let plan = MediaPlan::Transcode { opus_pt: 96 };
    match b.step(BridgeEvent::Planned { plan }) {
        FinalizeAction::Start {
            bridge:
                BridgeSpec::Transcode {
                    ngn,
                    ext,
                    opus_payload_type,
                },
        } => {
            assert_eq!((ngn.socket, ngn.peer), (SocketId(1), peer));
            assert_eq!((ext.socket, ext.peer), (SocketId(2), ctx().ext_peer));
            assert_eq!(opus_payload_type, 96);
        }
        other => panic!("expected a bridge, got {:?}", other),
    }
    match b.step(BridgeEvent::Started { call: CallId(9) }) {
        FinalizeAction::Done { sdp, call } => {
            assert_eq!(sdp, b"w");
            assert_eq!(call, CallId(9));
        }
        other => panic!("expected the end, got {:?}", other),
    }
    assert!(matches!(
        b.step(BridgeEvent::Started { call: CallId(9) }),
        FinalizeAction::Ignore
    ));
    assert!(matches!(
        completion().step(BridgeEvent::Failed),
        FinalizeAction::GiveUp
    ));
}

#[test]
fn same_codecs_are_relayed() {
    let mut b = completion();
    b.step(BridgeEvent::Begin);
    b.step(BridgeEvent::PeerFound { addr: addr(1, 1) });
    b.step(BridgeEvent::Rewritten { sdp: vec![] });
    let action = b.step(BridgeEvent::Planned {
        plan: MediaPlan::Relay,
    });
    assert!(matches!(
        action,
        FinalizeAction::Start {
            bridge: BridgeSpec::Relay { .. }
        }
    ));
    let ngn = NgnSide {
        socket: SocketId(1),
        addr: addr(1, 1),
        peer: addr(2, 2),
    };
    let ext = ExtSide {
        socket: SocketId(2),
        peer: addr(3, 3),
    };
    assert_eq!(
        bridge_to_extension(ngn, ext, MediaPlan::Relay),
        BridgeSpec::Relay { ngn, ext }
    );
    let leg = WebRtcLegArtifacts {
        media: MediaId(1),
        opus_payload_type: 96,
    };
    assert_eq!(
        bridge_to_browser(ngn, leg),
        BridgeSpec::WebRtcAudio {
            ngn,
            media: MediaId(1),
            opus_payload_type: 96,
            direct_pcmu_passthrough: true
        }
    );
}
