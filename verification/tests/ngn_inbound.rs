use sabiden::bridge::{
    BridgeAction, BridgeError, BridgeEvent, BridgeSpec, InboundBridge, MediaPlan,
};
use sabiden::browser::BrowserMessage;
use sabiden::counts::Count;
use sabiden::fork::{
    Binding, ExtTransport, ForkEvent, ForkResult, ForkStep, LegStart, WebRtcLegArtifacts,
};
use sabiden::ids::{
    CallId, DialogId, IpAddr, MediaId, NotifyId, PendingId, SocketAddr, SocketId, TxId, WsId,
};
use sabiden::ngn_inbound::{
    BindingsNext, BridgeNext, ByeNext, CallEnd, ForkNext, InboundAction, InboundError, InviteNext,
    InviteResult, NgnInboundConfig, NgnInboundHandler, WebRtcOutboundActive, WebRtcOutboundEntry,
};
use sabiden::response::has_to_tag;
use sabiden::sip::{SipHeaders, SipMethod, SipRequest, SipResponse};
use sabiden::time::Duration;

const OFFER: &[u8] = b"v=0\r\no=- 1 1 IN IP4 127.0.0.1\r\ns=-\r\nc=IN IP4 127.0.0.1\r\nt=0 0\r\nm=audio 20000 RTP/AVP 0\r\n";
const ANSWER: &[u8] = b"v=0\r\no=- 1 1 IN IP4 127.0.0.1\r\ns=-\r\nc=IN IP4 127.0.0.1\r\nt=0 0\r\nm=audio 30000 RTP/AVP 0\r\n";
const PLACEHOLDER: &[u8] =
    b"v=0\r\nc=IN IP4 0.0.0.0\r\nt=0 0\r\nm=audio 9 RTP/AVP 0\r\na=rtpmap:0 PCMU/8000\r\n";

fn request(method: SipMethod, call_id: &str) -> SipRequest {
    let mut r = SipRequest::new(method, "sip:0312345678@sabiden");
    r.headers
        .set("Via", "SIP/2.0/UDP 127.0.0.1:5060;branch=z9hG4bKngn1");
    r.headers
        .set("From", "<sip:caller@ntt-east.ne.jp>;tag=ngn");
    r.headers.set("To", "<sip:0312345678@sabiden>");
    r.headers.set("Call-ID", call_id);
    r.headers.set("CSeq", "1 INVITE");
    r
}

fn invite(call_id: &str) -> SipRequest {
    let mut r = request(SipMethod::Invite, call_id);
    r.headers.set("Content-Type", "application/sdp");
    r.body = OFFER.to_vec();
    r
}

fn handler() -> NgnInboundHandler {
    NgnInboundHandler::new(NgnInboundConfig::default())
}

fn answer(body: &[u8]) -> SipResponse {
    SipResponse {
        status_code: 200,
        reason: "OK".to_string(),
        headers: SipHeaders::new(),
        body: body.to_vec(),
    }
}

fn assert_method(method: SipMethod, status: u16, reason: &str) {
    let mut h = handler();
    match h.handle_inbound(&request(method, "ngn-cid")) {
        InboundAction::Reply { response } => {
            assert_eq!(response.status_code, status);
            assert_eq!(response.reason, reason);
            let allow = response.headers.get("allow").expect("Allow");
            assert!(allow.contains("INVITE") && allow.contains("BYE"));
        }
        other => panic!("expected a reply, got {:?}", other),
    }
}

#[test]
fn rfc3265_3_2_ngn_notify_returns_481_with_allow_header() {
    assert_method(SipMethod::Notify, 481, "Subscription Does Not Exist");
}

#[test]
fn rfc3265_7_2_4_ngn_subscribe_returns_489_with_allow_header() {
    assert_method(SipMethod::Subscribe, 489, "Bad Event");
}

#[test]
fn rfc3262_4_ngn_prack_returns_481_with_allow_header() {
    assert_method(SipMethod::Prack, 481, "Call/Transaction Does Not Exist");
}

#[test]
fn rfc3903_11_1_ngn_publish_returns_489_with_allow_header() {
    assert_method(SipMethod::Publish, 489, "Bad Event");
}

#[test]
fn rfc3311_5_2_ngn_update_returns_481_with_allow_header() {
    assert_method(SipMethod::Update, 481, "Call/Transaction Does Not Exist");
}

#[test]
fn rfc6086_4_ngn_info_returns_481_with_allow_header() {
    assert_method(SipMethod::Info, 481, "Call/Transaction Does Not Exist");
}

#[test]
fn rfc3428_7_ngn_message_returns_200_ok() {
    assert_method(SipMethod::Message, 200, "OK");
}

#[test]
fn rfc3261_8_2_1_ngn_refer_returns_405_with_allow_header() {
    assert_method(SipMethod::Refer, 405, "Method Not Allowed");
}

#[test]
fn rfc3261_8_2_1_ngn_unknown_method_returns_405_with_allow_header() {
    assert_method(SipMethod::Other("FOO".to_string()), 405, "Method Not Allowed");
    assert_method(SipMethod::Register, 405, "Method Not Allowed");
}

#[test]
fn rfc3261_11_ngn_options_returns_200_with_allow_header() {
    assert_method(SipMethod::Options, 200, "OK");
}

#[test]
fn default_parameters() {
    let c = NgnInboundConfig::default();
    assert_eq!(c.fork_timeout, Duration::from_secs(20));
    assert_eq!(c.realm, "sabiden");
    assert!(c.bridge_ngn_bind_ip.is_none() && c.bridge_ext_bind_ip.is_none());
    assert!(c.ngn_local_addr.is_none());
    assert_eq!(c.webrtc_active_sweep_interval, Duration::from_secs(30));
}

fn ring(h: &mut NgnInboundHandler, req: &SipRequest, id: &str, binding: Binding) -> (sabiden::fork::Fork, Vec<LegStart>) {
    assert!(matches!(h.handle_inbound(req), InboundAction::Invite));
    let (trying, next) = h.handle_invite(req, TxId(1), "7").unwrap();
    assert_eq!((trying.status_code, trying.reason.as_str()), (100, "Trying"));
    assert!(matches!(next, InviteNext::FindBindings));
    assert!(h.is_pending(id));
    match h.bindings_found(req, id, &vec![("iphone".to_string(), binding)], NotifyId(4), "7") {
        BindingsNext::Ring { fork, legs } => (fork, legs),
        other => panic!("expected ringing, got {:?}", other),
    }
}

fn iphone() -> Binding {
    Binding {
        contact_uri: "sip:iphone@127.0.0.1:6001".to_string(),
        transport: ExtTransport::Sip,
    }
}

#[test]
fn ngn_invite_forwards_200_back() {
    let mut h = handler();
    let req = invite("ngn-invite-cid");
    let (_fork, legs) = ring(&mut h, &req, "ngn-invite-cid", iphone());
    assert!(matches!(&legs[0], LegStart::Sip { target_uri, .. }
        if target_uri == "sip:iphone@127.0.0.1:6001"));
    let result = ForkResult::Answered {
        winner_uri: "sip:iphone@127.0.0.1:6001".to_string(),
        response: answer(ANSWER),
        webrtc_handle: None,
        webrtc_ws: None,
    };
    let response = match h.fork_ended(&req, "ngn-invite-cid", result, "7") {
        ForkNext::Bridge { response, .. } => response,
        other => panic!("expected an answer, got {:?}", other),
    };
    assert!(matches!(
        h.start_bridge_for_inbound(None, &req.body, &response.body, None),
        Err(BridgeError::NoCallManager)
    ));
    let next = h
        .bridge_settled(&req, &response.body, None, None, Some("127.0.0.1:5070"), "7")
        .unwrap();
    match next {
        BridgeNext::Answer { response } => {
            assert_eq!(response.status_code, 200);
            assert_eq!(response.body, ANSWER);
            assert_eq!(
                response.headers.get("Content-Type"),
                Some("application/sdp")
            );
            assert_eq!(
                response.headers.get("Contact"),
                Some("<sip:sabiden@127.0.0.1:5070>")
            );
            assert_eq!(
                response.headers.get("To"),
                Some("<sip:0312345678@sabiden>;tag=7")
            );
        }
        other => panic!("expected an answer, got {:?}", other),
    }
    assert_eq!(
        h.answer_sent("ngn-invite-cid", None),
        vec![
            Count::Ngn(InviteResult::Answered),
            Count::Extension(InviteResult::Answered),
            Count::CallBegun
        ]
    );
    assert!(h.is_active("ngn-invite-cid"));
    let ack = request(SipMethod::Ack, "ngn-invite-cid");
    assert!(matches!(h.handle_inbound(&ack), InboundAction::Acknowledged));
    assert!(!h.is_pending("ngn-invite-cid"));
}

#[test]
fn configured_address_goes_before_that_of_the_socket() {
    let h = NgnInboundHandler::new(NgnInboundConfig {
        ngn_local_addr: Some("118.177.72.242:5060".to_string()),
        ..NgnInboundConfig::default()
    });
    let next = h
        .bridge_settled(&invite("c"), b"", None, None, Some("0.0.0.0:5060"), "7")
        .unwrap();
    match next {
        BridgeNext::Answer { response } => {
            assert_eq!(
                response.headers.get("Contact"),
                Some("<sip:sabiden@118.177.72.242:5060>")
            );
            assert_eq!(response.headers.get("Content-Type"), None);
            assert!(response.body.is_empty());
        }
        other => panic!("expected an answer, got {:?}", other),
    }
    let err = handler()
        .bridge_settled(&invite("c"), ANSWER, None, None, None, "7")
        .unwrap_err();
    assert_eq!(err, InboundError::NoLocalAddr);
}

#[test]
fn ngn_invite_with_no_extensions_returns_480() {
    let mut h = handler();
    let req = request(SipMethod::Invite, "ngn-noext-cid");
    h.handle_invite(&req, TxId(1), "7").unwrap();
    match h.bindings_found(&req, "ngn-noext-cid", &Vec::new(), NotifyId(1), "7") {
        BindingsNext::Refuse(refusal) => {
            assert_eq!(refusal.response.status_code, 480);
            assert_eq!(refusal.response.reason, "Temporarily Unavailable");
            assert!(has_to_tag(refusal.response.headers.get("to").unwrap()));
            assert_eq!(refusal.extension, None);
            assert_eq!(refusal.ngn, Some(InviteResult::Error));
            assert_eq!(refusal.counts(), vec![Count::Ngn(InviteResult::Error)]);
        }
        other => panic!("expected a refusal, got {:?}", other),
    }
    h.refusal_sent("ngn-noext-cid", false);
    assert!(!h.is_pending("ngn-noext-cid"));
}

#[test]
fn invite_without_a_call_id_is_an_error() {
    let mut h = handler();
    let req = SipRequest::new(SipMethod::Invite, "sip:x");
    assert_eq!(
        h.handle_invite(&req, TxId(1), "7").unwrap_err(),
        InboundError::NoCallId
    );
}

#[test]
fn invite_in_an_unknown_dialog_is_refused_with_481() {
    let mut req = invite("dialog-cid");
    req.headers.set("To", "<sip:0312345678@sabiden>;Tag=old");
    let mut h = handler();
    match h.handle_invite(&req, TxId(1), "7").unwrap().1 {
        InviteNext::Refuse(refusal) => {
            assert_eq!(refusal.response.status_code, 481);
            assert_eq!(
                refusal.response.headers.get("To"),
                Some("<sip:0312345678@sabiden>;Tag=old")
            );
            assert!(refusal.extension.is_none() && refusal.ngn.is_none());
        }
        other => panic!("expected a refusal, got {:?}", other),
    }

    let mut h = handler();
    h.set_outbound_forwarder();
    assert!(matches!(
        h.handle_invite(&req, TxId(1), "7").unwrap().1,
        InviteNext::AskForwarder
    ));
    assert!(h.reinvite_forwarded(&req, true, "7").is_none());
    let refusal = h.reinvite_forwarded(&req, false, "7").unwrap();
    assert_eq!(refusal.response.status_code, 481);
}

#[test]
fn cancel_stops_the_fork_and_the_invite_gets_487() {
    let mut h = handler();
    let req = invite("cancel-cid");
    let _ = ring(&mut h, &req, "cancel-cid", iphone());
    let cancel = request(SipMethod::Cancel, "cancel-cid");
    match h.handle_inbound(&cancel) {
        InboundAction::Cancel { response, stop } => {
            assert_eq!(response.status_code, 200);
            assert_eq!(stop, Some(NotifyId(4)));
        }
        other => panic!("expected a stop, got {:?}", other),
    }
    let refusal = h.cancelled(&req, "7");
    assert_eq!(refusal.response.status_code, 487);
    assert_eq!(refusal.response.reason, "Request Terminated");
    assert_eq!(refusal.extension, Some(InviteResult::Error));
    assert_eq!(refusal.ngn, Some(InviteResult::Error));
    h.refusal_sent("cancel-cid", true);
    match h.handle_inbound(&cancel) {
        InboundAction::Cancel { stop, .. } => assert_eq!(stop, None),
        other => panic!("expected nothing to stop, got {:?}", other),
    }
}

#[test]
fn failed_forks_are_reported_to_the_carrier() {
    let mut h = handler();
    let req = invite("c");
    let mut refused = |result: ForkResult| match h.fork_ended(&req, "c", result, "7") {
        ForkNext::Refuse(r) => (r.response.status_code, r.response.reason, r.extension, r.ngn),
        other => panic!("expected a refusal, got {:?}", other),
    };
    assert_eq!(
        refused(ForkResult::AllFailed { last_status: None }),
        (
            486,
            "Busy Here".to_string(),
            Some(InviteResult::Busy),
            Some(InviteResult::Busy)
        )
    );
    assert_eq!(
        refused(ForkResult::AllFailed {
            last_status: Some(603)
        }),
        (
            603,
            "Decline".to_string(),
            Some(InviteResult::Error),
            Some(InviteResult::Error)
        )
    );
    assert_eq!(
        refused(ForkResult::Timeout),
        (
            408,
            "Request Timeout".to_string(),
            Some(InviteResult::Timeout),
            Some(InviteResult::Timeout)
        )
    );
}

#[test]
fn rfc3261_21_5_2_transparent_mode_webrtc_leg_returns_502_and_cancels_browser() {
    let h = handler();
    let req = invite("ngn-webrtc-bye-cid");
    let next = h
        .bridge_settled(
            &req,
            PLACEHOLDER,
            None,
            Some(WsId(3)),
            Some("127.0.0.1:5060"),
            "7",
        )
        .unwrap();
    assert_eq!(
        next.message("ngn-webrtc-bye-cid"),
        Some((
            WsId(3),
            BrowserMessage::Cancel {
                call_id: "ngn-webrtc-bye-cid".to_string()
            }
        ))
    );
    match next {
        BridgeNext::Abandon { cancel, refusal } => {
            assert_eq!(cancel, Some(WsId(3)));
            assert_eq!(refusal.response.status_code, 502);
            assert_eq!(refusal.response.reason, "Bad Gateway");
            assert_eq!(refusal.extension, Some(InviteResult::Error));
            assert_eq!(refusal.ngn, Some(InviteResult::Error));
        }
        other => panic!("expected 502, got {:?}", other),
    }
}

#[test]
fn rfc3261_21_5_2_bridged_mode_bridge_failure_returns_502_to_ngn() {
    let mut h = NgnInboundHandler::with_call_manager(NgnInboundConfig::default());
    let req = invite("ngn-bridged-fail-cid");
    let broken = b"v=0\r\no=- 1 1 IN IP4 192.168.1.10\r\ns=-\r\nt=0 0\r\n";
    let _ = ring(&mut h, &req, "ngn-bridged-fail-cid", iphone());
    let mut bridge = h
        .start_bridge_for_inbound(None, &req.body, broken, None)
        .unwrap();
    assert!(matches!(
        bridge.step(BridgeEvent::Begin),
        BridgeAction::FindNgnPeer { sdp } if sdp == OFFER
    ));
    assert!(matches!(
        bridge.step(BridgeEvent::PeerFound { addr: peer(1) }),
        BridgeAction::BindNgn {
            ip: IpAddr::V4(0x7f00_0001)
        }
    ));
    let bound = BridgeEvent::Bound {
        socket: SocketId(1),
        addr: peer(2),
    };
    assert!(matches!(bridge.step(bound), BridgeAction::FindExtPeer { sdp } if sdp == broken));
    assert!(matches!(
        bridge.step(BridgeEvent::Failed),
        BridgeAction::GiveUp {
            error: BridgeError::StepFailed
        }
    ));
    let next = h
        .bridge_settled(&req, broken, None, None, Some("127.0.0.1:5060"), "7")
        .unwrap();
    match next {
        BridgeNext::Abandon { refusal, .. } => assert_eq!(refusal.response.status_code, 502),
        other => panic!("expected 502, got {:?}", other),
    }
    assert!(!h.is_active("ngn-bridged-fail-cid"));
}

fn peer(port: u16) -> SocketAddr {
    SocketAddr {
        ip: IpAddr::V4(0x7f00_0001),
        port,
    }
}

fn advance(b: &mut InboundBridge, event: BridgeEvent) -> BridgeAction {
    b.step(event)
}

#[test]
fn ngn_inbound_with_call_manager_starts_rtp_bridge_and_rewrites_sdp() {
    let mut h = NgnInboundHandler::with_call_manager(NgnInboundConfig {
        bridge_ext_bind_ip: Some(IpAddr::V4(9)),
        ..NgnInboundConfig::default()
    });
    let req = invite("bridged-cid");
    let mut b = h
        .start_bridge_for_inbound(Some(IpAddr::V4(8)), &req.body, ANSWER, None)
        .unwrap();
    assert!(matches!(
        advance(&mut b, BridgeEvent::Begin),
        BridgeAction::FindNgnPeer { sdp } if sdp == OFFER
    ));
    assert!(matches!(
        advance(&mut b, BridgeEvent::PeerFound { addr: peer(20000) }),
        BridgeAction::BindNgn { ip: IpAddr::V4(8) }
    ));
    let a = advance(
        &mut b,
        BridgeEvent::Bound {
            socket: SocketId(1),
            addr: peer(40000),
        },
    );
    assert!(matches!(a, BridgeAction::FindExtPeer { sdp } if sdp == ANSWER));
    assert!(matches!(
        advance(&mut b, BridgeEvent::PeerFound { addr: peer(30000) }),
        BridgeAction::BindExt { ip: IpAddr::V4(9) }
    ));
    let a = advance(
        &mut b,
        BridgeEvent::Bound {
            socket: SocketId(2),
            addr: peer(40002),
        },
    );
    assert!(matches!(a, BridgeAction::RestrictAnswer { offer, answer }
        if offer == OFFER && answer == ANSWER));
    match advance(&mut b, BridgeEvent::Restricted { sdp: b"r".to_vec() }) {
        BridgeAction::Rewrite { sdp, addr } => {
            assert_eq!(sdp, b"r");
            assert_eq!(addr, peer(40000));
        }
        other => panic!("expected a rewrite, got {:?}", other),
    }
    let a = advance(&mut b, BridgeEvent::Rewritten { sdp: b"w".to_vec() });
    assert!(matches!(a, BridgeAction::SelectPlan { offer, answer }
        if offer == OFFER && answer == ANSWER));
    match advance(
        &mut b,
        BridgeEvent::Planned {
            plan: MediaPlan::Transcode { opus_pt: 96 },
        },
    ) {
        BridgeAction::Start {
            bridge:
                BridgeSpec::Transcode {
                    ngn,
                    ext,
                    opus_payload_type,
                },
        } => {
            assert_eq!((ngn.socket, ngn.peer), (SocketId(1), peer(20000)));
            assert_eq!((ext.socket, ext.peer), (SocketId(2), peer(30000)));
            assert_eq!(opus_payload_type, 96);
        }
        other => panic!("expected a bridge, got {:?}", other),
    }
    match advance(&mut b, BridgeEvent::Started { call: CallId(6) }) {
        BridgeAction::Done { sdp, call } => {
            assert_eq!(sdp, b"w");
            assert_eq!(call, CallId(6));
        }
        other => panic!("expected the end, got {:?}", other),
    }
    assert!(matches!(
        advance(&mut b, BridgeEvent::Failed),
        BridgeAction::Ignore
    ));
    h.bridge_started("bridged-cid", CallId(6));
    h.answer_sent("bridged-cid", None);
    let mut outbound = WebRtcOutboundActive::new();
    let bye = request(SipMethod::Bye, "bridged-cid");
    assert_eq!(
        h.handle_bye(&mut outbound, &bye),
        ByeNext::End(CallEnd {
            was_active: true,
            terminate: Some(CallId(6)),
            ws: None
        })
    );
}

#[test]
fn bridge_to_a_browser_has_one_socket() {
    let h = NgnInboundHandler::with_call_manager(NgnInboundConfig::default());
    let leg = WebRtcLegArtifacts {
        media: MediaId(3),
        opus_payload_type: 111,
    };
    let mut b = h
        .start_bridge_for_inbound(Some(IpAddr::V6(0)), OFFER, PLACEHOLDER, Some(leg))
        .unwrap();
    advance(&mut b, BridgeEvent::Begin);
    assert!(matches!(
        advance(&mut b, BridgeEvent::PeerFound { addr: peer(20000) }),
        BridgeAction::BindNgn {
            ip: IpAddr::V4(0x7f00_0001)
        }
    ));
    let a = advance(
        &mut b,
        BridgeEvent::Bound {
            socket: SocketId(1),
            addr: peer(40000),
        },
    );
    assert!(matches!(a, BridgeAction::RestrictAnswer { offer, answer }
        if offer == OFFER && answer == PLACEHOLDER));
    advance(&mut b, BridgeEvent::Restricted { sdp: b"r".to_vec() });
    match advance(&mut b, BridgeEvent::Rewritten { sdp: b"w".to_vec() }) {
        BridgeAction::Start {
            bridge:
                BridgeSpec::WebRtcAudio {
                    media,
                    opus_payload_type,
                    direct_pcmu_passthrough,
                    ..
                },
        } => {
            assert_eq!(media, MediaId(3));
            assert_eq!(opus_payload_type, 111);
            assert!(direct_pcmu_passthrough);
        }
        other => panic!("expected a bridge, got {:?}", other),
    }
    assert!(matches!(
        h.start_bridge_for_inbound(None, b"", ANSWER, None),
        Err(BridgeError::EmptySdp)
    ));
}

#[test]
fn bridge_sockets_are_bound_where_they_should_be() {
    let h = handler();
    assert_eq!(h.bridge_ngn_ip(None), IpAddr::V4(0x7f00_0001));
    assert_eq!(h.bridge_ngn_ip(Some(IpAddr::V4(0))), IpAddr::V4(0x7f00_0001));
    assert_eq!(h.bridge_ngn_ip(Some(IpAddr::V6(5))), IpAddr::V6(5));
    assert_eq!(h.bridge_ext_ip(Some(IpAddr::V6(5))), IpAddr::V6(5));
    let h = NgnInboundHandler::new(NgnInboundConfig {
        bridge_ngn_bind_ip: Some(IpAddr::V4(1)),
        ..NgnInboundConfig::default()
    });
    assert_eq!(h.bridge_ngn_ip(Some(IpAddr::V6(5))), IpAddr::V4(1));
    assert_eq!(h.bridge_ext_ip(None), IpAddr::V4(1));
}

#[test]
fn rfc3261_15_1_2_handle_bye_pushes_servermsg_bye_to_webrtc_ws() {
    let mut h = handler();
    let mut outbound = WebRtcOutboundActive::new();
    h.answer_sent("rfc3261-15-1-2-cid", Some(WsId(9)));
    let bye = request(SipMethod::Bye, "rfc3261-15-1-2-cid");
    match h.handle_inbound(&bye) {
        InboundAction::Bye { response } => assert_eq!(response.status_code, 200),
        other => panic!("expected a BYE, got {:?}", other),
    }
    assert_eq!(
        h.handle_bye(&mut outbound, &bye),
        ByeNext::End(CallEnd {
            was_active: true,
            terminate: None,
            ws: Some(WsId(9))
        })
    );
    assert!(h.webrtc_peer("rfc3261-15-1-2-cid").is_none());
    assert_eq!(
        h.handle_bye(&mut outbound, &bye),
        ByeNext::End(CallEnd {
            was_active: false,
            terminate: None,
            ws: None
        })
    );
    let nameless = SipRequest::new(SipMethod::Bye, "sip:x");
    assert_eq!(h.handle_bye(&mut outbound, &nameless), ByeNext::Nothing);
}

#[test]
fn bye_is_offered_to_the_forwarder_first() {
    let mut h = handler();
    h.set_outbound_forwarder();
    let mut outbound = WebRtcOutboundActive::new();
    h.answer_sent("c", None);
    let bye = request(SipMethod::Bye, "c");
    assert_eq!(h.handle_bye(&mut outbound, &bye), ByeNext::AskForwarder);
    assert_eq!(h.bye_forwarded("c", true), None);
    assert!(h.is_active("c"));
    assert_eq!(
        h.bye_forwarded("c", false),
        Some(CallEnd {
            was_active: true,
            terminate: None,
            ws: None
        })
    );
    assert!(!h.is_active("c"));
}

#[test]
fn bye_ends_a_call_of_a_browser() {
    let mut h = NgnInboundHandler::with_call_manager(NgnInboundConfig::default());
    h.set_outbound_forwarder();
    let mut outbound = WebRtcOutboundActive::new();
    outbound.insert(
        "n".to_string(),
        WebRtcOutboundEntry {
            ngn_dialog: DialogId(2),
            ws: WsId(3),
            bridge_call_id: CallId(4),
        },
    );
    let bye = request(SipMethod::Bye, "n");
    assert_eq!(
        h.handle_bye(&mut outbound, &bye),
        ByeNext::EndBrowserCall {
            terminate: Some(CallId(4)),
            ws: WsId(3),
            dialog: DialogId(2)
        }
    );
    assert_eq!(outbound.len(), 0);
    assert_eq!(h.handle_bye(&mut outbound, &bye), ByeNext::AskForwarder);
}

#[test]
fn issue139_sweep_webrtc_active_removes_closed_ws_only() {
    let mut h = handler();
    h.answer_sent("issue139-alive", Some(WsId(1)));
    h.answer_sent("issue139-dead", Some(WsId(2)));
    assert_eq!(h.sweep_webrtc_active(&vec![WsId(2)]), 1);
    assert!(h.webrtc_peer("issue139-alive").is_some());
    assert!(h.webrtc_peer("issue139-dead").is_none());
}

#[test]
fn issue139_sweep_webrtc_active_idempotent_edge_cases() {
    let mut h = handler();
    assert_eq!(h.sweep_webrtc_active(&vec![WsId(1)]), 0);
    h.answer_sent("alive-1", Some(WsId(1)));
    h.answer_sent("alive-2", Some(WsId(2)));
    assert_eq!(h.sweep_webrtc_active(&vec![]), 0);
    assert!(h.webrtc_peer("alive-1").is_some() && h.webrtc_peer("alive-2").is_some());

    let mut h = handler();
    for i in 0..3 {
        h.answer_sent(&format!("dead-{}", i), Some(WsId(i)));
    }
    let dead = vec![WsId(0), WsId(1), WsId(2)];
    assert_eq!(h.sweep_webrtc_active(&dead), 3);
    assert_eq!(h.sweep_webrtc_active(&dead), 0);
}

#[test]
fn issue139_sweep_and_bye_remove_race_is_safe() {
    let mut h = handler();
    let mut outbound = WebRtcOutboundActive::new();
    h.answer_sent("issue139-race", Some(WsId(1)));
    assert_eq!(h.sweep_webrtc_active(&vec![WsId(1)]), 1);
    let bye = request(SipMethod::Bye, "issue139-race");
    assert_eq!(
        h.handle_bye(&mut outbound, &bye),
        ByeNext::End(CallEnd {
            was_active: true,
            terminate: None,
            ws: None
        })
    );
}

#[test]
fn browser_binding_becomes_a_browser_leg() {
    let mut h = handler();
    let req = invite("w");
    let binding = Binding {
        contact_uri: "sip:alice@webrtc.peer".to_string(),
        transport: ExtTransport::WebRtc {
            ws: WsId(1),
            pending: PendingId(2),
        },
    };
    let (mut fork, legs) = ring(&mut h, &req, "w", binding);
    assert!(matches!(&legs[0], LegStart::WebRtc(leg)
        if leg.call_id == "w" && leg.ws == WsId(1) && leg.pending == PendingId(2)));
    assert!(matches!(
        fork.on_event(ForkEvent::TimedOut),
        ForkStep::Done {
            result: ForkResult::Timeout,
            ..
        }
    ));
}

#[test]
fn ends_of_calls_are_counted_once() {
    let mut h = handler();
    let mut outbound = WebRtcOutboundActive::new();
    h.answer_sent("c", None);
    let bye = request(SipMethod::Bye, "c");
    assert_eq!(
        h.handle_bye(&mut outbound, &bye).counts(),
        vec![Count::CallEnded]
    );
    assert_eq!(h.handle_bye(&mut outbound, &bye).counts(), vec![]);
    let browser = ByeNext::EndBrowserCall {
        terminate: None,
        ws: WsId(1),
        dialog: DialogId(1),
    };
    assert_eq!(browser.counts(), vec![Count::CallEnded]);
    assert_eq!(browser.message(), Some((WsId(1), BrowserMessage::Bye)));
    h.answer_sent("d", Some(WsId(2)));
    let next = h.handle_bye(&mut outbound, &request(SipMethod::Bye, "d"));
    assert_eq!(next.message(), Some((WsId(2), BrowserMessage::Bye)));
    assert_eq!(ByeNext::Nothing.message(), None);
    assert_eq!(ByeNext::AskForwarder.counts(), vec![]);
    let refusal = h.cancelled(&invite("c"), "7");
    assert_eq!(
        refusal.counts(),
        vec![
            Count::Extension(InviteResult::Error),
            Count::Ngn(InviteResult::Error)
        ]
    );
}
