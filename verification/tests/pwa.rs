use sabiden::bridge::BridgeSpec;
use sabiden::browser::BrowserMessage;
use sabiden::counts::Count;
use sabiden::ids::{CallId, DialogId, IpAddr, MediaId, SocketAddr, SocketId, WsId};
use sabiden::ngn_inbound::{InviteResult, WebRtcOutboundActive, WebRtcOutboundEntry};
use sabiden::pwa::{
    close_pwa_outbound_for_ws, handle_pwa_outbound_offer, handle_pwa_outbound_offer_at, PwaAction,
    PwaCall, PwaEvent, PwaRefusal,
};
use sabiden::sip::{SipHeaders, SipResponse};
use sabiden::time::{Duration, Instant};
use sabiden::uas::{OutboundDirection, UacConfig, UasEventHandler};

fn uac() -> UacConfig {
    UacConfig {
        local_uri: "sip:0312345678@ntt-east.ne.jp".to_string(),
        server_host: "118.177.125.1".to_string(),
        server_port: 5060,
        local_addr: "118.177.72.242:5060".to_string(),
        local_ip: IpAddr::V4(0x76b1_48f2),
    }
}

fn at(secs: u64) -> Instant {
    Instant::after_start(Duration::from_secs(secs))
}

fn addr(port: u16) -> SocketAddr {
    SocketAddr {
        ip: IpAddr::V4(0x7f00_0001),
        port,
    }
}

fn refusal(status: u16, reason: &str) -> SipResponse {
    SipResponse {
        status_code: status,
        reason: reason.to_string(),
        headers: SipHeaders::new(),
        body: vec![],
    }
}

/// A call of the browser 3 to 117, with the INVITE out.
fn invited(uas: &mut UasEventHandler, calls: &mut WebRtcOutboundActive) -> PwaCall {
    let (mut call, _) = handle_pwa_outbound_offer_at(uas, "117", "v=0 browser", WsId(3), at(1)).unwrap();
    match call.step(uas, calls, PwaEvent::Begin, at(1)) {
        PwaAction::HandleOffer { sdp } => assert_eq!(sdp, "v=0 browser"),
        other => panic!("expected the offer, got {:?}", other),
    }
    let handled = PwaEvent::OfferHandled {
        answer: "v=0 answer".to_string(),
    };
    assert!(matches!(
        call.step(uas, calls, handled, at(1)),
        PwaAction::TakeMedia
    ));
    assert!(matches!(
        call.step(uas, calls, PwaEvent::MediaTaken { media: MediaId(5) }, at(1)),
        PwaAction::Bind {
            ip: IpAddr::V4(0x7f00_0001)
        }
    ));
    let bound = PwaEvent::Bound {
        socket: SocketId(6),
        addr: addr(40000),
    };
    match call.step(uas, calls, bound, at(1)) {
        PwaAction::Convert { answer } => assert_eq!(answer, "v=0 answer"),
        other => panic!("expected to convert, got {:?}", other),
    }
    let converted = PwaEvent::Converted {
        sdp: b"v=0 avp".to_vec(),
    };
    match call.step(uas, calls, converted, at(1)) {
        PwaAction::Restrict { sdp } => assert_eq!(sdp, b"v=0 avp"),
        other => panic!("expected to restrict, got {:?}", other),
    }
    let restricted = PwaEvent::Restricted {
        sdp: b"v=0 pcmu".to_vec(),
    };
    match call.step(uas, calls, restricted, at(1)) {
        PwaAction::Rewrite { sdp, addr: a } => {
            assert_eq!(sdp, b"v=0 pcmu");
            assert_eq!(a, addr(40000));
        }
        other => panic!("expected to rewrite, got {:?}", other),
    }
    let built = PwaEvent::Rewritten {
        sdp: b"v=0 offer".to_vec(),
    };
    match call.step(uas, calls, built, at(1)) {
        PwaAction::Invite {
            answer,
            target_uri,
            sdp,
        } => {
            assert_eq!(answer, "v=0 answer");
            assert_eq!(target_uri, "sip:117@118.177.125.1:5060");
            assert_eq!(sdp, b"v=0 offer");
        }
        other => panic!("expected an INVITE, got {:?}", other),
    }
    call
}

fn established() -> PwaEvent {
    PwaEvent::Established {
        dialog: DialogId(7),
        ngn_call_id: "ngn-cid".to_string(),
        sdp: b"v=0 carrier".to_vec(),
    }
}

fn failure(a: PwaAction) -> (String, Option<CallId>, Option<DialogId>, Option<InviteResult>, InviteResult) {
    match a {
        PwaAction::Fail {
            code,
            detail,
            terminate,
            bye,
            ngn,
            pwa,
        } => {
            assert_eq!(code, "outbound_failed");
            (detail, terminate, bye, ngn, pwa)
        }
        other => panic!("expected a failure, got {:?}", other),
    }
}

#[test]
fn pwa_outbound_handler_rejects_invalid_target_charset() {
    let mut uas = UasEventHandler::new(uac());
    for target in [
        "117\r\nINVITE".to_string(),
        "117@evil.com".to_string(),
        "".to_string(),
        "1".repeat(33),
    ] {
        assert!(matches!(
            handle_pwa_outbound_offer(&mut uas, &target, "v=0 browser", WsId(1)),
            Err(PwaRefusal::InvalidTarget)
        ));
    }
    assert!(handle_pwa_outbound_offer(&mut uas, &"1".repeat(32), "v=0 browser", WsId(1)).is_ok());
}

#[test]
fn browsers_share_the_limit_of_the_account() {
    let mut uas = UasEventHandler::new(uac());
    let (_, sample) = handle_pwa_outbound_offer_at(&mut uas, "117", "v=0 browser", WsId(1), at(10)).unwrap();
    assert_eq!(sample, None);
    match handle_pwa_outbound_offer_at(&mut uas, "118", "v=0 browser", WsId(2), at(11)) {
        Err(PwaRefusal::RateLimited {
            retry_after_secs,
            code,
            message,
        }) => {
            assert_eq!(code, "rate_limited");
            assert_eq!(retry_after_secs, 2);
            assert_eq!(
                message,
                "outbound INVITE rate-limited (TTC JJ-90.24 §5.7.1): retry after 2 sec"
            );
        }
        other => panic!("expected a refusal, got {:?}", other),
    }
    let (call, sample) = handle_pwa_outbound_offer_at(&mut uas, "118", "v=0 browser", WsId(2), at(13)).unwrap();
    assert_eq!(sample, Some(3000));
    assert_eq!(call.aor, "0312345678");
}

#[test]
fn pwa_outbound_returns_err_when_peer_handle_offer_fails() {
    let mut uas = UasEventHandler::new(uac());
    let mut calls = WebRtcOutboundActive::new();
    let (mut call, _) = handle_pwa_outbound_offer_at(&mut uas, "117", "v=0 browser", WsId(3), at(1)).unwrap();
    assert!(matches!(
        call.step(&mut uas, &mut calls, PwaEvent::Failed, at(1)),
        PwaAction::GiveUp
    ));
    assert!(matches!(
        call.step(&mut uas, &mut calls, established(), at(1)),
        PwaAction::Ignore
    ));
}

#[test]
fn issue147_no_insert_when_take_media_rx_is_none() {
    let mut uas = UasEventHandler::new(uac());
    let mut calls = WebRtcOutboundActive::new();
    let (mut call, _) = handle_pwa_outbound_offer_at(&mut uas, "117", "v=0 browser", WsId(3), at(1)).unwrap();
    call.step(&mut uas, &mut calls, PwaEvent::Begin, at(1));
    let handled = PwaEvent::OfferHandled {
        answer: "v=0".to_string(),
    };
    call.step(&mut uas, &mut calls, handled, at(1));
    assert!(matches!(
        call.step(&mut uas, &mut calls, PwaEvent::Failed, at(1)),
        PwaAction::GiveUp
    ));
    assert_eq!(calls.len(), 0);
}

#[test]
fn pwa_outbound_returns_err_when_ngn_returns_486() {
    let mut uas = UasEventHandler::new(uac());
    let mut calls = WebRtcOutboundActive::new();
    let mut call = invited(&mut uas, &mut calls);
    let event = PwaEvent::Refused {
        response: refusal(486, "Busy Here"),
    };
    let (detail, terminate, bye, ngn, pwa) =
        failure(call.step(&mut uas, &mut calls, event, at(2)));
    assert_eq!(detail, "NGN INVITE 失敗: 486 Busy Here");
    assert!(terminate.is_none() && bye.is_none());
    assert_eq!(ngn, Some(InviteResult::Busy));
    assert_eq!(pwa, InviteResult::Busy);
    assert_eq!(calls.len(), 0);
}

#[test]
fn pwa_outbound_ngn_503_pushes_outbound_failed_to_browser() {
    let mut uas = UasEventHandler::new(uac());
    let mut calls = WebRtcOutboundActive::new();
    let mut call = invited(&mut uas, &mut calls);
    let mut response = refusal(503, "Service Unavailable");
    response.headers.set("Retry-After", "60");
    let (detail, _, _, ngn, _) =
        failure(call.step(&mut uas, &mut calls, PwaEvent::Refused { response }, at(2)));
    assert!(detail.contains("503"));
    assert_eq!(
        detail,
        "NGN INVITE 失敗: 503 Service Unavailable (retry_after=60s)"
    );
    assert_eq!(ngn, Some(InviteResult::Error));
    match handle_pwa_outbound_offer_at(&mut uas, "117", "v=0 browser", WsId(3), at(12)) {
        Err(PwaRefusal::RateLimited {
            retry_after_secs, ..
        }) => assert_eq!(retry_after_secs, 50),
        other => panic!("expected a refusal, got {:?}", other),
    }
}

#[test]
fn invite_without_a_response_is_a_timeout() {
    let mut uas = UasEventHandler::new(uac());
    let mut calls = WebRtcOutboundActive::new();
    let mut call = invited(&mut uas, &mut calls);
    let event = PwaEvent::TransportFailed {
        error: "Timer B".to_string(),
    };
    let (detail, _, _, ngn, pwa) = failure(call.step(&mut uas, &mut calls, event, at(2)));
    assert_eq!(detail, "NGN INVITE 失敗: Timer B");
    assert_eq!(ngn, Some(InviteResult::Timeout));
    assert_eq!(pwa, InviteResult::Timeout);
}

#[test]
fn issue147_pwa_outbound_inserts_into_webrtc_outbound_active() {
    let mut uas = UasEventHandler::with_call_manager(uac(), None, None);
    let mut calls = WebRtcOutboundActive::new();
    let mut call = invited(&mut uas, &mut calls);
    let action = call.step(&mut uas, &mut calls, established(), at(2));
    assert_eq!(action.counts(), vec![Count::Ngn(InviteResult::Answered)]);
    match action {
        PwaAction::FindPeer { sdp, answer } => {
            assert_eq!(sdp, b"v=0 carrier");
            assert_eq!(answer, "v=0 answer");
        }
        other => panic!("expected to find the peer, got {:?}", other),
    }
    let found = PwaEvent::PeerFound {
        addr: addr(20000),
        opus_pt: None,
    };
    match call.step(&mut uas, &mut calls, found, at(2)) {
        PwaAction::Start {
            bridge:
                BridgeSpec::WebRtcAudio {
                    ngn,
                    media,
                    opus_payload_type,
                    direct_pcmu_passthrough,
                },
        } => {
            assert_eq!((ngn.socket, ngn.peer), (SocketId(6), addr(20000)));
            assert_eq!(media, MediaId(5));
            assert_eq!(opus_payload_type, 111);
            assert!(direct_pcmu_passthrough);
        }
        other => panic!("expected a bridge, got {:?}", other),
    }
    assert_eq!(calls.len(), 0);
    let attached = PwaEvent::Attached { call: CallId(8) };
    assert!(matches!(
        call.step(&mut uas, &mut calls, attached, at(2)),
        PwaAction::Done
    ));
    let entry = calls.get("ngn-cid").expect("the call");
    assert_eq!(
        (entry.ngn_dialog, entry.ws, entry.bridge_call_id),
        (DialogId(7), WsId(3), CallId(8))
    );
}

#[test]
fn rfc3261_15_1_1_failures_after_the_answer_send_a_bye() {
    let mut uas = UasEventHandler::with_call_manager(uac(), None, None);
    let mut calls = WebRtcOutboundActive::new();
    let mut call = invited(&mut uas, &mut calls);
    call.step(&mut uas, &mut calls, established(), at(2));
    let event = PwaEvent::NoPeer {
        error: "no m=".to_string(),
    };
    let (detail, terminate, bye, ngn, pwa) =
        failure(call.step(&mut uas, &mut calls, event, at(2)));
    assert_eq!(detail, "NGN 200 OK SDP 解析失敗: no m=");
    assert_eq!((terminate, bye), (None, Some(DialogId(7))));
    assert_eq!((ngn, pwa), (None, InviteResult::Error));

    let mut uas = UasEventHandler::with_call_manager(uac(), None, None);
    let mut call = invited(&mut uas, &mut calls);
    call.step(&mut uas, &mut calls, established(), at(2));
    let found = PwaEvent::PeerFound {
        addr: addr(20000),
        opus_pt: Some(96),
    };
    assert!(matches!(
        call.step(&mut uas, &mut calls, found, at(2)),
        PwaAction::Start { .. }
    ));
    let event = PwaEvent::NotAttached {
        call: CallId(8),
        error: "full".to_string(),
    };
    let (detail, terminate, bye, _, _) = failure(call.step(&mut uas, &mut calls, event, at(2)));
    assert_eq!(detail, "CallManager attach 失敗: full");
    assert_eq!((terminate, bye), (Some(CallId(8)), Some(DialogId(7))));

    let mut uas = UasEventHandler::new(uac());
    let mut call = invited(&mut uas, &mut calls);
    call.step(&mut uas, &mut calls, established(), at(2));
    let found = PwaEvent::PeerFound {
        addr: addr(20000),
        opus_pt: None,
    };
    let (detail, _, bye, _, _) = failure(call.step(&mut uas, &mut calls, found, at(2)));
    assert_eq!(detail, "CallManager 未注入");
    assert_eq!(bye, Some(DialogId(7)));
    assert_eq!(calls.len(), 0);
}

fn entry(ws: u64) -> WebRtcOutboundEntry {
    WebRtcOutboundEntry {
        ngn_dialog: DialogId(ws),
        ws: WsId(ws),
        bridge_call_id: CallId(ws),
    }
}

#[test]
fn issue147_double_close_is_idempotent() {
    let mut calls = WebRtcOutboundActive::new();
    calls.insert("a".to_string(), entry(1));
    calls.insert("b".to_string(), entry(2));
    calls.insert("c".to_string(), entry(1));
    let mut ended: Vec<String> = close_pwa_outbound_for_ws(&mut calls, WsId(1))
        .into_iter()
        .map(|(id, e)| {
            assert_eq!(e.ws, WsId(1));
            id
        })
        .collect();
    ended.sort();
    assert_eq!(ended, vec!["a".to_string(), "c".to_string()]);
    assert_eq!(close_pwa_outbound_for_ws(&mut calls, WsId(1)).len(), 0);
    assert!(calls.contains_key("b"));
}

#[test]
fn issue147_close_pwa_outbound_for_ws_no_match_returns_zero() {
    let mut calls = WebRtcOutboundActive::new();
    assert_eq!(close_pwa_outbound_for_ws(&mut calls, WsId(1)).len(), 0);
    calls.insert("b".to_string(), entry(2));
    assert_eq!(close_pwa_outbound_for_ws(&mut calls, WsId(1)).len(), 0);
    assert_eq!(calls.len(), 1);
}

#[test]
fn calls_of_browsers_are_counted() {
    let mut uas = UasEventHandler::new(uac());
    let mut calls = WebRtcOutboundActive::new();
    let mut call = invited(&mut uas, &mut calls);
    let refused =
        handle_pwa_outbound_offer_at(&mut uas, "117", "v=0", WsId(3), at(2)).unwrap_err();
    assert_eq!(
        refused.counts(),
        vec![
            Count::Blocked(OutboundDirection::PwaOutbound),
            Count::PwaOutbound(InviteResult::Error)
        ]
    );
    assert_eq!(
        refused.message(),
        Some(BrowserMessage::Error {
            code: "rate_limited",
            message: "outbound INVITE rate-limited (TTC JJ-90.24 §5.7.1): retry after 2 sec"
                .to_string()
        })
    );
    assert_eq!(PwaRefusal::InvalidTarget.counts(), vec![]);
    assert_eq!(PwaRefusal::InvalidTarget.message(), None);
    assert_eq!(
        PwaAction::Done.counts(),
        vec![Count::PwaOutbound(InviteResult::Answered), Count::CallBegun]
    );
    let event = PwaEvent::Refused {
        response: refusal(486, "Busy Here"),
    };
    let action = call.step(&mut uas, &mut calls, event, at(3));
    assert_eq!(
        action.message(),
        Some(BrowserMessage::Error {
            code: "outbound_failed",
            message: "NGN INVITE 失敗: 486 Busy Here".to_string()
        })
    );
    assert_eq!(
        action.counts(),
        vec![
            Count::Ngn(InviteResult::Busy),
            Count::PwaOutbound(InviteResult::Busy)
        ]
    );
}
