use sabiden::counts::{count_answer, count_end, Count};
use sabiden::dtmf::{handle_ext_info, handle_ext_info_at, info_body_of, ssrc_of, InfoBody, InfoKey};
use sabiden::ids::{CallId, DialogId, IpAddr, PlanId, ResponderId, SocketAddr};
use sabiden::ngn_inbound::InviteResult;
use sabiden::outbound_bridge::FinalizeBridge;
use sabiden::rate_limiter::{OutboundRateLimiter, RateLimiterConfig};
use sabiden::registry::{OutboundCallRegistry, PendingOutbound};
use sabiden::relay::{
    quick, relay_reinvite_to_ext, relay_reinvite_to_ngn, report_send_failure_to_ngn, Reply,
};
use sabiden::sdp::{OfferAction, OfferEvent};
use sabiden::sip::{SipHeaders, SipMethod, SipRequest, SipResponse};
use sabiden::time::{Duration, Instant};
use sabiden::uas::{
    interval_ms, retry_after_secs, CarrierBye, ExtReinvite, ExtensionBye, InviteEnd,
    InviteOutcome, InviteStart, NgnReinvite, OutboundDialogForwarder, OutboundDirection, UacConfig,
    UasEventHandler,
};

const OFFER: &[u8] = b"v=0\r\nc=IN IP4 192.168.20.10\r\nm=audio 4000 RTP/AVP 0\r\n";

fn uac() -> UacConfig {
    UacConfig {
        local_uri: "sip:0312345678@ntt-east.ne.jp".to_string(),
        server_host: "118.177.125.1".to_string(),
        server_port: 5060,
        local_addr: "118.177.72.242:5060".to_string(),
        local_ip: IpAddr::V4(0x76b1_48f2),
    }
}

fn request(method: SipMethod, call_id: &str) -> SipRequest {
    let mut r = SipRequest::new(method, "sip:117@192.168.20.239");
    r.headers
        .set("Via", "SIP/2.0/UDP 192.168.20.10:5060;branch=z9hG4bKext");
    r.headers.set("From", "\"iPhone\" <sip:iphone@sabiden>;tag=ext");
    r.headers.set("To", "<sip:117@sabiden>");
    r.headers.set("Call-ID", call_id);
    r.headers.set("CSeq", "1 INVITE");
    r
}

fn response(status: u16, reason: &str) -> SipResponse {
    SipResponse {
        status_code: status,
        reason: reason.to_string(),
        headers: SipHeaders::new(),
        body: vec![],
    }
}

fn at(secs: u64) -> Instant {
    Instant::after_start(Duration::from_secs(secs))
}

fn remote() -> SocketAddr {
    SocketAddr {
        ip: IpAddr::V4(0xc0a8_140a),
        port: 5060,
    }
}

/// A handler with one established call, `ext-cid` on the extension's side and
/// `ngn-cid` on the carrier's.
fn with_a_call() -> UasEventHandler {
    let mut uas = UasEventHandler::with_call_manager(uac(), None, None);
    uas.attach_ext_layer(None, Some("192.168.20.239:5061".to_string()));
    let added = uas.call_answered(
        &request(SipMethod::Invite, "ext-cid"),
        "iphone",
        "ngn-cid",
        Some(DialogId(1)),
        DialogId(2),
        ResponderId(3),
        remote(),
        Some(CallId(4)),
    );
    assert!(added);
    uas
}

fn quick_of(reply: Reply) -> (u16, String) {
    match reply {
        Reply::Quick { status, reason } => (status, reason),
        other => panic!("expected a response without a body, got {:?}", other),
    }
}

fn full_of(reply: Reply) -> SipResponse {
    match reply {
        Reply::Full(response) => response,
        other => panic!("expected a whole response, got {:?}", other),
    }
}

#[test]
fn rfc3261_21_5_4_extension_outbound_rate_limited_returns_503_retry_after() {
    let mut uas = UasEventHandler::new(uac());
    uas.set_outbound_rate_limiter(OutboundRateLimiter::with_config(RateLimiterConfig {
        min_interval: Duration::from_secs(60),
        failure_backoff_steps: vec![],
    }));
    let req = request(SipMethod::Invite, "rl-1");
    assert!(matches!(
        uas.handle_invite_at("iphone", &req, at(10), "7"),
        InviteStart::Proceed {
            interval_ms: None,
            ..
        }
    ));
    match uas.handle_invite_at("iphone", &req, at(10), "7") {
        InviteStart::Refuse { response } => {
            assert_eq!(response.status_code, 503);
            assert_eq!(response.headers.get("retry-after"), Some("60"));
            assert_eq!(response.headers.get("to"), Some("<sip:117@sabiden>;tag=7"));
        }
        other => panic!("expected 503, got {:?}", other),
    }
    match uas.handle_invite_at("iphone", &req, at(71), "7") {
        InviteStart::Proceed { interval_ms, .. } => assert_eq!(interval_ms, Some(61_000)),
        other => panic!("expected the INVITE to go on, got {:?}", other),
    }
}

#[test]
fn invite_by_the_clock_is_limited_too() {
    let mut uas = UasEventHandler::new(uac());
    let req = request(SipMethod::Invite, "c");
    assert!(matches!(
        uas.handle_invite("iphone", &req),
        InviteStart::Proceed { .. }
    ));
    assert!(matches!(
        uas.handle_invite("iphone", &req),
        InviteStart::Refuse { .. }
    ));
    assert!(matches!(
        uas.handle_invite("desk", &req),
        InviteStart::Proceed { .. }
    ));
}

#[test]
fn invite_request_uri_uses_pcsf_ip() {
    let mut req = request(SipMethod::Invite, "c");
    let mut uas = UasEventHandler::new(uac());
    match uas.handle_invite_at("iphone", &req, at(1), "7") {
        InviteStart::Proceed { target, bridge, .. } => {
            assert_eq!(target, "sip:117@118.177.125.1:5060");
            assert!(bridge.is_none());
        }
        other => panic!("expected the INVITE to go on, got {:?}", other),
    }
    req.body = OFFER.to_vec();
    let mut uas = UasEventHandler::with_call_manager(uac(), Some(IpAddr::V4(5)), None);
    match uas.handle_invite_at("iphone", &req, at(1), "7") {
        InviteStart::Proceed { bridge, .. } => {
            let bridge = bridge.expect("a bridge");
            assert_eq!(bridge.ngn_bind_ip, IpAddr::V4(5));
            assert_eq!(bridge.ext_bind_ip, IpAddr::V4(0x7f00_0001));
        }
        other => panic!("expected the INVITE to go on, got {:?}", other),
    }
}

#[test]
fn ext_cancel_during_invite_propagates_to_ngn() {
    let mut uas = UasEventHandler::new(uac());
    let req = request(SipMethod::Invite, "ext-cancel-cid");
    uas.invite_planned(&req, PlanId(8), ResponderId(9));
    assert!(uas.registry().get_pending("ext-cancel-cid").is_some());
    let cancel = request(SipMethod::Cancel, "ext-cancel-cid");
    let cancelled = uas.handle_ext_cancel(&cancel).expect("an INVITE");
    assert_eq!(cancelled.invite_plan, PlanId(8));
    assert_eq!(cancelled.ext_responder, ResponderId(9));
    assert_eq!(cancelled.counts(), vec![Count::Ngn(InviteResult::Error)]);
    assert_eq!(
        quick_of(cancelled.reply),
        (487, "Request Terminated".to_string())
    );
    let end = uas.invite_ended_at(
        "iphone",
        &req,
        PlanId(8),
        &InviteOutcome::Established,
        at(1),
        "7",
    );
    assert!(matches!(end, InviteEnd::HangUp));
    assert!(uas.registry().get_pending("ext-cancel-cid").is_none());
    assert!(uas.handle_ext_cancel(&cancel).is_none());
}

#[test]
fn cancelled_invite_without_a_response_needs_nothing_more() {
    let mut uas = UasEventHandler::new(uac());
    let req = request(SipMethod::Invite, "c");
    uas.invite_planned(&req, PlanId(8), ResponderId(9));
    uas.handle_ext_cancel(&request(SipMethod::Cancel, "c"));
    let end = uas.invite_ended("iphone", &req, PlanId(8), &InviteOutcome::TransportFailed);
    assert!(matches!(end, InviteEnd::Nothing));
    let streak = match uas.outbound_rate_limiter().snapshot("iphone") {
        Some((_, streak, _)) => streak,
        None => 0,
    };
    assert_eq!(streak, 0);
}

#[test]
fn invite_without_a_call_id_is_not_kept() {
    let mut uas = UasEventHandler::new(uac());
    let mut req = SipRequest::new(SipMethod::Invite, "sip:117@x");
    uas.invite_planned(&req, PlanId(1), ResponderId(1));
    assert!(uas.registry().get_pending("<no-call-id>").is_none());
    req.headers.set("Call-ID", "");
    uas.invite_planned(&req, PlanId(1), ResponderId(1));
    assert!(uas.registry().get_pending("").is_none());
}

#[test]
fn carrier_refusals_reach_the_extension() {
    let mut uas = UasEventHandler::new(uac());
    let req = request(SipMethod::Invite, "c");
    let end = uas.invite_ended_at(
        "iphone",
        &req,
        PlanId(1),
        &InviteOutcome::Failed {
            response: response(486, "Busy Here"),
        },
        at(1),
        "7",
    );
    match end {
        InviteEnd::Refuse { reply, ngn } => {
            assert_eq!(quick_of(reply), (486, "Busy Here".to_string()));
            assert_eq!(ngn, InviteResult::Busy);
        }
        other => panic!("expected a refusal, got {:?}", other),
    }

    let mut busy = response(503, "Service Unavailable");
    busy.headers.set("Retry-After", "120 (maintenance)");
    assert_eq!(retry_after_secs(&busy), Some(120));
    let end = uas.invite_ended_at(
        "iphone",
        &req,
        PlanId(1),
        &InviteOutcome::Failed { response: busy },
        at(10),
        "7",
    );
    match end {
        InviteEnd::Refuse { reply, ngn } => {
            let r = full_of(reply);
            assert_eq!(r.status_code, 503);
            assert_eq!(r.headers.get("retry-after"), Some("120"));
            assert_eq!(r.headers.get("to"), Some("<sip:117@sabiden>;tag=7"));
            assert_eq!(ngn, InviteResult::Error);
        }
        other => panic!("expected a refusal, got {:?}", other),
    }
    match uas.handle_invite_at("iphone", &req, at(20), "7") {
        InviteStart::Refuse { response } => {
            assert_eq!(response.headers.get("retry-after"), Some("110"));
        }
        other => panic!("expected 503, got {:?}", other),
    }

    let end = uas.invite_ended_at(
        "desk",
        &req,
        PlanId(1),
        &InviteOutcome::TransportFailed,
        at(10),
        "7",
    );
    match end {
        InviteEnd::Refuse { reply, ngn } => {
            assert_eq!(quick_of(reply), (503, "Service Unavailable".to_string()));
            assert_eq!(ngn, InviteResult::Timeout);
        }
        other => panic!("expected a refusal, got {:?}", other),
    }
}

#[test]
fn answered_invite_is_answered_to_the_extension() {
    let mut uas = UasEventHandler::new(uac());
    let req = request(SipMethod::Invite, "c");
    let end = uas.invite_ended("iphone", &req, PlanId(1), &InviteOutcome::Established);
    assert!(matches!(end, InviteEnd::Answer));
    assert!(matches!(
        uas.finalize_bridge(&req, None, b"x"),
        FinalizeBridge::PassThrough
    ));
    let r = uas.answer_extension(&req, b"ngn", None, "7");
    assert_eq!(r.body, b"ngn");
    assert_eq!(
        r.headers.get("contact"),
        Some("<sip:sabiden@118.177.72.242:5060>")
    );
    let r = uas.answer_extension(&req, b"ngn", Some(b"bridged".to_vec()), "7");
    assert_eq!(r.body, b"bridged");

    let kept = uas.call_answered(
        &req,
        "iphone",
        "n",
        Some(DialogId(1)),
        DialogId(2),
        ResponderId(3),
        remote(),
        None,
    );
    assert!(!kept);
    uas.attach_ext_layer(Some("10.0.0.1:5061".to_string()), None);
    assert_eq!(uas.ext_contact_uri(), "sip:sabiden@10.0.0.1:5061");
    let kept = uas.call_answered(
        &req,
        "iphone",
        "n",
        None,
        DialogId(2),
        ResponderId(3),
        remote(),
        None,
    );
    assert!(!kept);
    assert!(uas.registry().lookup_by_ext("c").is_none());
}

#[test]
fn parties_of_the_dialog_with_an_extension() {
    let mut uas = UasEventHandler::new(uac());
    uas.attach_ext_layer(
        Some("10.0.0.1:5061".to_string()),
        Some("192.168.20.239:5061".to_string()),
    );
    let cfg = uas.build_ext_dialog_cfg(&request(SipMethod::Invite, "c"));
    assert_eq!(cfg.local_uri, "sip:117@sabiden");
    assert_eq!(cfg.remote_uri, "sip:iphone@sabiden");
    assert_eq!(cfg.sent_by, "192.168.20.239:5061");
    let cfg = uas.build_ext_dialog_cfg(&SipRequest::new(SipMethod::Invite, "sip:x"));
    assert_eq!(cfg.local_uri, "sip:sabiden");
    assert_eq!(cfg.remote_uri, "sip:unknown@sabiden");
}

#[test]
fn ext_bye_propagates_to_ngn() {
    let mut uas = with_a_call();
    let bye = request(SipMethod::Bye, "ext-cid");
    let (reply, ended) = uas.handle_ext_bye(&bye);
    assert_eq!(quick_of(reply), (200, "OK".to_string()));
    let ended = ended.expect("a call");
    assert_eq!(
        ended,
        CarrierBye {
            ngn_dialog: DialogId(2),
            ext_dialog: DialogId(1),
            terminate: Some(CallId(4))
        }
    );
    assert_eq!(ended.counts(), vec![Count::CallEnded]);
    let (reply, ended) = uas.handle_ext_bye(&bye);
    assert_eq!(quick_of(reply), (200, "OK".to_string()));
    assert_eq!(ended, None);
    assert_eq!(uas.handle_ngn_bye("ngn-cid"), None);
    assert_eq!(
        uas.handle_ext_bye(&SipRequest::new(SipMethod::Bye, "sip:x")).1,
        None
    );
}

#[test]
fn ngn_bye_propagates_to_ext() {
    let mut uas = with_a_call();
    assert_eq!(
        uas.try_forward_bye("ngn-cid"),
        Some(ExtensionBye {
            ext_dialog: DialogId(1),
            ext_remote: remote(),
            terminate: Some(CallId(4))
        })
    );
    assert_eq!(uas.try_forward_bye("ngn-cid"), None);
    assert_eq!(
        uas.handle_ext_bye(&request(SipMethod::Bye, "ext-cid")).1,
        None
    );
}

#[test]
fn unregistering_ends_the_calls_of_an_extension() {
    let mut uas = with_a_call();
    assert!(uas.handle_ext_unregister("desk").is_empty());
    let ended = uas.handle_ext_unregister("iphone");
    assert_eq!(
        ended,
        vec![CarrierBye {
            ngn_dialog: DialogId(2),
            ext_dialog: DialogId(1),
            terminate: Some(CallId(4))
        }]
    );
    assert!(uas.handle_ext_unregister("iphone").is_empty());
}

#[test]
fn rfc3261_12_2_2_ext_reinvite_with_unknown_dialog_returns_481() {
    let uas = UasEventHandler::new(uac());
    match uas.handle_ext_reinvite(&request(SipMethod::Invite, "unknown-cid")) {
        ExtReinvite::Refuse(reply) => assert_eq!(
            quick_of(reply),
            (481, "Call/Transaction Does Not Exist".to_string())
        ),
        other => panic!("expected 481, got {:?}", other),
    }
}

#[test]
fn rfc3261_14_2_ext_reinvite_with_pending_invite_returns_491() {
    let mut uas = UasEventHandler::new(uac());
    uas.invite_planned(
        &request(SipMethod::Invite, "race-cid"),
        PlanId(1),
        ResponderId(1),
    );
    match uas.handle_ext_reinvite(&request(SipMethod::Invite, "race-cid")) {
        ExtReinvite::Refuse(reply) => {
            assert_eq!(quick_of(reply), (491, "Request Pending".to_string()))
        }
        other => panic!("expected 491, got {:?}", other),
    }
}

#[test]
fn rfc4028_10_ext_reinvite_relays_min_se_from_ngn_422() {
    let uas = with_a_call();
    let mut req = request(SipMethod::Invite, "ext-cid");
    req.headers.set("To", "<sip:117@sabiden>;tag=ours");
    match uas.handle_ext_reinvite(&req) {
        ExtReinvite::Forward {
            ngn_dialog,
            mut offer,
        } => {
            assert_eq!(ngn_dialog, DialogId(2));
            assert!(matches!(
                offer.step(OfferEvent::Begin),
                OfferAction::Send { offer: None }
            ));
        }
        other => panic!("expected to forward, got {:?}", other),
    }
    let mut refusal = response(422, "Session Interval Too Small");
    refusal.headers.set("Min-SE", "1800");
    let r = full_of(uas.reinvite_answered(&req, Some(&refusal), "7"));
    assert_eq!(r.status_code, 422);
    assert_eq!(r.headers.get("min-se"), Some("1800"));
    assert_eq!(r.headers.get("retry-after"), None);
    assert_eq!(r.headers.get("to"), Some("<sip:117@sabiden>;tag=ours"));

    let mut refusal = response(503, "Service Unavailable");
    refusal.headers.set("Retry-After", "30");
    let r = full_of(uas.reinvite_answered(&req, Some(&refusal), "7"));
    assert_eq!(r.headers.get("retry-after"), Some("30"));

    assert_eq!(
        quick_of(uas.reinvite_answered(&req, None, "7")),
        (500, "Server Internal Error".to_string())
    );
}

#[test]
fn answers_to_reinvites_keep_the_session_timer() {
    let req = request(SipMethod::Invite, "ext-cid");
    let mut ok = response(202, "Accepted");
    ok.body = b"answer".to_vec();
    ok.headers.set("Session-Expires", "300;refresher=uac");
    ok.headers.set("Require", "100rel,  TIMER ");
    let r = full_of(relay_reinvite_to_ext(&req, Some(&ok), "sip:here", "7"));
    assert_eq!(r.status_code, 200);
    assert_eq!(r.body, b"answer");
    assert_eq!(r.headers.get("contact"), Some("<sip:here>"));
    assert_eq!(r.headers.get("session-expires"), Some("300;refresher=uac"));
    assert_eq!(r.headers.get("require"), Some("timer"));

    let r = relay_reinvite_to_ngn(&req, &ok, "sip:there", "7");
    assert_eq!((r.status_code, r.reason.as_str()), (200, "OK"));
    assert_eq!(r.headers.get("contact"), Some("<sip:there>"));
    assert_eq!(r.headers.get("content-type"), Some("application/sdp"));
    assert_eq!(r.headers.get("require"), Some("timer"));

    let mut plain = response(200, "OK");
    plain.headers.set("Require", "timers");
    let r = relay_reinvite_to_ngn(&req, &plain, "sip:there", "7");
    assert_eq!(r.headers.get("require"), None);
    assert_eq!(r.headers.get("content-type"), None);
    assert!(r.body.is_empty());

    let mut refusal = response(422, "Session Interval Too Small");
    refusal.headers.set("min-se", "90");
    refusal.headers.set("retry-after", "5");
    let r = relay_reinvite_to_ngn(&req, &refusal, "sip:there", "7");
    assert_eq!(r.headers.get("Min-SE"), Some("90"));
    assert_eq!(r.headers.get("Retry-After"), Some("5"));
    assert_eq!(r.headers.get("contact"), None);
}

#[test]
fn reinvites_that_cannot_be_sent_are_reported_to_the_carrier() {
    let req = request(SipMethod::Invite, "c");
    let late = anyhow::Error::msg("transaction timeout").context("re-INVITE");
    let r = report_send_failure_to_ngn(&req, &late, "7");
    assert_eq!((r.status_code, r.reason.as_str()), (408, "Request Timeout"));
    assert_eq!(r.headers.get("to"), Some("<sip:117@sabiden>;tag=7"));
    let lost = anyhow::Error::msg("Network is unreachable (os error 101)");
    let r = report_send_failure_to_ngn(&req, &lost, "7");
    assert_eq!(
        (r.status_code, r.reason.as_str()),
        (500, "Server Internal Error")
    );
}

#[test]
fn carrier_reinvites_go_to_the_extension() {
    let uas = with_a_call();
    let mut req = request(SipMethod::Invite, "ngn-cid");
    req.body = OFFER.to_vec();
    match uas.handle_ngn_reinvite(&req, "7") {
        NgnReinvite::Forward {
            ext_dialog,
            ngn_dialog,
            ext_remote,
            offer,
            session_expires,
            min_se,
        } => {
            assert_eq!((ext_dialog, ngn_dialog), (DialogId(1), DialogId(2)));
            assert_eq!(ext_remote, remote());
            assert_eq!(offer, Some(OFFER.to_vec()));
            assert_eq!((session_expires, min_se), (300, 90));
        }
        other => panic!("expected to forward, got {:?}", other),
    }
    assert!(uas.try_forward_ngn_reinvite(&req, "7").is_some());
    let stranger = request(SipMethod::Invite, "ext-cid");
    assert!(uas.try_forward_ngn_reinvite(&stranger, "7").is_none());
    match uas.handle_ngn_reinvite(&stranger, "7") {
        NgnReinvite::Refuse(r) => assert_eq!(r.status_code, 481),
        other => panic!("expected 481, got {:?}", other),
    }
}

#[test]
fn keys_in_info_become_telephone_events() {
    let uas = with_a_call();
    let mut info = request(SipMethod::Info, "ext-cid");
    info.headers
        .set("Content-Type", "Application/DTMF-Relay; charset=utf-8");
    assert_eq!(info_body_of(&info), InfoBody::DtmfRelay);
    let (reply, injected) = handle_ext_info_at(
        uas.registry(),
        true,
        &info,
        InfoKey::Event(5),
        0x1_2345_6789,
    );
    assert_eq!(quick_of(reply), (200, "OK".to_string()));
    let injected = injected.unwrap();
    assert_eq!(injected.bridge, CallId(4));
    assert_eq!(injected.event, 5);
    assert_eq!(injected.timestamp, 0x2345_6789);
    assert_eq!(injected.start_seq, 0x6789);
    assert_eq!(injected.ssrc, ssrc_of("ext-cid"));
    assert_eq!(
        (injected.duration_ms, injected.period_ms, injected.volume),
        (100, 50, 10)
    );

    let (reply, injected) = handle_ext_info(uas.registry(), true, &info, InfoKey::NoEvent);
    assert_eq!(quick_of(reply).0, 200);
    assert!(injected.is_none());
    let (reply, _) = handle_ext_info(uas.registry(), true, &info, InfoKey::Unreadable);
    assert_eq!(
        quick_of(reply),
        (415, "Unsupported Media Type".to_string())
    );
    let (_, injected) = handle_ext_info(uas.registry(), false, &info, InfoKey::Event(1));
    assert!(injected.is_none());
    let now = handle_ext_info(uas.registry(), true, &info, InfoKey::Event(1)).1;
    assert!(now.unwrap().timestamp > 0);

    info.headers.set("Content-Type", "application/dtmf");
    assert_eq!(info_body_of(&info), InfoBody::Dtmf);
    info.headers.set("Content-Type", "text/plain");
    assert_eq!(info_body_of(&info), InfoBody::Unsupported);
    let (reply, injected) = handle_ext_info(uas.registry(), true, &info, InfoKey::Event(1));
    assert_eq!(quick_of(reply).0, 415);
    assert!(injected.is_none());
}

#[test]
fn event_sources_follow_from_call_ids() {
    assert_eq!(ssrc_of(""), 0x811c_9dc5);
    assert_eq!(ssrc_of("a"), 0xe40c_292c);
    assert_eq!(ssrc_of("foobar"), 0xbf9c_f968);
}

#[test]
fn intervals_are_counted_in_milliseconds() {
    assert_eq!(interval_ms(None), None);
    assert_eq!(interval_ms(Some(Duration::from_millis(1999))), Some(1999));
    assert_eq!(
        interval_ms(Some(Duration::from_secs(u64::MAX))),
        Some(u64::MAX)
    );
    assert_eq!(quick_of(quick(200, "OK")), (200, "OK".to_string()));
}

#[test]
fn handlers_take_calls_over() {
    let mut registry = OutboundCallRegistry::default();
    registry.insert_pending(PendingOutbound {
        ext_call_id: "shared-cid".to_string(),
        invite_plan: PlanId(1),
        ext_responder: ResponderId(2),
    });
    let uas = UasEventHandler::with_shared_registry(uac(), true, None, None, registry);
    assert!(uas.registry().get_pending("shared-cid").is_some());
    assert!(uas.config().has_call_manager && !uas.config().has_ext_layer);
}

#[test]
fn offers_of_extensions_point_at_the_address_towards_the_carrier() {
    let uas = with_a_call();
    let mut req = request(SipMethod::Invite, "ext-cid");
    req.body = OFFER.to_vec();
    let mut reinvite = match uas.handle_ext_reinvite(&req) {
        ExtReinvite::Forward { offer, .. } => offer,
        other => panic!("expected to forward, got {:?}", other),
    };
    let mut invite = uas.offer_for_carrier(&req, None);
    for offer in [&mut reinvite, &mut invite] {
        assert!(matches!(
            offer.step(OfferEvent::Begin),
            OfferAction::ReadPort { sdp } if sdp == OFFER
        ));
        let read = OfferEvent::PortRead {
            port: Some(Some(4000)),
        };
        match offer.step(read) {
            OfferAction::Rewrite { sdp, addr } => {
                assert_eq!(sdp, OFFER);
                assert_eq!((addr.ip, addr.port), (IpAddr::V4(0x76b1_48f2), 4000));
            }
            other => panic!("expected to rewrite, got {:?}", other),
        }
    }
    let mut bridged = uas.offer_for_carrier(&req, Some(b"p".to_vec()));
    assert!(matches!(
        bridged.step(OfferEvent::Begin),
        OfferAction::Restrict { sdp } if sdp == b"p"
    ));
}

#[test]
fn invites_of_extensions_are_counted() {
    let mut uas = UasEventHandler::new(uac());
    let req = request(SipMethod::Invite, "c");
    let start = uas.handle_invite_at("iphone", &req, at(1), "7");
    assert_eq!(start.counts(), vec![]);
    let start = uas.handle_invite_at("iphone", &req, at(2), "7");
    assert_eq!(
        start.counts(),
        vec![
            Count::Blocked(OutboundDirection::Extension),
            Count::Extension(InviteResult::Error)
        ]
    );
    let start = uas.handle_invite_at("iphone", &req, at(5), "7");
    assert_eq!(start.counts(), vec![Count::Interval(4000)]);

    assert_eq!(
        InviteEnd::HangUp.counts(),
        vec![Count::Ngn(InviteResult::Error)]
    );
    assert_eq!(InviteEnd::Answer.counts(), count_answer());
    assert_eq!(InviteEnd::Nothing.counts(), vec![]);
    let refused = InviteEnd::Refuse {
        reply: quick(486, "Busy Here"),
        ngn: InviteResult::Busy,
    };
    assert_eq!(refused.counts(), vec![Count::Ngn(InviteResult::Busy)]);
    let bye = with_a_call().handle_ngn_bye("ngn-cid").expect("a call");
    assert_eq!(bye.counts(), count_end());
}
