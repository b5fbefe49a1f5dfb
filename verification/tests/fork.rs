use sabiden::browser::BrowserMessage;
use sabiden::fork::{
    close_and_drain_webrtc_legs, final_response_class_rank, fork_to_bindings, make_forker,
    reason_phrase_for_status, should_replace_status, sip_leg_result, try_register_webrtc_leg,
    Binding, ExtTransport, Fork, ForkEvent, ForkResult, ForkStart, ForkStep, LegResult, LegStart,
    SipLegOutcome, WebRtcLegHandle, WebRtcLegRegistry,
};
use sabiden::ids::{MediaId, PendingId, WsId};
use sabiden::sip::{SipHeaders, SipResponse};
use sabiden::webrtc_leg::{LegAction, LegEvent, WebRtcLeg};

fn sip(uri: &str) -> Binding {
    Binding {
        contact_uri: uri.to_string(),
        transport: ExtTransport::Sip,
    }
}

fn browser(uri: &str, ws: u64) -> Binding {
    Binding {
        contact_uri: uri.to_string(),
        transport: ExtTransport::WebRtc {
            ws: WsId(ws),
            pending: PendingId(ws),
        },
    }
}

fn start(bindings: Vec<(String, Binding)>, call_id: &str) -> (Fork, Vec<LegStart>) {
    match fork_to_bindings(&bindings, call_id) {
        ForkStart::Running { fork, legs } => (fork, legs),
        other => panic!("expected legs, got {:?}", other),
    }
}

fn browser_leg(leg: LegStart) -> WebRtcLeg {
    match leg {
        LegStart::WebRtc(leg) => leg,
        other => panic!("expected a browser leg, got {:?}", other),
    }
}

fn failed(aor: &str, status: u16) -> ForkEvent {
    ForkEvent::Leg(sip_leg_result(
        aor.to_string(),
        String::new(),
        SipLegOutcome::Failed { status },
    ))
}

fn status_of(step: ForkStep) -> Option<u16> {
    match step {
        ForkStep::Done {
            result: ForkResult::AllFailed { last_status },
            ..
        } => last_status,
        other => panic!("expected AllFailed, got {:?}", other),
    }
}

fn cancelled(step: ForkStep) -> Vec<(u64, String)> {
    match step {
        ForkStep::Done { cancel, .. } => cancel
            .into_iter()
            .map(|l| match l.message() {
                BrowserMessage::Cancel { call_id } => (l.ws.0, call_id),
                other => panic!("expected Cancel, got {:?}", other),
            })
            .collect(),
        other => panic!("expected the end, got {:?}", other),
    }
}

/// Takes a browser leg as far as ringing.
fn ring(leg: &mut WebRtcLeg, fork: &mut Fork, offer: &str) {
    let a = leg.step(
        fork,
        LegEvent::OfferCreated {
            sdp: offer.to_string(),
        },
    );
    assert!(matches!(a, LegAction::RegisterWaiter));
    let action = leg.step(fork, LegEvent::WaiterRegistered);
    assert_eq!(
        leg.message(&action),
        Some(BrowserMessage::Offer {
            call_id: leg.call_id.clone(),
            sdp: offer.to_string()
        })
    );
    match action {
        LegAction::SendOffer { sdp } => assert_eq!(sdp, offer),
        other => panic!("expected the offer, got {:?}", other),
    }
    assert!(matches!(
        leg.step(fork, LegEvent::OfferSent),
        LegAction::AwaitAnswer
    ));
}

fn result_of(a: LegAction) -> (bool, bool, bool, LegResult) {
    match a {
        LegAction::Finish {
            drop_waiter,
            cancel,
            close_peer,
            result,
        } => (drop_waiter, cancel, close_peer, result),
        other => panic!("expected the end, got {:?}", other),
    }
}

const OFFER: &str = "v=0\r\nm=audio 9 UDP/TLS/RTP/SAVPF 0\r\n";
const ANSWER: &str = "v=0\r\nc=IN IP4 0.0.0.0\r\nm=audio 9 UDP/TLS/RTP/SAVPF 0\r\n";

#[test]
fn rfc3261_16_7_should_replace_status_6xx_beats_4xx_and_5xx() {
    assert!(should_replace_status(Some(486), 603));
    assert!(should_replace_status(Some(404), 603));
    assert!(should_replace_status(Some(500), 603));
    assert!(should_replace_status(Some(503), 603));
    assert!(!should_replace_status(Some(603), 486));
    assert!(!should_replace_status(Some(603), 500));
    assert!(!should_replace_status(Some(603), 404));
}

#[test]
fn rfc3261_16_7_should_replace_status_same_class_first_wins() {
    assert!(!should_replace_status(Some(486), 404));
    assert!(!should_replace_status(Some(486), 487));
    assert!(!should_replace_status(Some(603), 600));
    assert!(!should_replace_status(Some(603), 604));
    assert!(!should_replace_status(Some(500), 503));
}

#[test]
fn rfc3261_16_7_should_replace_status_initial_none_always_accepts() {
    assert!(should_replace_status(None, 486));
    assert!(should_replace_status(None, 603));
    assert!(should_replace_status(None, 404));
    assert!(should_replace_status(None, 500));
}

#[test]
fn rfc3261_16_7_final_response_class_rank_orders_6xx_highest() {
    assert!(final_response_class_rank(603) > final_response_class_rank(486));
    assert!(final_response_class_rank(603) > final_response_class_rank(500));
    assert!(final_response_class_rank(603) > final_response_class_rank(302));
    assert_eq!(
        final_response_class_rank(600),
        final_response_class_rank(603)
    );
}

#[test]
fn class_ranks_in_full() {
    assert_eq!(final_response_class_rank(699), 4);
    assert_eq!(final_response_class_rank(400), 3);
    assert_eq!(final_response_class_rank(599), 2);
    assert_eq!(final_response_class_rank(300), 1);
    assert_eq!(final_response_class_rank(200), 0);
    assert_eq!(final_response_class_rank(700), 0);
}

#[test]
fn rfc3261_21_6_2_reason_phrase_for_603_is_singular_decline() {
    assert_eq!(reason_phrase_for_status(603), "Decline");
    assert_ne!(reason_phrase_for_status(603), "Declined");
}

#[test]
fn rfc3261_21_4_21_reason_phrase_for_486_is_busy_here() {
    assert_eq!(reason_phrase_for_status(486), "Busy Here");
}

#[test]
fn rfc3261_21_4_25_reason_phrase_for_487_is_request_terminated() {
    assert_eq!(reason_phrase_for_status(487), "Request Terminated");
    assert_eq!(reason_phrase_for_status(404), "Decline");
}

#[test]
fn rfc3261_16_7_fork_to_bindings_keeps_6xx_when_4xx_arrives_later() {
    let (mut fork, legs) = start(
        vec![
            ("fast".to_string(), sip("sip:fast-decline@ext.local")),
            ("slow1".to_string(), sip("sip:slow-busy@ext.local")),
            ("slow2".to_string(), sip("sip:slow-notfound@ext.local")),
        ],
        "ut-cid-6xx-priority",
    );
    assert_eq!(legs.len(), 3);
    assert!(matches!(&legs[0], LegStart::Sip { aor, target_uri }
        if aor == "fast" && target_uri == "sip:fast-decline@ext.local"));
    assert_eq!(status_of(fork.on_event(failed("fast", 603))), Some(603));
    assert!(fork.has_ended());
    assert!(matches!(fork.on_event(failed("slow1", 486)), ForkStep::Wait));
    assert!(matches!(fork.on_event(failed("slow2", 404)), ForkStep::Wait));
}

#[test]
fn rfc3261_16_7_fork_to_bindings_late_6xx_overrides_early_4xx() {
    let (mut fork, _) = start(
        vec![
            ("fast".to_string(), sip("sip:fast-busy@ext.local")),
            ("slow".to_string(), sip("sip:slow-decline@ext.local")),
        ],
        "ut-cid-late-6xx",
    );
    assert!(matches!(fork.on_event(failed("fast", 486)), ForkStep::Wait));
    assert_eq!(status_of(fork.on_event(failed("slow", 603))), Some(603));
}

#[test]
fn fork_reports_the_first_refusal_of_the_highest_class() {
    let bindings = || {
        (0..4)
            .map(|i| (format!("a{}", i), sip("sip:x")))
            .collect::<Vec<_>>()
    };
    let (mut fork, _) = start(bindings(), "cid");
    assert!(matches!(fork.on_event(failed("a0", 503)), ForkStep::Wait));
    assert!(matches!(fork.on_event(failed("a1", 404)), ForkStep::Wait));
    assert!(matches!(fork.on_event(failed("a2", 486)), ForkStep::Wait));
    assert_eq!(status_of(fork.on_event(failed("a3", 302))), Some(404));

    let (mut fork, _) = start(bindings(), "cid");
    assert!(matches!(fork.on_event(failed("a0", 500)), ForkStep::Wait));
    assert_eq!(status_of(fork.on_event(ForkEvent::NoMoreLegs)), Some(500));

    let (mut fork, _) = start(bindings(), "cid");
    let errored = ForkEvent::Leg(LegResult::Errored { aor: "a".into() });
    assert!(matches!(fork.on_event(errored), ForkStep::Wait));
    match fork.on_event(ForkEvent::TimedOut) {
        ForkStep::Done {
            result: ForkResult::Timeout,
            cancel,
        } => assert!(cancel.is_empty()),
        other => panic!("expected Timeout, got {:?}", other),
    }
}

#[test]
fn fork_without_bindings_has_failed() {
    match fork_to_bindings(&Vec::new(), "cid") {
        ForkStart::Finished(ForkResult::AllFailed { last_status }) => {
            assert_eq!(last_status, None)
        }
        other => panic!("expected AllFailed, got {:?}", other),
    }
}

#[test]
fn first_answer_of_a_sip_extension_wins() {
    let (mut fork, _) = start(
        vec![
            ("a".to_string(), sip("sip:a@ext")),
            ("b".to_string(), sip("sip:b@ext")),
        ],
        "cid",
    );
    let response = SipResponse {
        status_code: 200,
        reason: "OK".to_string(),
        headers: SipHeaders::new(),
        body: b"v=0".to_vec(),
    };
    let leg = sip_leg_result(
        "b".to_string(),
        "sip:b@ext".to_string(),
        SipLegOutcome::Established { response },
    );
    match fork.on_event(ForkEvent::Leg(leg)) {
        ForkStep::Done {
            result:
                ForkResult::Answered {
                    winner_uri,
                    response,
                    webrtc_handle,
                    webrtc_ws,
                },
            ..
        } => {
            assert_eq!(winner_uri, "sip:b@ext");
            assert_eq!(response.body, b"v=0");
            assert!(webrtc_handle.is_none() && webrtc_ws.is_none());
        }
        other => panic!("expected an answer, got {:?}", other),
    }
    assert!(matches!(
        sip_leg_result("a".into(), "u".into(), SipLegOutcome::Errored),
        LegResult::Errored { .. }
    ));
}

#[test]
fn closed_registry_takes_no_leg() {
    let mut reg = WebRtcLegRegistry::new();
    let handle = |ws: u64| WebRtcLegHandle {
        ws: WsId(ws),
        pending: PendingId(ws),
        call_id: "cid".to_string(),
    };
    assert!(try_register_webrtc_leg(&mut reg, handle(1)));
    assert!(try_register_webrtc_leg(&mut reg, handle(2)));
    let drained = close_and_drain_webrtc_legs(&mut reg);
    assert_eq!(drained.len(), 2);
    assert!(!try_register_webrtc_leg(&mut reg, handle(3)));
    assert!(close_and_drain_webrtc_legs(&mut reg).is_empty());
}

#[test]
fn make_forker_wraps_uac() {
    let forker = make_forker("sip:sabiden@local".to_string());
    assert_eq!(forker.uac, "sip:sabiden@local");
    assert_eq!(forker.targets.len(), 0);
}

#[test]
fn run_webrtc_leg_uses_create_offer_and_accept_answer() {
    let (mut fork, mut legs) = start(
        vec![("alice".to_string(), browser("sip:alice@webrtc.peer", 1))],
        "ut-cid",
    );
    let mut leg = browser_leg(legs.remove(0));
    ring(&mut leg, &mut fork, OFFER);
    let a = leg.step(
        &mut fork,
        LegEvent::Answered {
            sdp: ANSWER.to_string(),
        },
    );
    assert!(matches!(a, LegAction::AcceptAnswer { sdp } if sdp == ANSWER));
    let avp = b"v=0\r\nm=audio 9 RTP/AVP 0\r\na=rtpmap:0 PCMU/8000\r\n".to_vec();
    let (drop_waiter, cancel, close_peer, result) = result_of(leg.step(
        &mut fork,
        LegEvent::AnswerAccepted {
            converted: Some(avp.clone()),
            opus_pt: None,
            media: Some(MediaId(5)),
        },
    ));
    assert!(!drop_waiter && !cancel && !close_peer);
    match fork.on_event(ForkEvent::Leg(result)) {
        ForkStep::Done {
            result:
                ForkResult::Answered {
                    winner_uri,
                    response,
                    webrtc_handle,
                    webrtc_ws,
                },
            cancel,
        } => {
            assert_eq!(winner_uri, "sip:alice@webrtc.peer");
            assert_eq!(response.status_code, 200);
            assert_eq!(response.body, avp);
            assert_eq!(
                response.headers.get("To"),
                Some("<sip:alice@webrtc.peer>;tag=webrtc-alice")
            );
            assert_eq!(response.headers.get("Call-ID"), Some("ut-cid"));
            assert_eq!(response.headers.get("CSeq"), Some("1 INVITE"));
            assert_eq!(
                response.headers.get("Via"),
                Some("SIP/2.0/WS webrtc.peer;branch=z9hG4bKwebrtc")
            );
            assert_eq!(response.headers.get("From"), Some("<sip:webrtc>;tag=webrtc"));
            assert_eq!(
                response.headers.get("Content-Type"),
                Some("application/sdp")
            );
            let handle = webrtc_handle.unwrap();
            assert_eq!((handle.media, handle.opus_payload_type), (MediaId(5), 111));
            assert_eq!(webrtc_ws, Some(WsId(1)));
            assert!(cancel.is_empty());
        }
        other => panic!("expected an answer, got {:?}", other),
    }
}

#[test]
fn answer_that_cannot_be_converted_goes_out_as_it_is() {
    let (mut fork, mut legs) = start(
        vec![("alice".to_string(), browser("sip:alice@webrtc.peer", 1))],
        "cid",
    );
    let mut leg = browser_leg(legs.remove(0));
    ring(&mut leg, &mut fork, OFFER);
    leg.step(
        &mut fork,
        LegEvent::Answered {
            sdp: "v=0 é".to_string(),
        },
    );
    let (_, _, _, result) = result_of(leg.step(
        &mut fork,
        LegEvent::AnswerAccepted {
            converted: None,
            opus_pt: Some(96),
            media: None,
        },
    ));
    match result {
        LegResult::Established {
            response,
            webrtc_handle,
            webrtc_ws,
            ..
        } => {
            assert_eq!(response.body, "v=0 é".as_bytes());
            assert!(webrtc_handle.is_none());
            assert_eq!(webrtc_ws, Some(WsId(1)));
        }
        other => panic!("expected an answer, got {:?}", other),
    }
}

#[test]
fn run_webrtc_leg_returns_errored_when_create_offer_fails() {
    let (mut fork, mut legs) = start(
        vec![("alice".to_string(), browser("sip:alice@webrtc.peer", 1))],
        "ut-cid-create-fail",
    );
    let mut leg = browser_leg(legs.remove(0));
    let (drop_waiter, cancel, close_peer, result) =
        result_of(leg.step(&mut fork, LegEvent::OfferFailed));
    assert!(!drop_waiter && !cancel && !close_peer);
    assert!(matches!(&result, LegResult::Errored { aor } if aor == "alice"));
    let step = fork.on_event(ForkEvent::Leg(result));
    match step {
        ForkStep::Done {
            result: ForkResult::AllFailed { last_status },
            cancel,
        } => {
            assert!(last_status.is_none());
            assert!(cancel.is_empty());
        }
        other => panic!("expected AllFailed, got {:?}", other),
    }
}

#[test]
fn run_webrtc_leg_returns_errored_when_accept_answer_fails() {
    let (mut fork, mut legs) = start(
        vec![("alice".to_string(), browser("sip:alice@webrtc.peer", 1))],
        "ut-cid-accept-fail",
    );
    let mut leg = browser_leg(legs.remove(0));
    ring(&mut leg, &mut fork, OFFER);
    leg.step(
        &mut fork,
        LegEvent::Answered {
            sdp: ANSWER.to_string(),
        },
    );
    let (drop_waiter, cancel, close_peer, result) =
        result_of(leg.step(&mut fork, LegEvent::AnswerRejected));
    assert!(!drop_waiter && !cancel && close_peer);
    assert_eq!(status_of(fork.on_event(ForkEvent::Leg(result))), None);
}

#[test]
fn rfc3261_21_6_2_run_webrtc_leg_propagates_decline_as_failed_603() {
    let (mut fork, mut legs) = start(
        vec![("alice".to_string(), browser("sip:alice@webrtc.peer", 1))],
        "ut-cid-decline",
    );
    let mut leg = browser_leg(legs.remove(0));
    ring(&mut leg, &mut fork, OFFER);
    let (_, _, _, result) = result_of(leg.step(&mut fork, LegEvent::Declined { status: 603 }));
    assert_eq!(status_of(fork.on_event(ForkEvent::Leg(result))), Some(603));
}

#[test]
fn other_ends_of_a_browser_leg() {
    let leg_at_ringing = || {
        let (mut fork, mut legs) = start(
            vec![("alice".to_string(), browser("sip:alice@webrtc.peer", 1))],
            "cid",
        );
        let mut leg = browser_leg(legs.remove(0));
        ring(&mut leg, &mut fork, OFFER);
        (fork, leg)
    };
    let (mut fork, mut leg) = leg_at_ringing();
    let (drop_waiter, _, _, result) = result_of(leg.step(&mut fork, LegEvent::TimedOut));
    assert!(drop_waiter);
    assert!(matches!(result, LegResult::Failed { status: 408, .. }));
    assert!(matches!(
        leg.step(&mut fork, LegEvent::TimedOut),
        LegAction::Ignore
    ));

    let (mut fork, mut leg) = leg_at_ringing();
    let (drop_waiter, _, _, result) = result_of(leg.step(&mut fork, LegEvent::WaiterDropped));
    assert!(!drop_waiter);
    assert!(matches!(result, LegResult::Errored { .. }));

    let (mut fork, mut legs) = start(
        vec![("alice".to_string(), browser("sip:alice@webrtc.peer", 1))],
        "cid",
    );
    let mut leg = browser_leg(legs.remove(0));
    leg.step(
        &mut fork,
        LegEvent::OfferCreated {
            sdp: OFFER.to_string(),
        },
    );
    leg.step(&mut fork, LegEvent::WaiterRegistered);
    let (drop_waiter, cancel, _, result) = result_of(leg.step(&mut fork, LegEvent::OfferNotSent));
    assert!(drop_waiter && !cancel);
    assert!(matches!(result, LegResult::Errored { .. }));
}

#[test]
fn issue83_fork_timeout_sends_cancel_to_webrtc_legs() {
    let (mut fork, mut legs) = start(
        vec![("alice".to_string(), browser("sip:alice@webrtc.peer", 1))],
        "issue83-timeout-cid",
    );
    let mut leg = browser_leg(legs.remove(0));
    ring(&mut leg, &mut fork, OFFER);
    let step = fork.on_event(ForkEvent::TimedOut);
    assert_eq!(cancelled(step), vec![(1, "issue83-timeout-cid".to_string())]);
}

#[test]
fn issue83_fork_all_failed_sends_cancel_to_webrtc_legs() {
    let (mut fork, mut legs) = start(
        vec![("alice".to_string(), browser("sip:alice@webrtc.peer", 1))],
        "issue83-allfailed-cid",
    );
    let mut leg = browser_leg(legs.remove(0));
    ring(&mut leg, &mut fork, OFFER);
    leg.step(
        &mut fork,
        LegEvent::Answered {
            sdp: ANSWER.to_string(),
        },
    );
    let (_, _, _, result) = result_of(leg.step(&mut fork, LegEvent::AnswerRejected));
    let step = fork.on_event(ForkEvent::Leg(result));
    assert_eq!(
        cancelled(step),
        vec![(1, "issue83-allfailed-cid".to_string())]
    );
}

#[test]
fn issue83_fork_answered_does_not_cancel_winner_webrtc_leg() {
    let (mut fork, mut legs) = start(
        vec![
            ("alice".to_string(), browser("sip:alice@webrtc.peer", 1)),
            ("bob".to_string(), browser("sip:bob@webrtc.peer", 2)),
        ],
        "issue83-winner-cid",
    );
    let mut alice = browser_leg(legs.remove(0));
    let mut bob = browser_leg(legs.remove(0));
    ring(&mut alice, &mut fork, OFFER);
    ring(&mut bob, &mut fork, OFFER);
    alice.step(
        &mut fork,
        LegEvent::Answered {
            sdp: ANSWER.to_string(),
        },
    );
    let (_, _, _, result) = result_of(alice.step(
        &mut fork,
        LegEvent::AnswerAccepted {
            converted: None,
            opus_pt: None,
            media: None,
        },
    ));
    let step = fork.on_event(ForkEvent::Leg(result));
    assert!(matches!(
        &step,
        ForkStep::Done {
            result: ForkResult::Answered {
                webrtc_ws: Some(WsId(1)),
                ..
            },
            ..
        }
    ));
    assert_eq!(cancelled(step), vec![(2, "issue83-winner-cid".to_string())]);
}

#[test]
fn race_late_create_offer_after_winner_sends_cancel_not_offer() {
    let (mut fork, mut legs) = start(
        vec![
            ("winner".to_string(), browser("sip:winner@webrtc.peer", 1)),
            ("slow_loser".to_string(), browser("sip:slow@webrtc.peer", 2)),
        ],
        "race-winner-cid",
    );
    let mut winner = browser_leg(legs.remove(0));
    let mut slow = browser_leg(legs.remove(0));
    ring(&mut winner, &mut fork, OFFER);
    winner.step(
        &mut fork,
        LegEvent::Answered {
            sdp: ANSWER.to_string(),
        },
    );
    let (_, _, _, result) = result_of(winner.step(
        &mut fork,
        LegEvent::AnswerAccepted {
            converted: None,
            opus_pt: None,
            media: None,
        },
    ));
    let step = fork.on_event(ForkEvent::Leg(result));
    assert!(cancelled(step).is_empty());

    let a = slow.step(
        &mut fork,
        LegEvent::OfferCreated {
            sdp: OFFER.to_string(),
        },
    );
    assert!(matches!(a, LegAction::RegisterWaiter));
    let action = slow.step(&mut fork, LegEvent::WaiterRegistered);
    assert_eq!(
        slow.message(&action),
        Some(BrowserMessage::Cancel {
            call_id: "race-winner-cid".to_string()
        })
    );
    let (drop_waiter, cancel, _, result) = result_of(action);
    assert!(drop_waiter && cancel);
    assert!(matches!(result, LegResult::Errored { .. }));
    assert_eq!(slow.call_id, "race-winner-cid");
}
