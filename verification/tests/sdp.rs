use sabiden::ids::{IpAddr, SocketAddr};
use sabiden::sdp::{
    force_rewrite_sdp_for_ngn, force_rewritten, is_undirected_or_webrtc_placeholder_sdp,
    CarrierOffer, ForceRewrite, OfferAction, OfferEvent,
};

#[test]
fn rfc4566_5_2_5_14_undirected_or_webrtc_placeholder_requires_both_zero_conn_and_port_9() {
    let webrtc_avp = b"v=0\r\no=- 9 9 IN IP4 0.0.0.0\r\ns=-\r\n\
                       c=IN IP4 0.0.0.0\r\nt=0 0\r\n\
                       m=audio 9 RTP/AVP 0\r\na=rtpmap:0 PCMU/8000\r\n";
    assert!(is_undirected_or_webrtc_placeholder_sdp(webrtc_avp));

    let webrtc_savpf = b"v=0\r\no=- 9 9 IN IP4 0.0.0.0\r\ns=-\r\n\
                         c=IN IP4 0.0.0.0\r\nt=0 0\r\n\
                         m=audio 9 UDP/TLS/RTP/SAVPF 0\r\na=rtpmap:0 PCMU/8000\r\n";
    assert!(is_undirected_or_webrtc_placeholder_sdp(webrtc_savpf));

    let normal_sip = b"v=0\r\no=- 1 1 IN IP4 192.168.1.10\r\ns=-\r\n\
                       c=IN IP4 192.168.1.10\r\nt=0 0\r\n\
                       m=audio 30000 RTP/AVP 0\r\na=rtpmap:0 PCMU/8000\r\n";
    assert!(!is_undirected_or_webrtc_placeholder_sdp(normal_sip));

    let session_held = b"v=0\r\no=- 1 1 IN IP4 0.0.0.0\r\ns=-\r\n\
                         c=IN IP4 0.0.0.0\r\nt=0 0\r\n\
                         m=audio 30000 RTP/AVP 0\r\n";
    assert!(!is_undirected_or_webrtc_placeholder_sdp(session_held));

    let port_9_only = b"v=0\r\no=- 1 1 IN IP4 192.168.1.10\r\ns=-\r\n\
                        c=IN IP4 192.168.1.10\r\nt=0 0\r\n\
                        m=audio 9 RTP/AVP 0\r\n";
    assert!(!is_undirected_or_webrtc_placeholder_sdp(port_9_only));
}

#[test]
fn placeholder_is_text_with_any_line_ending() {
    assert!(is_undirected_or_webrtc_placeholder_sdp(
        b"m=audio 9 RTP/AVP 0\nc=IN IP4 0.0.0.0 \t"
    ));
    assert!(!is_undirected_or_webrtc_placeholder_sdp(
        b"m=audio 9 RTP/AVP 0\n c=IN IP4 0.0.0.0"
    ));
    assert!(!is_undirected_or_webrtc_placeholder_sdp(
        b"\xff\nm=audio 9 RTP/AVP 0\nc=IN IP4 0.0.0.0"
    ));
    assert!(!is_undirected_or_webrtc_placeholder_sdp(b""));
}

#[test]
fn forced_rewrite_keeps_the_port_and_falls_back_to_the_offer() {
    let at = |port: u16| ForceRewrite::Rewrite {
        addr: SocketAddr { ip: NGN_IP, port },
    };
    let force = |offer: &[u8], port| force_rewrite_sdp_for_ngn(offer, port, NGN_IP);
    assert_eq!(force(b"", None), ForceRewrite::NoBody);
    assert_eq!(force(b"", Some(Some(55120))), ForceRewrite::NoBody);
    assert_eq!(force(b"v=0", None), ForceRewrite::AsIs);
    assert_eq!(force(b"v=0", Some(Some(55120))), at(55120));
    assert_eq!(force(b"v=0", Some(None)), at(0));
    assert_eq!(force_rewritten(b"", None), None);
    assert_eq!(force_rewritten(b"v=0", None), Some(b"v=0".to_vec()));
    assert_eq!(
        force_rewritten(b"v=0", Some(b"v=1".to_vec())),
        Some(b"v=1".to_vec())
    );
}

const NGN_IP: IpAddr = IpAddr::V4(0x76b1_48f2);

fn restrict(offer: &mut CarrierOffer, action: OfferAction, expected: &[u8]) -> Option<Vec<u8>> {
    match action {
        OfferAction::Restrict { sdp } => assert_eq!(sdp, expected),
        other => panic!("expected to restrict, got {:?}", other),
    }
    match offer.step(OfferEvent::Restricted { sdp: b"x".to_vec() }) {
        OfferAction::Send { offer } => offer,
        other => panic!("expected to send, got {:?}", other),
    }
}

#[test]
fn offers_are_rewritten_and_then_restricted() {
    let mut offer = CarrierOffer::new(None, b"v=0", NGN_IP);
    assert!(matches!(
        offer.step(OfferEvent::Begin),
        OfferAction::ReadPort { sdp } if sdp == b"v=0"
    ));
    let action = offer.step(OfferEvent::PortRead {
        port: Some(Some(55120)),
    });
    match action {
        OfferAction::Rewrite { sdp, addr } => {
            assert_eq!(sdp, b"v=0");
            assert_eq!((addr.ip, addr.port), (NGN_IP, 55120));
        }
        other => panic!("expected to rewrite, got {:?}", other),
    }
    assert!(matches!(
        offer.step(OfferEvent::Restricted { sdp: b"x".to_vec() }),
        OfferAction::Ignore
    ));
    let action = offer.step(OfferEvent::Rewritten {
        rewritten: Some(b"v=1".to_vec()),
    });
    assert_eq!(restrict(&mut offer, action, b"v=1"), Some(b"x".to_vec()));
    assert!(matches!(
        offer.step(OfferEvent::Restricted { sdp: b"y".to_vec() }),
        OfferAction::Ignore
    ));

    let mut offer = CarrierOffer::new(None, b"v=0", NGN_IP);
    offer.step(OfferEvent::Begin);
    let action = offer.step(OfferEvent::PortRead { port: Some(None) });
    assert!(matches!(action, OfferAction::Rewrite { addr, .. } if addr.port == 0));
    let action = offer.step(OfferEvent::Rewritten { rewritten: None });
    assert_eq!(restrict(&mut offer, action, b"v=0"), Some(b"x".to_vec()));
}

#[test]
fn offers_that_are_not_rewritten_are_restricted_too() {
    let mut offer = CarrierOffer::new(None, b"v=0", NGN_IP);
    offer.step(OfferEvent::Begin);
    let action = offer.step(OfferEvent::PortRead { port: None });
    assert_eq!(restrict(&mut offer, action, b"v=0"), Some(b"x".to_vec()));
    let mut offer = CarrierOffer::new(Some(b"p".to_vec()), b"v=0", NGN_IP);
    let action = offer.step(OfferEvent::Begin);
    assert_eq!(restrict(&mut offer, action, b"p"), Some(b"x".to_vec()));
    let mut offer = CarrierOffer::new(None, b"", NGN_IP);
    assert!(matches!(
        offer.step(OfferEvent::Begin),
        OfferAction::Send { offer: None }
    ));
}
