use sabiden::response::{
    build_2xx_to_ext, build_2xx_to_ext_with, build_503_with_retry_after, ensure_to_tag,
    ensure_to_tag_with, final_response, has_to_tag, new_tag, response_with_allow,
};
use sabiden::sip::{build_response_skeleton, SipHeaders, SipMethod, SipRequest, SipResponse};

fn empty_ok() -> SipResponse {
    SipResponse {
        status_code: 200,
        reason: "OK".into(),
        headers: SipHeaders::new(),
        body: vec![],
    }
}

fn invite() -> SipRequest {
    let mut invite = SipRequest::new(SipMethod::Invite, "sip:0312345678@sabiden");
    invite
        .headers
        .set("Via", "SIP/2.0/UDP 127.0.0.1:5060;branch=z9hG4bK-2xx-contact");
    invite.headers.set("From", "<sip:iphone@sabiden>;tag=t");
    invite.headers.set("To", "<sip:0312345678@sabiden>");
    invite.headers.set("Call-ID", "cid");
    invite.headers.set("CSeq", "1 INVITE");
    invite.headers.set("Max-Forwards", "70");
    invite
}

#[test]
fn rfc3261_8_2_6_2_orchestrator_ensure_to_tag_is_case_insensitive() {
    let mut resp = empty_ok();
    resp.headers
        .set("To", "<sip:dest@sabiden>;TAG=existing-uas-tag");
    ensure_to_tag(&mut resp);
    let to = resp.headers.get("to").unwrap();
    assert_eq!(to, "<sip:dest@sabiden>;TAG=existing-uas-tag");

    let mut resp = empty_ok();
    resp.headers.set("To", "<sip:dest@sabiden>;tAg=mixed");
    ensure_to_tag(&mut resp);
    let to = resp.headers.get("to").unwrap();
    assert_eq!(to, "<sip:dest@sabiden>;tAg=mixed");

    let mut resp = empty_ok();
    resp.headers.set("To", "<sip:dest@sabiden>");
    ensure_to_tag(&mut resp);
    let to = resp.headers.get("to").unwrap();
    assert!(to.contains(";tag="), "To={}", to);
}

#[test]
fn rfc3261_13_3_1_4_build_2xx_to_ext_includes_contact_header() {
    let invite = invite();
    let body = b"v=0\r\no=- 1 1 IN IP4 127.0.0.1\r\ns=-\r\nc=IN IP4 127.0.0.1\r\nt=0 0\r\nm=audio 30000 RTP/AVP 0\r\n";

    let resp = build_2xx_to_ext(&invite, body, "sip:sabiden@192.168.20.239:5061");

    assert_eq!(
        resp.headers.get("contact"),
        Some("<sip:sabiden@192.168.20.239:5061>"),
    );
    assert_eq!(resp.headers.get("content-type"), Some("application/sdp"));
    assert_eq!(resp.body, body);
    assert!(resp
        .headers
        .get("to")
        .map(|v| v.contains("tag="))
        .unwrap_or(false));
    assert_eq!(resp.status_code, 200);
}

#[test]
fn tag_is_added_once_and_only_to_the_to_field() {
    let mut resp = empty_ok();
    resp.headers.set("To", "\"a>b;tag=no\" <sip:a@b;tag=no>");
    resp.headers.set("From", "<sip:c@d>");
    ensure_to_tag_with(&mut resp, "1");
    assert_eq!(
        resp.headers.get("TO"),
        Some("\"a>b;tag=no\" <sip:a@b;tag=no>;tag=1")
    );
    ensure_to_tag_with(&mut resp, "2");
    assert_eq!(
        resp.headers.get("To"),
        Some("\"a>b;tag=no\" <sip:a@b;tag=no>;tag=1")
    );
    assert_eq!(resp.headers.get("From"), Some("<sip:c@d>"));

    let mut bare = empty_ok();
    ensure_to_tag_with(&mut bare, "1");
    assert_eq!(bare.headers.get("To"), None);
}

#[test]
fn tags_are_found_in_parameters_alone() {
    assert!(has_to_tag("<sip:a@b>;x;tag=1"));
    assert!(has_to_tag("sip:a@b; Tag =1"));
    assert!(!has_to_tag("<sip:a@b>;stag=1"));
    assert!(!has_to_tag("<sip:a@b>;tag"));
    assert!(!has_to_tag("tag=1"));
    assert!(!has_to_tag(""));
}

#[test]
fn new_tags_are_numbers_that_differ() {
    let tags: Vec<String> = (0..8).map(|_| new_tag()).collect();
    for t in &tags {
        assert!(!t.is_empty() && t.chars().all(|c| c.is_ascii_digit()));
    }
    assert!(tags.iter().any(|t| *t != tags[0]));
}

#[test]
fn skeleton_takes_over_what_a_response_needs() {
    let mut req = invite();
    req.headers.add_field("via", "SIP/2.0/UDP two");
    let resp = build_response_skeleton(&req, 180, "Ringing");
    assert_eq!((resp.status_code, resp.reason.as_str()), (180, "Ringing"));
    assert_eq!(
        resp.headers.get("Via"),
        Some("SIP/2.0/UDP 127.0.0.1:5060;branch=z9hG4bK-2xx-contact")
    );
    assert_eq!(resp.headers.get("Call-ID"), Some("cid"));
    assert_eq!(resp.headers.get("CSeq"), Some("1 INVITE"));
    assert_eq!(resp.headers.get("Max-Forwards"), None);
    assert!(resp.body.is_empty());
}

#[test]
fn refusals_carry_what_they_promise() {
    let resp = build_503_with_retry_after(&invite(), 17);
    assert_eq!(resp.status_code, 503);
    assert_eq!(resp.reason, "Service Unavailable");
    assert_eq!(resp.headers.get("retry-after"), Some("17"));
    assert!(has_to_tag(resp.headers.get("to").unwrap()));

    let resp = final_response(&invite(), 480, "Temporarily Unavailable", "9");
    assert_eq!(resp.headers.get("To"), Some("<sip:0312345678@sabiden>;tag=9"));

    let resp = response_with_allow(&invite(), 405, "Method Not Allowed");
    assert_eq!(
        resp.headers.get("allow"),
        Some("INVITE, ACK, BYE, CANCEL, OPTIONS")
    );

    let resp = build_2xx_to_ext_with(&invite(), b"", "sip:x", "1");
    assert_eq!(resp.headers.get("content-type"), None);
    assert_eq!(resp.headers.get("contact"), Some("<sip:x>"));
}

#[test]
fn headers_have_no_case_and_one_value() {
    let mut h = SipHeaders::new();
    h.add_field("a", "1");
    h.add_field("B", "2");
    h.add_field("A", "3");
    assert_eq!(h.get("A"), Some("1"));
    h.set("A", "4");
    assert_eq!(h.get("a"), Some("4"));
    assert_eq!(h.get("b"), Some("2"));
    h.set("c", "5");
    assert_eq!(h.get("C"), Some("5"));
    assert_eq!(h.get("d"), None);
}
