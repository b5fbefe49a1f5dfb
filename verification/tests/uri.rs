use sabiden::uri::{
    extract_uri_from_addr, extract_user_from_sip_uri, is_valid_pwa_dial_target, ngn_aor_from_uac,
    normalize_request_uri_for_ngn, parse_sip_uri, redirect_uri, UriError,
};

#[test]
fn extract_user_from_sip_uri_parses_canonical_form() {
    assert_eq!(
        extract_user_from_sip_uri("sip:0312345678@ntt-east.ne.jp"),
        Some("0312345678".to_string())
    );
}

#[test]
fn extract_user_from_sip_uri_handles_sips_scheme() {
    assert_eq!(
        extract_user_from_sip_uri("sips:alice@example.com"),
        Some("alice".to_string())
    );
}

#[test]
fn extract_user_from_sip_uri_returns_none_for_userless_uri() {
    assert_eq!(extract_user_from_sip_uri("sip:example.com"), None);
    assert_eq!(extract_user_from_sip_uri("sip:example.com:5060"), None);
}

#[test]
fn extract_user_from_sip_uri_returns_none_for_empty_input() {
    assert_eq!(extract_user_from_sip_uri(""), None);
}

#[test]
fn extract_user_from_sip_uri_rejects_empty_user_part() {
    assert_eq!(extract_user_from_sip_uri("sip:@example.com"), None);
}

#[test]
fn extract_user_from_sip_uri_keeps_userpart_verbatim() {
    assert_eq!(
        extract_user_from_sip_uri("sip:0312345678@ntt-east.ne.jp:5060"),
        Some("0312345678".to_string())
    );
    assert_eq!(
        extract_user_from_sip_uri("sip:user:pw@example.com"),
        Some("user:pw".to_string())
    );
}

#[test]
fn normalize_request_uri_rewrites_to_pcsf_ip() {
    let lan = "sip:117@192.168.20.239";
    let out = normalize_request_uri_for_ngn(lan, "118.177.125.1", 5060);
    assert_eq!(out, "sip:117@118.177.125.1:5060");

    let domain = "sip:117@ntt-east.ne.jp";
    let out = normalize_request_uri_for_ngn(domain, "118.177.125.1", 5060);
    assert_eq!(out, "sip:117@118.177.125.1:5060");

    let lan_port = "sip:117@192.168.20.239:5060";
    let out = normalize_request_uri_for_ngn(lan_port, "118.177.125.1", 5060);
    assert_eq!(out, "sip:117@118.177.125.1:5060");

    let already = "sip:117@118.177.125.1:5060";
    let out = normalize_request_uri_for_ngn(already, "118.177.125.1", 5060);
    assert_eq!(out, "sip:117@118.177.125.1:5060");
}

#[test]
fn rfc3261_19_1_1_normalize_strips_uri_params_and_headers() {
    let with_transport = "sip:117@127.0.0.1;transport=udp";
    let out = normalize_request_uri_for_ngn(with_transport, "118.177.125.1", 5060);
    assert_eq!(out, "sip:117@118.177.125.1:5060");

    let with_multi = "sip:117@127.0.0.1;lr;maddr=192.0.2.1";
    let out = normalize_request_uri_for_ngn(with_multi, "118.177.125.1", 5060);
    assert_eq!(out, "sip:117@118.177.125.1:5060");

    let with_headers = "sip:117@127.0.0.1?header=value";
    let out = normalize_request_uri_for_ngn(with_headers, "118.177.125.1", 5060);
    assert_eq!(out, "sip:117@118.177.125.1:5060");

    let pcsf_with_params = "sip:117@118.177.125.1:5060;transport=udp";
    let out = normalize_request_uri_for_ngn(pcsf_with_params, "118.177.125.1", 5060);
    assert_eq!(out, "sip:117@118.177.125.1:5060");

    let canonical = "sip:117@118.177.125.1:5060";
    let out = normalize_request_uri_for_ngn(canonical, "118.177.125.1", 5060);
    assert_eq!(out, "sip:117@118.177.125.1:5060");
}

#[test]
fn ngn_aor_from_uac_falls_back_to_full_uri_when_no_user_part() {
    assert_eq!(ngn_aor_from_uac("sip:0312345678@ntt-east.ne.jp"), "0312345678");
    assert_eq!(ngn_aor_from_uac("sip:ntt-east.ne.jp"), "sip:ntt-east.ne.jp");
}

#[test]
fn parse_sip_uri_takes_a_uri_apart() {
    let u = parse_sip_uri("sip:alice:pw@[2001:db8::1]:5061;transport=udp;lr?a=b&c=d").unwrap();
    assert_eq!(u.scheme, "sip");
    assert_eq!(u.user, Some("alice".to_string()));
    assert_eq!(u.host, "[2001:db8::1]");
    assert_eq!(u.port, Some(5061));
    assert_eq!(u.params, vec!["transport=udp".to_string(), "lr".to_string()]);
    assert_eq!(u.headers, vec!["a=b".to_string(), "c=d".to_string()]);
    let u = parse_sip_uri("SIPS:example.com").unwrap();
    assert_eq!(u.scheme, "SIPS");
    assert_eq!(u.user, None);
    assert_eq!(u.host, "example.com");
    assert_eq!(u.port, None);
    assert!(u.params.is_empty() && u.headers.is_empty());
}

#[test]
fn parse_sip_uri_says_what_is_wrong() {
    assert_eq!(parse_sip_uri("").unwrap_err(), UriError::Scheme);
    assert_eq!(parse_sip_uri("tel:117").unwrap_err(), UriError::Scheme);
    assert_eq!(parse_sip_uri("sip:@h").unwrap_err(), UriError::EmptyUser);
    assert_eq!(parse_sip_uri("sip:u@").unwrap_err(), UriError::Host);
    assert_eq!(parse_sip_uri("sip:u@[::1").unwrap_err(), UriError::Host);
    assert_eq!(parse_sip_uri("sip:u@h:").unwrap_err(), UriError::Port);
    assert_eq!(parse_sip_uri("sip:u@h:x").unwrap_err(), UriError::Port);
    assert_eq!(parse_sip_uri("sip:u@h:65536").unwrap_err(), UriError::Port);
    assert_eq!(parse_sip_uri("sip:u@[::1]5060").unwrap_err(), UriError::Port);
}

#[test]
fn normalizing_twice_changes_nothing_more() {
    for uri in [
        "sip:117@192.168.20.239;transport=udp",
        "sips:a:b@host?x=y",
        "sip:host:5070",
        "tel:117",
        "nonsense",
        "SIP:117@118.177.125.1:5060",
    ] {
        let once = normalize_request_uri_for_ngn(uri, "118.177.125.1", 5060);
        let twice = normalize_request_uri_for_ngn(&once, "118.177.125.1", 5060);
        assert_eq!(once, twice);
    }
    assert_eq!(
        normalize_request_uri_for_ngn("sip:host:5070", "118.177.125.1", 5060),
        "sip:118.177.125.1:5060"
    );
    assert_eq!(
        normalize_request_uri_for_ngn("tel:117", "118.177.125.1", 5060),
        "tel:117"
    );
    assert_eq!(
        normalize_request_uri_for_ngn("sip:117@NGN.example:5060", "ngn.EXAMPLE", 5060),
        "sip:117@NGN.example:5060"
    );
}

#[test]
fn redirected_uri_without_a_scheme_gets_sip() {
    let mut u = parse_sip_uri("sip:117@h").unwrap();
    u.scheme = String::new();
    assert_eq!(redirect_uri("x", &u, "server", 5060), "sip:117@server:5060");
}

#[test]
fn extract_uri_from_addr_takes_both_forms() {
    assert_eq!(extract_uri_from_addr("<sip:a@b>;tag=x"), "sip:a@b");
    assert_eq!(extract_uri_from_addr("\"A\" <sip:a@b;lr> ;tag=x"), "sip:a@b;lr");
    assert_eq!(extract_uri_from_addr("  sip:a@b ;tag=x"), "sip:a@b");
    assert_eq!(extract_uri_from_addr("<sip:a@b"), "<sip:a@b");
    assert_eq!(extract_uri_from_addr(""), "");
}

#[test]
fn dial_targets_are_short_and_made_of_keys() {
    assert!(is_valid_pwa_dial_target("117"));
    assert!(is_valid_pwa_dial_target("+81*3#0"));
    assert!(is_valid_pwa_dial_target(&"1".repeat(32)));
    assert!(!is_valid_pwa_dial_target(&"1".repeat(33)));
    assert!(!is_valid_pwa_dial_target(""));
    assert!(!is_valid_pwa_dial_target("11a"));
    assert!(!is_valid_pwa_dial_target("１１７"));
}
