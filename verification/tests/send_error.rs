use sabiden::send_error::{classify_ext_reinvite_send_error, classify_messages};

#[test]
fn classifies_timer_bf_as_408_per_rfc3261_13_3_1_1() {
    let err = anyhow::Error::msg("transaction timeout");
    assert_eq!(
        classify_ext_reinvite_send_error(&err),
        (408, "Request Timeout"),
    );
}

#[test]
fn classifies_transport_error_as_500_per_rfc3261_13_3_1_2() {
    let io_err = std::io::Error::new(std::io::ErrorKind::ConnectionRefused, "ECONNREFUSED");
    let any_io: anyhow::Error = anyhow::Error::new(io_err);
    assert_eq!(
        classify_ext_reinvite_send_error(&any_io),
        (500, "Server Internal Error"),
    );

    let layer_down = anyhow::Error::msg("transaction layer が停止した");
    assert_eq!(
        classify_ext_reinvite_send_error(&layer_down),
        (500, "Server Internal Error"),
    );

    let oneshot_abort = anyhow::Error::msg("client transaction が中断された");
    assert_eq!(
        classify_ext_reinvite_send_error(&oneshot_abort),
        (500, "Server Internal Error"),
    );

    let no_via = anyhow::Error::msg("Via ヘッダがない");
    assert_eq!(
        classify_ext_reinvite_send_error(&no_via),
        (500, "Server Internal Error"),
    );
}

#[test]
fn classifies_wrapped_timeout_as_408() {
    let inner = anyhow::Error::msg("transaction timeout");
    let wrapped = inner.context("ext leg Re-INVITE failed");
    assert_eq!(
        classify_ext_reinvite_send_error(&wrapped),
        (408, "Request Timeout"),
    );
}

#[test]
fn timeout_is_found_at_any_depth_and_inside_a_message() {
    let err = anyhow::Error::msg("a transaction timeout, after 32 s")
        .context("one")
        .context("two");
    assert_eq!(
        classify_ext_reinvite_send_error(&err),
        (408, "Request Timeout")
    );
    assert_eq!(
        classify_messages(&vec!["x".to_string(), "transaction timeout".to_string()]),
        (408, "Request Timeout")
    );
    assert_eq!(
        classify_messages(&vec!["Transaction Timeout".to_string()]),
        (500, "Server Internal Error")
    );
    assert_eq!(classify_messages(&vec![]), (500, "Server Internal Error"));
}
