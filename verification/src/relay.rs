//! Passing the answers to a Re-INVITE on from one side of a call to the other
//! (RFC 3261 §14, RFC 4028).

use vstd::prelude::*;

use crate::response::{
    answer_to_ext, answers, build_2xx_to_ext_with, ensure_to_tag_with, final_response,
    final_response_view, is_added, is_tag, law_answer_to_an_extension_is_the_given_one,
    law_final_response_answers_its_request, law_only_a_missing_tag_is_added,
    law_to_tag_is_ensured_once, lemma_absent, lemma_field_keeps_names, lemma_field_names,
    lemma_named_is_answered, lemma_sdp_and_contact, lemma_skeleton_is_named, names, set_sdp,
    tagged, with_sdp,
};
use crate::send_error::{classify_ext_reinvite_send_error, messages_of, tells_of_timeout};
use crate::sip::{
    build_response_skeleton, header, law_header_set_is_header_read,
    law_response_takes_over_what_names_the_request, law_set_field_has_one_value, skeleton,
    values_of, Field, ResponseView, SipHeaders, SipRequest, SipResponse,
};
use crate::text::{
    eq_ignore_ascii_case, join, law_pieces_stand_between_separators, same_ignoring_case, split,
    split_at_char, trim, trim_of,
};

verus! {

/// How a request of an extension is answered.
#[derive(Debug)]
pub enum Reply {
    /// With this response.
    Full(SipResponse),
    /// With a response without a body of this status and reason phrase.
    Quick { status: u16, reason: String },
}

/// The contents of a [`Reply`].
pub enum ReplyView {
    Full(ResponseView),
    Quick { status: u16, reason: Seq<char> },
}

impl View for Reply {
    type V = ReplyView;

    open spec fn view(&self) -> ReplyView {
        match self {
            Reply::Full(response) => ReplyView::Full(response@),
            Reply::Quick { status, reason } => ReplyView::Quick { status: *status, reason: reason@ },
        }
    }
}

/// An answer without a body.
pub fn quick(status: u16, reason: &str) -> (r: Reply)
    ensures
        r@ == (ReplyView::Quick { status, reason: reason@ }),
{
    Reply::Quick { status, reason: reason.to_owned() }
}

/// Whether one of the option tags in a `Require` value is `timer`.
pub open spec fn requires_timer(value: Seq<char>) -> bool {
    exists|i: int|
        0 <= i < split(value, ',').len() && is_timer(#[trigger] split(value, ',')[i])
}

/// Whether an option tag is `timer`, in any spelling.
pub open spec fn is_timer(option: Seq<char>) -> bool {
    same_ignoring_case(trim(option), "timer"@)
}

fn wants_timer(value: &str) -> (r: bool)
    ensures
        r == requires_timer(value@),
{
    let options: Vec<String> = split_at_char(value, ',');
    let ghost all = split(value@, ',');
    let mut i: usize = 0;
    while i < options.len()
        invariant
            i <= options.len(),
            all == split(value@, ','),
            all == options@.map_values(|p: String| p@),
            forall|k: int| 0 <= k < i ==> !is_timer(#[trigger] all[k]),
        decreases options.len() - i,
    {
        assert(all[i as int] == options@[i as int]@);
        if eq_ignore_ascii_case(trim_of(options[i].as_str()), "timer") {
            assert(is_timer(split(value@, ',')[i as int]));
            return true;
        }
        i = i + 1;
    }
    false
}

/// `resp` with the field that `from` has under `read`, if any, under `name`.
pub open spec fn relayed(
    resp: ResponseView,
    from: Seq<Field>,
    read: Seq<char>,
    name: Seq<char>,
) -> ResponseView {
    match header(from, read) {
        Some(value) => resp.with(name, value),
        None => resp,
    }
}

fn relay_field(resp: &mut SipResponse, from: &SipHeaders, read: &str, name: &str)
    ensures
        final(resp)@ == relayed(old(resp)@, from@, read@, name@),
{
    if let Some(value) = from.get(read) {
        resp.headers.set(name, value);
    }
}

/// `resp` with `Require: timer` where `from` requires it.
pub open spec fn with_timer(resp: ResponseView, from: Seq<Field>) -> ResponseView {
    match header(from, "require"@) {
        Some(value) if requires_timer(value) => resp.with("Require"@, "timer"@),
        _ => resp,
    }
}

fn relay_timer(resp: &mut SipResponse, from: &SipHeaders)
    ensures
        final(resp)@ == with_timer(old(resp)@, from@),
{
    if let Some(value) = from.get("require") {
        if wants_timer(value) {
            resp.headers.set("Require", "timer");
        }
    }
}

/// Whether `status` is a success.
pub open spec fn is_success(status: u16) -> bool {
    200 <= status < 300
}

/// A success of the carrier, as the extension gets it.
pub open spec fn accepted_to_ext(
    request: SipRequest,
    resp: ResponseView,
    contact_uri: Seq<char>,
    tag: Seq<char>,
) -> ResponseView {
    with_timer(
        relayed(
            answer_to_ext(request, resp.body, contact_uri, tag),
            resp.headers,
            "session-expires"@,
            "Session-Expires"@,
        ),
        resp.headers,
    )
}

/// A refusal by the other side: its status and reason phrase, its `Min-SE` (RFC
/// 4028 §10) and its `Retry-After` (RFC 3261 §20.33).
pub open spec fn refused(request: SipRequest, resp: ResponseView, tag: Seq<char>) -> ResponseView {
    tagged(
        relayed(
            relayed(
                skeleton(request.headers@, resp.status, resp.reason),
                resp.headers,
                "min-se"@,
                "Min-SE"@,
            ),
            resp.headers,
            "retry-after"@,
            "Retry-After"@,
        ),
        tag,
    )
}

fn relay_refusal(request: &SipRequest, resp: &SipResponse, tag: &str) -> (r: SipResponse)
    ensures
        r@ == refused(*request, resp@, tag@),
{
    let mut relay: SipResponse = build_response_skeleton(
        request,
        resp.status_code,
        resp.reason.as_str(),
    );
    relay_field(&mut relay, &resp.headers, "min-se", "Min-SE");
    relay_field(&mut relay, &resp.headers, "retry-after", "Retry-After");
    ensure_to_tag_with(&mut relay, tag);
    relay
}

/// What the extension that sent the Re-INVITE `request` gets when the carrier
/// answered with `answer`; `None` means that the carrier could not be asked.
pub open spec fn reinvite_reply_to_ext(
    request: SipRequest,
    answer: Option<ResponseView>,
    contact_uri: Seq<char>,
    tag: Seq<char>,
) -> ReplyView {
    match answer {
        Some(resp) => ReplyView::Full(
            if is_success(resp.status) {
                accepted_to_ext(request, resp, contact_uri, tag)
            } else {
                refused(request, resp, tag)
            },
        ),
        None => ReplyView::Quick { status: 500, reason: "Server Internal Error"@ },
    }
}

/// What the extension that sent the Re-INVITE `request` gets when the carrier
/// answered with `answer`; `None` means that the carrier could not be asked. A
/// success keeps the session's timer, and a refusal keeps what the extension needs
/// to try again.
pub fn relay_reinvite_to_ext(
    request: &SipRequest,
    answer: Option<&SipResponse>,
    contact_uri: &str,
    tag: &str,
) -> (r: Reply)
    ensures
        r@ == reinvite_reply_to_ext(
            *request,
            match answer {
                Some(resp) => Some(resp@),
                None => None,
            },
            contact_uri@,
            tag@,
        ),
{
    match answer {
        Some(resp) => {
            if resp.status_code >= 200 && resp.status_code < 300 {
                let mut response: SipResponse = build_2xx_to_ext_with(
                    request,
                    resp.body.as_slice(),
                    contact_uri,
                    tag,
                );
                relay_field(&mut response, &resp.headers, "session-expires", "Session-Expires");
                relay_timer(&mut response, &resp.headers);
                Reply::Full(response)
            } else {
                Reply::Full(relay_refusal(request, resp, tag))
            }
        },
        None => quick(500, "Server Internal Error"),
    }
}

/// A success of the extension, as the carrier gets it.
pub open spec fn accepted_to_ngn(
    request: SipRequest,
    resp: ResponseView,
    contact_uri: Seq<char>,
    tag: Seq<char>,
) -> ResponseView {
    tagged(
        with_timer(
            relayed(
                with_sdp(skeleton(request.headers@, 200, "OK"@), resp.body).with(
                    "Contact"@,
                    "<"@ + contact_uri + ">"@,
                ),
                resp.headers,
                "session-expires"@,
                "Session-Expires"@,
            ),
            resp.headers,
        ),
        tag,
    )
}

/// What the carrier gets for its Re-INVITE `request` when the extension answered
/// with `resp`.
pub open spec fn reinvite_reply_to_ngn(
    request: SipRequest,
    resp: ResponseView,
    contact_uri: Seq<char>,
    tag: Seq<char>,
) -> ResponseView {
    if is_success(resp.status) {
        accepted_to_ngn(request, resp, contact_uri, tag)
    } else {
        refused(request, resp, tag)
    }
}

/// What the carrier gets for its Re-INVITE `request` when the extension answered
/// with `resp`. `contact_uri` is where the carrier reaches this end of the call.
pub fn relay_reinvite_to_ngn(
    request: &SipRequest,
    resp: &SipResponse,
    contact_uri: &str,
    tag: &str,
) -> (r: SipResponse)
    ensures
        r@ == reinvite_reply_to_ngn(*request, resp@, contact_uri@, tag@),
{
    if !(resp.status_code >= 200 && resp.status_code < 300) {
        return relay_refusal(request, resp, tag);
    }
    let mut response: SipResponse = build_response_skeleton(request, 200, "OK");
    set_sdp(&mut response, resp.body.as_slice());
    let contact: String = join(join("<", contact_uri).as_str(), ">");
    response.headers.set("Contact", contact.as_str());
    relay_field(&mut response, &resp.headers, "session-expires", "Session-Expires");
    relay_timer(&mut response, &resp.headers);
    ensure_to_tag_with(&mut response, tag);
    response
}

/// What the carrier gets for its Re-INVITE `request` when the extension could not
/// be asked, with an error with `messages`.
pub open spec fn send_failure_to_ngn(
    request: SipRequest,
    messages: Seq<Seq<char>>,
    tag: Seq<char>,
) -> ResponseView {
    if tells_of_timeout(messages) {
        final_response_view(request, 408, "Request Timeout"@, tag)
    } else {
        final_response_view(request, 500, "Server Internal Error"@, tag)
    }
}

/// What the carrier gets for its Re-INVITE `request` when the extension could not
/// be asked: 408 where it did not answer in time, 500 otherwise.
pub fn report_send_failure_to_ngn(request: &SipRequest, err: &anyhow::Error, tag: &str) -> (r:
    SipResponse)
    ensures
        r@ == send_failure_to_ngn(*request, messages_of(*err), tag@),
{
    let (status, reason): (u16, &'static str) = classify_ext_reinvite_send_error(err);
    final_response(request, status, reason, tag)
}

proof fn lemma_names_differ()
    ensures
        same_ignoring_case("Min-SE"@, "min-se"@),
        same_ignoring_case("Retry-After"@, "retry-after"@),
        !same_ignoring_case("Retry-After"@, "min-se"@),
        !same_ignoring_case("Min-SE"@, "retry-after"@),
        !same_ignoring_case("To"@, "min-se"@),
        !same_ignoring_case("To"@, "retry-after"@),
{
    reveal_strlit("Min-SE");
    reveal_strlit("min-se");
    reveal_strlit("Retry-After");
    reveal_strlit("retry-after");
    reveal_strlit("To");
    assert(crate::text::folded("Min-SE"@) =~= crate::text::folded("min-se"@));
    assert(crate::text::folded("Retry-After"@) =~= crate::text::folded("retry-after"@));
    assert(crate::text::folded("To"@).len() == 2);
    assert(crate::text::folded("min-se"@).len() == 6);
    assert(crate::text::folded("Retry-After"@).len() == 11);
}

/// A refusal that is passed on, in either direction, keeps the status, the reason
/// phrase, and the `Min-SE` and `Retry-After` fields that it came with.
pub proof fn law_relayed_refusal_keeps_its_limits(
    request: SipRequest,
    resp: ResponseView,
    tag: Seq<char>,
)
    requires
        is_tag(tag),
    ensures
        refused(request, resp, tag).status == resp.status,
        refused(request, resp, tag).reason == resp.reason,
        header(resp.headers, "min-se"@) is Some ==> header(
            refused(request, resp, tag).headers,
            "min-se"@,
        ) == header(resp.headers, "min-se"@),
        header(resp.headers, "retry-after"@) is Some ==> header(
            refused(request, resp, tag).headers,
            "retry-after"@,
        ) == header(resp.headers, "retry-after"@),
{
    lemma_names_differ();
    let plain = skeleton(request.headers@, resp.status, resp.reason);
    let one = relayed(plain, resp.headers, "min-se"@, "Min-SE"@);
    let two = relayed(one, resp.headers, "retry-after"@, "Retry-After"@);
    if let Some(value) = header(resp.headers, "min-se"@) {
        law_header_set_is_header_read(plain.headers, "Min-SE"@, value, "min-se"@);
    }
    if let Some(value) = header(resp.headers, "retry-after"@) {
        law_header_set_is_header_read(one.headers, "Retry-After"@, value, "min-se"@);
        law_header_set_is_header_read(one.headers, "Retry-After"@, value, "retry-after"@);
    }
    law_to_tag_is_ensured_once(two, tag, tag, "min-se"@);
    law_to_tag_is_ensured_once(two, tag, tag, "retry-after"@);
}

/// What both ways of passing a success on have in common: `made` has the session timer
/// of `resp`, and all else of `plain`.
proof fn lemma_timer_is_passed_on(request: SipRequest, plain: ResponseView, resp: ResponseView)
    requires
        header(plain.headers, "session-expires"@) is None,
        header(plain.headers, "require"@) is None,
    ensures
        ({
            let made = with_timer(
                relayed(plain, resp.headers, "session-expires"@, "Session-Expires"@),
                resp.headers,
            );
            &&& made.status == plain.status
            &&& made.reason == plain.reason
            &&& made.body == plain.body
            &&& header(made.headers, "contact"@) == header(plain.headers, "contact"@)
            &&& header(made.headers, "content-type"@) == header(plain.headers, "content-type"@)
            &&& header(made.headers, "session-expires"@) == header(
                resp.headers,
                "session-expires"@,
            )
            &&& header(made.headers, "require"@) == (match header(resp.headers, "require"@) {
                Some(value) if requires_timer(value) => Some("timer"@),
                _ => None,
            })
            &&& names(request.headers@, plain) ==> names(request.headers@, made)
            &&& forall|tag: Seq<char>|
                answers(request, plain, tag) ==> #[trigger] answers(request, made, tag)
        }),
{
    lemma_field_names();
    let one = relayed(plain, resp.headers, "session-expires"@, "Session-Expires"@);
    let made = with_timer(one, resp.headers);
    if let Some(value) = header(resp.headers, "session-expires"@) {
        lemma_set_keeps(plain, "Session-Expires"@, value);
    }
    if let Some(value) = header(resp.headers, "require"@) {
        if requires_timer(value) {
            lemma_set_keeps(one, "Require"@, "timer"@);
        }
    }
}

proof fn lemma_set_keeps(resp: ResponseView, name: Seq<char>, value: Seq<char>)
    requires
        name == "Session-Expires"@ || name == "Require"@,
    ensures
        ({
            let made = resp.with(name, value).headers;
            &&& values_of(made, "via"@) == values_of(resp.headers, "via"@)
            &&& header(made, "via"@) == header(resp.headers, "via"@)
            &&& header(made, "from"@) == header(resp.headers, "from"@)
            &&& header(made, "to"@) == header(resp.headers, "to"@)
            &&& header(made, "call-id"@) == header(resp.headers, "call-id"@)
            &&& header(made, "cseq"@) == header(resp.headers, "cseq"@)
            &&& header(made, "contact"@) == header(resp.headers, "contact"@)
            &&& header(made, "content-type"@) == header(resp.headers, "content-type"@)
            &&& header(made, "session-expires"@) == (if name == "Session-Expires"@ {
                Some(value)
            } else {
                header(resp.headers, "session-expires"@)
            })
            &&& header(made, "require"@) == (if name == "Require"@ {
                Some(value)
            } else {
                header(resp.headers, "require"@)
            })
        }),
{
    lemma_field_names();
    law_set_field_has_one_value(resp.headers, name, value, "via"@);
    law_header_set_is_header_read(resp.headers, name, value, "via"@);
    law_header_set_is_header_read(resp.headers, name, value, "from"@);
    law_header_set_is_header_read(resp.headers, name, value, "to"@);
    law_header_set_is_header_read(resp.headers, name, value, "call-id"@);
    law_header_set_is_header_read(resp.headers, name, value, "cseq"@);
    law_header_set_is_header_read(resp.headers, name, value, "contact"@);
    law_header_set_is_header_read(resp.headers, name, value, "content-type"@);
    law_header_set_is_header_read(resp.headers, name, value, "session-expires"@);
    law_header_set_is_header_read(resp.headers, name, value, "require"@);
}

/// Where the extension accepts a Re-INVITE, the carrier gets the extension's session
/// description, whatever the Re-INVITE itself brought: the response is a 200 that names
/// the Re-INVITE, with the given `Contact` and the session timer that the extension
/// agreed to.
pub proof fn law_carrier_gets_the_answer_of_the_extension(
    request: SipRequest,
    resp: ResponseView,
    contact_uri: Seq<char>,
    tag: Seq<char>,
)
    requires
        200 <= resp.status < 300,
    ensures
        ({
            let out = reinvite_reply_to_ngn(request, resp, contact_uri, tag);
            &&& out.body == resp.body
            &&& out.status == 200
            &&& out.reason == "OK"@
            &&& answers(request, out, tag)
            &&& header(out.headers, "contact"@) == Some("<"@ + contact_uri + ">"@)
            &&& header(out.headers, "content-type"@) == (if resp.body.len() > 0 {
                Some("application/sdp"@)
            } else {
                None
            })
            &&& header(out.headers, "session-expires"@) == header(
                resp.headers,
                "session-expires"@,
            )
            &&& header(out.headers, "require"@) == (match header(resp.headers, "require"@) {
                Some(value) if requires_timer(value) => Some("timer"@),
                _ => None,
            })
        }),
{
    lemma_field_names();
    let contact = "<"@ + contact_uri + ">"@;
    let plain = with_sdp(skeleton(request.headers@, 200, "OK"@), resp.body).with(
        "Contact"@,
        contact,
    );
    lemma_sdp_and_contact(request, resp.body, contact);
    lemma_timer_is_passed_on(request, plain, resp);
    let made = with_timer(
        relayed(plain, resp.headers, "session-expires"@, "Session-Expires"@),
        resp.headers,
    );
    lemma_named_is_answered(request, made, tag);
    law_only_a_missing_tag_is_added(made, tag, "contact"@);
    law_only_a_missing_tag_is_added(made, tag, "content-type"@);
    law_only_a_missing_tag_is_added(made, tag, "session-expires"@);
    law_only_a_missing_tag_is_added(made, tag, "require"@);
}

/// Where the carrier accepts a Re-INVITE, the extension gets the carrier's session
/// description, whatever the Re-INVITE itself brought: the response is a 200 that names
/// the Re-INVITE, with the given `Contact` and the session timer that the carrier agreed
/// to.
pub proof fn law_extension_gets_the_answer_of_the_carrier(
    request: SipRequest,
    resp: ResponseView,
    contact_uri: Seq<char>,
    tag: Seq<char>,
)
    requires
        200 <= resp.status < 300,
    ensures
        match reinvite_reply_to_ext(request, Some(resp), contact_uri, tag) {
            ReplyView::Full(out) => {
                &&& out.body == resp.body
                &&& out.status == 200
                &&& out.reason == "OK"@
                &&& answers(request, out, tag)
                &&& header(out.headers, "contact"@) == Some("<"@ + contact_uri + ">"@)
                &&& header(out.headers, "content-type"@) == (if resp.body.len() > 0 {
                    Some("application/sdp"@)
                } else {
                    None
                })
                &&& header(out.headers, "session-expires"@) == header(
                    resp.headers,
                    "session-expires"@,
                )
                &&& header(out.headers, "require"@) == (match header(resp.headers, "require"@) {
                    Some(value) if requires_timer(value) => Some("timer"@),
                    _ => None,
                })
            },
            ReplyView::Quick { .. } => false,
        },
{
    lemma_field_names();
    let contact = "<"@ + contact_uri + ">"@;
    let bare = with_sdp(skeleton(request.headers@, 200, "OK"@), resp.body).with(
        "Contact"@,
        contact,
    );
    lemma_sdp_and_contact(request, resp.body, contact);
    let plain = answer_to_ext(request, resp.body, contact_uri, tag);
    law_answer_to_an_extension_is_the_given_one(request, resp.body, contact_uri, tag);
    law_only_a_missing_tag_is_added(bare, tag, "session-expires"@);
    law_only_a_missing_tag_is_added(bare, tag, "require"@);
    lemma_timer_is_passed_on(request, plain, resp);
}

/// What a side gets for its Re-INVITE where the other side refused: a response that
/// names the Re-INVITE, with the status, the reason phrase, the `Min-SE` and the
/// `Retry-After` of the refusal, and none of those where the refusal has none. Both
/// sides get the same.
pub proof fn law_refused_reinvite_is_refused_alike(
    request: SipRequest,
    resp: ResponseView,
    contact_uri: Seq<char>,
    tag: Seq<char>,
)
    requires
        !(200 <= resp.status < 300),
    ensures
        ({
            let out = reinvite_reply_to_ngn(request, resp, contact_uri, tag);
            &&& reinvite_reply_to_ext(request, Some(resp), contact_uri, tag) == ReplyView::Full(
                out,
            )
            &&& out.status == resp.status
            &&& out.reason == resp.reason
            &&& out.body.len() == 0
            &&& answers(request, out, tag)
            &&& header(out.headers, "min-se"@) == header(resp.headers, "min-se"@)
            &&& header(out.headers, "retry-after"@) == header(resp.headers, "retry-after"@)
        }),
{
    lemma_field_names();
    let plain = skeleton(request.headers@, resp.status, resp.reason);
    let one = relayed(plain, resp.headers, "min-se"@, "Min-SE"@);
    let two = relayed(one, resp.headers, "retry-after"@, "Retry-After"@);
    lemma_skeleton_is_named(request, resp.status, resp.reason);
    law_response_takes_over_what_names_the_request(
        request.headers@,
        resp.status,
        resp.reason,
        "min-se"@,
    );
    law_response_takes_over_what_names_the_request(
        request.headers@,
        resp.status,
        resp.reason,
        "retry-after"@,
    );
    if let Some(value) = header(resp.headers, "min-se"@) {
        lemma_field_keeps_names(request, plain, "Min-SE"@, value);
        law_header_set_is_header_read(plain.headers, "Min-SE"@, value, "min-se"@);
        law_header_set_is_header_read(plain.headers, "Min-SE"@, value, "retry-after"@);
    }
    if let Some(value) = header(resp.headers, "retry-after"@) {
        lemma_field_keeps_names(request, one, "Retry-After"@, value);
        law_header_set_is_header_read(one.headers, "Retry-After"@, value, "min-se"@);
        law_header_set_is_header_read(one.headers, "Retry-After"@, value, "retry-after"@);
    }
    lemma_named_is_answered(request, two, tag);
    law_only_a_missing_tag_is_added(two, tag, "min-se"@);
    law_only_a_missing_tag_is_added(two, tag, "retry-after"@);
}

/// Where the other side could not be asked, the extension gets a 500, and the carrier a
/// 408 or a 500, with a response that names its Re-INVITE.
pub proof fn law_unasked_side_is_reported(
    request: SipRequest,
    messages: Seq<Seq<char>>,
    contact_uri: Seq<char>,
    tag: Seq<char>,
)
    ensures
        reinvite_reply_to_ext(request, None, contact_uri, tag) == (ReplyView::Quick {
            status: 500,
            reason: "Server Internal Error"@,
        }),
        ({
            let out = send_failure_to_ngn(request, messages, tag);
            &&& answers(request, out, tag)
            &&& out.body.len() == 0
            &&& tells_of_timeout(messages) ==> out.status == 408 && out.reason
                == "Request Timeout"@
            &&& !tells_of_timeout(messages) ==> out.status == 500 && out.reason
                == "Server Internal Error"@
        }),
{
    law_final_response_answers_its_request(request, 408, "Request Timeout"@, tag);
    law_final_response_answers_its_request(request, 500, "Server Internal Error"@, tag);
}

/// A list of option tags requires the session timer exactly where one of its parts does,
/// and a single option tag where it is `timer`, in any case and with white space around
/// it.
pub proof fn law_timer_is_required_by_one_of_the_options(a: Seq<char>, b: Seq<char>)
    ensures
        requires_timer(a + seq![','] + b) <==> requires_timer(a) || requires_timer(b),
        !a.contains(',') ==> (requires_timer(a) <==> same_ignoring_case(trim(a), "timer"@)),
{
    law_pieces_stand_between_separators(a, ',', b);
    let one = split(a, ',');
    let two = split(b, ',');
    let all = split(a + seq![','] + b, ',');
    if requires_timer(a) {
        let i = choose|i: int| 0 <= i < one.len() && is_timer(#[trigger] one[i]);
        assert(is_timer(all[i]));
    }
    if requires_timer(b) {
        let i = choose|i: int| 0 <= i < two.len() && is_timer(#[trigger] two[i]);
        assert(is_timer(all[one.len() + i]));
    }
    if requires_timer(a + seq![','] + b) {
        let i = choose|i: int| 0 <= i < all.len() && is_timer(#[trigger] all[i]);
        if i < one.len() {
            assert(is_timer(one[i]));
        } else {
            assert(is_timer(two[i - one.len()]));
        }
    }
    if !a.contains(',') {
        assert(one[0] == a);
        if is_timer(a) {
            assert(is_timer(one[0]));
        }
    }
}

/// What a side gets for its Re-INVITE has no other fields than those that it takes over
/// and those that are passed on: of a success the `Contact`, the type of the body and the
/// session timer, of a refusal its limits.
pub proof fn law_relayed_response_has_no_other_fields(
    request: SipRequest,
    resp: ResponseView,
    contact_uri: Seq<char>,
    tag: Seq<char>,
    name: Seq<char>,
)
    requires
        is_added(name),
        200 <= resp.status < 300 ==> !same_ignoring_case("Contact"@, name) && !same_ignoring_case(
            "Content-Type"@,
            name,
        ) && !same_ignoring_case("Session-Expires"@, name) && !same_ignoring_case(
            "Require"@,
            name,
        ),
        !(200 <= resp.status < 300) ==> !same_ignoring_case("Min-SE"@, name)
            && !same_ignoring_case("Retry-After"@, name),
    ensures
        header(reinvite_reply_to_ngn(request, resp, contact_uri, tag).headers, name) is None,
        match reinvite_reply_to_ext(request, Some(resp), contact_uri, tag) {
            ReplyView::Full(out) => header(out.headers, name) is None,
            ReplyView::Quick { .. } => false,
        },
{
    let fields = request.headers@;
    if 200 <= resp.status < 300 {
        let contact = "<"@ + contact_uri + ">"@;
        let plain = with_sdp(skeleton(fields, 200, "OK"@), resp.body).with("Contact"@, contact);
        lemma_absent(fields, resp.body, contact, name);
        lemma_timer_adds_no_other(plain, resp.headers, name);
        let made = with_timer(
            relayed(plain, resp.headers, "session-expires"@, "Session-Expires"@),
            resp.headers,
        );
        law_only_a_missing_tag_is_added(made, tag, name);
        law_only_a_missing_tag_is_added(plain, tag, name);
        lemma_timer_adds_no_other(tagged(plain, tag), resp.headers, name);
    } else {
        let plain = skeleton(fields, resp.status, resp.reason);
        let one = relayed(plain, resp.headers, "min-se"@, "Min-SE"@);
        let two = relayed(one, resp.headers, "retry-after"@, "Retry-After"@);
        law_response_takes_over_what_names_the_request(fields, resp.status, resp.reason, name);
        if let Some(value) = header(resp.headers, "min-se"@) {
            law_header_set_is_header_read(plain.headers, "Min-SE"@, value, name);
        }
        if let Some(value) = header(resp.headers, "retry-after"@) {
            law_header_set_is_header_read(one.headers, "Retry-After"@, value, name);
        }
        law_only_a_missing_tag_is_added(two, tag, name);
    }
}

proof fn lemma_timer_adds_no_other(plain: ResponseView, from: Seq<Field>, name: Seq<char>)
    requires
        !same_ignoring_case("Session-Expires"@, name),
        !same_ignoring_case("Require"@, name),
    ensures
        header(
            with_timer(
                relayed(plain, from, "session-expires"@, "Session-Expires"@),
                from,
            ).headers,
            name,
        ) == header(plain.headers, name),
{
    let one = relayed(plain, from, "session-expires"@, "Session-Expires"@);
    if let Some(value) = header(from, "session-expires"@) {
        law_header_set_is_header_read(plain.headers, "Session-Expires"@, value, name);
    }
    law_header_set_is_header_read(one.headers, "Require"@, "timer"@, name);
}

} // verus!
